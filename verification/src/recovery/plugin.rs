//! Plugin extension points for recovery strategies, validators and playbooks.
use vstd::prelude::*;
use crate::text::str_eq;
use crate::recovery::types::OrchestratorStrategy;

verus! {

/// Hook kind of a plugin that contributes a recovery strategy.
pub const PLUGIN_KIND_STRATEGY: &'static str = "strategy";
/// Hook kind of a plugin that contributes a recovery policy.
pub const PLUGIN_KIND_POLICY: &'static str = "policy";
/// Hook kind of a plugin that contributes a recovery validator.
pub const PLUGIN_KIND_VALIDATOR: &'static str = "validator";
/// Hook kind of a plugin that contributes a report.
pub const PLUGIN_KIND_REPORT: &'static str = "report";
/// Hook kind of a plugin that contributes a dashboard.
pub const PLUGIN_KIND_DASHBOARD: &'static str = "dashboard";
/// Hook kind of a plugin that contributes a playbook.
pub const PLUGIN_KIND_PLAYBOOK: &'static str = "playbook";
/// Hook kind of a plugin that contributes a simulator.
pub const PLUGIN_KIND_SIMULATOR: &'static str = "simulator";
/// Hook kind of a plugin that contributes an integration.
pub const PLUGIN_KIND_INTEGRATION: &'static str = "integration";

/// Plugin-contributed recovery extension.
#[derive(Debug, Clone, PartialEq, Eq)]
pub struct PluginRecoveryExtension {
    pub plugin_id: String,
    pub extension_kind: String,
    pub name: String,
    pub description: String,
}

impl PluginRecoveryExtension {
    /// A copy of the extension.
    pub fn duplicate(&self) -> (r: PluginRecoveryExtension)
        ensures
            r == *self,
    {
        PluginRecoveryExtension {
            plugin_id: self.plugin_id.clone(),
            extension_kind: self.extension_kind.clone(),
            name: self.name.clone(),
            description: self.description.clone(),
        }
    }
}

/// The extensions of one kind, in the order they were registered.
pub open spec fn of_kind(s: Seq<PluginRecoveryExtension>, kind: Seq<char>) -> Seq<
    PluginRecoveryExtension,
>
    decreases s.len(),
{
    if s.len() == 0 {
        Seq::empty()
    } else {
        let rest = of_kind(s.drop_last(), kind);
        if s.last().extension_kind@ == kind {
            rest.push(s.last())
        } else {
            rest
        }
    }
}

/// A strategy extension of this name has been registered.
pub open spec fn has_strategy(s: Seq<PluginRecoveryExtension>, name: Seq<char>) -> bool {
    exists|i: int|
        0 <= i < s.len() && (#[trigger] s[i]).extension_kind@ == "strategy"@ && s[i].name@ == name
}

/// Registry of plugin-contributed recovery extensions, kept in the order
/// they were registered.
#[derive(Debug, Clone)]
pub struct RecoveryPluginRegistry {
    extensions: Vec<PluginRecoveryExtension>,
}

impl View for RecoveryPluginRegistry {
    type V = Seq<PluginRecoveryExtension>;

    closed spec fn view(&self) -> Seq<PluginRecoveryExtension> {
        self.extensions@
    }
}

impl RecoveryPluginRegistry {
    /// An empty registry.
    pub fn new() -> (r: RecoveryPluginRegistry)
        ensures
            r@ == Seq::<PluginRecoveryExtension>::empty(),
    {
        RecoveryPluginRegistry { extensions: Vec::new() }
    }

    /// Register a plugin recovery extension.
    pub fn register(&mut self, extension: PluginRecoveryExtension)
        ensures
            final(self)@ == old(self)@.push(extension),
    {
        self.extensions.push(extension);
    }

    /// The extensions of a given kind (strategy, validator, playbook, ...),
    /// in the order they were registered.
    pub fn list(&self, kind: &str) -> (r: Vec<PluginRecoveryExtension>)
        ensures
            r@ == of_kind(self@, kind@),
    {
        let mut out: Vec<PluginRecoveryExtension> = Vec::new();
        let mut i: usize = 0;
        while i < self.extensions.len()
            invariant
                i <= self.extensions.len(),
                out@ == of_kind(self.extensions@.subrange(0, i as int), kind@),
            decreases self.extensions.len() - i,
        {
            let e = &self.extensions[i];
            assert(self.extensions@.subrange(0, i + 1).drop_last() =~= self.extensions@.subrange(
                0,
                i as int,
            ));
            if str_eq(e.extension_kind.as_str(), kind) {
                out.push(e.duplicate());
            }
            i = i + 1;
        }
        assert(self.extensions@.subrange(0, self.extensions.len() as int) =~= self.extensions@);
        out
    }

    /// Resolve a plugin strategy by name: `Custom(name)` when a strategy
    /// extension of that name has been registered.
    pub fn resolve_strategy(&self, name: &str) -> (r: Option<OrchestratorStrategy>)
        ensures
            match r {
                Some(OrchestratorStrategy::Custom(n)) => n@ == name@ && has_strategy(self@, name@),
                Some(_) => false,
                None => !has_strategy(self@, name@),
            },
    {
        let mut i: usize = 0;
        while i < self.extensions.len()
            invariant
                i <= self.extensions.len(),
                forall|j: int|
                    0 <= j < i ==> !((#[trigger] self.extensions@[j]).extension_kind@ == "strategy"@
                        && self.extensions@[j].name@ == name@),
            decreases self.extensions.len() - i,
        {
            let e = &self.extensions[i];
            if str_eq(e.extension_kind.as_str(), PLUGIN_KIND_STRATEGY) && str_eq(
                e.name.as_str(),
                name,
            ) {
                proof {
                    reveal_strlit("strategy");
                }
                assert(self@[i as int] == *e);
                return Some(OrchestratorStrategy::Custom(e.name.clone()));
            }
            i = i + 1;
        }
        None
    }

    /// All registered extensions, in the order they were registered.
    pub fn all(&self) -> (r: Vec<PluginRecoveryExtension>)
        ensures
            r@ == self@,
    {
        let mut out: Vec<PluginRecoveryExtension> = Vec::new();
        let mut i: usize = 0;
        while i < self.extensions.len()
            invariant
                i <= self.extensions.len(),
                out@ == self.extensions@.subrange(0, i as int),
            decreases self.extensions.len() - i,
        {
            out.push(self.extensions[i].duplicate());
            assert(out@ =~= self.extensions@.subrange(0, i + 1));
            i = i + 1;
        }
        assert(self.extensions@.subrange(0, self.extensions.len() as int) =~= self.extensions@);
        out
    }
}

/// Registering an extension appends it to the list of its own kind and leaves
/// every other kind's list as it was.
pub proof fn law_register_then_list(
    s: Seq<PluginRecoveryExtension>,
    e: PluginRecoveryExtension,
    kind: Seq<char>,
)
    ensures
        of_kind(s.push(e), kind) == (if e.extension_kind@ == kind {
            of_kind(s, kind).push(e)
        } else {
            of_kind(s, kind)
        }),
{
    assert(s.push(e).drop_last() =~= s);
}

/// A registered strategy extension resolves by its name, and registering
/// anything keeps every strategy that resolved before.
pub proof fn law_registered_strategy_resolves(
    s: Seq<PluginRecoveryExtension>,
    e: PluginRecoveryExtension,
    name: Seq<char>,
)
    ensures
        e.extension_kind@ == "strategy"@ ==> has_strategy(s.push(e), e.name@),
        has_strategy(s, name) ==> has_strategy(s.push(e), name),
{
    if e.extension_kind@ == "strategy"@ {
        assert(s.push(e)[s.len() as int] == e);
    }
    if has_strategy(s, name) {
        let i = choose|i: int|
            0 <= i < s.len() && (#[trigger] s[i]).extension_kind@ == "strategy"@ && s[i].name@
                == name;
        assert(s.push(e)[i] == s[i]);
    }
}

} // verus!
