//! `spanda.plugin.toml` manifests: their sections, defaults and validation.
use vstd::prelude::*;
use crate::text::{concat2, has_text, insert_sorted_unique, sorted_strict, str_eq, texts, chars_of};
use crate::package::capability::{known_capability_names, validate_capability};

verus! {

/// File name of a plugin manifest.
pub const MANIFEST_FILENAME: &'static str = "spanda.plugin.toml";

/// Spanda version requirement a plugin gets when it states none.
pub const DEFAULT_SPANDA_VERSION_REQ: &'static str = ">=0.4.0";

/// Plugin API version a plugin gets when it states none.
pub const CURRENT_API_VERSION: &'static str = "1";

/// Kind of plugin.
#[derive(Debug, Clone, Copy, PartialEq, Eq, Structural)]
pub enum PluginType {
    Readiness,
    Recovery,
    Provider,
    Dashboard,
    Cli,
    Integration,
}

impl PluginType {
    pub open spec fn spec_as_str(self) -> Seq<char> {
        match self {
            PluginType::Readiness => "readiness"@,
            PluginType::Recovery => "recovery"@,
            PluginType::Provider => "provider"@,
            PluginType::Dashboard => "dashboard"@,
            PluginType::Cli => "cli"@,
            PluginType::Integration => "integration"@,
        }
    }

    /// The type's name in a manifest.
    pub fn as_str(&self) -> (r: &'static str)
        ensures
            r@ == self.spec_as_str(),
    {
        match self {
            PluginType::Readiness => "readiness",
            PluginType::Recovery => "recovery",
            PluginType::Provider => "provider",
            PluginType::Dashboard => "dashboard",
            PluginType::Cli => "cli",
            PluginType::Integration => "integration",
        }
    }

    /// The type named by a manifest's `type`, if it names one.
    pub fn parse_str(s: &str) -> (r: Option<PluginType>)
        ensures
            match r {
                Some(t) => t.spec_as_str() == s@,
                None => forall|t: PluginType| t.spec_as_str() != s@,
            },
    {
        if str_eq(s, "readiness") {
            Some(PluginType::Readiness)
        } else if str_eq(s, "recovery") {
            Some(PluginType::Recovery)
        } else if str_eq(s, "provider") {
            Some(PluginType::Provider)
        } else if str_eq(s, "dashboard") {
            Some(PluginType::Dashboard)
        } else if str_eq(s, "cli") {
            Some(PluginType::Cli)
        } else if str_eq(s, "integration") {
            Some(PluginType::Integration)
        } else {
            proof {
                assert forall|t: PluginType| t.spec_as_str() != s@ by {
                    match t {
                        PluginType::Readiness => {},
                        PluginType::Recovery => {},
                        PluginType::Provider => {},
                        PluginType::Dashboard => {},
                        PluginType::Cli => {},
                        PluginType::Integration => {},
                    }
                }
            }
            None
        }
    }
}

/// Error of plugin manifest handling.
#[derive(Debug, Clone, PartialEq, Eq)]
pub enum PluginError {
    Manifest(String),
    Capability(String),
}

/// The text of an error.
pub open spec fn error_text(e: PluginError) -> Seq<char> {
    match e {
        PluginError::Manifest(s) => s@,
        PluginError::Capability(s) => s@,
    }
}

/// `[plugin]` metadata block.
#[derive(Debug, Clone, PartialEq, Eq)]
pub struct PluginSection {
    pub name: String,
    pub version: String,
    pub publisher: String,
    pub description: Option<String>,
    pub license: Option<String>,
    pub plugin_type: String,
}

/// `[compatibility]` version constraints.
#[derive(Debug, Clone, PartialEq, Eq)]
pub struct CompatibilitySection {
    pub spanda_version: String,
    pub api_version: String,
}

/// The Spanda version requirement a manifest gets when it states none.
pub fn default_spanda_version() -> (r: String)
    ensures
        r@ == DEFAULT_SPANDA_VERSION_REQ@,
{
    DEFAULT_SPANDA_VERSION_REQ.to_owned()
}

/// The plugin API version a manifest gets when it states none.
pub fn default_api_version() -> (r: String)
    ensures
        r@ == CURRENT_API_VERSION@,
{
    CURRENT_API_VERSION.to_owned()
}

impl Default for CompatibilitySection {
    fn default() -> (r: CompatibilitySection)
        ensures
            r.spanda_version@ == DEFAULT_SPANDA_VERSION_REQ@,
            r.api_version@ == CURRENT_API_VERSION@,
    {
        CompatibilitySection { spanda_version: default_spanda_version(), api_version: default_api_version() }
    }
}

/// `[capabilities]` requested host permissions.
#[derive(Debug, Clone, PartialEq, Eq)]
pub struct CapabilitiesSection {
    pub requires: Vec<String>,
}

/// `[security]` sandbox and trust policy.
#[derive(Debug, Clone, PartialEq, Eq)]
pub struct SecuritySection {
    pub signed: bool,
    pub sandbox: bool,
    pub network: bool,
    pub filesystem: String,
}

/// The value `sandbox` takes when a manifest leaves it out.
pub fn default_true() -> (r: bool)
    ensures
        r,
{
    true
}

/// The filesystem access a manifest gets when it states none.
pub fn default_filesystem() -> (r: String)
    ensures
        r@ == "read-only"@,
{
    "read-only".to_owned()
}

impl Default for SecuritySection {
    fn default() -> (r: SecuritySection)
        ensures
            !r.signed,
            r.sandbox,
            !r.network,
            r.filesystem@ == "read-only"@,
    {
        SecuritySection { signed: false, sandbox: true, network: false, filesystem: default_filesystem() }
    }
}

/// Optional lifecycle hook declarations.
#[derive(Debug, Clone, PartialEq, Eq)]
pub struct HooksSection {
    pub enabled: Vec<String>,
}

/// One dashboard panel or entity tab contribution.
#[derive(Debug, Clone, PartialEq, Eq)]
pub struct UiPanelDecl {
    pub id: String,
    pub title: String,
    pub component: Option<String>,
}

/// One Control Center route contribution.
#[derive(Debug, Clone, PartialEq, Eq)]
pub struct UiRouteDecl {
    pub path: String,
    pub title: String,
}

/// Control Center UI contribution metadata.
#[derive(Debug, Clone, PartialEq, Eq)]
pub struct ControlCenterSection {
    pub panels: Vec<UiPanelDecl>,
    pub entity_tabs: Vec<UiPanelDecl>,
    pub routes: Vec<UiRouteDecl>,
}

/// One namespaced CLI command exposed by a plugin.
#[derive(Debug, Clone, PartialEq, Eq)]
pub struct CliCommandDecl {
    pub name: String,
    pub namespace: Option<String>,
    pub description: Option<String>,
}

/// CLI command contribution metadata.
#[derive(Debug, Clone, PartialEq, Eq)]
pub struct CliSection {
    pub commands: Vec<CliCommandDecl>,
}

/// One recovery strategy, playbook, validator, or dashboard extension.
#[derive(Debug, Clone, PartialEq, Eq)]
pub struct RecoveryExtensionDecl {
    pub kind: String,
    pub name: String,
    pub description: Option<String>,
    pub trigger: Option<String>,
}

/// `[recovery]` orchestrator extension contributions.
#[derive(Debug, Clone, PartialEq, Eq)]
pub struct RecoverySection {
    pub extensions: Vec<RecoveryExtensionDecl>,
}

/// Root manifest structure for `spanda.plugin.toml`.
#[derive(Debug, Clone, PartialEq, Eq)]
pub struct PluginManifest {
    pub plugin: PluginSection,
    pub compatibility: CompatibilitySection,
    pub capabilities: CapabilitiesSection,
    pub security: SecuritySection,
    pub hooks: HooksSection,
    pub control_center: ControlCenterSection,
    pub cli: CliSection,
    pub recovery: RecoverySection,
}

/// A Unicode white-space character (`char::is_whitespace`).
pub open spec fn is_white(c: char) -> bool {
    ||| c == ' ' || c == '\t' || c == '\n' || c == '\r' || c == '\u{0B}' || c == '\u{0C}'
    ||| c == '\u{85}' || c == '\u{A0}' || c == '\u{1680}'
    ||| ('\u{2000}' <= c && c <= '\u{200A}')
    ||| c == '\u{2028}' || c == '\u{2029}' || c == '\u{202F}' || c == '\u{205F}' || c == '\u{3000}'
}

/// Nothing but white space (what `trim().is_empty()` tests).
pub open spec fn is_blank(s: Seq<char>) -> bool {
    forall|i: int| 0 <= i < s.len() ==> is_white(#[trigger] s[i])
}

fn white_exec(c: char) -> (r: bool)
    ensures
        r == is_white(c),
{
    c == ' ' || c == '\t' || c == '\n' || c == '\r' || c == '\u{0B}' || c == '\u{0C}' || c == '\u{85}'
        || c == '\u{A0}' || c == '\u{1680}' || ('\u{2000}' <= c && c <= '\u{200A}') || c == '\u{2028}'
        || c == '\u{2029}' || c == '\u{202F}' || c == '\u{205F}' || c == '\u{3000}'
}

/// Whether a text is nothing but white space.
pub fn blank(s: &str) -> (r: bool)
    ensures
        r == is_blank(s@),
{
    let cs = chars_of(s);
    let mut i: usize = 0;
    while i < cs.len()
        invariant
            i <= cs.len(),
            cs@ == s@,
            forall|k: int| 0 <= k < i ==> is_white(#[trigger] cs@[k]),
        decreases cs.len() - i,
    {
        if !white_exec(cs[i]) {
            return false;
        }
        i = i + 1;
    }
    true
}

/// The first problem of a capability list: the first capability outside the
/// catalog, or none.
pub open spec fn first_unknown_capability(caps: Seq<Seq<char>>) -> Option<Seq<char>>
    decreases caps.len(),
{
    if caps.len() == 0 {
        None
    } else if !known_capability_names().contains(caps[0]) {
        Some(caps[0])
    } else {
        first_unknown_capability(caps.drop_first())
    }
}

/// Accept a list of catalog capabilities; refuse the first capability
/// outside the catalog.
pub fn validate_capability_list(caps: &Vec<String>) -> (r: Result<(), PluginError>)
    ensures
        match first_unknown_capability(texts(caps@)) {
            None => r is Ok,
            Some(c) => r matches Err(e) && e is Capability && error_text(e) == "unknown capability '"@ + c
                + "'"@,
        },
{
    let ghost ts = texts(caps@);
    let mut i: usize = 0;
    assert(ts.skip(0) =~= ts);
    while i < caps.len()
        invariant
            i <= caps.len(),
            ts == texts(caps@),
            first_unknown_capability(ts) == first_unknown_capability(ts.skip(i as int)),
        decreases caps.len() - i,
    {
        assert(ts.skip(i as int)[0] == caps@[i as int]@);
        assert(ts.skip(i as int).drop_first() =~= ts.skip(i + 1));
        match validate_capability(caps[i].as_str()) {
            Ok(()) => {},
            Err(e) => {
                return Err(PluginError::Capability(e));
            },
        }
        i = i + 1;
    }
    Ok(())
}

/// The first problem of a manifest, if any: a blank name, a blank version,
/// an unknown type, then an unknown capability.
pub open spec fn manifest_problem(m: PluginManifest) -> Option<Seq<char>> {
    if is_blank(m.plugin.name@) {
        Some("plugin.name must not be empty"@)
    } else if is_blank(m.plugin.version@) {
        Some("plugin.version must not be empty"@)
    } else if forall|t: PluginType| t.spec_as_str() != m.plugin.plugin_type@ {
        Some("unknown plugin type: "@ + m.plugin.plugin_type@)
    } else {
        match first_unknown_capability(texts(m.capabilities.requires@)) {
            Some(c) => Some("unknown capability '"@ + c + "'"@),
            None => None,
        }
    }
}

/// The name, the version and the type of a manifest are all acceptable:
/// what remains to check are its capabilities.
pub open spec fn manifest_fields_ok(m: PluginManifest) -> bool {
    !is_blank(m.plugin.name@) && !is_blank(m.plugin.version@) && exists|t: PluginType|
        t.spec_as_str() == m.plugin.plugin_type@
}

impl PluginManifest {
    /// Validate the manifest: a name and a version that are not blank, a
    /// known plugin type, and catalog capabilities.
    pub fn validate(&self) -> (r: Result<(), PluginError>)
        ensures
            match r {
                Ok(()) => manifest_problem(*self) is None,
                Err(e) => manifest_problem(*self) == Some(error_text(e)) && (if manifest_fields_ok(*self) {
                    e is Capability
                } else {
                    e is Manifest
                }),
            },
    {
        if blank(self.plugin.name.as_str()) {
            return Err(PluginError::Manifest("plugin.name must not be empty".to_owned()));
        }
        if blank(self.plugin.version.as_str()) {
            return Err(PluginError::Manifest("plugin.version must not be empty".to_owned()));
        }
        match PluginType::parse_str(self.plugin.plugin_type.as_str()) {
            None => {
                return Err(PluginError::Manifest(concat2("unknown plugin type: ", self.plugin.plugin_type.as_str())));
            },
            Some(_) => {},
        }
        validate_capability_list(&self.capabilities.requires)
    }

    /// The manifest's plugin type, readiness when it names none.
    pub fn plugin_type(&self) -> (r: PluginType)
        ensures
            (exists|t: PluginType| t.spec_as_str() == self.plugin.plugin_type@) ==> r.spec_as_str()
                == self.plugin.plugin_type@,
            (forall|t: PluginType| t.spec_as_str() != self.plugin.plugin_type@) ==> r
                == PluginType::Readiness,
    {
        match PluginType::parse_str(self.plugin.plugin_type.as_str()) {
            Some(t) => t,
            None => PluginType::Readiness,
        }
    }

    /// The requested capabilities as a set: sorted, without duplicates.
    pub fn capability_set(&self) -> (r: Vec<String>)
        ensures
            sorted_strict(r@),
            forall|t: Seq<char>| has_text(r@, t) <==> has_text(self.capabilities.requires@, t),
    {
        let caps = &self.capabilities.requires;
        let mut out: Vec<String> = Vec::new();
        let mut i: usize = 0;
        while i < caps.len()
            invariant
                i <= caps.len(),
                sorted_strict(out@),
                forall|t: Seq<char>| has_text(out@, t) <==> has_text(caps@.take(i as int), t),
            decreases caps.len() - i,
        {
            let x = caps[i].clone();
            let ghost before = out@;
            insert_sorted_unique(&mut out, x);
            proof {
                let a = caps@.take(i as int);
                let b = caps@.take(i + 1);
                assert forall|t: Seq<char>| has_text(out@, t) <==> has_text(b, t) by {
                    if has_text(a, t) {
                        let k = choose|k: int| 0 <= k < a.len() && #[trigger] a[k]@ == t;
                        assert(b[k]@ == t);
                    }
                    if has_text(b, t) {
                        let k = choose|k: int| 0 <= k < b.len() && #[trigger] b[k]@ == t;
                        if k < i {
                            assert(a[k]@ == t);
                        }
                    }
                    if t == caps@[i as int]@ {
                        assert(b[i as int]@ == t);
                    }
                }
            }
            i = i + 1;
        }
        assert(caps@.take(caps.len() as int) =~= caps@);
        out
    }

    /// The artifact file of a plugin for a build format on a target
    /// platform, inside its directory.
    pub fn artifact_path(&self, plugin_dir: &str, format: &str, platform: TargetPlatform) -> (r: String)
        ensures
            r@ == joined_path(plugin_dir@, artifact_file(format@, platform)),
    {
        let file: String = if str_eq(format, "wasm") {
            "plugin.wasm".to_owned()
        } else if str_eq(format, "native") {
            native_library_file(platform).to_owned()
        } else if str_eq(format, "typescript") {
            "index.js".to_owned()
        } else {
            concat2("plugin.", format)
        };
        join_path(plugin_dir, file.as_str())
    }
}

/// The operating system a plugin is built for.
#[derive(Debug, Clone, Copy, PartialEq, Eq, Structural)]
pub enum TargetPlatform {
    Linux,
    MacOs,
    Windows,
    Other,
}

/// The file name of a native plugin library: `libplugin.dylib` on macOS,
/// `plugin.dll` on Windows, `libplugin.so` on Linux and elsewhere.
pub open spec fn native_library_name(p: TargetPlatform) -> Seq<char> {
    match p {
        TargetPlatform::MacOs => "libplugin.dylib"@,
        TargetPlatform::Windows => "plugin.dll"@,
        TargetPlatform::Linux => "libplugin.so"@,
        TargetPlatform::Other => "libplugin.so"@,
    }
}

/// The file name of a native plugin library on a platform.
pub fn native_library_file(p: TargetPlatform) -> (r: &'static str)
    ensures
        r@ == native_library_name(p),
{
    match p {
        TargetPlatform::MacOs => "libplugin.dylib",
        TargetPlatform::Windows => "plugin.dll",
        TargetPlatform::Linux => "libplugin.so",
        TargetPlatform::Other => "libplugin.so",
    }
}

/// The artifact file name of a build format on a platform.
pub open spec fn artifact_file(format: Seq<char>, platform: TargetPlatform) -> Seq<char> {
    if format == "wasm"@ {
        "plugin.wasm"@
    } else if format == "native"@ {
        native_library_name(platform)
    } else if format == "typescript"@ {
        "index.js"@
    } else {
        "plugin."@ + format
    }
}

/// A relative file name joined to a directory with `/`.
pub open spec fn joined_path(dir: Seq<char>, file: Seq<char>) -> Seq<char> {
    if dir.len() == 0 {
        file
    } else if dir.last() == '/' {
        dir + file
    } else {
        dir + "/"@ + file
    }
}

fn join_path(dir: &str, file: &str) -> (r: String)
    ensures
        r@ == joined_path(dir@, file@),
{
    let cs = chars_of(dir);
    if cs.len() == 0 {
        file.to_owned()
    } else if cs[cs.len() - 1] == '/' {
        concat2(dir, file)
    } else {
        let mut r = concat2(dir, "/");
        r.append(file);
        r
    }
}

} // verus!
