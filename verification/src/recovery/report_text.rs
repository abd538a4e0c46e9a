//! Recovery decisions, playbooks and plans as text for the command line.
use vstd::prelude::*;
use crate::text::{append_dec, bool_str, bool_text, dec_text};
use crate::recovery::decision::RecoveryDecision;
use crate::recovery::playbook::{PlaybookStep, RecoveryPlaybook};
use crate::recovery::orchestration::OrchestratedRecoveryPlan;
use crate::recovery::types::OrchestratorStrategy;
use crate::recovery::graph::{RecoveryGraph, RecoveryGraphEdge, RecoveryGraphNode};

verus! {

/// `  - <text>` lines, one per text.
pub open spec fn bullet_lines(items: Seq<String>) -> Seq<char>
    decreases items.len(),
{
    if items.len() == 0 {
        Seq::empty()
    } else {
        bullet_lines(items.drop_last()) + "  - "@ + items.last()@ + "\n"@
    }
}

/// A recovery decision as text.
pub open spec fn decision_text(d: RecoveryDecision) -> Seq<char> {
    "Recovery Decision\n=================\n\n"@ + "Can recover: "@ + bool_text(d.can_recover) + "\n"@ + "Should recover: "@
        + bool_text(d.should_recover) + "\n"@ + "Is safe: "@ + bool_text(d.is_safe) + "\n"@ + "Is authorized: "@
        + bool_text(d.is_authorized) + "\n"@ + "Automatic: "@ + bool_text(d.automatic) + "\n"@ + "Recommended: "@
        + d.recommended_strategy.spec_label() + " (level "@ + d.recommended_level.spec_debug_name() + ")\n"@
        + "Lowest risk: "@ + d.lowest_risk_strategy.spec_label() + "\n"@ + "Mission disruption: "@ + dec_text(
        d.mission_disruption_score as nat,
    ) + "\n"@ + "Estimated downtime: "@ + dec_text(d.estimated_downtime_secs as nat) + "s\n"@ + (match d.backup_entity_id {
        Some(b) => "Backup entity: "@ + b@ + "\n"@,
        None => Seq::empty(),
    }) + "\nExplanations:\n"@ + bullet_lines(d.explanations@)
}

fn append_line(out: &mut String, label: &str, value: &str)
    ensures
        final(out)@ == old(out)@ + label@ + value@ + "\n"@,
{
    out.append(label);
    out.append(value);
    out.append("\n");
}

/// A recovery decision as text.
pub fn format_decision_text(decision: &RecoveryDecision) -> (r: String)
    ensures
        r@ == decision_text(*decision),
{
    let mut out = "Recovery Decision\n=================\n\n".to_owned();
    append_line(&mut out, "Can recover: ", bool_str(decision.can_recover));
    append_line(&mut out, "Should recover: ", bool_str(decision.should_recover));
    append_line(&mut out, "Is safe: ", bool_str(decision.is_safe));
    append_line(&mut out, "Is authorized: ", bool_str(decision.is_authorized));
    append_line(&mut out, "Automatic: ", bool_str(decision.automatic));
    out.append("Recommended: ");
    out.append(decision.recommended_strategy.label());
    out.append(" (level ");
    out.append(decision.recommended_level.debug_name());
    out.append(")\n");
    append_line(&mut out, "Lowest risk: ", decision.lowest_risk_strategy.label());
    out.append("Mission disruption: ");
    append_dec(&mut out, decision.mission_disruption_score as u64);
    out.append("\n");
    out.append("Estimated downtime: ");
    append_dec(&mut out, decision.estimated_downtime_secs);
    out.append("s\n");
    match &decision.backup_entity_id {
        Some(b) => append_line(&mut out, "Backup entity: ", b.as_str()),
        None => {},
    }
    out.append("\nExplanations:\n");
    let ghost head = out@;
    let ex = &decision.explanations;
    let mut i: usize = 0;
    assert(ex@.take(0) =~= Seq::<String>::empty());
    while i < ex.len()
        invariant
            i <= ex.len(),
            out@ == head + bullet_lines(ex@.take(i as int)),
        decreases ex.len() - i,
    {
        assert(ex@.take(i + 1).drop_last() =~= ex@.take(i as int));
        out.append("  - ");
        out.append(ex[i].as_str());
        out.append("\n");
        i = i + 1;
    }
    assert(ex@.take(ex.len() as int) =~= ex@);
    assert(out@ =~= decision_text(*decision));
    out
}

/// `    <order>. <description> [<strategy>]` lines, one per step.
pub open spec fn step_lines(steps: Seq<PlaybookStep>) -> Seq<char>
    decreases steps.len(),
{
    if steps.len() == 0 {
        Seq::empty()
    } else {
        let s = steps.last();
        step_lines(steps.drop_last()) + "    "@ + dec_text(s.order as nat) + ". "@ + s.description@ + " ["@
            + s.strategy.spec_label() + "]\n"@
    }
}

/// A playbook's block: name and version, trigger, description, step count
/// and steps.
pub open spec fn playbook_block(p: RecoveryPlaybook) -> Seq<char> {
    p.name@ + " (v"@ + p.version@ + ")\n"@ + "  Trigger: "@ + p.trigger@ + "\n"@ + "  "@ + p.description@ + "\n"@
        + "  Steps: "@ + dec_text(p.steps@.len()) + "\n"@ + step_lines(p.steps@) + "\n"@
}

pub open spec fn playbook_blocks(ps: Seq<RecoveryPlaybook>) -> Seq<char>
    decreases ps.len(),
{
    if ps.len() == 0 {
        Seq::empty()
    } else {
        playbook_blocks(ps.drop_last()) + playbook_block(ps.last())
    }
}

fn append_playbook_block(out: &mut String, pb: &RecoveryPlaybook)
    ensures
        final(out)@ == old(out)@ + playbook_block(*pb),
{
    let ghost start = out@;
    out.append(pb.name.as_str());
    out.append(" (v");
    out.append(pb.version.as_str());
    out.append(")\n");
    append_line(out, "  Trigger: ", pb.trigger.as_str());
    append_line(out, "  ", pb.description.as_str());
    out.append("  Steps: ");
    append_dec(out, pb.steps.len() as u64);
    out.append("\n");
    let ghost mid = out@;
    let mut k: usize = 0;
    assert(pb.steps@.take(0) =~= Seq::<PlaybookStep>::empty());
    while k < pb.steps.len()
        invariant
            k <= pb.steps.len(),
            out@ == mid + step_lines(pb.steps@.take(k as int)),
        decreases pb.steps.len() - k,
    {
        assert(pb.steps@.take(k + 1).drop_last() =~= pb.steps@.take(k as int));
        let st = &pb.steps[k];
        out.append("    ");
        append_dec(out, st.order as u64);
        out.append(". ");
        out.append(st.description.as_str());
        out.append(" [");
        out.append(st.strategy.label());
        out.append("]\n");
        k = k + 1;
    }
    assert(pb.steps@.take(pb.steps.len() as int) =~= pb.steps@);
    out.append("\n");
    assert(out@ =~= start + playbook_block(*pb));
}

/// The playbook list as text.
pub fn format_playbooks_text(playbooks: &[RecoveryPlaybook]) -> (r: String)
    ensures
        r@ == "Recovery Playbooks\n==================\n\n"@ + playbook_blocks(playbooks@),
{
    let mut out = "Recovery Playbooks\n==================\n\n".to_owned();
    let ghost head = out@;
    let mut i: usize = 0;
    assert(playbooks@.take(0) =~= Seq::<RecoveryPlaybook>::empty());
    while i < playbooks.len()
        invariant
            i <= playbooks.len(),
            out@ == head + playbook_blocks(playbooks@.take(i as int)),
        decreases playbooks.len() - i,
    {
        assert(playbooks@.take(i + 1).drop_last() =~= playbooks@.take(i as int));
        append_playbook_block(&mut out, &playbooks[i]);
        i = i + 1;
    }
    assert(playbooks@.take(playbooks.len() as int) =~= playbooks@);
    out
}

/// `    - <label>` lines, one per strategy.
pub open spec fn strategy_lines(ss: Seq<OrchestratorStrategy>) -> Seq<char>
    decreases ss.len(),
{
    if ss.len() == 0 {
        Seq::empty()
    } else {
        strategy_lines(ss.drop_last()) + "    - "@ + ss.last().spec_label() + "\n"@
    }
}

/// A plan as text.
pub open spec fn plan_text(p: OrchestratedRecoveryPlan) -> Seq<char> {
    "\n  Plan: "@ + p.plan_id@ + "\n"@ + "  Entity: "@ + p.entity_id@ + " ("@ + p.entity_kind.spec_debug_name() + ")\n"@
        + "  Failure: "@ + p.failure@ + "\n"@ + "  Risk: "@ + p.risk@ + "\n"@ + (match p.playbook {
        Some(n) => "  Playbook: "@ + n@ + "\n"@,
        None => Seq::empty(),
    }) + "  Strategies:\n"@ + strategy_lines(p.strategies@)
}

/// A plan as text.
pub fn format_plan_text(plan: &OrchestratedRecoveryPlan) -> (r: String)
    ensures
        r@ == plan_text(*plan),
{
    let mut out = "\n  Plan: ".to_owned();
    out.append(plan.plan_id.as_str());
    out.append("\n");
    out.append("  Entity: ");
    out.append(plan.entity_id.as_str());
    out.append(" (");
    out.append(plan.entity_kind.debug_name());
    out.append(")\n");
    append_line(&mut out, "  Failure: ", plan.failure.as_str());
    append_line(&mut out, "  Risk: ", plan.risk.as_str());
    match &plan.playbook {
        Some(n) => append_line(&mut out, "  Playbook: ", n.as_str()),
        None => {},
    }
    out.append("  Strategies:\n");
    let ghost head = out@;
    let ss = &plan.strategies;
    let mut i: usize = 0;
    assert(ss@.take(0) =~= Seq::<OrchestratorStrategy>::empty());
    while i < ss.len()
        invariant
            i <= ss.len(),
            out@ == head + strategy_lines(ss@.take(i as int)),
        decreases ss.len() - i,
    {
        assert(ss@.take(i + 1).drop_last() =~= ss@.take(i as int));
        out.append("    - ");
        out.append(ss[i].label());
        out.append("\n");
        i = i + 1;
    }
    assert(ss@.take(ss.len() as int) =~= ss@);
    assert(out@ =~= plan_text(*plan));
    out
}

/// `  [<id>] <name> (<Kind>) depth=<d> recoverable=<b>` lines, one per node.
pub open spec fn node_lines(ns: Seq<RecoveryGraphNode>) -> Seq<char>
    decreases ns.len(),
{
    if ns.len() == 0 {
        Seq::empty()
    } else {
        let n = ns.last();
        node_lines(ns.drop_last()) + "  ["@ + n.id@ + "] "@ + n.display_name@ + " ("@ + n.kind.spec_debug_name()
            + ") depth="@ + dec_text(n.depth as nat) + " recoverable="@ + bool_text(n.recoverable) + "\n"@
    }
}

/// `  <from> --[<relationship>]--> <to>` lines, one per edge, with
/// ` (critical)` after critical edges when `mark_critical` is set.
pub open spec fn edge_lines(es: Seq<RecoveryGraphEdge>, mark_critical: bool) -> Seq<char>
    decreases es.len(),
{
    if es.len() == 0 {
        Seq::empty()
    } else {
        let e = es.last();
        edge_lines(es.drop_last(), mark_critical) + "  "@ + e.from@ + " --["@ + e.relationship@ + "]--> "@ + e.to@
            + (if mark_critical && e.critical {
            " (critical)"@
        } else {
            Seq::empty()
        }) + "\n"@
    }
}

/// A recovery graph as text: the root when there is one, then the nodes,
/// the dependency edges and the impact edges, each with its count.
pub open spec fn graph_text(g: RecoveryGraph) -> Seq<char> {
    "Recovery Graph\n==============\n\n"@ + (match g.root_entity_id {
        Some(r) => "Root: "@ + r@ + "\n\n"@,
        None => Seq::empty(),
    }) + "Nodes ("@ + dec_text(g.nodes@.len()) + "):\n"@ + node_lines(g.nodes@) + "\nDependency edges ("@
        + dec_text(g.dependency_edges@.len()) + "):\n"@ + edge_lines(g.dependency_edges@, true) + "\nImpact edges ("@
        + dec_text(g.impact_edges@.len()) + "):\n"@ + edge_lines(g.impact_edges@, false)
}

fn append_edge_lines(out: &mut String, es: &Vec<RecoveryGraphEdge>, mark_critical: bool)
    ensures
        final(out)@ == old(out)@ + edge_lines(es@, mark_critical),
{
    let ghost head = out@;
    let mut i: usize = 0;
    assert(es@.take(0) =~= Seq::<RecoveryGraphEdge>::empty());
    while i < es.len()
        invariant
            i <= es.len(),
            out@ == head + edge_lines(es@.take(i as int), mark_critical),
        decreases es.len() - i,
    {
        assert(es@.take(i + 1).drop_last() =~= es@.take(i as int));
        let e = &es[i];
        out.append("  ");
        out.append(e.from.as_str());
        out.append(" --[");
        out.append(e.relationship.as_str());
        out.append("]--> ");
        out.append(e.to.as_str());
        if mark_critical && e.critical {
            out.append(" (critical)");
        }
        out.append("\n");
        i = i + 1;
    }
    assert(es@.take(es.len() as int) =~= es@);
}

/// A recovery graph as text for the command line.
pub fn format_recovery_graph_text(graph: &RecoveryGraph) -> (r: String)
    ensures
        r@ == graph_text(*graph),
{
    let mut out = "Recovery Graph\n==============\n\n".to_owned();
    match &graph.root_entity_id {
        Some(root) => {
            out.append("Root: ");
            out.append(root.as_str());
            out.append("\n\n");
        },
        None => {},
    }
    out.append("Nodes (");
    append_dec(&mut out, graph.nodes.len() as u64);
    out.append("):\n");
    let ghost head = out@;
    let ns = &graph.nodes;
    let mut i: usize = 0;
    assert(ns@.take(0) =~= Seq::<RecoveryGraphNode>::empty());
    while i < ns.len()
        invariant
            i <= ns.len(),
            out@ == head + node_lines(ns@.take(i as int)),
        decreases ns.len() - i,
    {
        assert(ns@.take(i + 1).drop_last() =~= ns@.take(i as int));
        let n = &ns[i];
        out.append("  [");
        out.append(n.id.as_str());
        out.append("] ");
        out.append(n.display_name.as_str());
        out.append(" (");
        out.append(n.kind.debug_name());
        out.append(") depth=");
        append_dec(&mut out, n.depth as u64);
        out.append(" recoverable=");
        out.append(bool_str(n.recoverable));
        out.append("\n");
        i = i + 1;
    }
    assert(ns@.take(ns.len() as int) =~= ns@);
    out.append("\nDependency edges (");
    append_dec(&mut out, graph.dependency_edges.len() as u64);
    out.append("):\n");
    append_edge_lines(&mut out, &graph.dependency_edges, true);
    out.append("\nImpact edges (");
    append_dec(&mut out, graph.impact_edges.len() as u64);
    out.append("):\n");
    append_edge_lines(&mut out, &graph.impact_edges, false);
    assert(out@ =~= graph_text(*graph));
    out
}

} // verus!
