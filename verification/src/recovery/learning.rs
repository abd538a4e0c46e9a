//! Recovery learning: outcome counts, per-strategy usage and repeated
//! failures drawn from the recovery history.
use vstd::prelude::*;
use crate::text::str_eq;

verus! {

/// Outcome of a recorded recovery.
#[derive(Debug, Clone, Copy, PartialEq, Eq, Structural)]
pub enum RecoveryOutcomeStatus {
    Success,
    Failed,
    Other,
}

/// What the metrics read of one recorded recovery.
#[derive(Debug, Clone)]
pub struct RecoveryOutcome {
    pub strategy_label: String,
    pub status: RecoveryOutcomeStatus,
    pub duration_secs: u64,
    pub root_cause: String,
    pub entities_involved: Vec<String>,
}

/// Repeated failure pattern.
#[derive(Debug, Clone, PartialEq, Eq)]
pub struct RepeatedFailure {
    pub failure_pattern: String,
    pub entity_id: String,
    pub occurrence_count: u64,
    pub last_seen: String,
}

/// The number of outcomes of a status.
pub open spec fn count_status(h: Seq<RecoveryOutcome>, s: RecoveryOutcomeStatus) -> nat
    decreases h.len(),
{
    if h.len() == 0 {
        0
    } else {
        count_status(h.drop_last(), s) + if h.last().status == s {
            1nat
        } else {
            0nat
        }
    }
}

/// Total, successful and failed recoveries of a history.
pub fn outcome_counts(history: &Vec<RecoveryOutcome>) -> (r: (u64, u64, u64))
    requires
        history@.len() <= u64::MAX,
    ensures
        r.0 == history@.len(),
        r.1 == count_status(history@, RecoveryOutcomeStatus::Success),
        r.2 == count_status(history@, RecoveryOutcomeStatus::Failed),
{
    let mut ok: u64 = 0;
    let mut bad: u64 = 0;
    let mut i: usize = 0;
    assert(history@.take(0) =~= Seq::<RecoveryOutcome>::empty());
    while i < history.len()
        invariant
            i <= history.len(),
            history@.len() <= u64::MAX,
            ok == count_status(history@.take(i as int), RecoveryOutcomeStatus::Success),
            bad == count_status(history@.take(i as int), RecoveryOutcomeStatus::Failed),
            ok + bad <= i,
        decreases history.len() - i,
    {
        assert(history@.take(i + 1).drop_last() =~= history@.take(i as int));
        match history[i].status {
            RecoveryOutcomeStatus::Success => {
                ok = ok + 1;
            },
            RecoveryOutcomeStatus::Failed => {
                bad = bad + 1;
            },
            RecoveryOutcomeStatus::Other => {},
        }
        i = i + 1;
    }
    assert(history@.take(history.len() as int) =~= history@);
    (history.len() as u64, ok, bad)
}

/// Usage of one strategy: its label, how often it ran, how often it
/// succeeded, and its total duration.
#[derive(Debug, Clone, PartialEq, Eq)]
pub struct StrategyUsage {
    pub strategy: String,
    pub usage_count: u64,
    pub successes: u64,
    pub total_duration_secs: u128,
}

/// The view of a usage entry.
pub open spec fn usage_view(u: StrategyUsage) -> (Seq<char>, nat, nat, nat) {
    (u.strategy@, u.usage_count as nat, u.successes as nat, u.total_duration_secs as nat)
}

/// Index of the entry for a label in a usage table, if any.
pub open spec fn usage_index(t: Seq<(Seq<char>, nat, nat, nat)>, label: Seq<char>) -> int
    decreases t.len(),
{
    if t.len() == 0 {
        -1
    } else if t.last().0 == label {
        t.len() - 1
    } else {
        usage_index(t.drop_last(), label)
    }
}

/// The usage table after one more recorded recovery: its label's entry
/// counts it, or a new entry is added at the end.
pub open spec fn record_usage(t: Seq<(Seq<char>, nat, nat, nat)>, o: RecoveryOutcome) -> Seq<(Seq<char>, nat, nat, nat)> {
    let j = usage_index(t, o.strategy_label@);
    let ok: nat = if o.status == RecoveryOutcomeStatus::Success { 1 } else { 0 };
    if j >= 0 {
        t.update(j, (t[j].0, t[j].1 + 1, t[j].2 + ok, t[j].3 + o.duration_secs as nat))
    } else {
        t.push((o.strategy_label@, 1, ok, o.duration_secs as nat))
    }
}

/// The usage table of a history, in order of each label's first use.
pub open spec fn usage_table(h: Seq<RecoveryOutcome>) -> Seq<(Seq<char>, nat, nat, nat)>
    decreases h.len(),
{
    if h.len() == 0 {
        Seq::empty()
    } else {
        record_usage(usage_table(h.drop_last()), h.last())
    }
}

proof fn lemma_usage_index(t: Seq<(Seq<char>, nat, nat, nat)>, label: Seq<char>)
    ensures
        -1 <= usage_index(t, label) < t.len(),
        usage_index(t, label) >= 0 ==> t[usage_index(t, label)].0 == label,
        usage_index(t, label) < 0 ==> forall|k: int| 0 <= k < t.len() ==> (#[trigger] t[k]).0 != label,
    decreases t.len(),
{
    if t.len() > 0 {
        lemma_usage_index(t.drop_last(), label);
        let d = t.drop_last();
        assert forall|k: int| 0 <= k < d.len() implies d[k] == t[k] by {}
    }
}

fn find_usage(table: &Vec<StrategyUsage>, label: &str) -> (r: Option<usize>)
    ensures
        match r {
            Some(j) => j as int == usage_index(table@.map_values(|u: StrategyUsage| usage_view(u)), label@),
            None => usage_index(table@.map_values(|u: StrategyUsage| usage_view(u)), label@) < 0,
        },
{
    let ghost t = table@.map_values(|u: StrategyUsage| usage_view(u));
    let mut i: usize = table.len();
    assert(t.take(table.len() as int) =~= t);
    while i > 0
        invariant
            i <= table.len(),
            t == table@.map_values(|u: StrategyUsage| usage_view(u)),
            usage_index(t, label@) == usage_index(t.take(i as int), label@),
        decreases i,
    {
        let k = i - 1;
        assert(t.take(i as int).drop_last() =~= t.take(k as int));
        if str_eq(table[k].strategy.as_str(), label) {
            assert(t.take(i as int).last() == t[k as int]);
            return Some(k);
        }
        i = k;
    }
    None
}

/// Usage per strategy label over a history, in order of first use.
pub fn strategy_usage(history: &Vec<RecoveryOutcome>) -> (r: Vec<StrategyUsage>)
    ensures
        r@.map_values(|u: StrategyUsage| usage_view(u)) == usage_table(history@),
{
    let mut table: Vec<StrategyUsage> = Vec::new();
    let mut i: usize = 0;
    assert(history@.take(0) =~= Seq::<RecoveryOutcome>::empty());
    assert(table@.map_values(|u: StrategyUsage| usage_view(u)) =~= Seq::<(Seq<char>, nat, nat, nat)>::empty());
    while i < history.len()
        invariant
            i <= history.len(),
            table@.map_values(|u: StrategyUsage| usage_view(u)) == usage_table(history@.take(i as int)),
            forall|k: int|
                0 <= k < table@.len() ==> (#[trigger] table@[k]).usage_count <= i && table@[k].successes <= i
                    && table@[k].total_duration_secs <= i * (u64::MAX as int),
        decreases history.len() - i,
    {
        assert(history@.take(i + 1).drop_last() =~= history@.take(i as int));
        let o = &history[i];
        let ok: u64 = match o.status {
            RecoveryOutcomeStatus::Success => 1,
            _ => 0,
        };
        let ghost before = table@.map_values(|u: StrategyUsage| usage_view(u));
        proof {
            lemma_usage_index(before, o.strategy_label@);
        }
        match find_usage(&table, o.strategy_label.as_str()) {
            Some(j) => {
                assert(table@[j as int].total_duration_secs <= i * (u64::MAX as int));
                let old = &table[j];
                assert(old.total_duration_secs + o.duration_secs <= (i + 1) * (u64::MAX as int)) by (nonlinear_arith)
                    requires
                        old.total_duration_secs <= i * (u64::MAX as int),
                        o.duration_secs <= u64::MAX,
                ;
                assert((i + 1) * (u64::MAX as int) <= u128::MAX) by (nonlinear_arith)
                    requires
                        i + 1 <= u64::MAX,
                ;
                let updated = StrategyUsage {
                    strategy: old.strategy.clone(),
                    usage_count: old.usage_count + 1,
                    successes: old.successes + ok,
                    total_duration_secs: old.total_duration_secs + o.duration_secs as u128,
                };
                table.set(j, updated);
                assert(table@.map_values(|u: StrategyUsage| usage_view(u)) =~= record_usage(before, *o));
            },
            None => {
                table.push(
                    StrategyUsage {
                        strategy: o.strategy_label.clone(),
                        usage_count: 1,
                        successes: ok,
                        total_duration_secs: o.duration_secs as u128,
                    },
                );
                assert(table@.map_values(|u: StrategyUsage| usage_view(u)) =~= record_usage(before, *o));
            },
        }
        assert forall|k: int|
            0 <= k < table@.len() implies (#[trigger] table@[k]).usage_count <= i + 1 && table@[k].successes <= i + 1
                && table@[k].total_duration_secs <= (i + 1) * (u64::MAX as int) by {
            assert((i as int) * (u64::MAX as int) <= (i + 1) * (u64::MAX as int)) by (nonlinear_arith);
        }
        i = i + 1;
    }
    assert(history@.take(history.len() as int) =~= history@);
    table
}

/// Every recorded recovery is counted under exactly one strategy: the usage
/// counts add up to the number of recoveries, and no label appears twice.
pub proof fn law_usage_counts_every_recovery(h: Seq<RecoveryOutcome>)
    ensures
        usage_total(usage_table(h)) == h.len(),
        forall|a: int, b: int|
            0 <= a < b < usage_table(h).len() ==> (#[trigger] usage_table(h)[a]).0 != (#[trigger] usage_table(h)[b]).0,
    decreases h.len(),
{
    if h.len() > 0 {
        let d = h.drop_last();
        law_usage_counts_every_recovery(d);
        let t = usage_table(d);
        let o = h.last();
        lemma_usage_index(t, o.strategy_label@);
        let j = usage_index(t, o.strategy_label@);
        let ok: nat = if o.status == RecoveryOutcomeStatus::Success { 1 } else { 0 };
        if j >= 0 {
            let e = (t[j].0, t[j].1 + 1, t[j].2 + ok, t[j].3 + o.duration_secs as nat);
            lemma_usage_total_update(t, j, e);
        } else {
            let e = (o.strategy_label@, 1nat, ok, o.duration_secs as nat);
            assert(t.push(e).drop_last() =~= t);
        }
    }
}

/// The sum of the usage counts of a table.
pub open spec fn usage_total(t: Seq<(Seq<char>, nat, nat, nat)>) -> nat
    decreases t.len(),
{
    if t.len() == 0 {
        0
    } else {
        usage_total(t.drop_last()) + t.last().1
    }
}

proof fn lemma_usage_total_update(t: Seq<(Seq<char>, nat, nat, nat)>, j: int, e: (Seq<char>, nat, nat, nat))
    requires
        0 <= j < t.len(),
    ensures
        usage_total(t.update(j, e)) == usage_total(t) - t[j].1 + e.1,
    decreases t.len(),
{
    let u = t.update(j, e);
    if j == t.len() - 1 {
        assert(u.drop_last() =~= t.drop_last());
    } else {
        lemma_usage_total_update(t.drop_last(), j, e);
        assert(u.drop_last() =~= t.drop_last().update(j, e));
    }
}

/// The number of times a (root cause, entity) pair occurs in a history.
pub open spec fn pair_count(h: Seq<RecoveryOutcome>, cause: Seq<char>, entity: Seq<char>) -> nat
    decreases h.len(),
{
    if h.len() == 0 {
        0
    } else {
        pair_count(h.drop_last(), cause, entity) + if h.last().root_cause@ == cause {
            count_text(h.last().entities_involved@, entity)
        } else {
            0
        }
    }
}

/// The number of times a text occurs in a list.
pub open spec fn count_text(s: Seq<String>, t: Seq<char>) -> nat
    decreases s.len(),
{
    if s.len() == 0 {
        0
    } else {
        count_text(s.drop_last(), t) + if s.last()@ == t {
            1nat
        } else {
            0nat
        }
    }
}

fn count_pair(history: &Vec<RecoveryOutcome>, cause: &str, entity: &str) -> (r: u64)
    requires
        forall|k: int| 0 <= k < history@.len() ==> (#[trigger] history@[k]).entities_involved@.len() <= u32::MAX,
        history@.len() <= u32::MAX,
    ensures
        r == pair_count(history@, cause@, entity@),
{
    let mut n: u64 = 0;
    let mut i: usize = 0;
    assert(history@.take(0) =~= Seq::<RecoveryOutcome>::empty());
    while i < history.len()
        invariant
            i <= history.len(),
            history@.len() <= u32::MAX,
            forall|k: int| 0 <= k < history@.len() ==> (#[trigger] history@[k]).entities_involved@.len() <= u32::MAX,
            n == pair_count(history@.take(i as int), cause@, entity@),
            n <= i * (u32::MAX as int),
        decreases history.len() - i,
    {
        assert(history@.take(i + 1).drop_last() =~= history@.take(i as int));
        let o = &history[i];
        if str_eq(o.root_cause.as_str(), cause) {
            let es = &o.entities_involved;
            let mut c: u64 = 0;
            let mut k: usize = 0;
            assert(es@.take(0) =~= Seq::<String>::empty());
            while k < es.len()
                invariant
                    k <= es.len(),
                    es@.len() <= u32::MAX,
                    c == count_text(es@.take(k as int), entity@),
                    c <= k,
                decreases es.len() - k,
            {
                assert(es@.take(k + 1).drop_last() =~= es@.take(k as int));
                if str_eq(es[k].as_str(), entity) {
                    c = c + 1;
                }
                k = k + 1;
            }
            assert(es@.take(es.len() as int) =~= es@);
            assert(n + c <= (i + 1) * (u32::MAX as int)) by (nonlinear_arith)
                requires
                    n <= i * (u32::MAX as int),
                    c <= u32::MAX,
            ;
            n = n + c;
        } else {
            assert(n <= (i + 1) * (u32::MAX as int)) by (nonlinear_arith)
                requires
                    n <= i * (u32::MAX as int),
            ;
        }
        i = i + 1;
    }
    assert(history@.take(history.len() as int) =~= history@);
    n
}

/// Whether the pair already occurs in the history before position `i`
/// (outcome) and `k` (entity of that outcome).
pub open spec fn seen_before(h: Seq<RecoveryOutcome>, i: int, k: int) -> bool {
    exists|a: int, b: int|
        0 <= a <= i && 0 <= b < h[a].entities_involved@.len() && (a < i || b < k) && h[a].root_cause@ == h[i].root_cause@
            && (#[trigger] h[a].entities_involved@[b])@ == h[i].entities_involved@[k]@
}

/// Failures that recur: every (root cause, entity) pair seen at least twice,
/// with its count, in order of first occurrence.
pub fn repeated_failures(history: &Vec<RecoveryOutcome>, last_seen: &str) -> (r: Vec<RepeatedFailure>)
    requires
        forall|k: int| 0 <= k < history@.len() ==> (#[trigger] history@[k]).entities_involved@.len() <= u32::MAX,
        history@.len() <= u32::MAX,
    ensures
        forall|j: int|
            0 <= j < r@.len() ==> {
                let f = #[trigger] r@[j];
                &&& f.occurrence_count == pair_count(history@, f.failure_pattern@, f.entity_id@)
                &&& f.occurrence_count >= 2
                &&& f.last_seen@ == last_seen@
            },
        forall|a: int, b: int|
            0 <= a < history@.len() && 0 <= b < history@[a].entities_involved@.len() && pair_count(
                history@,
                history@[a].root_cause@,
                (#[trigger] history@[a].entities_involved@[b])@,
            ) >= 2 ==> exists|j: int|
                0 <= j < r@.len() && (#[trigger] r@[j]).failure_pattern@ == history@[a].root_cause@
                    && r@[j].entity_id@ == history@[a].entities_involved@[b]@,
{
    let mut out: Vec<RepeatedFailure> = Vec::new();
    let mut i: usize = 0;
    while i < history.len()
        invariant
            i <= history.len(),
            forall|k: int| 0 <= k < history@.len() ==> (#[trigger] history@[k]).entities_involved@.len() <= u32::MAX,
            history@.len() <= u32::MAX,
            forall|j: int|
                0 <= j < out@.len() ==> {
                    let f = #[trigger] out@[j];
                    &&& f.occurrence_count == pair_count(history@, f.failure_pattern@, f.entity_id@)
                    &&& f.occurrence_count >= 2
                    &&& f.last_seen@ == last_seen@
                },
            forall|a: int, b: int|
                0 <= a < i && 0 <= b < history@[a].entities_involved@.len() && pair_count(
                    history@,
                    history@[a].root_cause@,
                    (#[trigger] history@[a].entities_involved@[b])@,
                ) >= 2 ==> exists|j: int|
                    0 <= j < out@.len() && (#[trigger] out@[j]).failure_pattern@ == history@[a].root_cause@
                        && out@[j].entity_id@ == history@[a].entities_involved@[b]@,
        decreases history.len() - i,
    {
        let o = &history[i];
        let es = &o.entities_involved;
        let mut k: usize = 0;
        while k < es.len()
            invariant
                k <= es.len(),
                i < history.len(),
                es == history@[i as int].entities_involved,
                o.root_cause == history@[i as int].root_cause,
                forall|k2: int| 0 <= k2 < history@.len() ==> (#[trigger] history@[k2]).entities_involved@.len() <= u32::MAX,
                history@.len() <= u32::MAX,
                forall|j: int|
                    0 <= j < out@.len() ==> {
                        let f = #[trigger] out@[j];
                        &&& f.occurrence_count == pair_count(history@, f.failure_pattern@, f.entity_id@)
                        &&& f.occurrence_count >= 2
                        &&& f.last_seen@ == last_seen@
                    },
                forall|a: int, b: int|
                    0 <= a <= i && 0 <= b < history@[a].entities_involved@.len() && (a < i || b < k) && pair_count(
                        history@,
                        history@[a].root_cause@,
                        (#[trigger] history@[a].entities_involved@[b])@,
                    ) >= 2 ==> exists|j: int|
                        0 <= j < out@.len() && (#[trigger] out@[j]).failure_pattern@ == history@[a].root_cause@
                            && out@[j].entity_id@ == history@[a].entities_involved@[b]@,
            decreases es.len() - k,
        {
            let e = es[k].as_str();
            assert(e@ == history@[i as int].entities_involved@[k as int]@);
            assert(o.root_cause@ == history@[i as int].root_cause@);
            let mut present = false;
            let mut p: usize = 0;
            while p < out.len()
                invariant
                    p <= out.len(),
                    present ==> exists|j: int|
                        0 <= j < out@.len() && (#[trigger] out@[j]).failure_pattern@ == o.root_cause@
                            && out@[j].entity_id@ == e@,
                decreases out.len() - p,
            {
                if str_eq(out[p].failure_pattern.as_str(), o.root_cause.as_str()) && str_eq(
                    out[p].entity_id.as_str(),
                    e,
                ) {
                    present = true;
                }
                p = p + 1;
            }
            if !present {
                let n = count_pair(history, o.root_cause.as_str(), e);
                if n >= 2 {
                    let ghost before = out@;
                    out.push(
                        RepeatedFailure {
                            failure_pattern: o.root_cause.clone(),
                            entity_id: e.to_owned(),
                            occurrence_count: n,
                            last_seen: last_seen.to_owned(),
                        },
                    );
                    proof {
                        assert forall|a: int, b: int|
                            0 <= a <= i && 0 <= b < history@[a].entities_involved@.len() && (a < i || b < k + 1)
                                && pair_count(
                                history@,
                                history@[a].root_cause@,
                                (#[trigger] history@[a].entities_involved@[b])@,
                            ) >= 2 implies exists|j: int|
                                0 <= j < out@.len() && (#[trigger] out@[j]).failure_pattern@ == history@[a].root_cause@
                                    && out@[j].entity_id@ == history@[a].entities_involved@[b]@ by {
                            if a < i || b < k {
                                let j = choose|j: int|
                                    0 <= j < before.len() && (#[trigger] before[j]).failure_pattern@
                                        == history@[a].root_cause@ && before[j].entity_id@
                                        == history@[a].entities_involved@[b]@;
                                assert(out@[j] == before[j]);
                            } else {
                                assert(a == i && b == k);
                                assert(out@[before.len() as int].failure_pattern@ == o.root_cause@);
                                assert(out@[before.len() as int].entity_id@ == e@);
                            }
                        }
                    }
                }
            }
            k = k + 1;
        }
        i = i + 1;
    }
    out
}

} // verus!
