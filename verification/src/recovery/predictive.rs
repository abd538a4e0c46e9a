//! Predictive recovery: early failure indicators found in a telemetry
//! snapshot and in degraded entity health, strongest first.
use vstd::prelude::*;
use crate::recovery::entity::{EntityHealthStatus, EntityRecord, EntityRegistry};
use crate::recovery::types::OrchestratorStrategy;
use crate::text::{ascii_lower, chars_of, concat3, contains_chars, seq_contains, str_contains, to_ascii_lower};

verus! {

/// Where a numeric telemetry reading falls against the confidence
/// thresholds: above 90, above 70, at most 70, or not readable as a number.
#[derive(Debug, Clone, Copy, PartialEq, Eq, Structural)]
pub enum NumberBand {
    Above90,
    Above70,
    AtMost70,
    Unreadable,
}

/// A telemetry value as the indicator scan reads it.
#[derive(Debug)]
pub enum TelemetryValue {
    Number(NumberBand),
    Bool(bool),
    Text(String),
    Object(Vec<(String, TelemetryValue)>),
    Other,
}

/// An early failure indicator; confidence is in percent.
#[derive(Debug, Clone)]
pub struct PredictiveIndicator {
    pub indicator: String,
    pub entity_id: String,
    pub severity: String,
    pub confidence_pct: u32,
    pub recommended_action: OrchestratorStrategy,
    pub preventative: bool,
}

/// An indicator as plain values: name, entity, severity, confidence,
/// recommended action and whether it is preventative.
pub type IndicatorView = (Seq<char>, Seq<char>, Seq<char>, u32, OrchestratorStrategy, bool);

pub open spec fn indicator_view(i: PredictiveIndicator) -> IndicatorView {
    (i.indicator@, i.entity_id@, i.severity@, i.confidence_pct, i.recommended_action, i.preventative)
}

pub open spec fn indicator_views(s: Seq<PredictiveIndicator>) -> Seq<IndicatorView> {
    s.map_values(|i: PredictiveIndicator| indicator_view(i))
}

/// How confident a reading makes an indicator, in percent: numbers by band
/// (90, 75, 60, or 50 when unreadable); true 80 and false 30; text 85 when
/// it mentions a critical state or a failure, 70 a warning or degradation,
/// else 50 (compared in ASCII lowercase); anything else 50.
pub open spec fn spec_metric_confidence(v: TelemetryValue) -> u32 {
    match v {
        TelemetryValue::Number(b) => match b {
            NumberBand::Above90 => 90,
            NumberBand::Above70 => 75,
            NumberBand::AtMost70 => 60,
            NumberBand::Unreadable => 50,
        },
        TelemetryValue::Bool(b) => if b {
            80
        } else {
            30
        },
        TelemetryValue::Text(s) => {
            let l = ascii_lower(s@);
            if seq_contains(l, "critical"@) || seq_contains(l, "fail"@) {
                85
            } else if seq_contains(l, "warn"@) || seq_contains(l, "degrad"@) {
                70
            } else {
                50
            }
        },
        _ => 50,
    }
}

/// How confident a reading makes an indicator, in percent.
pub fn metric_confidence(value: &TelemetryValue) -> (r: u32)
    ensures
        r == spec_metric_confidence(*value),
{
    match value {
        TelemetryValue::Number(b) => match b {
            NumberBand::Above90 => 90,
            NumberBand::Above70 => 75,
            NumberBand::AtMost70 => 60,
            NumberBand::Unreadable => 50,
        },
        TelemetryValue::Bool(b) => if *b {
            80
        } else {
            30
        },
        TelemetryValue::Text(s) => {
            let l = to_ascii_lower(s.as_str());
            if str_contains(l.as_str(), "critical") || str_contains(l.as_str(), "fail") {
                85
            } else if str_contains(l.as_str(), "warn") || str_contains(l.as_str(), "degrad") {
                70
            } else {
                50
            }
        },
        _ => 50,
    }
}

/// The segments of a text split at each `.` (`str::split('.')`): one more
/// than there are dots, empty ones included.
pub open spec fn dot_segments(s: Seq<char>) -> Seq<Seq<char>>
    decreases s.len(),
{
    if s.len() == 0 {
        seq![Seq::empty()]
    } else {
        let rest = dot_segments(s.drop_last());
        if s.last() == '.' {
            rest.push(Seq::empty())
        } else {
            rest.update(rest.len() - 1, rest.last().push(s.last()))
        }
    }
}

proof fn lemma_dot_segments_nonempty(s: Seq<char>)
    ensures
        dot_segments(s).len() >= 1,
    decreases s.len(),
{
    if s.len() > 0 {
        lemma_dot_segments_nonempty(s.drop_last());
    }
}

fn dot_segments_of(s: &str) -> (r: Vec<Vec<char>>)
    ensures
        r@.map_values(|v: Vec<char>| v@) == dot_segments(s@),
{
    let cs = chars_of(s);
    let mut segs: Vec<Vec<char>> = Vec::new();
    segs.push(Vec::new());
    let mut i: usize = 0;
    assert(cs@.take(0) =~= Seq::<char>::empty());
    assert(segs@.map_values(|v: Vec<char>| v@) =~= dot_segments(cs@.take(0)));
    while i < cs.len()
        invariant
            i <= cs.len(),
            cs@ == s@,
            segs@.len() >= 1,
            segs@.map_values(|v: Vec<char>| v@) == dot_segments(cs@.take(i as int)),
        decreases cs.len() - i,
    {
        assert(cs@.take(i + 1).drop_last() =~= cs@.take(i as int));
        let ghost before = segs@.map_values(|v: Vec<char>| v@);
        let c = cs[i];
        if c == '.' {
            segs.push(Vec::new());
            assert(segs@.map_values(|v: Vec<char>| v@) =~= before.push(Seq::empty()));
        } else {
            let mut last = segs.pop().unwrap();
            last.push(c);
            segs.push(last);
            assert(segs@.map_values(|v: Vec<char>| v@) =~= before.update(
                before.len() - 1,
                before.last().push(c),
            ));
        }
        i = i + 1;
    }
    assert(cs@.take(cs.len() as int) =~= cs@);
    segs
}

/// A path segment that names an entity: it mentions a robot, a device, a
/// sensor or a fleet.
pub open spec fn names_entity(seg: Seq<char>) -> bool {
    seq_contains(seg, "robot"@) || seq_contains(seg, "device"@) || seq_contains(seg, "sensor"@) || seq_contains(
        seg,
        "fleet"@,
    )
}

/// The first segment that names an entity, or `unknown`.
pub open spec fn first_entity_segment(segs: Seq<Seq<char>>) -> Seq<char>
    decreases segs.len(),
{
    if segs.len() == 0 {
        "unknown"@
    } else if names_entity(segs[0]) {
        segs[0]
    } else {
        first_entity_segment(segs.drop_first())
    }
}

/// The entity a telemetry path is about: its first dot-separated segment
/// that mentions a robot, device, sensor or fleet, else `unknown`.
pub open spec fn spec_entity_of_path(path: Seq<char>) -> Seq<char> {
    first_entity_segment(dot_segments(path))
}

/// The entity a telemetry path is about.
pub fn extract_entity_id(path: &str) -> (r: String)
    ensures
        r@ == spec_entity_of_path(path@),
{
    let segs = dot_segments_of(path);
    let ghost all = segs@.map_values(|v: Vec<char>| v@);
    let robot = chars_of("robot");
    let device = chars_of("device");
    let sensor = chars_of("sensor");
    let fleet = chars_of("fleet");
    let mut i: usize = 0;
    assert(all.skip(0) =~= all);
    while i < segs.len()
        invariant
            i <= segs.len(),
            all == segs@.map_values(|v: Vec<char>| v@),
            all == dot_segments(path@),
            robot@ == "robot"@,
            device@ == "device"@,
            sensor@ == "sensor"@,
            fleet@ == "fleet"@,
            first_entity_segment(all) == first_entity_segment(all.skip(i as int)),
        decreases segs.len() - i,
    {
        let seg = &segs[i];
        if contains_chars(seg, &robot) || contains_chars(seg, &device) || contains_chars(seg, &sensor)
            || contains_chars(seg, &fleet) {
            assert(all.skip(i as int)[0] == seg@);
            assert(names_entity(seg@));
            assert(all.skip(i as int).len() > 0);
            assert(first_entity_segment(all.skip(i as int)) == seg@);
            return crate::text::string_of(seg);
        }
        assert(all.skip(i as int).drop_first() =~= all.skip(i + 1));
        i = i + 1;
    }
    proof {
        reveal_strlit("unknown");
    }
    assert(all.skip(segs.len() as int) =~= Seq::<Seq<char>>::empty());
    "unknown".to_owned()
}

/// How many indicator patterns the telemetry scan knows.
pub const PATTERN_COUNT: usize = 10;

/// The known indicator patterns, in the order they are tried: the text a
/// metric path must mention, the severity and the recommended action.
pub open spec fn indicator_pattern(k: int) -> (Seq<char>, Seq<char>, OrchestratorStrategy) {
    if k == 0 {
        ("memory_leak"@, "warning"@, OrchestratorStrategy::RestartComponent)
    } else if k == 1 {
        ("increasing_latency"@, "warning"@, OrchestratorStrategy::GracefulDegradation)
    } else if k == 2 {
        ("cpu_spike"@, "warning"@, OrchestratorStrategy::RestartComponent)
    } else if k == 3 {
        ("battery_degradation"@, "warning"@, OrchestratorStrategy::GracefulDegradation)
    } else if k == 4 {
        ("temperature_increase"@, "critical"@, OrchestratorStrategy::SafeShutdown)
    } else if k == 5 {
        ("connectivity_instability"@, "warning"@, OrchestratorStrategy::Reconnect)
    } else if k == 6 {
        ("packet_loss"@, "warning"@, OrchestratorStrategy::SwitchNetwork)
    } else if k == 7 {
        ("sensor_drift"@, "warning"@, OrchestratorStrategy::Reinitialize)
    } else if k == 8 {
        ("repeated_retries"@, "warning"@, OrchestratorStrategy::RestartComponent)
    } else {
        ("crash_frequency"@, "critical"@, OrchestratorStrategy::RestartRobot)
    }
}

fn pattern_at(k: usize) -> (r: (&'static str, &'static str, OrchestratorStrategy))
    requires
        k < PATTERN_COUNT,
    ensures
        (r.0@, r.1@, r.2) == indicator_pattern(k as int),
{
    if k == 0 {
        ("memory_leak", "warning", OrchestratorStrategy::RestartComponent)
    } else if k == 1 {
        ("increasing_latency", "warning", OrchestratorStrategy::GracefulDegradation)
    } else if k == 2 {
        ("cpu_spike", "warning", OrchestratorStrategy::RestartComponent)
    } else if k == 3 {
        ("battery_degradation", "warning", OrchestratorStrategy::GracefulDegradation)
    } else if k == 4 {
        ("temperature_increase", "critical", OrchestratorStrategy::SafeShutdown)
    } else if k == 5 {
        ("connectivity_instability", "warning", OrchestratorStrategy::Reconnect)
    } else if k == 6 {
        ("packet_loss", "warning", OrchestratorStrategy::SwitchNetwork)
    } else if k == 7 {
        ("sensor_drift", "warning", OrchestratorStrategy::Reinitialize)
    } else if k == 8 {
        ("repeated_retries", "warning", OrchestratorStrategy::RestartComponent)
    } else {
        ("crash_frequency", "critical", OrchestratorStrategy::RestartRobot)
    }
}

/// The indicators the first `k` patterns raise for a metric at `path`
/// read with confidence `conf`: one per pattern that the lowercased path
/// mentions, preventative below 85% confidence.
pub open spec fn pattern_hits(path: Seq<char>, conf: u32, k: int) -> Seq<IndicatorView>
    decreases k,
{
    if k <= 0 {
        Seq::empty()
    } else {
        let p = indicator_pattern(k - 1);
        pattern_hits(path, conf, k - 1) + if seq_contains(ascii_lower(path), p.0) {
            seq![(p.0, spec_entity_of_path(path), p.1, conf, p.2, conf < 85)]
        } else {
            Seq::empty()
        }
    }
}

/// The indicators a metric at `path` raises: none below 50% confidence,
/// else one per known pattern the path mentions.
pub open spec fn metric_indicators(path: Seq<char>, v: TelemetryValue) -> Seq<IndicatorView> {
    let conf = spec_metric_confidence(v);
    if conf >= 50 {
        pattern_hits(path, conf, PATTERN_COUNT as int)
    } else {
        Seq::empty()
    }
}

/// Append the indicators a metric at `path` raises.
pub fn check_metric_pattern(path: &str, value: &TelemetryValue, out: &mut Vec<PredictiveIndicator>)
    ensures
        indicator_views(final(out)@) == indicator_views(old(out)@) + metric_indicators(path@, *value),
{
    let ghost start = indicator_views(out@);
    let lower = to_ascii_lower(path);
    let conf = metric_confidence(value);
    if conf < 50 {
        assert(indicator_views(out@) =~= start + metric_indicators(path@, *value));
        return;
    }
    let mut k: usize = 0;
    while k < PATTERN_COUNT
        invariant
            k <= PATTERN_COUNT,
            lower@ == ascii_lower(path@),
            conf == spec_metric_confidence(*value),
            indicator_views(out@) == start + pattern_hits(path@, conf, k as int),
        decreases PATTERN_COUNT - k,
    {
        let (pattern, severity, strategy) = pattern_at(k);
        let ghost before = indicator_views(out@);
        if str_contains(lower.as_str(), pattern) {
            let ind = PredictiveIndicator {
                indicator: pattern.to_owned(),
                entity_id: extract_entity_id(path),
                severity: severity.to_owned(),
                confidence_pct: conf,
                recommended_action: strategy,
                preventative: conf < 85,
            };
            let ghost iv = indicator_view(ind);
            out.push(ind);
            assert(indicator_views(out@) =~= before.push(iv));
        }
        assert(indicator_views(out@) =~= start + pattern_hits(path@, conf, k + 1));
        k = k + 1;
    }
}

/// The path of a key under a prefix: the key alone at the top level, else
/// `prefix.key`.
pub open spec fn child_path(prefix: Seq<char>, key: Seq<char>) -> Seq<char> {
    if prefix.len() == 0 {
        key
    } else {
        prefix + "."@ + key
    }
}

/// How many entries a value holds: those of an object, none otherwise.
pub open spec fn entry_count(v: TelemetryValue) -> int {
    match v {
        TelemetryValue::Object(es) => es@.len() as int,
        _ => 0,
    }
}

/// The indicators raised by the first `n` entries of an object under
/// `prefix`: for each entry in order, those of its own metric, then those
/// of the values nested in it.
pub open spec fn scan_entries(v: TelemetryValue, prefix: Seq<char>, n: int) -> Seq<IndicatorView>
    decreases v, n,
{
    match v {
        TelemetryValue::Object(es) => {
            if n <= 0 || n > es@.len() {
                Seq::empty()
            } else {
                let e = es@[n - 1];
                let path = child_path(prefix, e.0@);
                scan_entries(v, prefix, n - 1) + metric_indicators(path, e.1) + scan_entries(
                    e.1,
                    path,
                    entry_count(e.1),
                )
            }
        },
        _ => Seq::empty(),
    }
}

/// The indicators raised by every metric of a telemetry value, depth
/// first, with paths built under `prefix`.
pub open spec fn scan_value(v: TelemetryValue, prefix: Seq<char>) -> Seq<IndicatorView> {
    scan_entries(v, prefix, entry_count(v))
}

fn child_path_of(prefix: &str, key: &str) -> (r: String)
    ensures
        r@ == child_path(prefix@, key@),
{
    if prefix.is_empty() {
        key.to_owned()
    } else {
        concat3(prefix, ".", key)
    }
}

/// Append the indicators raised by every metric nested in a telemetry
/// value.
pub fn scan_telemetry_object(value: &TelemetryValue, prefix: &str, out: &mut Vec<PredictiveIndicator>)
    ensures
        indicator_views(final(out)@) == indicator_views(old(out)@) + scan_value(*value, prefix@),
    decreases value,
{
    match value {
        TelemetryValue::Object(entries) => {
            let ghost start = indicator_views(out@);
            let mut i: usize = 0;
            assert(scan_entries(*value, prefix@, 0) =~= Seq::<IndicatorView>::empty());
            while i < entries.len()
                invariant
                    i <= entries.len(),
                    *value == TelemetryValue::Object(*entries),
                    indicator_views(out@) == start + scan_entries(*value, prefix@, i as int),
                decreases entries.len() - i,
            {
                let path = child_path_of(prefix, entries[i].0.as_str());
                check_metric_pattern(path.as_str(), &entries[i].1, out);
                scan_telemetry_object(&entries[i].1, path.as_str(), out);
                i = i + 1;
            }
        },
        _ => {},
    }
}

/// The indicator a degraded, warning or critical entity raises.
pub open spec fn health_indicator(e: EntityRecord) -> Seq<IndicatorView> {
    match e.health_status {
        EntityHealthStatus::Degraded | EntityHealthStatus::Warning => seq![
            ("health_degradation"@, e.id@, "warning"@, 70u32, OrchestratorStrategy::GracefulDegradation, true),
        ],
        EntityHealthStatus::Critical => seq![
            ("health_critical"@, e.id@, "critical"@, 90u32, OrchestratorStrategy::RestartRobot, false),
        ],
        _ => Seq::empty(),
    }
}

/// The indicators the entities' health raises, in registry order.
pub open spec fn health_indicators(es: Seq<EntityRecord>) -> Seq<IndicatorView>
    decreases es.len(),
{
    if es.len() == 0 {
        Seq::empty()
    } else {
        health_indicators(es.drop_last()) + health_indicator(es.last())
    }
}

/// The first position whose confidence is below `c` (the length when there
/// is none).
pub open spec fn first_below(s: Seq<IndicatorView>, c: u32) -> int
    decreases s.len(),
{
    if s.len() == 0 {
        0
    } else if s[0].3 < c {
        0
    } else {
        1 + first_below(s.drop_first(), c)
    }
}

/// The indicators ordered by confidence, highest first, those of equal
/// confidence in the order they were found (a stable sort).
pub open spec fn by_confidence(s: Seq<IndicatorView>) -> Seq<IndicatorView>
    decreases s.len(),
{
    if s.len() == 0 {
        s
    } else {
        let r = by_confidence(s.drop_last());
        r.insert(first_below(r, s.last().3), s.last())
    }
}

/// Confidence never rises along the sequence.
pub open spec fn strongest_first(s: Seq<IndicatorView>) -> bool {
    forall|i: int, j: int| 0 <= i < j < s.len() ==> #[trigger] s[i].3 >= #[trigger] s[j].3
}

proof fn lemma_first_below_bounds(s: Seq<IndicatorView>, c: u32)
    ensures
        0 <= first_below(s, c) <= s.len(),
        forall|j: int| 0 <= j < first_below(s, c) ==> #[trigger] s[j].3 >= c,
        first_below(s, c) < s.len() ==> s[first_below(s, c)].3 < c,
    decreases s.len(),
{
    if s.len() > 0 && s[0].3 >= c {
        lemma_first_below_bounds(s.drop_first(), c);
        assert forall|j: int| 0 <= j < first_below(s, c) implies #[trigger] s[j].3 >= c by {
            if j > 0 {
                assert(s[j] == s.drop_first()[j - 1]);
            }
        }
    }
}

proof fn lemma_first_below_is(s: Seq<IndicatorView>, c: u32, p: int)
    requires
        0 <= p <= s.len(),
        forall|j: int| 0 <= j < p ==> #[trigger] s[j].3 >= c,
        p == s.len() || s[p].3 < c,
    ensures
        first_below(s, c) == p,
    decreases p,
{
    if p > 0 {
        assert forall|j: int| 0 <= j < p - 1 implies #[trigger] s.drop_first()[j].3 >= c by {
            assert(s.drop_first()[j] == s[j + 1]);
        }
        lemma_first_below_is(s.drop_first(), c, p - 1);
    }
}

proof fn lemma_by_confidence(s: Seq<IndicatorView>)
    ensures
        strongest_first(by_confidence(s)),
        by_confidence(s).to_multiset() == s.to_multiset(),
    decreases s.len(),
{
    broadcast use vstd::seq_lib::group_to_multiset_ensures;
    if s.len() > 0 {
        let r = by_confidence(s.drop_last());
        let x = s.last();
        lemma_by_confidence(s.drop_last());
        lemma_first_below_bounds(r, x.3);
        let p = first_below(r, x.3);
        let q = r.insert(p, x);
        assert forall|j: int| p <= j < r.len() implies #[trigger] r[j].3 < x.3 by {
            if j > p {
                assert(r[p].3 >= r[j].3);
            }
        }
        assert forall|i: int, j: int| 0 <= i < j < q.len() implies #[trigger] q[i].3 >= #[trigger] q[j].3 by {
            if j < p {
                assert(q[i] == r[i] && q[j] == r[j]);
            } else if j == p {
                assert(q[i] == r[i]);
            } else if i < p {
                assert(q[i] == r[i] && q[j] == r[j - 1]);
            } else if i == p {
                assert(q[j] == r[j - 1]);
            } else {
                assert(q[i] == r[i - 1] && q[j] == r[j - 1]);
            }
        }
        assert(s.drop_last().push(x) =~= s);
    }
}

fn sort_by_confidence(v: Vec<PredictiveIndicator>) -> (r: Vec<PredictiveIndicator>)
    ensures
        indicator_views(r@) == by_confidence(indicator_views(v@)),
{
    let ghost orig = indicator_views(v@);
    let mut rest = v;
    let mut out: Vec<PredictiveIndicator> = Vec::new();
    let mut k: usize = 0;
    assert(orig.len() == rest.len());
    assert(orig.skip(0) =~= orig);
    assert(orig.take(0) =~= Seq::<IndicatorView>::empty());
    while rest.len() > 0
        invariant
            k <= orig.len(),
            orig.len() <= usize::MAX,
            indicator_views(rest@) == orig.skip(k as int),
            indicator_views(out@) == by_confidence(orig.take(k as int)),
        decreases rest.len(),
    {
        let ghost rest_before = rest@;
        assert(indicator_views(rest_before).len() == rest_before.len());
        assert(k < orig.len());
        assert(orig[k as int] == orig.skip(k as int)[0]);
        let x = rest.remove(0);
        assert(indicator_view(x) == orig[k as int]);
        assert(rest@ =~= rest_before.drop_first());
        assert(indicator_views(rest@) =~= indicator_views(rest_before).drop_first());
        assert(orig.skip(k as int).drop_first() =~= orig.skip(k + 1));
        let c = x.confidence_pct;
        let mut p: usize = 0;
        while p < out.len() && out[p].confidence_pct >= c
            invariant
                p <= out.len(),
                forall|j: int| 0 <= j < p ==> #[trigger] out@[j].confidence_pct >= c,
            decreases out.len() - p,
        {
            p = p + 1;
        }
        let ghost sorted = indicator_views(out@);
        proof {
            lemma_first_below_is(sorted, c, p as int);
            assert(orig.take(k + 1).drop_last() =~= orig.take(k as int));
        }
        let ghost xv = indicator_view(x);
        out.insert(p, x);
        assert(indicator_views(out@) =~= sorted.insert(p as int, xv));
        k = k + 1;
    }
    assert(orig.take(k as int) =~= orig);
    out
}

/// The indicators before ordering: those of the telemetry metrics, then
/// those of the entities' health.
pub open spec fn raw_indicators(entities: Seq<EntityRecord>, telemetry: Option<&TelemetryValue>) -> Seq<IndicatorView> {
    (match telemetry {
        Some(t) => scan_value(*t, Seq::empty()),
        None => Seq::empty(),
    }) + health_indicators(entities)
}

/// Scan a telemetry snapshot and the entities' health for early failure
/// indicators; they come out strongest first, none lost or added.
pub fn scan_predictive_indicators(registry: &EntityRegistry, telemetry: Option<&TelemetryValue>) -> (r: Vec<
    PredictiveIndicator,
>)
    ensures
        indicator_views(r@) == by_confidence(raw_indicators(registry.entities@, telemetry)),
        strongest_first(indicator_views(r@)),
        indicator_views(r@).to_multiset() == raw_indicators(registry.entities@, telemetry).to_multiset(),
{
    let mut found: Vec<PredictiveIndicator> = Vec::new();
    match telemetry {
        Some(t) => scan_telemetry_object(t, "", &mut found),
        None => {},
    }
    proof {
        reveal_strlit("");
        assert(""@ =~= Seq::<char>::empty());
    }
    let ghost head = indicator_views(found@);
    assert(head == match telemetry {
        Some(t) => scan_value(*t, Seq::empty()),
        None => Seq::<IndicatorView>::empty(),
    });
    let es = &registry.entities;
    let mut i: usize = 0;
    assert(es@.take(0) =~= Seq::<EntityRecord>::empty());
    while i < es.len()
        invariant
            i <= es.len(),
            indicator_views(found@) == head + health_indicators(es@.take(i as int)),
        decreases es.len() - i,
    {
        assert(es@.take(i + 1).drop_last() =~= es@.take(i as int));
        let e = &es[i];
        let ghost before = indicator_views(found@);
        match e.health_status {
            EntityHealthStatus::Degraded | EntityHealthStatus::Warning => {
                let ind = PredictiveIndicator {
                    indicator: "health_degradation".to_owned(),
                    entity_id: e.id.clone(),
                    severity: "warning".to_owned(),
                    confidence_pct: 70,
                    recommended_action: OrchestratorStrategy::GracefulDegradation,
                    preventative: true,
                };
                let ghost iv = indicator_view(ind);
                found.push(ind);
                assert(indicator_views(found@) =~= before.push(iv));
            },
            EntityHealthStatus::Critical => {
                let ind = PredictiveIndicator {
                    indicator: "health_critical".to_owned(),
                    entity_id: e.id.clone(),
                    severity: "critical".to_owned(),
                    confidence_pct: 90,
                    recommended_action: OrchestratorStrategy::RestartRobot,
                    preventative: false,
                };
                let ghost iv = indicator_view(ind);
                found.push(ind);
                assert(indicator_views(found@) =~= before.push(iv));
            },
            _ => {},
        }
        assert(indicator_views(found@) =~= head + health_indicators(es@.take(i + 1)));
        i = i + 1;
    }
    assert(es@.take(es.len() as int) =~= es@);
    let r = sort_by_confidence(found);
    proof {
        lemma_by_confidence(raw_indicators(registry.entities@, telemetry));
    }
    r
}

/// Whether preventative recovery should start: some preventative indicator
/// is at least 75% confident.
pub fn should_trigger_preventative(indicators: &[PredictiveIndicator]) -> (r: bool)
    ensures
        r == exists|i: int|
            0 <= i < indicators@.len() && (#[trigger] indicators@[i]).preventative && indicators@[i].confidence_pct
                >= 75,
{
    let mut i: usize = 0;
    while i < indicators.len()
        invariant
            i <= indicators.len(),
            forall|j: int|
                0 <= j < i ==> !((#[trigger] indicators@[j]).preventative && indicators@[j].confidence_pct >= 75),
        decreases indicators.len() - i,
    {
        if indicators[i].preventative && indicators[i].confidence_pct >= 75 {
            return true;
        }
        i = i + 1;
    }
    false
}

/// Whether an indicator calls for preventative recovery: it is preventative
/// and at least 75% confident.
pub open spec fn calls_for_prevention(i: IndicatorView) -> bool {
    i.5 && i.3 >= 75
}

proof fn lemma_health_indicators_mild(es: Seq<EntityRecord>)
    ensures
        forall|k: int|
            0 <= k < health_indicators(es).len() ==> !calls_for_prevention(#[trigger] health_indicators(es)[k]),
    decreases es.len(),
{
    if es.len() > 0 {
        lemma_health_indicators_mild(es.drop_last());
        let a = health_indicators(es.drop_last());
        let b = health_indicator(es.last());
        assert(health_indicators(es) == a + b);
        assert forall|k: int| 0 <= k < health_indicators(es).len() implies !calls_for_prevention(
            #[trigger] health_indicators(es)[k],
        ) by {
            if k >= a.len() {
                assert(health_indicators(es)[k] == b[k - a.len()]);
            } else {
                assert(health_indicators(es)[k] == a[k]);
            }
        }
    }
}

/// A scan of entity health alone, without telemetry, never calls for
/// preventative recovery: its preventative indicators are only 70%
/// confident.
pub proof fn law_health_alone_never_triggers_prevention(entities: Seq<EntityRecord>)
    ensures
        forall|k: int|
            0 <= k < by_confidence(raw_indicators(entities, None)).len() ==> !calls_for_prevention(
                #[trigger] by_confidence(raw_indicators(entities, None))[k],
            ),
{
    broadcast use vstd::seq_lib::group_to_multiset_ensures;
    let raw = raw_indicators(entities, None);
    let sorted = by_confidence(raw);
    assert(raw =~= health_indicators(entities));
    lemma_health_indicators_mild(entities);
    lemma_by_confidence(raw);
    assert forall|k: int| 0 <= k < sorted.len() implies !calls_for_prevention(#[trigger] sorted[k]) by {
        let x = sorted[k];
        assert(sorted.contains(x));
        assert(sorted.to_multiset().count(x) > 0);
        assert(raw.contains(x));
        let j = choose|j: int| 0 <= j < raw.len() && raw[j] == x;
        assert(!calls_for_prevention(health_indicators(entities)[j]));
    }
}

} // verus!
