//! The plugin surface: the metric set of one collection cycle, the five
//! static graph definitions and the metric key prefix.
use crate::collector::{get_ntp_info, spec_get_ntp_info};
use crate::decimal::{spec_abs, Decimal};
use crate::error::NtpError;
use crate::parser::NtpInfo;
use vstd::prelude::*;

verus! {

/// The metrics of one collection cycle: dotted key to numeric value.
#[derive(Clone, Debug, PartialEq, Eq)]
pub struct MetricSet {
    pub entries: Vec<(String, Decimal)>,
}

impl View for MetricSet {
    type V = Seq<(Seq<char>, Decimal)>;

    open spec fn view(&self) -> Seq<(Seq<char>, Decimal)> {
        self.entries@.map_values(|e: (String, Decimal)| (e.0@, e.1))
    }
}

/// The six metrics a parsed sample yields: intervals and reach widened
/// to whole-number decimals, delay and jitter as parsed, the offset with
/// its sign discarded.
pub open spec fn spec_metrics_of(info: NtpInfo) -> Seq<(Seq<char>, Decimal)> {
    seq![
        (
            "poll.poll"@,
            (Decimal { negative: false, mantissa: info.poll.interval as u128, scale: 0 as usize }),
        ),
        (
            "poll.when"@,
            (Decimal { negative: false, mantissa: info.when.interval as u128, scale: 0 as usize }),
        ),
        (
            "reach.reach"@,
            (Decimal { negative: false, mantissa: info.reach.reach, scale: 0 as usize }),
        ),
        ("delay.delay"@, info.delay),
        ("offset.offset"@, spec_abs(info.offset)),
        ("jitter.jitter"@, info.jitter),
    ]
}

/// Display unit of a graph.
#[derive(Clone, Copy, Debug, PartialEq, Eq, Structural)]
pub enum GraphUnit {
    Integer,
    Float,
}

/// One metric sub-key within a graph definition.
#[derive(Clone, Debug, PartialEq, Eq)]
pub struct MetricDef {
    pub name: String,
    pub label: String,
}

/// One graph definition: a logical graph, its display label, its unit
/// and the metric sub-keys it groups. Static data, independent of any
/// sample.
#[derive(Clone, Debug, PartialEq, Eq)]
pub struct GraphDef {
    pub name: String,
    pub label: String,
    pub unit: GraphUnit,
    pub metrics: Vec<MetricDef>,
}

/// Mathematical image of a metric definition.
#[verifier::ext_equal]
pub struct MetricDefV {
    pub name: Seq<char>,
    pub label: Seq<char>,
}

/// Mathematical image of a graph definition.
#[verifier::ext_equal]
pub struct GraphDefV {
    pub name: Seq<char>,
    pub label: Seq<char>,
    pub unit: GraphUnit,
    pub metrics: Seq<MetricDefV>,
}

impl View for MetricDef {
    type V = MetricDefV;

    open spec fn view(&self) -> MetricDefV {
        MetricDefV { name: self.name@, label: self.label@ }
    }
}

impl View for GraphDef {
    type V = GraphDefV;

    open spec fn view(&self) -> GraphDefV {
        GraphDefV {
            name: self.name@,
            label: self.label@,
            unit: self.unit,
            metrics: self.metrics@.map_values(|m: MetricDef| m@),
        }
    }
}

/// The five fixed graph definitions: poll, reach, delay, offset, jitter.
pub open spec fn spec_graph_defs() -> Seq<GraphDefV> {
    seq![
        (GraphDefV {
            name: "poll"@,
            label: "NTP poll"@,
            unit: GraphUnit::Integer,
            metrics: seq![
                (MetricDefV { name: "poll"@, label: "poll (sec)"@ }),
                (MetricDefV { name: "when"@, label: "when (sec)"@ }),
            ],
        }),
        (GraphDefV {
            name: "reach"@,
            label: "NTP reach"@,
            unit: GraphUnit::Integer,
            metrics: seq![(MetricDefV { name: "reach"@, label: "reach"@ })],
        }),
        (GraphDefV {
            name: "delay"@,
            label: "NTP delay"@,
            unit: GraphUnit::Float,
            metrics: seq![(MetricDefV { name: "delay"@, label: "delay (msec)"@ })],
        }),
        (GraphDefV {
            name: "offset"@,
            label: "NTP offset"@,
            unit: GraphUnit::Float,
            metrics: seq![(MetricDefV { name: "offset"@, label: "offset (msec)"@ })],
        }),
        (GraphDefV {
            name: "jitter"@,
            label: "NTP jitter"@,
            unit: GraphUnit::Float,
            metrics: seq![(MetricDefV { name: "jitter"@, label: "jitter (msec)"@ })],
        }),
    ]
}

/// The NTP monitoring plugin.
pub struct NtpPlugin {}

impl NtpPlugin {
    /// Produces the metric set of one collection cycle from the query
    /// tool's captured output lines: on success exactly the six entries
    /// of `spec_metrics_of`, otherwise the selection or parse error,
    /// propagated verbatim.
    #[verifier::rlimit(60)]
    pub fn fetch_metrics(&self, lines: &Vec<String>) -> (r: Result<MetricSet, NtpError>)
        ensures
            match (r, spec_get_ntp_info(lines.deep_view())) {
                (Ok(ms), Ok(info)) => ms@ == spec_metrics_of(info),
                (Err(e), Err(e0)) => e == e0,
                _ => false,
            },
    {
        let info = match get_ntp_info(lines) {
            Ok(i) => i,
            Err(e) => {
                return Err(e);
            },
        };
        let mut entries: Vec<(String, Decimal)> = Vec::new();
        entries.push(("poll.poll".to_owned(), Decimal::from_u64(info.poll.interval)));
        entries.push(("poll.when".to_owned(), Decimal::from_u64(info.when.interval)));
        entries.push(("reach.reach".to_owned(), Decimal::from_u128(info.reach.reach)));
        entries.push(("delay.delay".to_owned(), info.delay));
        entries.push(("offset.offset".to_owned(), info.offset.abs()));
        entries.push(("jitter.jitter".to_owned(), info.jitter));
        let ms = MetricSet { entries };
        proof {
            assert(ms@ =~= spec_metrics_of(info));
        }
        Ok(ms)
    }

    /// Returns the five fixed graph definitions; they depend on no live
    /// data.
    pub fn graph_definition(&self) -> (r: Vec<GraphDef>)
        ensures
            r@.map_values(|g: GraphDef| g@) == spec_graph_defs(),
    {
        let mut poll_metrics: Vec<MetricDef> = Vec::new();
        poll_metrics.push(MetricDef { name: "poll".to_owned(), label: "poll (sec)".to_owned() });
        poll_metrics.push(MetricDef { name: "when".to_owned(), label: "when (sec)".to_owned() });
        let mut reach_metrics: Vec<MetricDef> = Vec::new();
        reach_metrics.push(MetricDef { name: "reach".to_owned(), label: "reach".to_owned() });
        let mut delay_metrics: Vec<MetricDef> = Vec::new();
        delay_metrics.push(MetricDef { name: "delay".to_owned(), label: "delay (msec)".to_owned() });
        let mut offset_metrics: Vec<MetricDef> = Vec::new();
        offset_metrics.push(
            MetricDef { name: "offset".to_owned(), label: "offset (msec)".to_owned() },
        );
        let mut jitter_metrics: Vec<MetricDef> = Vec::new();
        jitter_metrics.push(
            MetricDef { name: "jitter".to_owned(), label: "jitter (msec)".to_owned() },
        );
        let mut r: Vec<GraphDef> = Vec::new();
        r.push(
            GraphDef {
                name: "poll".to_owned(),
                label: "NTP poll".to_owned(),
                unit: GraphUnit::Integer,
                metrics: poll_metrics,
            },
        );
        r.push(
            GraphDef {
                name: "reach".to_owned(),
                label: "NTP reach".to_owned(),
                unit: GraphUnit::Integer,
                metrics: reach_metrics,
            },
        );
        r.push(
            GraphDef {
                name: "delay".to_owned(),
                label: "NTP delay".to_owned(),
                unit: GraphUnit::Float,
                metrics: delay_metrics,
            },
        );
        r.push(
            GraphDef {
                name: "offset".to_owned(),
                label: "NTP offset".to_owned(),
                unit: GraphUnit::Float,
                metrics: offset_metrics,
            },
        );
        r.push(
            GraphDef {
                name: "jitter".to_owned(),
                label: "NTP jitter".to_owned(),
                unit: GraphUnit::Float,
                metrics: jitter_metrics,
            },
        );
        proof {
            assert(r@.map_values(|g: GraphDef| g@) =~~= spec_graph_defs());
        }
        r
    }

    /// The fixed key prefix that namespaces all of this plugin's metrics.
    pub fn metric_key_prefix(&self) -> (r: String)
        ensures
            r@ == "ntp"@,
    {
        "ntp".to_owned()
    }
}

/// Law: whatever sample was parsed, the metric set holds exactly six
/// entries, keyed poll.poll, poll.when, reach.reach, delay.delay,
/// offset.offset and jitter.jitter, in that order.
pub proof fn lemma_metric_set_keys(info: NtpInfo)
    ensures
        spec_metrics_of(info).len() == 6,
        spec_metrics_of(info)[0].0 == "poll.poll"@,
        spec_metrics_of(info)[1].0 == "poll.when"@,
        spec_metrics_of(info)[2].0 == "reach.reach"@,
        spec_metrics_of(info)[3].0 == "delay.delay"@,
        spec_metrics_of(info)[4].0 == "offset.offset"@,
        spec_metrics_of(info)[5].0 == "jitter.jitter"@,
{
}

/// Law: the offset metric discards the sign; the reported value is the
/// absolute value of the parsed offset.
pub proof fn lemma_offset_sign_discarded(info: NtpInfo)
    ensures
        spec_metrics_of(info)[4].1 == spec_abs(info.offset),
        !spec_metrics_of(info)[4].1.negative,
{
}

/// A graph's name and one of its metric sub-keys, joined by a dot: the
/// full key under which the framework reports that metric.
pub open spec fn graph_metric_key(g: int, m: int) -> Seq<char> {
    spec_graph_defs()[g].name + "."@ + spec_graph_defs()[g].metrics[m].name
}

/// Whether a metric key is declared by some graph definition.
pub open spec fn key_declared(key: Seq<char>) -> bool {
    exists|g: int, m: int|
        0 <= g < spec_graph_defs().len() && 0 <= m < spec_graph_defs()[g].metrics.len() && key
            == #[trigger] graph_metric_key(g, m)
}

/// Law: every key of the produced metric set corresponds to a metric
/// sub-key declared in some graph definition.
pub proof fn lemma_metric_keys_declared(info: NtpInfo)
    ensures
        forall|i: int|
            0 <= i < spec_metrics_of(info).len() ==> key_declared(
                #[trigger] spec_metrics_of(info)[i].0,
            ),
{
    reveal_strlit("poll.poll");
    reveal_strlit("poll.when");
    reveal_strlit("reach.reach");
    reveal_strlit("delay.delay");
    reveal_strlit("offset.offset");
    reveal_strlit("jitter.jitter");
    reveal_strlit("poll");
    reveal_strlit("when");
    reveal_strlit("reach");
    reveal_strlit("delay");
    reveal_strlit("offset");
    reveal_strlit("jitter");
    reveal_strlit(".");
    assert(spec_metrics_of(info)[0].0 =~= graph_metric_key(0, 0));
    assert(spec_metrics_of(info)[1].0 =~= graph_metric_key(0, 1));
    assert(spec_metrics_of(info)[2].0 =~= graph_metric_key(1, 0));
    assert(spec_metrics_of(info)[3].0 =~= graph_metric_key(2, 0));
    assert(spec_metrics_of(info)[4].0 =~= graph_metric_key(3, 0));
    assert(spec_metrics_of(info)[5].0 =~= graph_metric_key(4, 0));
}

} // verus!
