//! Demultiplexing of telemetry events into one stream per category.
use vstd::prelude::*;

use crate::time::{Diff, Time};

verus! {

/// A type that can be converted to a vector of another type: how an engine's
/// log event becomes the flat record of its category.
pub trait AsVector<T> {
    /// Converts `self` to a vector of `T`.
    fn as_vector(self) -> Vec<T>;
}

/// An event of the execution engine's log, with its payload already in the
/// flat record form of its category.
pub enum TimelyEvent<V> {
    Operates(V),
    Channels(V),
    Schedule(V),
    Messages(V),
    /// Any other kind of event: it is dropped.
    Other,
}

/// The categories of execution telemetry that are kept.
#[derive(Debug, PartialEq, Eq, Structural, Clone, Copy)]
pub enum TimelyCategory {
    Operates,
    Channels,
    Schedule,
    Messages,
}

/// An event of the incremental engine's log.
pub enum DifferentialEvent<V> {
    Batch(V),
    Merge(V),
    /// Any other kind of event: it is dropped.
    Other,
}

/// The categories of incremental-engine telemetry that are kept.
#[derive(Debug, PartialEq, Eq, Structural, Clone, Copy)]
pub enum DifferentialCategory {
    Batch,
    Merge,
}

/// A logged event: the time it was recorded, the worker that logged it, and
/// the event itself.
pub type LogRecord<E> = (Time, usize, E);

/// An update of one output stream: a record, its time, and its change.
pub type Update<V> = (V, Time, Diff);

pub open spec fn timely_category<V>(e: TimelyEvent<V>) -> Option<TimelyCategory> {
    match e {
        TimelyEvent::Operates(_) => Some(TimelyCategory::Operates),
        TimelyEvent::Channels(_) => Some(TimelyCategory::Channels),
        TimelyEvent::Schedule(_) => Some(TimelyCategory::Schedule),
        TimelyEvent::Messages(_) => Some(TimelyCategory::Messages),
        TimelyEvent::Other => None,
    }
}

pub open spec fn timely_payload<V>(e: TimelyEvent<V>) -> V
    recommends
        e !is Other,
{
    match e {
        TimelyEvent::Operates(v) => v,
        TimelyEvent::Channels(v) => v,
        TimelyEvent::Schedule(v) => v,
        TimelyEvent::Messages(v) => v,
        TimelyEvent::Other => arbitrary(),
    }
}

pub open spec fn differential_category<V>(e: DifferentialEvent<V>) -> Option<DifferentialCategory> {
    match e {
        DifferentialEvent::Batch(_) => Some(DifferentialCategory::Batch),
        DifferentialEvent::Merge(_) => Some(DifferentialCategory::Merge),
        DifferentialEvent::Other => None,
    }
}

pub open spec fn differential_payload<V>(e: DifferentialEvent<V>) -> V
    recommends
        e !is Other,
{
    match e {
        DifferentialEvent::Batch(v) => v,
        DifferentialEvent::Merge(v) => v,
        DifferentialEvent::Other => arbitrary(),
    }
}

/// The updates that category `c` receives from a batch: one per event of
/// that category, with its payload, its own time and change +1, listed from
/// the last event of the batch to the first.
pub open spec fn timely_routed<V>(s: Seq<LogRecord<TimelyEvent<V>>>, c: TimelyCategory) -> Seq<
    Update<V>,
>
    decreases s.len(),
{
    if s.len() == 0 {
        Seq::empty()
    } else {
        let rest = timely_routed(s.drop_last(), c);
        if timely_category(s.last().2) == Some(c) {
            seq![(timely_payload(s.last().2), s.last().0, 1 as Diff)] + rest
        } else {
            rest
        }
    }
}

/// The number of events of a batch that belong to no kept category.
pub open spec fn timely_dropped<V>(s: Seq<LogRecord<TimelyEvent<V>>>) -> nat
    decreases s.len(),
{
    if s.len() == 0 {
        0
    } else {
        timely_dropped(s.drop_last()) + if timely_category(s.last().2) is None {
            1nat
        } else {
            0nat
        }
    }
}

/// As `timely_routed`, for the incremental engine's events.
pub open spec fn differential_routed<V>(
    s: Seq<LogRecord<DifferentialEvent<V>>>,
    c: DifferentialCategory,
) -> Seq<Update<V>>
    decreases s.len(),
{
    if s.len() == 0 {
        Seq::empty()
    } else {
        let rest = differential_routed(s.drop_last(), c);
        if differential_category(s.last().2) == Some(c) {
            seq![(differential_payload(s.last().2), s.last().0, 1 as Diff)] + rest
        } else {
            rest
        }
    }
}

/// As `timely_dropped`, for the incremental engine's events.
pub open spec fn differential_dropped<V>(s: Seq<LogRecord<DifferentialEvent<V>>>) -> nat
    decreases s.len(),
{
    if s.len() == 0 {
        0
    } else {
        differential_dropped(s.drop_last()) + if differential_category(s.last().2) is None {
            1nat
        } else {
            0nat
        }
    }
}

/// The four output streams of execution telemetry.
pub struct TimelyStreams<V> {
    pub operates: Vec<Update<V>>,
    pub channels: Vec<Update<V>>,
    pub schedule: Vec<Update<V>>,
    pub messages: Vec<Update<V>>,
}

/// The two output streams of incremental-engine telemetry.
pub struct DifferentialStreams<V> {
    pub batch: Vec<Update<V>>,
    pub merge: Vec<Update<V>>,
}

/// Splits a batch of execution telemetry by category; events of no kept
/// category are dropped.
pub fn demux_timely<V>(batch: Vec<LogRecord<TimelyEvent<V>>>) -> (r: TimelyStreams<V>)
    ensures
        r.operates@ == timely_routed(batch@, TimelyCategory::Operates),
        r.channels@ == timely_routed(batch@, TimelyCategory::Channels),
        r.schedule@ == timely_routed(batch@, TimelyCategory::Schedule),
        r.messages@ == timely_routed(batch@, TimelyCategory::Messages),
{
    let ghost orig = batch@;
    let mut batch = batch;
    let mut r = TimelyStreams {
        operates: Vec::new(),
        channels: Vec::new(),
        schedule: Vec::new(),
        messages: Vec::new(),
    };
    assert(r.operates@ + timely_routed(batch@, TimelyCategory::Operates) =~= timely_routed(
        orig,
        TimelyCategory::Operates,
    ));
    assert(r.channels@ + timely_routed(batch@, TimelyCategory::Channels) =~= timely_routed(
        orig,
        TimelyCategory::Channels,
    ));
    assert(r.schedule@ + timely_routed(batch@, TimelyCategory::Schedule) =~= timely_routed(
        orig,
        TimelyCategory::Schedule,
    ));
    assert(r.messages@ + timely_routed(batch@, TimelyCategory::Messages) =~= timely_routed(
        orig,
        TimelyCategory::Messages,
    ));
    while batch.len() > 0
        invariant
            timely_routed(orig, TimelyCategory::Operates) == r.operates@ + timely_routed(
                batch@,
                TimelyCategory::Operates,
            ),
            timely_routed(orig, TimelyCategory::Channels) == r.channels@ + timely_routed(
                batch@,
                TimelyCategory::Channels,
            ),
            timely_routed(orig, TimelyCategory::Schedule) == r.schedule@ + timely_routed(
                batch@,
                TimelyCategory::Schedule,
            ),
            timely_routed(orig, TimelyCategory::Messages) == r.messages@ + timely_routed(
                batch@,
                TimelyCategory::Messages,
            ),
        decreases batch@.len(),
    {
        let ghost before = batch@;
        let ghost old_r_operates = r.operates@;
        let ghost old_r_channels = r.channels@;
        let ghost old_r_schedule = r.schedule@;
        let ghost old_r_messages = r.messages@;
        let record = batch.pop();
        match record {
            Some((time, _worker, event)) => {
                proof {
                    assert(batch@ =~= before.drop_last());
                }
                match event {
                    TimelyEvent::Operates(v) => r.operates.push((v, time, 1)),
                    TimelyEvent::Channels(v) => r.channels.push((v, time, 1)),
                    TimelyEvent::Schedule(v) => r.schedule.push((v, time, 1)),
                    TimelyEvent::Messages(v) => r.messages.push((v, time, 1)),
                    TimelyEvent::Other => {},
                }
                proof {
                    assert(timely_routed(orig, TimelyCategory::Operates) =~= r.operates@
                        + timely_routed(batch@, TimelyCategory::Operates));
                    assert(timely_routed(orig, TimelyCategory::Channels) =~= r.channels@
                        + timely_routed(batch@, TimelyCategory::Channels));
                    assert(timely_routed(orig, TimelyCategory::Schedule) =~= r.schedule@
                        + timely_routed(batch@, TimelyCategory::Schedule));
                    assert(timely_routed(orig, TimelyCategory::Messages) =~= r.messages@
                        + timely_routed(batch@, TimelyCategory::Messages));
                }
            },
            None => {},
        }
    }
    assert(r.operates@ =~= r.operates@ + timely_routed(batch@, TimelyCategory::Operates));
    assert(r.channels@ =~= r.channels@ + timely_routed(batch@, TimelyCategory::Channels));
    assert(r.schedule@ =~= r.schedule@ + timely_routed(batch@, TimelyCategory::Schedule));
    assert(r.messages@ =~= r.messages@ + timely_routed(batch@, TimelyCategory::Messages));
    r
}

/// Splits a batch of incremental-engine telemetry by category; events of no
/// kept category are dropped.
pub fn demux_differential<V>(batch: Vec<LogRecord<DifferentialEvent<V>>>) -> (r:
    DifferentialStreams<V>)
    ensures
        r.batch@ == differential_routed(batch@, DifferentialCategory::Batch),
        r.merge@ == differential_routed(batch@, DifferentialCategory::Merge),
{
    let ghost orig = batch@;
    let mut batch = batch;
    let mut r = DifferentialStreams { batch: Vec::new(), merge: Vec::new() };
    assert(r.batch@ + differential_routed(batch@, DifferentialCategory::Batch) =~= differential_routed(
        orig,
        DifferentialCategory::Batch,
    ));
    assert(r.merge@ + differential_routed(batch@, DifferentialCategory::Merge) =~= differential_routed(
        orig,
        DifferentialCategory::Merge,
    ));
    while batch.len() > 0
        invariant
            differential_routed(orig, DifferentialCategory::Batch) == r.batch@
                + differential_routed(batch@, DifferentialCategory::Batch),
            differential_routed(orig, DifferentialCategory::Merge) == r.merge@
                + differential_routed(batch@, DifferentialCategory::Merge),
        decreases batch@.len(),
    {
        let ghost before = batch@;
        let record = batch.pop();
        match record {
            Some((time, _worker, event)) => {
                proof {
                    assert(batch@ =~= before.drop_last());
                }
                match event {
                    DifferentialEvent::Batch(v) => r.batch.push((v, time, 1)),
                    DifferentialEvent::Merge(v) => r.merge.push((v, time, 1)),
                    DifferentialEvent::Other => {},
                }
                proof {
                    assert(differential_routed(orig, DifferentialCategory::Batch) =~= r.batch@
                        + differential_routed(batch@, DifferentialCategory::Batch));
                    assert(differential_routed(orig, DifferentialCategory::Merge) =~= r.merge@
                        + differential_routed(batch@, DifferentialCategory::Merge));
                }
            },
            None => {},
        }
    }
    assert(r.batch@ =~= r.batch@ + differential_routed(batch@, DifferentialCategory::Batch));
    assert(r.merge@ =~= r.merge@ + differential_routed(batch@, DifferentialCategory::Merge));
    r
}

/// Demultiplexing is a partition: every event of a batch goes to exactly one
/// of the four outputs or is dropped, so the outputs and the dropped events
/// together count the batch.
pub proof fn timely_demux_is_partition<V>(s: Seq<LogRecord<TimelyEvent<V>>>)
    ensures
        timely_routed(s, TimelyCategory::Operates).len() + timely_routed(
            s,
            TimelyCategory::Channels,
        ).len() + timely_routed(s, TimelyCategory::Schedule).len() + timely_routed(
            s,
            TimelyCategory::Messages,
        ).len() + timely_dropped(s) == s.len(),
    decreases s.len(),
{
    if s.len() > 0 {
        timely_demux_is_partition(s.drop_last());
    }
}

/// Each output holds exactly the events of its own category: an update of
/// an output comes from an event of that category, with its payload, its time
/// and change +1.
pub proof fn timely_demux_keeps_category<V>(
    s: Seq<LogRecord<TimelyEvent<V>>>,
    c: TimelyCategory,
    i: int,
)
    requires
        0 <= i < timely_routed(s, c).len(),
    ensures
        exists|j: int|
            0 <= j < s.len() && timely_category(#[trigger] s[j].2) == Some(c)
                && timely_routed(s, c)[i] == (timely_payload(s[j].2), s[j].0, 1 as Diff),
    decreases s.len(),
{
    let rest = timely_routed(s.drop_last(), c);
    if timely_category(s.last().2) == Some(c) && i == 0 {
        assert(timely_category(s[s.len() - 1].2) == Some(c));
    } else {
        let k = if timely_category(s.last().2) == Some(c) {
            i - 1
        } else {
            i
        };
        assert(timely_routed(s, c)[i] == rest[k]);
        timely_demux_keeps_category(s.drop_last(), c, k);
        let j = choose|j: int|
            0 <= j < s.drop_last().len() && timely_category(#[trigger] s.drop_last()[j].2) == Some(c)
                && rest[k] == (timely_payload(s.drop_last()[j].2), s.drop_last()[j].0, 1 as Diff);
        assert(s[j] == s.drop_last()[j]);
    }
}

/// As `timely_demux_is_partition`, for the incremental engine's events.
pub proof fn differential_demux_is_partition<V>(s: Seq<LogRecord<DifferentialEvent<V>>>)
    ensures
        differential_routed(s, DifferentialCategory::Batch).len() + differential_routed(
            s,
            DifferentialCategory::Merge,
        ).len() + differential_dropped(s) == s.len(),
    decreases s.len(),
{
    if s.len() > 0 {
        differential_demux_is_partition(s.drop_last());
    }
}

} // verus!
