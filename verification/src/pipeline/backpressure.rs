//! Backpressure: pausing the sources of tables whose channels fill up, and
//! resuming them once the channels drain.

use vstd::prelude::*;
use crate::keyed::KeyedMap;

verus! {

/// How backpressure is applied. The watermarks are percentages of the
/// channel capacity, held as the bits of their binary64 values.
#[derive(Debug, Clone, Copy)]
pub struct BackpressureConfig {
    /// Pause when usage reaches this percentage (binary64 bits).
    pub high_watermark: u64,
    /// Resume when usage falls to this percentage (binary64 bits).
    pub low_watermark: u64,
    /// How often usage is checked, in milliseconds.
    pub check_interval_ms: u64,
    /// The capacity of each channel.
    pub channel_capacity: usize,
}

impl Default for BackpressureConfig {
    fn default() -> (r: Self)
        ensures
            r.high_watermark == 0x4054_0000_0000_0000u64,
            r.low_watermark == 0x404E_0000_0000_0000u64,
            r.check_interval_ms == 100,
            r.channel_capacity == 1000,
    {
        BackpressureConfig {
            high_watermark: 0x4054_0000_0000_0000u64,
            low_watermark: 0x404E_0000_0000_0000u64,
            check_interval_ms: 100,
            channel_capacity: 1000,
        }
    }
}

/// The usage of a table's channel.
#[derive(Debug, Clone, Copy, PartialEq, Eq, Structural)]
pub struct ChannelMetrics {
    /// Items in the channel.
    pub current_size: usize,
    /// Whether the table's source is paused.
    pub is_throttled: bool,
}

/// What the backpressure manager asks of the sources.
#[derive(Debug, Clone)]
pub enum BackpressureEvent {
    PauseSource(String),
    ResumeSource(String),
    PauseAll,
    ResumeAll,
}

/// Where a channel's usage stands against the watermarks.
#[derive(Debug, Clone, Copy, PartialEq, Eq, Structural)]
pub struct UsageLevel {
    /// Usage is at or above the high watermark.
    pub at_or_above_high: bool,
    /// Usage is at or below the low watermark.
    pub at_or_below_low: bool,
}

/// What a check of one table does: a source that is running and reached
/// the high watermark is paused; one that is paused and fell to the low
/// watermark is resumed. `Some(true)` pauses, `Some(false)` resumes.
pub open spec fn throttle_change(m: ChannelMetrics, l: UsageLevel) -> Option<bool> {
    if !m.is_throttled && l.at_or_above_high {
        Some(true)
    } else if m.is_throttled && l.at_or_below_low {
        Some(false)
    } else {
        None
    }
}

/// The channels after checking the tables of `checks` in order.
pub open spec fn after_checks(
    m: Map<Seq<char>, ChannelMetrics>,
    checks: Seq<(Seq<char>, UsageLevel)>,
) -> Map<Seq<char>, ChannelMetrics>
    decreases checks.len(),
{
    if checks.len() == 0 {
        m
    } else {
        let prev = after_checks(m, checks.drop_last());
        let (t, l) = checks.last();
        if prev.contains_key(t) {
            match throttle_change(prev[t], l) {
                Some(b) => prev.insert(t, ChannelMetrics { current_size: prev[t].current_size, is_throttled: b }),
                None => prev,
            }
        } else {
            prev
        }
    }
}

/// The pauses (`true`) and resumes (`false`) that checking the tables of
/// `checks` in order asks for, with their tables.
pub open spec fn check_events(
    m: Map<Seq<char>, ChannelMetrics>,
    checks: Seq<(Seq<char>, UsageLevel)>,
) -> Seq<(bool, Seq<char>)>
    decreases checks.len(),
{
    if checks.len() == 0 {
        seq![]
    } else {
        let prev = after_checks(m, checks.drop_last());
        let evs = check_events(m, checks.drop_last());
        let (t, l) = checks.last();
        if prev.contains_key(t) {
            match throttle_change(prev[t], l) {
                Some(b) => evs.push((b, t)),
                None => evs,
            }
        } else {
            evs
        }
    }
}

/// A pause or resume of one source as a pair of the direction and the
/// table.
pub open spec fn source_event(e: BackpressureEvent) -> Option<(bool, Seq<char>)> {
    match e {
        BackpressureEvent::PauseSource(t) => Some((true, t@)),
        BackpressureEvent::ResumeSource(t) => Some((false, t@)),
        _ => None,
    }
}

/// The channel usage of each table and whether its source is paused.
pub struct BackpressureManager {
    pub config: BackpressureConfig,
    pub channel_metrics: KeyedMap<ChannelMetrics>,
}

impl BackpressureManager {
    /// The channels are well kept.
    pub open spec fn wf(&self) -> bool {
        self.channel_metrics.wf()
    }

    /// A manager watching no table yet.
    pub fn new(config: BackpressureConfig) -> (r: Self)
        ensures
            r.wf(),
            r.config == config,
            r.channel_metrics@ == Map::<Seq<char>, ChannelMetrics>::empty(),
    {
        BackpressureManager { config, channel_metrics: KeyedMap::new() }
    }

    /// Records the number of items in a table's channel; a new table starts
    /// unthrottled.
    pub fn update_channel_size(&mut self, table: &String, size: usize)
        requires
            old(self).wf(),
        ensures
            final(self).wf(),
            final(self).config == old(self).config,
            final(self).channel_metrics@ == old(self).channel_metrics@.insert(
                table@,
                ChannelMetrics {
                    current_size: size,
                    is_throttled: old(self).channel_metrics@.contains_key(table@)
                        && old(self).channel_metrics@[table@].is_throttled,
                },
            ),
    {
        let throttled = match self.channel_metrics.get(table) {
            Some(m) => m.is_throttled,
            None => false,
        };
        self.channel_metrics.insert(table.clone(), ChannelMetrics { current_size: size, is_throttled: throttled });
    }

    /// Starts watching a table with an empty, unthrottled channel, unless
    /// it is watched already.
    pub fn register_table(&mut self, table: &String)
        requires
            old(self).wf(),
        ensures
            final(self).wf(),
            final(self).config == old(self).config,
            final(self).channel_metrics@ == (if old(self).channel_metrics@.contains_key(table@) {
                old(self).channel_metrics@
            } else {
                old(self).channel_metrics@.insert(table@, ChannelMetrics { current_size: 0, is_throttled: false })
            }),
    {
        if !self.channel_metrics.contains_key(table) {
            self.channel_metrics.insert(table.clone(), ChannelMetrics { current_size: 0, is_throttled: false });
        }
    }

    /// Whether a table's source is paused; an unknown table's is not.
    pub fn is_throttled(&self, table: &String) -> (r: bool)
        requires
            self.wf(),
        ensures
            r == (self.channel_metrics@.contains_key(table@) && self.channel_metrics@[table@].is_throttled),
    {
        match self.channel_metrics.get(table) {
            Some(m) => m.is_throttled,
            None => false,
        }
    }

    /// Checks tables against the watermarks, in order, given where each
    /// one's usage stands: pauses the running sources that reached the
    /// high watermark and resumes the paused ones that fell to the low
    /// one, and returns those pauses and resumes. Unknown tables are
    /// passed over.
    pub fn check(&mut self, checks: &Vec<(String, UsageLevel)>) -> (r: Vec<BackpressureEvent>)
        requires
            old(self).wf(),
        ensures
            final(self).wf(),
            final(self).config == old(self).config,
            final(self).channel_metrics@ == after_checks(
                old(self).channel_metrics@,
                checks@.map_values(|c: (String, UsageLevel)| (c.0@, c.1)),
            ),
            r@.map_values(|e: BackpressureEvent| source_event(e)->0) == check_events(
                old(self).channel_metrics@,
                checks@.map_values(|c: (String, UsageLevel)| (c.0@, c.1)),
            ),
            forall|i: int| 0 <= i < r@.len() ==> #[trigger] source_event(r@[i]) is Some,
    {
        let ghost m0 = old(self).channel_metrics@;
        let ghost cs = checks@.map_values(|c: (String, UsageLevel)| (c.0@, c.1));
        let mut r: Vec<BackpressureEvent> = Vec::new();
        let mut i: usize = 0;
        proof {
            assert(cs.take(0) =~= Seq::<(Seq<char>, UsageLevel)>::empty());
            assert(r@.map_values(|e: BackpressureEvent| source_event(e)->0) =~= Seq::<(bool, Seq<char>)>::empty());
        }
        while i < checks.len()
            invariant
                i <= checks@.len(),
                cs == checks@.map_values(|c: (String, UsageLevel)| (c.0@, c.1)),
                self.wf(),
                self.config == old(self).config,
                self.channel_metrics@ == after_checks(m0, cs.take(i as int)),
                r@.map_values(|e: BackpressureEvent| source_event(e)->0) == check_events(m0, cs.take(i as int)),
                forall|j: int| 0 <= j < r@.len() ==> #[trigger] source_event(r@[j]) is Some,
            decreases checks@.len() - i,
        {
            let ghost before = cs.take(i as int);
            let ghost after = cs.take(i + 1);
            proof {
                assert(after.drop_last() =~= before);
                assert(after.last() == cs[i as int]);
            }
            let (t, l) = (&checks[i].0, checks[i].1);
            let ghost r0 = r@;
            let current = match self.channel_metrics.get(t) {
                Some(m) => Some(*m),
                None => None,
            };
            match current {
                Some(m) => {
                    if !m.is_throttled && l.at_or_above_high {
                        self.channel_metrics.insert(t.clone(), ChannelMetrics { current_size: m.current_size, is_throttled: true });
                        r.push(BackpressureEvent::PauseSource(t.clone()));
                    } else if m.is_throttled && l.at_or_below_low {
                        self.channel_metrics.insert(t.clone(), ChannelMetrics { current_size: m.current_size, is_throttled: false });
                        r.push(BackpressureEvent::ResumeSource(t.clone()));
                    }
                },
                None => {},
            }
            proof {
                assert(r@.map_values(|e: BackpressureEvent| source_event(e)->0) =~= check_events(m0, after)) by {
                    assert(r0.map_values(|e: BackpressureEvent| source_event(e)->0) == check_events(m0, before));
                    if r@.len() > r0.len() {
                        assert(r@ == r0.push(r@.last()));
                    } else {
                        assert(r@ == r0);
                    }
                }
            }
            i = i + 1;
        }
        proof {
            assert(cs.take(checks@.len() as int) =~= cs);
        }
        r
    }
}

} // verus!
