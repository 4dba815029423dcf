//! The ring of schedule blocks: compiling it from the configuration and
//! choosing the block that is active at an instant.

use vstd::prelude::*;
use crate::backends::Temperature;
use crate::config::{
    presets_known,
    ConfigError,
    Configuration,
    Location,
    Preset,
    ResolveError,
    Schedule,
    SunTimes,
};
use crate::sorting::{sort_by_time, sorted_by_time};
use crate::time::{local_now, TimeOfDay};

verus! {

/// A stretch of the day with its temperature. Where `end` is earlier than
/// `start` the block runs through midnight.
#[derive(Clone, Copy, Debug, PartialEq, Eq, Structural)]
pub struct ScheduleBlock {
    pub start: TimeOfDay,
    pub end: TimeOfDay,
    pub temperature: Temperature,
}

impl ScheduleBlock {
    /// The block from `start` to `end` at the given temperature.
    pub fn new(start: TimeOfDay, end: TimeOfDay, temperature: Temperature) -> (block: ScheduleBlock)
        ensures
            block == (ScheduleBlock { start, end, temperature }),
    {
        ScheduleBlock { start, end, temperature }
    }

    /// The block runs through midnight.
    pub open spec fn wraps(&self) -> bool {
        self.end.before(&self.start)
    }

    /// The block holds `now`: between its two ends, both included, or, for
    /// a block that runs through midnight, from its start on or before its
    /// end.
    pub open spec fn active_at(&self, now: TimeOfDay) -> bool {
        if self.wraps() {
            !now.before(&self.start) || now.before(&self.end)
        } else {
            self.start.at_or_before(&now) && now.at_or_before(&self.end)
        }
    }

    /// Whether the block holds `now`.
    pub fn is_active(&self, now: &TimeOfDay) -> (active: bool)
        ensures
            active == self.active_at(*now),
    {
        if self.end.lt(&self.start) {
            !now.lt(&self.start) || now.lt(&self.end)
        } else {
            self.start.le(now) && now.le(&self.end)
        }
    }
}

/// The time and temperature of each entry whose trigger has a time today and
/// whose temperature is known, in the order of the entries.
pub open spec fn resolved_entries(
    schedule: Seq<Schedule>,
    presets: Seq<Preset>,
    location: Option<Location>,
    sun: Option<SunTimes>,
) -> Seq<(TimeOfDay, Temperature)>
    decreases schedule.len(),
{
    if schedule.len() == 0 {
        Seq::empty()
    } else {
        let front = resolved_entries(schedule.drop_last(), presets, location, sun);
        let entry = schedule.last();
        match (entry.trigger().resolve(location, sun), entry.temperature_in(presets)) {
            (Ok(time), Some(temperature)) => front.push((time, temperature)),
            _ => front,
        }
    }
}

/// The position of each entry whose trigger has no time today, with the
/// reason, in the order of the entries. These are the entries that the
/// ring is compiled without.
pub open spec fn skipped_entries(schedule: Seq<Schedule>, location: Option<Location>, sun: Option<SunTimes>) -> Seq<
    (usize, ResolveError),
>
    decreases schedule.len(),
{
    if schedule.len() == 0 {
        Seq::empty()
    } else {
        let front = skipped_entries(schedule.drop_last(), location, sun);
        match schedule.last().trigger().resolve(location, sun) {
            Err(reason) => front.push(((schedule.len() - 1) as usize, reason)),
            Ok(_) => front,
        }
    }
}

/// The skipped entries are those whose trigger has no time today, each
/// once, with its reason, in the order of the entries; every other entry
/// of a schedule with known presets is resolved.
pub proof fn lemma_skipped_entries(
    schedule: Seq<Schedule>,
    presets: Seq<Preset>,
    location: Option<Location>,
    sun: Option<SunTimes>,
)
    requires
        schedule.len() <= usize::MAX,
    ensures
        forall|k: int|
            0 <= k < skipped_entries(schedule, location, sun).len() ==> {
                let at = (#[trigger] skipped_entries(schedule, location, sun)[k]).0;
                at < schedule.len() && schedule[at as int].trigger().resolve(location, sun) == Err::<
                    crate::time::TimeOfDay,
                    ResolveError,
                >(skipped_entries(schedule, location, sun)[k].1)
            },
        forall|i: int|
            0 <= i < schedule.len() && (#[trigger] schedule[i]).trigger().resolve(location, sun) is Err
                ==> exists|k: int|
                0 <= k < skipped_entries(schedule, location, sun).len() && (#[trigger] skipped_entries(
                    schedule,
                    location,
                    sun,
                )[k]).0 == i,
        forall|k: int, l: int|
            0 <= k < l < skipped_entries(schedule, location, sun).len() ==> (#[trigger] skipped_entries(
                schedule,
                location,
                sun,
            )[k]).0 < (#[trigger] skipped_entries(schedule, location, sun)[l]).0,
        presets_known(schedule, presets) ==> resolved_entries(schedule, presets, location, sun).len()
            + skipped_entries(schedule, location, sun).len() == schedule.len(),
    decreases schedule.len(),
{
    if schedule.len() > 0 {
        let front = schedule.drop_last();
        let last = schedule.len() - 1;
        let skipped = skipped_entries(schedule, location, sun);
        let before = skipped_entries(front, location, sun);
        lemma_skipped_entries(front, presets, location, sun);
        assert forall|k: int| 0 <= k < before.len() implies (#[trigger] before[k]).0 < last
            && schedule[before[k].0 as int] == front[before[k].0 as int] by {}
        assert forall|i: int|
            0 <= i < schedule.len() && (#[trigger] schedule[i]).trigger().resolve(location, sun)
                is Err implies exists|k: int|
            0 <= k < skipped.len() && (#[trigger] skipped[k]).0 == i by {
            if i < last {
                assert(front[i] == schedule[i]);
                let k = choose|k: int| 0 <= k < before.len() && (#[trigger] before[k]).0 == i;
                assert(skipped[k] == before[k]);
            } else {
                assert(skipped[skipped.len() - 1].0 == i);
            }
        }
        if presets_known(schedule, presets) {
            assert forall|i: int| 0 <= i < front.len() implies (#[trigger] front[i]).temperature_in(
                presets,
            ) is Some by {
                assert(front[i] == schedule[i]);
            }
            assert(schedule[last].temperature_in(presets) is Some);
        }
    }
}

/// The block that starts at point `i` and ends at the next point, or at the
/// first point where `i` is the last.
pub open spec fn block_of(points: Seq<(TimeOfDay, Temperature)>, i: int) -> ScheduleBlock {
    ScheduleBlock {
        start: points[i].0,
        end: points[if i + 1 < points.len() { i + 1 } else { 0 }].0,
        temperature: points[i].1,
    }
}

/// One block for each point, in the order of the points.
pub open spec fn ring_of(points: Seq<(TimeOfDay, Temperature)>) -> Seq<ScheduleBlock> {
    Seq::new(points.len(), |i: int| block_of(points, i))
}

/// The ring that a configuration compiles to, given the day's sun times: the
/// blocks between its resolved entries in order of time. A configuration
/// with an entry that names an unknown preset has none.
pub open spec fn compiled(config: &Configuration, sun: Option<SunTimes>) -> Result<
    Seq<ScheduleBlock>,
    ConfigError,
> {
    if presets_known(config.schedule@, config.presets@) {
        Ok(
            ring_of(
                sorted_by_time(
                    resolved_entries(config.schedule@, config.presets@, config.location, sun),
                ),
            ),
        )
    } else {
        Err(ConfigError::UnknownPreset)
    }
}

/// A compilation's outcome with the ring as a sequence.
pub open spec fn ring_view(ring: Result<Vec<ScheduleBlock>, ConfigError>) -> Result<
    Seq<ScheduleBlock>,
    ConfigError,
> {
    match ring {
        Ok(blocks) => Ok(blocks@),
        Err(error) => Err(error),
    }
}

/// The first block of the ring that holds `now`, if any does.
pub open spec fn first_active(ring: Seq<ScheduleBlock>, now: TimeOfDay) -> Option<ScheduleBlock>
    decreases ring.len(),
{
    if ring.len() == 0 {
        None
    } else if ring[0].active_at(now) {
        Some(ring[0])
    } else {
        first_active(ring.drop_first(), now)
    }
}

/// Builds the ring over points that are in order of time.
pub fn build_ring(points: &Vec<(TimeOfDay, Temperature)>) -> (ring: Vec<ScheduleBlock>)
    ensures
        ring@ == ring_of(points@),
{
    let mut ring: Vec<ScheduleBlock> = Vec::new();
    let mut i: usize = 0;
    while i < points.len()
        invariant
            i <= points.len(),
            ring@.len() == i,
            forall|k: int| 0 <= k < i ==> #[trigger] ring@[k] == block_of(points@, k),
        decreases points.len() - i,
    {
        let end = if i + 1 < points.len() {
            points[i + 1].0
        } else {
            points[0].0
        };
        ring.push(ScheduleBlock::new(points[i].0, end, points[i].1));
        i += 1;
    }
    assert(ring@ =~= ring_of(points@));
    ring
}

/// Compiles the schedule of a configuration into its ring of blocks, given
/// the day's sun times. Entries whose trigger has no time today are left
/// out, and `unresolved_entries` tells which; an entry that names an
/// unknown preset is an error.
pub fn parse_schedule(config: &Configuration, sun: &Option<SunTimes>) -> (ring: Result<
    Vec<ScheduleBlock>,
    ConfigError,
>)
    ensures
        ring_view(ring) == compiled(config, *sun),
{
    let mut points: Vec<(TimeOfDay, Temperature)> = Vec::new();
    let mut i: usize = 0;
    while i < config.schedule.len()
        invariant
            i <= config.schedule.len(),
            presets_known(config.schedule@.take(i as int), config.presets@),
            points@ == resolved_entries(
                config.schedule@.take(i as int),
                config.presets@,
                config.location,
                *sun,
            ),
        decreases config.schedule.len() - i,
    {
        let entry = &config.schedule[i];
        proof {
            assert(config.schedule@.take(i + 1).drop_last() == config.schedule@.take(i as int));
            assert(config.schedule@.take(i + 1).last() == config.schedule@[i as int]);
        }
        match entry.get_temperature(&config.presets) {
            None => {
                assert(config.schedule@[i as int].temperature_in(config.presets@) is None);
                return Err(ConfigError::UnknownPreset);
            },
            Some(temperature) => {
                match entry.get_time(&config.location, sun) {
                    Ok(time) => {
                        points.push((time, temperature));
                    },
                    Err(_) => {},
                }
            },
        }
        assert forall|k: int| 0 <= k < i + 1 implies (#[trigger] config.schedule@.take(
            i + 1,
        )[k]).temperature_in(config.presets@) is Some by {
            if k < i {
                assert(config.schedule@.take(i + 1)[k] == config.schedule@.take(i as int)[k]);
            }
        }
        i += 1;
    }
    assert(config.schedule@.take(config.schedule.len() as int) == config.schedule@);
    let sorted = sort_by_time(&points);
    Ok(build_ring(&sorted))
}

/// The entries that the ring is compiled without, because their trigger
/// has no time today: the position of each in the schedule, and the reason.
pub fn unresolved_entries(config: &Configuration, sun: &Option<SunTimes>) -> (skipped: Vec<
    (usize, ResolveError),
>)
    ensures
        skipped@ == skipped_entries(config.schedule@, config.location, *sun),
{
    let mut skipped: Vec<(usize, ResolveError)> = Vec::new();
    let mut i: usize = 0;
    while i < config.schedule.len()
        invariant
            i <= config.schedule.len(),
            skipped@ == skipped_entries(config.schedule@.take(i as int), config.location, *sun),
        decreases config.schedule.len() - i,
    {
        proof {
            assert(config.schedule@.take(i + 1).drop_last() == config.schedule@.take(i as int));
            assert(config.schedule@.take(i + 1).last() == config.schedule@[i as int]);
        }
        match config.schedule[i].get_time(&config.location, sun) {
            Err(reason) => {
                skipped.push((i, reason));
            },
            Ok(_) => {},
        }
        i += 1;
    }
    assert(config.schedule@.take(config.schedule.len() as int) == config.schedule@);
    skipped
}

/// The first block of the ring that holds `now`, if any does.
pub fn select(ring: &Vec<ScheduleBlock>, now: &TimeOfDay) -> (block: Option<ScheduleBlock>)
    ensures
        block == first_active(ring@, *now),
{
    let mut i: usize = 0;
    assert(ring@.skip(0) == ring@);
    while i < ring.len()
        invariant
            i <= ring.len(),
            first_active(ring@, *now) == first_active(ring@.skip(i as int), *now),
        decreases ring.len() - i,
    {
        assert(ring@.skip(i as int)[0] == ring@[i as int]);
        assert(ring@.skip(i as int).drop_first() == ring@.skip(i as int + 1));
        if ring[i].is_active(now) {
            return Some(ring[i]);
        }
        i += 1;
    }
    assert(ring@.skip(i as int).len() == 0);
    None
}

/// The block of the ring that is active at the local time of the call: the
/// first that holds that time, whichever time of day it is.
pub fn get_current_schedule(schedule: Vec<ScheduleBlock>) -> (block: Option<ScheduleBlock>)
    ensures
        exists|now: TimeOfDay| now.wf() && block == first_active(schedule@, now),
{
    let now = local_now();
    select(&schedule, &now)
}

} // verus!
