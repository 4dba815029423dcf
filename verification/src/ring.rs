//! What holds of every compiled ring.

use vstd::prelude::*;
use vstd::seq_lib::*;
use crate::backends::Temperature;
use crate::config::{ConfigError, Configuration, Location, Preset, Schedule, SunTimes};
use crate::daemon::{block_of, compiled, first_active, resolved_entries, ring_of, ring_view, ScheduleBlock};
use crate::sorting::{
    distinct_times,
    insert_by_time,
    insert_index,
    lemma_insert_index,
    lemma_sorted_by_time,
    sorted_by_time,
    strictly_ascending,
};
use crate::time::TimeOfDay;

verus! {

/// The times of the entries, in their order.
pub open spec fn times_of(items: Seq<(TimeOfDay, Temperature)>) -> Seq<TimeOfDay> {
    items.map_values(|item: (TimeOfDay, Temperature)| item.0)
}

/// The start times of the blocks, in their order.
pub open spec fn starts_of(ring: Seq<ScheduleBlock>) -> Seq<TimeOfDay> {
    ring.map_values(|block: ScheduleBlock| block.start)
}

/// Sorting keeps the times, each as often as it was given.
pub proof fn lemma_sorted_times(items: Seq<(TimeOfDay, Temperature)>)
    ensures
        times_of(sorted_by_time(items)).to_multiset() == times_of(items).to_multiset(),
    decreases items.len(),
{
    if items.len() == 0 {
        assert(items == Seq::<(TimeOfDay, Temperature)>::empty());
    } else {
        let front = items.drop_last();
        let sorted = sorted_by_time(front);
        let at = insert_index(sorted, items.last());
        lemma_sorted_times(front);
        lemma_insert_index(sorted, items.last());
        assert(times_of(insert_by_time(sorted, items.last())) == times_of(sorted).insert(
            at,
            items.last().0,
        ));
        to_multiset_insert(times_of(sorted), at, items.last().0);
        assert(times_of(front).push(items.last().0) == times_of(items));
        to_multiset_build(times_of(front), items.last().0);
    }
}

/// Entries of distinct times come out of the sort each earlier than the next.
pub proof fn lemma_sorted_distinct(items: Seq<(TimeOfDay, Temperature)>)
    requires
        distinct_times(items),
    ensures
        strictly_ascending(sorted_by_time(items)),
{
    let sorted = sorted_by_time(items);
    lemma_sorted_by_time(items);
    lemma_sorted_times(items);
    assert(times_of(items).no_duplicates()) by {
        assert forall|i: int, j: int|
            0 <= i < times_of(items).len() && 0 <= j < times_of(items).len() && i != j implies times_of(
            items,
        )[i] != times_of(items)[j] by {
            if i < j {
                assert(items[i].0 != items[j].0);
            } else {
                assert(items[j].0 != items[i].0);
            }
        }
    }
    times_of(items).lemma_multiset_has_no_duplicates();
    times_of(sorted).lemma_multiset_has_no_duplicates_conv();
    assert forall|i: int, j: int| 0 <= i < j < sorted.len() implies sorted[i].0.before(
        &sorted[j].0,
    ) by {
        assert(sorted[i].0.at_or_before(&sorted[j].0));
        assert(times_of(sorted)[i] != times_of(sorted)[j]);
    }
}

/// The ring over one or more entries of distinct times has one block for
/// each entry; every block ends where the next one starts, the last where
/// the first starts; the blocks start each earlier than the next, and their
/// start times are the times of the entries.
pub proof fn lemma_ring_shape(entries: Seq<(TimeOfDay, Temperature)>)
    requires
        entries.len() >= 1,
        distinct_times(entries),
    ensures
        ring_of(sorted_by_time(entries)).len() == entries.len(),
        forall|i: int|
            0 <= i < entries.len() ==> (#[trigger] ring_of(sorted_by_time(entries))[i]).end == ring_of(
                sorted_by_time(entries),
            )[(i + 1) % (entries.len() as int)].start,
        forall|i: int, j: int|
            0 <= i < j < entries.len() ==> (#[trigger] ring_of(sorted_by_time(entries))[i]).start.before(
                &(#[trigger] ring_of(sorted_by_time(entries))[j]).start,
            ),
        starts_of(ring_of(sorted_by_time(entries))) == times_of(sorted_by_time(entries)),
        starts_of(ring_of(sorted_by_time(entries))).to_multiset() == times_of(entries).to_multiset(),
{
    let sorted = sorted_by_time(entries);
    let ring = ring_of(sorted);
    let n = entries.len() as int;
    lemma_sorted_by_time(entries);
    lemma_sorted_times(entries);
    lemma_sorted_distinct(entries);
    assert forall|i: int| 0 <= i < n implies (#[trigger] ring[i]).end == ring[(i + 1) % n].start by {
        if i + 1 < n {
            assert((i + 1) % n == i + 1) by (nonlinear_arith)
                requires
                    0 <= i,
                    i + 1 < n,
            ;
        } else {
            assert((i + 1) % n == 0) by (nonlinear_arith)
                requires
                    i + 1 == n,
                    n > 0,
            ;
        }
    }
    assert(starts_of(ring) =~= times_of(sorted));
}

/// The block that `first_active` gives is active, and none before it is;
/// where it gives none, no block is active.
pub proof fn lemma_first_active(ring: Seq<ScheduleBlock>, now: TimeOfDay)
    ensures
        first_active(ring, now) is Some ==> exists|i: int|
            0 <= i < ring.len() && #[trigger] ring[i] == first_active(ring, now).unwrap()
                && ring[i].active_at(now) && forall|j: int|
                0 <= j < i ==> !(#[trigger] ring[j]).active_at(now),
        first_active(ring, now) is None ==> forall|i: int|
            0 <= i < ring.len() ==> !(#[trigger] ring[i]).active_at(now),
    decreases ring.len(),
{
    if ring.len() > 0 && !ring[0].active_at(now) {
        let rest = ring.drop_first();
        lemma_first_active(rest, now);
        if first_active(rest, now) is Some {
            let i = choose|i: int|
                0 <= i < rest.len() && #[trigger] rest[i] == first_active(rest, now).unwrap()
                    && rest[i].active_at(now) && forall|j: int|
                    0 <= j < i ==> !(#[trigger] rest[j]).active_at(now);
            assert(ring[i + 1] == rest[i]);
            assert forall|j: int| 0 <= j < i + 1 implies !(#[trigger] ring[j]).active_at(now) by {
                if j > 0 {
                    assert(ring[j] == rest[j - 1]);
                }
            }
        } else {
            assert forall|i: int| 0 <= i < ring.len() implies !(#[trigger] ring[i]).active_at(
                now,
            ) by {
                if i > 0 {
                    assert(ring[i] == rest[i - 1]);
                }
            }
        }
    }
}

/// The first active block is the one chosen.
pub proof fn lemma_first_active_at(ring: Seq<ScheduleBlock>, now: TimeOfDay, at: int)
    requires
        0 <= at < ring.len(),
        ring[at].active_at(now),
        forall|j: int| 0 <= j < at ==> !(#[trigger] ring[j]).active_at(now),
    ensures
        first_active(ring, now) == Some(ring[at]),
    decreases at,
{
    if at > 0 {
        let rest = ring.drop_first();
        assert(!ring[0].active_at(now));
        assert(rest[at - 1] == ring[at]);
        assert forall|j: int| 0 <= j < at - 1 implies !(#[trigger] rest[j]).active_at(now) by {
            assert(rest[j] == ring[j + 1]);
        }
        lemma_first_active_at(rest, now, at - 1);
    }
}

/// Between two points that lie on either side of `now` there are two
/// neighbours that do.
proof fn lemma_gap(points: Seq<(TimeOfDay, Temperature)>, now: TimeOfDay, low: int, high: int)
    requires
        strictly_ascending(points),
        0 <= low < high < points.len(),
        points[low].0.before(&now),
        now.before(&points[high].0),
        forall|i: int| 0 <= i < points.len() ==> (#[trigger] points[i]).0 != now,
    ensures
        exists|i: int|
            low <= i < high && (#[trigger] points[i]).0.before(&now) && now.before(&points[i + 1].0),
    decreases high - low,
{
    if low + 1 == high {
        assert(points[low].0.before(&now) && now.before(&points[low + 1].0));
    } else if now.before(&points[low + 1].0) {
        assert(points[low].0.before(&now) && now.before(&points[low + 1].0));
    } else {
        assert(points[low + 1].0 != now);
        lemma_gap(points, now, low + 1, high);
    }
}

/// In a ring over two or more points, each earlier than the next, exactly
/// one block is active at a time that is none of the points.
pub proof fn lemma_one_active_block(points: Seq<(TimeOfDay, Temperature)>, now: TimeOfDay)
    requires
        points.len() >= 2,
        strictly_ascending(points),
        forall|i: int| 0 <= i < points.len() ==> (#[trigger] points[i]).0 != now,
    ensures
        exists|i: int|
            0 <= i < points.len() && (#[trigger] ring_of(points)[i]).active_at(now) && forall|j: int|
                0 <= j < points.len() && j != i ==> !(#[trigger] ring_of(points)[j]).active_at(now),
{
    let ring = ring_of(points);
    let n = points.len() as int;
    let last = n - 1;
    assert(points[0].0.before(&points[last].0));
    assert(points[0].0 != now && points[last].0 != now);
    let chosen = if now.before(&points[0].0) || points[last].0.before(&now) {
        last
    } else {
        lemma_gap(points, now, 0, last);
        choose|i: int|
            0 <= i < last && (#[trigger] points[i]).0.before(&now) && now.before(&points[i + 1].0)
    };
    assert(ring[chosen] == block_of(points, chosen));
    if chosen < last {
        assert(points[chosen].0.before(&points[chosen + 1].0));
    }
    assert(ring[chosen].active_at(now));
    assert forall|j: int| 0 <= j < n && j != chosen implies !(#[trigger] ring[j]).active_at(now) by {
        assert(ring[j] == block_of(points, j));
        assert(points[j].0 != now);
        if j < last {
            assert(points[j].0.before(&points[j + 1].0));
            assert(points[j + 1].0 != now);
            if chosen == last {
                if now.before(&points[0].0) {
                    if j > 0 {
                        assert(points[0].0.before(&points[j].0));
                    }
                } else {
                    if j + 1 < last {
                        assert(points[j + 1].0.before(&points[last].0));
                    }
                }
            } else if j < chosen {
                if j + 1 < chosen {
                    assert(points[j + 1].0.before(&points[chosen].0));
                }
            } else {
                if chosen + 1 < j {
                    assert(points[chosen + 1].0.before(&points[j].0));
                }
            }
        } else {
            assert(chosen < last);
            if 0 < chosen {
                assert(points[0].0.before(&points[chosen].0));
            }
            if chosen + 1 < last {
                assert(points[chosen + 1].0.before(&points[last].0));
            }
        }
    }
}

/// At the time of one of its points, a ring over points that are each
/// earlier than the next chooses the block that starts at the first point,
/// and for every later point the block that ends there.
pub proof fn lemma_select_at_point(points: Seq<(TimeOfDay, Temperature)>, at: int)
    requires
        strictly_ascending(points),
        0 <= at < points.len(),
    ensures
        first_active(ring_of(points), points[at].0) == Some(
            ring_of(points)[if at == 0 {
                0
            } else {
                at - 1
            }],
        ),
{
    let ring = ring_of(points);
    let now = points[at].0;
    let n = points.len() as int;
    if at == 0 {
        assert(ring[0] == block_of(points, 0));
        if n > 1 {
            assert(points[0].0.before(&points[1].0));
        }
        lemma_first_active_at(ring, now, 0);
    } else {
        assert(ring[at - 1] == block_of(points, at - 1));
        assert(points[at - 1].0.before(&points[at].0));
        assert forall|j: int| 0 <= j < at - 1 implies !(#[trigger] ring[j]).active_at(now) by {
            assert(ring[j] == block_of(points, j));
            assert(points[j].0.before(&points[j + 1].0));
            assert(points[j + 1].0.before(&points[at].0));
        }
        lemma_first_active_at(ring, now, at - 1);
    }
}

/// Every entry is somewhere in the sorted sequence.
pub proof fn lemma_sorted_has(items: Seq<(TimeOfDay, Temperature)>, at: int)
    requires
        0 <= at < items.len(),
    ensures
        exists|k: int| 0 <= k < items.len() && #[trigger] sorted_by_time(items)[k] == items[at],
{
    let sorted = sorted_by_time(items);
    lemma_sorted_by_time(items);
    assert(items.contains(items[at]));
    to_multiset_contains(items, items[at]);
    to_multiset_contains(sorted, items[at]);
    let k = choose|k: int| 0 <= k < sorted.len() && sorted[k] == items[at];
    assert(sorted[k] == items[at]);
}

/// Everything in the sorted sequence is one of the entries.
pub proof fn lemma_sorted_from(items: Seq<(TimeOfDay, Temperature)>, at: int)
    requires
        0 <= at < items.len(),
    ensures
        exists|j: int| 0 <= j < items.len() && #[trigger] items[j] == sorted_by_time(items)[at],
{
    let sorted = sorted_by_time(items);
    lemma_sorted_by_time(items);
    assert(sorted.contains(sorted[at]));
    to_multiset_contains(sorted, sorted[at]);
    to_multiset_contains(items, sorted[at]);
    let j = choose|j: int| 0 <= j < items.len() && items[j] == sorted[at];
    assert(items[j] == sorted[at]);
}

/// No entry is earlier than entry `at`.
pub open spec fn earliest(entries: Seq<(TimeOfDay, Temperature)>, at: int) -> bool {
    forall|j: int| 0 <= j < entries.len() ==> !(#[trigger] entries[j]).0.before(&entries[at].0)
}

/// Entry `before` is earlier than entry `at`, and no entry lies between the
/// two.
pub open spec fn just_before(entries: Seq<(TimeOfDay, Temperature)>, before: int, at: int) -> bool {
    &&& 0 <= before < entries.len()
    &&& entries[before].0.before(&entries[at].0)
    &&& forall|q: int|
        0 <= q < entries.len() ==> !(entries[before].0.before(&(#[trigger] entries[q]).0)
            && entries[q].0.before(&entries[at].0))
}

/// In a ring compiled from two or more entries of distinct times, exactly
/// one block is active at a time that is none of the entries' times.
pub proof fn lemma_one_active_block_of_entries(entries: Seq<(TimeOfDay, Temperature)>, now: TimeOfDay)
    requires
        entries.len() >= 2,
        distinct_times(entries),
        forall|j: int| 0 <= j < entries.len() ==> (#[trigger] entries[j]).0 != now,
    ensures
        exists|i: int|
            0 <= i < entries.len() && (#[trigger] ring_of(sorted_by_time(entries))[i]).active_at(now)
                && forall|j: int|
                0 <= j < entries.len() && j != i ==> !(#[trigger] ring_of(
                    sorted_by_time(entries),
                )[j]).active_at(now),
{
    let sorted = sorted_by_time(entries);
    lemma_sorted_by_time(entries);
    lemma_sorted_distinct(entries);
    assert forall|i: int| 0 <= i < sorted.len() implies (#[trigger] sorted[i]).0 != now by {
        lemma_sorted_from(entries, i);
    }
    lemma_one_active_block(sorted, now);
}

/// At the time of one of its entries, a ring compiled from entries of
/// distinct times chooses the block of the earliest entry at that entry's
/// time, and at the time of any other entry the block of the entry just
/// before it, which ends there.
pub proof fn lemma_select_at_boundary(entries: Seq<(TimeOfDay, Temperature)>, at: int)
    requires
        distinct_times(entries),
        0 <= at < entries.len(),
    ensures
        first_active(ring_of(sorted_by_time(entries)), entries[at].0) is Some,
        earliest(entries, at) ==> first_active(
            ring_of(sorted_by_time(entries)),
            entries[at].0,
        ).unwrap().temperature == entries[at].1,
        forall|before: int| #[trigger]
            just_before(entries, before, at) ==> first_active(
                ring_of(sorted_by_time(entries)),
                entries[at].0,
            ).unwrap().temperature == entries[before].1,
{
    let sorted = sorted_by_time(entries);
    let ring = ring_of(sorted);
    lemma_sorted_by_time(entries);
    lemma_sorted_distinct(entries);
    lemma_sorted_has(entries, at);
    let k = choose|k: int| 0 <= k < entries.len() && #[trigger] sorted[k] == entries[at];
    lemma_select_at_point(sorted, k);
    if k > 0 {
        assert(ring[k - 1] == block_of(sorted, k - 1));
        assert(sorted[k - 1].0.before(&sorted[k].0));
        lemma_sorted_from(entries, k - 1);
        let p = choose|j: int| 0 <= j < entries.len() && #[trigger] entries[j] == sorted[k - 1];
        assert(entries[p].0.before(&entries[at].0));
        assert(!earliest(entries, at));
        assert forall|before: int| #[trigger]
            just_before(entries, before, at) implies entries[before].1 == sorted[k - 1].1 by {
            lemma_sorted_has(entries, before);
            let r = choose|r: int| 0 <= r < entries.len() && #[trigger] sorted[r] == entries[before];
            if r > k {
                assert(sorted[k].0.before(&sorted[r].0));
            }
            if r < k - 1 {
                assert(sorted[r].0.before(&sorted[k - 1].0));
                assert(entries[before].0.before(&entries[p].0) && entries[p].0.before(
                    &entries[at].0,
                ));
            }
            assert(r == k - 1);
        }
    } else {
        assert(ring[0] == block_of(sorted, 0));
        assert forall|before: int| #[trigger] just_before(entries, before, at) implies false by {
            lemma_sorted_has(entries, before);
            let r = choose|r: int| 0 <= r < entries.len() && #[trigger] sorted[r] == entries[before];
            if r > 0 {
                assert(sorted[0].0.before(&sorted[r].0));
            }
        }
    }
}

/// Choosing at an entry's own time gives that entry's temperature where the
/// entry is the earliest of the day, or has the temperature of the entry
/// just before it. (At the time of any other entry the block that ends
/// there is chosen, with the temperature of the entry before.)
pub proof fn lemma_select_at_trigger_time(entries: Seq<(TimeOfDay, Temperature)>, at: int)
    requires
        distinct_times(entries),
        0 <= at < entries.len(),
        earliest(entries, at) || exists|before: int| #[trigger]
            just_before(entries, before, at) && entries[before].1 == entries[at].1,
    ensures
        first_active(ring_of(sorted_by_time(entries)), entries[at].0) is Some,
        first_active(ring_of(sorted_by_time(entries)), entries[at].0).unwrap().temperature
            == entries[at].1,
{
    lemma_select_at_boundary(entries, at);
}

/// Entry `i` has a time today and a known temperature.
pub open spec fn resolves(
    schedule: Seq<Schedule>,
    presets: Seq<Preset>,
    location: Option<Location>,
    sun: Option<SunTimes>,
    i: int,
) -> bool {
    schedule[i].trigger().resolve(location, sun) is Ok && schedule[i].temperature_in(presets) is Some
}

/// The time and temperature of entry `i`.
pub open spec fn resolved_at(
    schedule: Seq<Schedule>,
    presets: Seq<Preset>,
    location: Option<Location>,
    sun: Option<SunTimes>,
    i: int,
) -> (TimeOfDay, Temperature) {
    (schedule[i].trigger().resolve(location, sun)->Ok_0, schedule[i].temperature_in(presets)->Some_0)
}

/// Where every entry has a time and a known temperature, each entry is
/// resolved, in its place.
pub proof fn lemma_all_resolved(
    schedule: Seq<Schedule>,
    presets: Seq<Preset>,
    location: Option<Location>,
    sun: Option<SunTimes>,
)
    requires
        forall|i: int| 0 <= i < schedule.len() ==> #[trigger] resolves(schedule, presets, location, sun, i),
    ensures
        resolved_entries(schedule, presets, location, sun) == Seq::new(
            schedule.len(),
            |i: int| resolved_at(schedule, presets, location, sun, i),
        ),
    decreases schedule.len(),
{
    if schedule.len() > 0 {
        let front = schedule.drop_last();
        assert forall|i: int| 0 <= i < front.len() implies #[trigger] resolves(
            front,
            presets,
            location,
            sun,
            i,
        ) by {
            assert(resolves(schedule, presets, location, sun, i));
            assert(front[i] == schedule[i]);
        }
        lemma_all_resolved(front, presets, location, sun);
        assert(resolves(schedule, presets, location, sun, schedule.len() - 1));
        assert(resolved_entries(schedule, presets, location, sun) =~= Seq::new(
            schedule.len(),
            |i: int| resolved_at(schedule, presets, location, sun, i),
        ));
    } else {
        assert(resolved_entries(schedule, presets, location, sun) =~= Seq::new(
            schedule.len(),
            |i: int| resolved_at(schedule, presets, location, sun, i),
        ));
    }
}

/// A configuration of one or more entries, each with a time today and a
/// known temperature, no two at the same time, compiles to a ring with one
/// block for each entry; every block ends where the next one starts, the
/// last where the first starts; the blocks start each earlier than the
/// next, and their start times are the times of the entries.
pub proof fn lemma_compiled_ring_shape(config: &Configuration, sun: Option<SunTimes>)
    requires
        config.schedule@.len() >= 1,
        forall|i: int|
            0 <= i < config.schedule@.len() ==> #[trigger] resolves(
                config.schedule@,
                config.presets@,
                config.location,
                sun,
                i,
            ),
        forall|i: int, j: int|
            0 <= i < j < config.schedule@.len() ==> config.schedule@[i].trigger().resolve(
                config.location,
                sun,
            ) != config.schedule@[j].trigger().resolve(config.location, sun),
    ensures
        compiled(config, sun) is Ok,
        compiled(config, sun)->Ok_0.len() == config.schedule@.len(),
        forall|i: int|
            0 <= i < config.schedule@.len() ==> (#[trigger] compiled(config, sun)->Ok_0[i]).end == compiled(
                config,
                sun,
            )->Ok_0[(i + 1) % (config.schedule@.len() as int)].start,
        forall|i: int, j: int|
            0 <= i < j < config.schedule@.len() ==> (#[trigger] compiled(config, sun)->Ok_0[i]).start.before(
                &(#[trigger] compiled(config, sun)->Ok_0[j]).start,
            ),
        starts_of(compiled(config, sun)->Ok_0).to_multiset() == Seq::new(
            config.schedule@.len(),
            |i: int| config.schedule@[i].trigger().resolve(config.location, sun)->Ok_0,
        ).to_multiset(),
{
    let schedule = config.schedule@;
    let entries = resolved_entries(schedule, config.presets@, config.location, sun);
    lemma_all_resolved(schedule, config.presets@, config.location, sun);
    assert forall|i: int| 0 <= i < schedule.len() implies (#[trigger] schedule[i]).temperature_in(
        config.presets@,
    ) is Some by {
        assert(resolves(schedule, config.presets@, config.location, sun, i));
    }
    assert forall|i: int, j: int| 0 <= i < j < entries.len() implies entries[i].0 != entries[j].0 by {
        assert(resolves(schedule, config.presets@, config.location, sun, i));
        assert(resolves(schedule, config.presets@, config.location, sun, j));
    }
    lemma_ring_shape(entries);
    assert(times_of(entries) =~= Seq::new(
        schedule.len(),
        |i: int| schedule[i].trigger().resolve(config.location, sun)->Ok_0,
    ));
}

/// Compiling is repeatable: configurations with the same entries, presets
/// and location compile, under the same sun times, to the same blocks in
/// the same order, or fail alike.
pub proof fn lemma_compile_is_repeatable(
    first_config: &Configuration,
    second_config: &Configuration,
    sun: Option<SunTimes>,
    first: Result<Vec<ScheduleBlock>, ConfigError>,
    second: Result<Vec<ScheduleBlock>, ConfigError>,
)
    requires
        first_config.schedule@ == second_config.schedule@,
        first_config.presets@ == second_config.presets@,
        first_config.location == second_config.location,
        ring_view(first) == compiled(first_config, sun),
        ring_view(second) == compiled(second_config, sun),
    ensures
        ring_view(first) == ring_view(second),
{
}

} // verus!
