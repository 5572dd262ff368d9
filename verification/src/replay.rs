//! The replay timeline of a capture.
//!
//! The controller is driven by a clock that the caller reads: `now` is a reading of it, and
//! `elapsed_ms` is the time that passed on the timeline, speed included, since the reading that
//! [`ReplayController::anchor`] names.

use crate::capture::ReplayRecord;
#[allow(unused_imports)]
use crate::capture::ReplayRecordView;
use crate::numbers;
use crate::numbers::F32Bits;
use crate::text;
use chrono::NaiveDateTime;
use std::path::PathBuf;
use vstd::prelude::*;
#[allow(unused_imports)]
use vstd::string::*;

verus! {

/// The distance of records whose timestamps cannot be read.
pub const SYNTHETIC_STEP_MS: u64 = 10;

/// The most records that one tick hands out.
pub const MAX_TICK_BATCH: usize = 10_000;

/// How timestamps are written.
pub const TIMESTAMP_FORMAT: &'static str = "%Y-%m-%d %H:%M:%S%.f";

/// The bit pattern of the slowest speed, 0.25.
pub const MIN_SPEED_BITS: u32 = 0x3E80_0000;

/// The bit pattern of the fastest speed, 20.0.
pub const MAX_SPEED_BITS: u32 = 0x41A0_0000;

/// The bit pattern of the recorded speed, 1.0.
pub const NORMAL_SPEED_BITS: u32 = 0x3F80_0000;

/// A record with its place on the timeline.
#[derive(Debug, PartialEq, Eq)]
pub struct TimedReplayRecord {
    pub offset_ms: u64,
    pub record: ReplayRecord,
}

/// The mathematical value of [`TimedReplayRecord`].
#[verifier::ext_equal]
pub struct TimedReplayRecordView {
    pub offset_ms: u64,
    pub record: ReplayRecordView,
}

impl DeepView for TimedReplayRecord {
    type V = TimedReplayRecordView;

    open spec fn deep_view(&self) -> TimedReplayRecordView {
        TimedReplayRecordView {
            offset_ms: self.offset_ms,
            record: self.record.deep_view(),
        }
    }
}

impl Clone for TimedReplayRecord {
    fn clone(&self) -> (r: Self)
        ensures
            r.deep_view() == self.deep_view(),
    {
        TimedReplayRecord {
            offset_ms: self.offset_ms,
            record: self.record.clone(),
        }
    }
}

/// A capture that is played back.
#[derive(Debug)]
pub struct ReplayController {
    path: PathBuf,
    records: Vec<TimedReplayRecord>,
    duration_ms: u64,
    position_ms: u64,
    cursor: usize,
    speed: F32Bits,
    playing: bool,
    anchor: Option<u64>,
    anchor_position_ms: u64,
}

/// The mathematical value of [`ReplayController`].
#[verifier::ext_equal]
pub struct ReplayControllerView {
    pub path: PathBuf,
    /// The records in the order of the capture.
    pub records: Seq<TimedReplayRecordView>,
    /// The place of the last record.
    pub duration: u64,
    /// The current place.
    pub position: u64,
    /// The next record to be handed out.
    pub cursor: int,
    pub speed: F32Bits,
    pub playing: bool,
    /// The clock reading from which time is counted.
    pub anchor: Option<u64>,
    /// The place at that reading.
    pub anchor_position: u64,
}

impl DeepView for ReplayController {
    type V = ReplayControllerView;

    closed spec fn deep_view(&self) -> ReplayControllerView {
        ReplayControllerView {
            path: self.path,
            records: self.records.deep_view(),
            duration: self.duration_ms,
            position: self.position_ms,
            cursor: self.cursor as int,
            speed: self.speed,
            playing: self.playing,
            anchor: self.anchor,
            anchor_position: self.anchor_position_ms,
        }
    }
}

/// Whether no record stands before its predecessor on the timeline.
pub open spec fn in_order(records: Seq<TimedReplayRecordView>) -> bool {
    forall|i: int, j: int|
        0 <= i <= j < records.len() ==> (#[trigger] records[i]).offset_ms <= (
        #[trigger] records[j]).offset_ms
}

/// The place of the last record, or zero.
pub open spec fn end_of(records: Seq<TimedReplayRecordView>) -> u64 {
    if records.len() == 0 {
        0
    } else {
        records.last().offset_ms
    }
}

/// What holds of a controller at any time.
pub open spec fn replay_wf(v: ReplayControllerView) -> bool {
    &&& in_order(v.records)
    &&& v.duration == end_of(v.records)
    &&& v.position <= v.duration
    &&& v.anchor_position <= v.duration
    &&& 0 <= v.cursor <= v.records.len()
    &&& v.playing ==> v.records.len() > 0
    &&& v.playing <==> v.anchor is Some
}

/// The place that the clock has reached.
pub open spec fn synced(v: ReplayControllerView, elapsed_ms: u64) -> ReplayControllerView {
    if v.playing {
        let reached = v.anchor_position + elapsed_ms;
        ReplayControllerView {
            position: if reached <= v.duration {
                reached as u64
            } else {
                v.duration
            },
            ..v
        }
    } else {
        v
    }
}

/// Time is counted from here on.
pub open spec fn reanchored(v: ReplayControllerView, now: u64) -> ReplayControllerView {
    ReplayControllerView {
        anchor: if v.playing {
            Some(now)
        } else {
            None
        },
        anchor_position: v.position,
        ..v
    }
}

/// The first record at or after a place.
pub open spec fn first_at_or_after(records: Seq<TimedReplayRecordView>, place: u64) -> int
    decreases records.len(),
{
    if records.len() == 0 || records[0].offset_ms >= place {
        0
    } else {
        1 + first_at_or_after(records.skip(1), place)
    }
}

/// The controller at a place, its cursor at the first record there or later.
pub open spec fn sought(v: ReplayControllerView, place: u64, now: u64) -> ReplayControllerView {
    let position = if place <= v.duration {
        place
    } else {
        v.duration
    };
    reanchored(
        ReplayControllerView { position, cursor: first_at_or_after(v.records, position), ..v },
        now,
    )
}

/// The controller after it started to play: from the start where it had come to the end.
pub open spec fn played(v: ReplayControllerView, now: u64) -> ReplayControllerView {
    if v.records.len() == 0 {
        v
    } else {
        let from = if v.position >= v.duration && v.cursor >= v.records.len() {
            sought(v, 0, now)
        } else {
            v
        };
        reanchored(ReplayControllerView { playing: true, ..from }, now)
    }
}

/// The controller after it was paused.
pub open spec fn paused(v: ReplayControllerView, elapsed_ms: u64) -> ReplayControllerView {
    ReplayControllerView { playing: false, anchor: None, ..synced(v, elapsed_ms) }
}

/// The controller after a step.
pub open spec fn stepped(v: ReplayControllerView, elapsed_ms: u64) -> ReplayControllerView {
    let still = paused(v, elapsed_ms);
    if still.cursor < still.records.len() {
        ReplayControllerView {
            position: still.records[still.cursor].offset_ms,
            cursor: still.cursor + 1,
            ..still
        }
    } else {
        still
    }
}

/// The controller at a record.
pub open spec fn at_event(v: ReplayControllerView, index: int, elapsed_ms: u64) -> ReplayControllerView {
    if 0 <= index < v.records.len() {
        let offset = v.records[index].offset_ms;
        ReplayControllerView {
            position: offset,
            cursor: index,
            anchor_position: offset,
            ..paused(v, elapsed_ms)
        }
    } else {
        v
    }
}

/// The record before the cursor.
pub open spec fn previous_index(v: ReplayControllerView) -> int {
    if v.cursor == 0 {
        0
    } else {
        v.cursor - 1
    }
}

/// The record at the cursor, or the last one.
pub open spec fn next_index(v: ReplayControllerView) -> int {
    if v.records.len() == 0 {
        0
    } else if v.cursor <= v.records.len() - 1 {
        v.cursor
    } else {
        v.records.len() - 1
    }
}

/// How many records from `cursor` on are due at a place, at most `room`.
pub open spec fn due_count(
    records: Seq<TimedReplayRecordView>,
    cursor: int,
    place: u64,
    room: nat,
) -> nat
    decreases room,
{
    if room == 0 || !(0 <= cursor < records.len()) || records[cursor].offset_ms > place {
        0
    } else {
        1 + due_count(records, cursor + 1, place, (room - 1) as nat)
    }
}

/// The controller after a tick, and the records that the tick hands out.
pub open spec fn ticked(v: ReplayControllerView, elapsed_ms: u64) -> (ReplayControllerView, Seq<ReplayRecordView>) {
    if !v.playing || v.records.len() == 0 {
        (v, Seq::empty())
    } else {
        let there = synced(v, elapsed_ms);
        let count = due_count(there.records, there.cursor, there.position, MAX_TICK_BATCH as nat);
        let cursor = there.cursor + count;
        let due = Seq::new(count, |i: int| there.records[there.cursor + i].record);
        if cursor >= there.records.len() {
            (
                ReplayControllerView {
                    cursor,
                    position: there.duration,
                    playing: false,
                    anchor: None,
                    ..there
                },
                due,
            )
        } else {
            (ReplayControllerView { cursor, ..there }, due)
        }
    }
}

/// A speed within the limits; NaN stays as it is.
pub open spec fn clamped_speed(speed: F32Bits) -> F32Bits {
    if numbers::nan_32(speed) {
        speed
    } else if speed.bits >= 0x8000_0000 || speed.bits < MIN_SPEED_BITS {
        F32Bits { bits: MIN_SPEED_BITS }
    } else if speed.bits > MAX_SPEED_BITS {
        F32Bits { bits: MAX_SPEED_BITS }
    } else {
        speed
    }
}

proof fn first_at_or_after_is_first(records: Seq<TimedReplayRecordView>, place: u64)
    ensures
        0 <= first_at_or_after(records, place) <= records.len(),
        forall|i: int|
            0 <= i < first_at_or_after(records, place) ==> (#[trigger] records[i]).offset_ms
                < place,
        first_at_or_after(records, place) < records.len() ==> records[first_at_or_after(
            records,
            place,
        )].offset_ms >= place,
    decreases records.len(),
{
    if records.len() > 0 && records[0].offset_ms < place {
        let later = records.skip(1);
        first_at_or_after_is_first(later, place);
        assert forall|i: int| 0 <= i < first_at_or_after(records, place) implies (
        #[trigger] records[i]).offset_ms < place by {
            if i > 0 {
                assert(later[i - 1] == records[i]);
            }
        }
    }
}

proof fn due_count_is_exact(
    records: Seq<TimedReplayRecordView>,
    cursor: int,
    place: u64,
    room: nat,
)
    requires
        0 <= cursor <= records.len(),
    ensures
        due_count(records, cursor, place, room) <= room,
        cursor + due_count(records, cursor, place, room) <= records.len(),
        forall|i: int|
            cursor <= i < cursor + due_count(records, cursor, place, room) ==> (
            #[trigger] records[i]).offset_ms <= place,
        due_count(records, cursor, place, room) < room && cursor + due_count(
            records,
            cursor,
            place,
            room,
        ) < records.len() ==> records[cursor + due_count(records, cursor, place, room)].offset_ms
            > place,
    decreases room,
{
    if room > 0 && cursor < records.len() && records[cursor].offset_ms <= place {
        due_count_is_exact(records, cursor + 1, place, (room - 1) as nat);
    }
}

impl ReplayController {
    /// What holds of a controller at any time.
    pub open spec fn wf(&self) -> bool {
        replay_wf(self.deep_view())
    }

    /// A controller at the start of a capture.
    pub fn new(path: PathBuf, records: Vec<ReplayRecord>) -> (r: Self)
        ensures
            r.wf(),
            r.deep_view() == (ReplayControllerView {
                path,
                records: timeline(records.deep_view(), parsed_timestamps(records.deep_view())),
                duration: end_of(
                    timeline(records.deep_view(), parsed_timestamps(records.deep_view())),
                ),
                position: 0,
                cursor: 0,
                speed: F32Bits { bits: NORMAL_SPEED_BITS },
                playing: false,
                anchor: None,
                anchor_position: 0,
            }),
    {
        let parsed = parse_timestamps(&records);
        let records = timestamp_records(records, &parsed);
        let duration_ms: u64 = if records.len() == 0 {
            0
        } else {
            records[records.len() - 1].offset_ms
        };
        let r = ReplayController {
            path,
            records,
            duration_ms,
            position_ms: 0,
            cursor: 0,
            speed: F32Bits { bits: NORMAL_SPEED_BITS },
            playing: false,
            anchor: None,
            anchor_position_ms: 0,
        };
        r
    }

    /// The file that the capture was read from.
    pub fn path(&self) -> (r: &PathBuf)
        ensures
            *r == self.deep_view().path,
    {
        &self.path
    }

    /// The number of records.
    pub fn len(&self) -> (r: usize)
        ensures
            r == self.deep_view().records.len(),
    {
        self.records.len()
    }

    /// The place of the last record.
    pub fn duration_ms(&self) -> (r: u64)
        ensures
            r == self.deep_view().duration,
    {
        self.duration_ms
    }

    /// The current place.
    pub fn position_ms(&self) -> (r: u64)
        ensures
            r == self.deep_view().position,
    {
        self.position_ms
    }

    /// The speed.
    pub fn speed(&self) -> (r: F32Bits)
        ensures
            r == self.deep_view().speed,
    {
        self.speed
    }

    /// Whether the timeline is running.
    pub fn is_playing(&self) -> (r: bool)
        ensures
            r == self.deep_view().playing,
    {
        self.playing
    }

    /// The clock reading from which time is counted.
    pub fn anchor(&self) -> (r: Option<u64>)
        ensures
            r == self.deep_view().anchor,
    {
        self.anchor
    }

    /// Changes the speed, within the limits, and keeps the place.
    pub fn set_speed(&mut self, speed: F32Bits, elapsed_ms: u64, now: u64)
        requires
            old(self).wf(),
        ensures
            final(self).wf(),
            final(self).deep_view() == reanchored(
                ReplayControllerView {
                    speed: clamped_speed(speed),
                    ..synced(old(self).deep_view(), elapsed_ms)
                },
                now,
            ),
    {
        let clamped = if speed.is_nan() {
            speed
        } else if speed.bits >= 0x8000_0000 || speed.bits < MIN_SPEED_BITS {
            F32Bits { bits: MIN_SPEED_BITS }
        } else if speed.bits > MAX_SPEED_BITS {
            F32Bits { bits: MAX_SPEED_BITS }
        } else {
            speed
        };
        self.sync_position(elapsed_ms);
        self.speed = clamped;
        self.reanchor(now);
    }

    /// Starts to play.
    pub fn play(&mut self, now: u64)
        requires
            old(self).wf(),
        ensures
            final(self).wf(),
            final(self).deep_view() == played(old(self).deep_view(), now),
    {
        if self.records.len() == 0 {
            return;
        }
        if self.position_ms >= self.duration_ms && self.cursor >= self.records.len() {
            self.seek(0, now);
        }
        self.playing = true;
        self.reanchor(now);
    }

    /// Stops the clock where it is.
    pub fn pause(&mut self, elapsed_ms: u64)
        requires
            old(self).wf(),
        ensures
            final(self).wf(),
            final(self).deep_view() == paused(old(self).deep_view(), elapsed_ms),
    {
        self.sync_position(elapsed_ms);
        self.playing = false;
        self.anchor = None;
    }

    /// Stops the clock and goes back to the start.
    pub fn stop(&mut self)
        requires
            old(self).wf(),
        ensures
            final(self).wf(),
            final(self).deep_view() == (ReplayControllerView {
                playing: false,
                position: 0,
                cursor: 0,
                anchor: None,
                anchor_position: 0,
                ..old(self).deep_view()
            }),
    {
        self.playing = false;
        self.anchor = None;
        self.seek(0, 0);
        proof {
            first_at_or_after_is_first(self.deep_view().records, 0);
        }
    }

    /// Goes to a place; the next record is the first one there or later.
    pub fn seek(&mut self, position_ms: u64, now: u64)
        requires
            old(self).wf(),
        ensures
            final(self).wf(),
            final(self).deep_view() == sought(old(self).deep_view(), position_ms, now),
    {
        let position: u64 = if position_ms <= self.duration_ms {
            position_ms
        } else {
            self.duration_ms
        };
        self.position_ms = position;
        self.cursor = self.partition_point(position);
        self.reanchor(now);
    }

    /// The number of records before a place.
    fn partition_point(&self, place: u64) -> (r: usize)
        requires
            in_order(self.deep_view().records),
        ensures
            r == first_at_or_after(self.deep_view().records, place),
            r <= self.records@.len(),
    {
        let ghost items = self.deep_view().records;
        let mut low: usize = 0;
        let mut high: usize = self.records.len();
        while low < high
            invariant
                low <= high <= self.records@.len(),
                items == self.deep_view().records,
                in_order(items),
                forall|i: int| 0 <= i < low ==> (#[trigger] items[i]).offset_ms < place,
                forall|i: int| high <= i < items.len() ==> (#[trigger] items[i]).offset_ms >= place,
            decreases high - low,
        {
            let middle: usize = low + (high - low) / 2;
            assert(items[middle as int] == self.records@[middle as int].deep_view());
            if self.records[middle].offset_ms < place {
                low = middle + 1;
            } else {
                high = middle;
            }
        }
        proof {
            first_at_or_after_is_first(items, place);
            let first = first_at_or_after(items, place);
            if first < low {
                assert(items[first].offset_ms < place);
            }
            if first > low {
                assert(items[low as int].offset_ms >= place);
            }
        }
        low
    }

    /// Hands out the next record, with the clock stopped.
    pub fn step_one(&mut self, elapsed_ms: u64) -> (r: Option<ReplayRecord>)
        requires
            old(self).wf(),
        ensures
            final(self).wf(),
            final(self).deep_view() == stepped(old(self).deep_view(), elapsed_ms),
            match r {
                Some(record) => old(self).deep_view().cursor < old(self).deep_view().records.len()
                    && record.deep_view() == old(self).deep_view().records[old(
                    self,
                ).deep_view().cursor].record,
                None => old(self).deep_view().cursor == old(self).deep_view().records.len(),
            },
    {
        self.pause(elapsed_ms);
        if self.cursor >= self.records.len() {
            return None;
        }
        let ghost items = self.deep_view().records;
        assert(items[self.cursor as int] == self.records@[self.cursor as int].deep_view());
        let record = self.records[self.cursor].record.clone();
        self.position_ms = self.records[self.cursor].offset_ms;
        self.cursor = self.cursor + 1;
        Some(record)
    }

    /// The record at the cursor, or the last one behind the end.
    pub fn current_event_index(&self) -> (r: Option<usize>)
        requires
            self.wf(),
        ensures
            match r {
                Some(index) => self.deep_view().records.len() > 0 && index == next_index(
                    self.deep_view(),
                ),
                None => self.deep_view().records.len() == 0,
            },
    {
        if self.records.len() == 0 {
            None
        } else if self.cursor <= self.records.len() - 1 {
            Some(self.cursor)
        } else {
            Some(self.records.len() - 1)
        }
    }

    /// Goes to a record without handing it out, with the clock stopped.
    pub fn seek_event_index(&mut self, index: usize, elapsed_ms: u64) -> (r: Option<u64>)
        requires
            old(self).wf(),
        ensures
            final(self).wf(),
            final(self).deep_view() == at_event(old(self).deep_view(), index as int, elapsed_ms),
            match r {
                Some(offset) => index < old(self).deep_view().records.len() && offset == old(
                    self,
                ).deep_view().records[index as int].offset_ms,
                None => index >= old(self).deep_view().records.len(),
            },
    {
        if index >= self.records.len() {
            return None;
        }
        let ghost items = self.deep_view().records;
        assert(items[index as int] == self.records@[index as int].deep_view());
        let offset: u64 = self.records[index].offset_ms;
        self.pause(elapsed_ms);
        self.position_ms = offset;
        self.cursor = index;
        self.reanchor(0);
        Some(offset)
    }

    /// Goes back by one record.
    pub fn previous_event(&mut self, elapsed_ms: u64) -> (r: Option<u64>)
        requires
            old(self).wf(),
        ensures
            final(self).wf(),
            final(self).deep_view() == at_event(
                old(self).deep_view(),
                previous_index(old(self).deep_view()),
                elapsed_ms,
            ),
            match r {
                Some(offset) => old(self).deep_view().records.len() > 0 && offset == old(
                    self,
                ).deep_view().records[previous_index(old(self).deep_view())].offset_ms,
                None => old(self).deep_view().records.len() == 0,
            },
    {
        let index: usize = if self.cursor == 0 {
            0
        } else {
            self.cursor - 1
        };
        self.seek_event_index(index, elapsed_ms)
    }

    /// Goes to the record at the cursor, or to the last one.
    pub fn next_event(&mut self, elapsed_ms: u64) -> (r: Option<u64>)
        requires
            old(self).wf(),
        ensures
            final(self).wf(),
            final(self).deep_view() == at_event(
                old(self).deep_view(),
                next_index(old(self).deep_view()),
                elapsed_ms,
            ),
            match r {
                Some(offset) => old(self).deep_view().records.len() > 0 && offset == old(
                    self,
                ).deep_view().records[next_index(old(self).deep_view())].offset_ms,
                None => old(self).deep_view().records.len() == 0,
            },
    {
        let last: usize = if self.records.len() == 0 {
            0
        } else {
            self.records.len() - 1
        };
        let index: usize = if self.cursor <= last {
            self.cursor
        } else {
            last
        };
        self.seek_event_index(index, elapsed_ms)
    }

    /// Hands out the records that have become due.
    pub fn tick(&mut self, elapsed_ms: u64) -> (r: Vec<ReplayRecord>)
        requires
            old(self).wf(),
        ensures
            final(self).wf(),
            (final(self).deep_view(), r.deep_view()) == ticked(old(self).deep_view(), elapsed_ms),
    {
        let mut due: Vec<ReplayRecord> = Vec::new();
        if !self.playing || self.records.len() == 0 {
            assert(due.deep_view() =~= Seq::empty());
            return due;
        }
        self.sync_position(elapsed_ms);
        let ghost there = self.deep_view();
        let ghost start = self.cursor as int;
        let ghost total = due_count(
            there.records,
            start,
            there.position,
            MAX_TICK_BATCH as nat,
        );
        proof {
            due_count_is_exact(there.records, start, there.position, MAX_TICK_BATCH as nat);
        }
        while self.cursor < self.records.len() && self.records[self.cursor].offset_ms
            <= self.position_ms && due.len() < MAX_TICK_BATCH
            invariant
                replay_wf(there),
                self.deep_view() == (ReplayControllerView { cursor: self.cursor as int, ..there }),
                start <= self.cursor <= self.records@.len(),
                due@.len() == self.cursor - start,
                due@.len() <= MAX_TICK_BATCH,
                due.deep_view() =~= Seq::new(
                    (self.cursor - start) as nat,
                    |i: int| there.records[start + i].record,
                ),
                total == (self.cursor - start) + due_count(
                    there.records,
                    self.cursor as int,
                    there.position,
                    (MAX_TICK_BATCH - due@.len()) as nat,
                ),
            decreases self.records@.len() - self.cursor,
        {
            let ghost before = due.deep_view();
            assert(there.records[self.cursor as int] == self.records@[self.cursor as int].deep_view());
            due.push(self.records[self.cursor].record.clone());
            assert(due.deep_view() =~= before.push(there.records[self.cursor as int].record));
            self.cursor = self.cursor + 1;
        }
        proof {
            if self.cursor < self.records@.len() {
                assert(there.records[self.cursor as int]
                    == self.records@[self.cursor as int].deep_view());
            }
            assert(total == self.cursor - start);
        }
        if self.cursor >= self.records.len() {
            self.position_ms = self.duration_ms;
            self.playing = false;
            self.anchor = None;
        }
        due
    }

    fn sync_position(&mut self, elapsed_ms: u64)
        requires
            old(self).wf(),
        ensures
            final(self).wf(),
            final(self).deep_view() == synced(old(self).deep_view(), elapsed_ms),
            final(self).records == old(self).records,
            final(self).cursor == old(self).cursor,
    {
        if !self.playing || self.anchor.is_none() {
            return;
        }
        let reached: u64 = self.anchor_position_ms.saturating_add(elapsed_ms);
        self.position_ms = if reached <= self.duration_ms {
            reached
        } else {
            self.duration_ms
        };
    }

    fn reanchor(&mut self, now: u64)
        ensures
            final(self).deep_view() == reanchored(old(self).deep_view(), now),
    {
        self.anchor_position_ms = self.position_ms;
        self.anchor = if self.playing {
            Some(now)
        } else {
            None
        };
    }
}

/// The first timestamp that can be read.
pub open spec fn first_parsed(parsed: Seq<Option<u64>>) -> Option<u64>
    decreases parsed.len(),
{
    if parsed.len() == 0 {
        None
    } else if parsed[0] is Some {
        parsed[0]
    } else {
        first_parsed(parsed.skip(1))
    }
}

/// Where a record with a readable timestamp would stand by itself: its distance from the first
/// timestamp, or, where the timestamp lies before the first one, a place given by its number.
pub open spec fn own_offset(first: u64, value: u64, index: int) -> u64 {
    if value >= first {
        (value - first) as u64
    } else if index * SYNTHETIC_STEP_MS <= u64::MAX {
        (index * SYNTHETIC_STEP_MS) as u64
    } else {
        u64::MAX
    }
}

/// Where a record stands: by its timestamp, but no earlier than its predecessor, or a fixed step
/// after its predecessor where the timestamp cannot be read.
pub open spec fn offset_at(parsed: Seq<Option<u64>>, index: int) -> u64
    decreases index,
{
    if index <= 0 {
        0
    } else {
        let before = offset_at(parsed, index - 1);
        match (first_parsed(parsed), parsed[index]) {
            (Some(first), Some(value)) => if own_offset(first, value, index) >= before {
                own_offset(first, value, index)
            } else {
                before
            },
            _ => if before + SYNTHETIC_STEP_MS <= u64::MAX {
                (before + SYNTHETIC_STEP_MS) as u64
            } else {
                u64::MAX
            },
        }
    }
}

/// The records with their places.
pub open spec fn timeline(
    records: Seq<ReplayRecordView>,
    parsed: Seq<Option<u64>>,
) -> Seq<TimedReplayRecordView> {
    Seq::new(
        records.len(),
        |i: int| TimedReplayRecordView { offset_ms: offset_at(parsed, i), record: records[i] },
    )
}

/// The timeline is in order, whatever the timestamps say.
pub proof fn timeline_is_in_order(records: Seq<ReplayRecordView>, parsed: Seq<Option<u64>>)
    ensures
        in_order(timeline(records, parsed)),
{
    let items = timeline(records, parsed);
    assert forall|i: int, j: int| 0 <= i <= j < items.len() implies (#[trigger] items[i]).offset_ms
        <= (#[trigger] items[j]).offset_ms by {
        offsets_grow(parsed, i, j);
    }
}

proof fn offsets_grow(parsed: Seq<Option<u64>>, i: int, j: int)
    requires
        0 <= i <= j,
    ensures
        offset_at(parsed, i) <= offset_at(parsed, j),
    decreases j - i,
{
    if i < j {
        offsets_grow(parsed, i, j - 1);
    }
}

/// Timestamps that can all be read and never run backwards are kept: each record stands at its
/// distance from the first.
pub proof fn ordered_timestamps_are_kept(parsed: Seq<Option<u64>>, index: int)
    requires
        0 <= index < parsed.len(),
        forall|i: int| 0 <= i < parsed.len() ==> (#[trigger] parsed[i]) is Some,
        forall|i: int, j: int|
            0 <= i <= j < parsed.len() ==> (#[trigger] parsed[i])->0 <= (#[trigger] parsed[j])->0,
    ensures
        offset_at(parsed, index) == parsed[index]->0 - parsed[0]->0,
    decreases index,
{
    assert(first_parsed(parsed) == parsed[0]);
    if index > 0 {
        ordered_timestamps_are_kept(parsed, index - 1);
        assert(parsed[index - 1]->0 <= parsed[index]->0);
    }
    assert(parsed[0]->0 <= parsed[index]->0);
}

/// A record whose timestamp cannot be read stands ten milliseconds after its predecessor, at the
/// start where it is the first, and never beyond the end of the time range.
pub proof fn unreadable_timestamps_are_spaced(parsed: Seq<Option<u64>>, index: int)
    requires
        0 <= index < parsed.len(),
        parsed[index] is None,
    ensures
        index == 0 ==> offset_at(parsed, index) == 0,
        index > 0 ==> offset_at(parsed, index) == (if offset_at(parsed, index - 1)
            + SYNTHETIC_STEP_MS <= u64::MAX {
            offset_at(parsed, index - 1) + SYNTHETIC_STEP_MS
        } else {
            u64::MAX as int
        }),
{
}

/// Without a single timestamp that can be read, the records stand ten milliseconds apart.
pub proof fn unstamped_captures_are_spaced_evenly(parsed: Seq<Option<u64>>, index: int)
    requires
        0 <= index < parsed.len(),
        index * SYNTHETIC_STEP_MS <= u64::MAX,
        forall|i: int| 0 <= i < parsed.len() ==> (#[trigger] parsed[i]) is None,
    ensures
        offset_at(parsed, index) == index * SYNTHETIC_STEP_MS,
    decreases index,
{
    assert(parsed[index] is None);
    if index > 0 {
        unstamped_captures_are_spaced_evenly(parsed, index - 1);
    }
}

/// The milliseconds since the epoch of a date and time without a zone, read by a format of the
/// `chrono` crate and taken as UTC; nothing where the text does not follow the format.
pub uninterp spec fn naive_millis(value: Seq<char>, format: Seq<char>) -> Option<i64>;

/// `chrono::NaiveDateTime::parse_from_str`, its result counted in milliseconds by
/// `and_utc().timestamp_millis()`: the result depends on the text and the format alone.
#[verifier::external_body]
fn parse_naive_millis(value: &str, format: &str) -> (r: Option<i64>)
    ensures
        r == naive_millis(value@, format@),
{
    NaiveDateTime::parse_from_str(value, format)
        .ok()
        .map(|parsed| parsed.and_utc().timestamp_millis())
}

/// A time on the timeline: times before the epoch are none.
pub open spec fn usable_time(millis: Option<i64>) -> Option<u64> {
    match millis {
        Some(value) if value >= 0 => Some(value as u64),
        _ => None,
    }
}

/// A time on the timeline: times before the epoch are none.
pub fn usable_millis(millis: Option<i64>) -> (r: Option<u64>)
    ensures
        r == usable_time(millis),
{
    match millis {
        Some(value) => if value >= 0 {
            Some(value as u64)
        } else {
            None
        },
        None => None,
    }
}

/// Reads the timestamp of a record.
pub fn parse_timestamp_ms(value: &str) -> (r: Option<u64>)
    ensures
        r == usable_time(naive_millis(value@, TIMESTAMP_FORMAT@)),
{
    usable_millis(parse_naive_millis(value, TIMESTAMP_FORMAT))
}

/// The timestamps of records, as far as they can be read.
pub open spec fn parsed_timestamps(records: Seq<ReplayRecordView>) -> Seq<Option<u64>> {
    Seq::new(
        records.len(),
        |i: int| usable_time(naive_millis(records[i].timestamp, TIMESTAMP_FORMAT@)),
    )
}

fn parse_timestamps(records: &Vec<ReplayRecord>) -> (r: Vec<Option<u64>>)
    ensures
        r@ == parsed_timestamps(records.deep_view()),
{
    let ghost items = records.deep_view();
    let mut out: Vec<Option<u64>> = Vec::new();
    let mut i: usize = 0;
    while i < records.len()
        invariant
            i <= records@.len(),
            items == records.deep_view(),
            out@ =~= parsed_timestamps(items).take(i as int),
        decreases records@.len() - i,
    {
        assert(items[i as int] == records@[i as int].deep_view());
        out.push(parse_timestamp_ms(records[i].timestamp.as_str()));
        i = i + 1;
    }
    assert(out@ =~= parsed_timestamps(items));
    out
}

fn first_timestamp(parsed: &Vec<Option<u64>>) -> (r: Option<u64>)
    ensures
        r == first_parsed(parsed@),
{
    let mut i: usize = 0;
    assert(parsed@.skip(0) =~= parsed@);
    while i < parsed.len()
        invariant
            i <= parsed@.len(),
            first_parsed(parsed@) == first_parsed(parsed@.skip(i as int)),
        decreases parsed@.len() - i,
    {
        if parsed[i].is_some() {
            return parsed[i];
        }
        assert(parsed@.skip(i as int).skip(1) =~= parsed@.skip(i + 1));
        i = i + 1;
    }
    None
}

/// Puts records on the timeline by their timestamps.
pub fn timestamp_records(records: Vec<ReplayRecord>, parsed: &Vec<Option<u64>>) -> (r: Vec<
    TimedReplayRecord,
>)
    requires
        parsed@.len() == records@.len(),
    ensures
        r.deep_view() == timeline(records.deep_view(), parsed@),
        in_order(r.deep_view()),
{
    let ghost items = records.deep_view();
    let first = first_timestamp(parsed);
    let mut out: Vec<TimedReplayRecord> = Vec::new();
    let mut last_offset: u64 = 0;
    let mut i: usize = 0;
    while i < records.len()
        invariant
            i <= records@.len(),
            parsed@.len() == records@.len(),
            items == records.deep_view(),
            first == first_parsed(parsed@),
            i == 0 ==> last_offset == 0,
            i > 0 ==> last_offset == offset_at(parsed@, i - 1),
            out.deep_view() =~= timeline(items, parsed@).take(i as int),
        decreases records@.len() - i,
    {
        let offset_ms: u64 = match (first, parsed[i]) {
            (Some(first), Some(value)) => {
                let own: u64 = if value >= first {
                    value - first
                } else {
                    match (i as u64).checked_mul(SYNTHETIC_STEP_MS) {
                        Some(place) => place,
                        None => u64::MAX,
                    }
                };
                if own >= last_offset {
                    own
                } else {
                    last_offset
                }
            },
            _ => if i == 0 {
                0
            } else {
                last_offset.saturating_add(SYNTHETIC_STEP_MS)
            },
        };
        if i == 0 {
            assert(parsed@[0] is Some ==> first == parsed@[0]);
        }
        last_offset = offset_ms;
        let ghost before = out.deep_view();
        assert(items[i as int] == records@[i as int].deep_view());
        out.push(TimedReplayRecord { offset_ms, record: records[i].clone() });
        assert(out.deep_view() =~= before.push(timeline(items, parsed@)[i as int]));
        i = i + 1;
    }
    assert(out.deep_view() =~= timeline(items, parsed@));
    proof {
        timeline_is_in_order(items, parsed@);
    }
    out
}

/// A duration as minutes, seconds and milliseconds.
pub open spec fn duration_text(ms: u64) -> Seq<char> {
    text::padded_decimal((ms / 60_000) as nat, 2) + ":"@ + text::padded_decimal(
        (ms / 1_000 % 60) as nat,
        2,
    ) + "."@ + text::padded_decimal((ms % 1_000) as nat, 3)
}

/// A duration as minutes, seconds and milliseconds.
pub fn format_duration(ms: u64) -> (r: String)
    ensures
        r@ == duration_text(ms),
{
    let total_seconds: u64 = ms / 1_000;
    let millis: u64 = ms % 1_000;
    let minutes: u64 = total_seconds / 60;
    let seconds: u64 = total_seconds % 60;
    let mut out = text::padded_decimal_text(minutes, 2);
    out.append(":");
    let second_text = text::padded_decimal_text(seconds, 2);
    out.append(second_text.as_str());
    out.append(".");
    let milli_text = text::padded_decimal_text(millis, 3);
    out.append(milli_text.as_str());
    out
}

/// Whatever speed is asked for, but for NaN, the speed lies within the limits afterwards, and is
/// the one asked for where that is within them. Changing it neither starts nor stops the replay,
/// nor moves one that stands still.
pub proof fn speed_stays_within_limits(
    v: ReplayControllerView,
    speed: F32Bits,
    elapsed_ms: u64,
    now: u64,
)
    ensures
        ({
            let after = reanchored(
                ReplayControllerView { speed: clamped_speed(speed), ..synced(v, elapsed_ms) },
                now,
            );
            &&& !numbers::nan_32(speed) ==> MIN_SPEED_BITS <= after.speed.bits <= MAX_SPEED_BITS
            &&& MIN_SPEED_BITS <= speed.bits <= MAX_SPEED_BITS ==> after.speed == speed
            &&& after.playing == v.playing
            &&& !v.playing ==> after.position == v.position
        }),
{
}

/// Seeking puts the cursor at the first record at or after the place: every record before it
/// lies earlier, and every record from it on does not.
pub proof fn seek_finds_first_record(v: ReplayControllerView, place: u64, now: u64, i: int)
    requires
        replay_wf(v),
        0 <= i < v.records.len(),
    ensures
        i < sought(v, place, now).cursor <==> v.records[i].offset_ms < sought(
            v,
            place,
            now,
        ).position,
{
    let position = sought(v, place, now).position;
    first_at_or_after_is_first(v.records, position);
    let first = first_at_or_after(v.records, position);
    if i >= first {
        assert(v.records[first].offset_ms <= v.records[i].offset_ms);
    }
}

/// A tick hands out the records from the cursor on that the clock has reached, and afterwards
/// either nothing more is due or a full batch was handed out.
pub proof fn tick_hands_out_what_is_due(v: ReplayControllerView, elapsed_ms: u64)
    requires
        replay_wf(v),
        v.playing,
    ensures
        ({
            let after = ticked(v, elapsed_ms).0;
            let due = ticked(v, elapsed_ms).1;
            let place = synced(v, elapsed_ms).position;
            &&& after.cursor == v.cursor + due.len()
            &&& forall|i: int|
                0 <= i < due.len() ==> #[trigger] due[i] == v.records[v.cursor + i].record
                    && v.records[v.cursor + i].offset_ms <= place
            &&& due.len() == MAX_TICK_BATCH || after.cursor == v.records.len()
                || v.records[after.cursor].offset_ms > place
        }),
{
    let there = synced(v, elapsed_ms);
    due_count_is_exact(there.records, there.cursor, there.position, MAX_TICK_BATCH as nat);
}

/// Two ticks hand out what one tick at the later time would, as long as no batch is full.
pub proof fn ticks_add_up(v: ReplayControllerView, first_ms: u64, second_ms: u64)
    requires
        replay_wf(v),
        first_ms <= second_ms,
        ticked(v, second_ms).1.len() < MAX_TICK_BATCH,
    ensures
        ({
            let one = ticked(v, first_ms);
            let two = ticked(one.0, second_ms);
            one.1 + two.1 == ticked(v, second_ms).1 && two.0 == ticked(v, second_ms).0
        }),
{
    let one = ticked(v, first_ms);
    let two = ticked(one.0, second_ms);
    let whole = ticked(v, second_ms);
    if v.playing {
        let early = synced(v, first_ms);
        let late = synced(v, second_ms);
        due_count_splits(v.records, v.cursor, early.position, late.position, MAX_TICK_BATCH as nat);
        due_count_is_exact(v.records, v.cursor, early.position, MAX_TICK_BATCH as nat);
        due_count_is_exact(v.records, v.cursor, late.position, MAX_TICK_BATCH as nat);
        if one.0.playing {
            due_count_ignores_room(
                v.records,
                one.0.cursor,
                late.position,
                (MAX_TICK_BATCH - one.1.len()) as nat,
                MAX_TICK_BATCH as nat,
            );
        }
    }
    assert(one.1 + two.1 =~= whole.1);
    assert(two.0 =~= whole.0);
}

proof fn due_count_splits(
    records: Seq<TimedReplayRecordView>,
    cursor: int,
    early: u64,
    late: u64,
    room: nat,
)
    requires
        early <= late,
        0 <= cursor <= records.len(),
    ensures
        ({
            let count = due_count(records, cursor, early, room);
            &&& count <= room
            &&& due_count(records, cursor, late, room) == count + due_count(
                records,
                cursor + count,
                late,
                (room - count) as nat,
            )
        }),
    decreases room,
{
    due_count_is_exact(records, cursor, early, room);
    if room > 0 && cursor < records.len() && records[cursor].offset_ms <= early {
        due_count_splits(records, cursor + 1, early, late, (room - 1) as nat);
    }
}

proof fn due_count_ignores_room(
    records: Seq<TimedReplayRecordView>,
    cursor: int,
    place: u64,
    room: nat,
    more: nat,
)
    requires
        room <= more,
        due_count(records, cursor, place, room) < room,
    ensures
        due_count(records, cursor, place, more) == due_count(records, cursor, place, room),
    decreases room,
{
    if room > 0 && 0 <= cursor < records.len() && records[cursor].offset_ms <= place {
        due_count_ignores_room(
            records,
            cursor + 1,
            place,
            (room - 1) as nat,
            (more - 1) as nat,
        );
    }
}

/// Going to a record hands nothing out: the next step hands out that very record, with the clock
/// stopped at its place.
pub proof fn event_navigation_does_not_consume(v: ReplayControllerView, index: int, elapsed_ms: u64, later_ms: u64)
    requires
        replay_wf(v),
        0 <= index < v.records.len(),
    ensures
        at_event(v, index, elapsed_ms).cursor == index,
        stepped(at_event(v, index, elapsed_ms), later_ms).cursor == index + 1,
        stepped(at_event(v, index, elapsed_ms), later_ms).position == v.records[index].offset_ms,
        !stepped(at_event(v, index, elapsed_ms), later_ms).playing,
{
}

/// Going back leads from any cursor but the first to the record before it, from the first to the
/// first record, and stops the clock at that record.
pub proof fn previous_goes_back_by_one(v: ReplayControllerView, elapsed_ms: u64)
    requires
        replay_wf(v),
        v.records.len() > 0,
    ensures
        ({
            let after = at_event(v, previous_index(v), elapsed_ms);
            let wanted: int = if v.cursor > 0 {
                v.cursor - 1
            } else {
                0
            };
            &&& after.cursor == wanted
            &&& after.position == v.records[wanted].offset_ms
            &&& !after.playing && after.anchor is None
            &&& after.records == v.records && after.speed == v.speed && after.path == v.path
            &&& replay_wf(after)
        }),
{
    assert(v.records[previous_index(v)].offset_ms <= v.records[v.records.len() - 1].offset_ms);
}

/// The controller after going back a number of times.
pub open spec fn gone_back(v: ReplayControllerView, times: nat, elapsed_ms: u64) -> ReplayControllerView
    decreases times,
{
    if times == 0 {
        v
    } else {
        let before = gone_back(v, (times - 1) as nat, elapsed_ms);
        at_event(before, previous_index(before), elapsed_ms)
    }
}

/// Going back again and again visits the records one by one, down to the first.
pub proof fn previous_visits_every_record(v: ReplayControllerView, times: nat, elapsed_ms: u64)
    requires
        replay_wf(v),
        0 < times <= v.cursor,
    ensures
        gone_back(v, times, elapsed_ms).cursor == v.cursor - times,
        gone_back(v, times, elapsed_ms).position == v.records[v.cursor - times].offset_ms,
        gone_back(v, times, elapsed_ms).records == v.records,
        replay_wf(gone_back(v, times, elapsed_ms)),
    decreases times,
{
    if times > 1 {
        previous_visits_every_record(v, (times - 1) as nat, elapsed_ms);
        previous_goes_back_by_one(gone_back(v, (times - 1) as nat, elapsed_ms), elapsed_ms);
    } else {
        assert(gone_back(v, 0, elapsed_ms) == v);
        previous_goes_back_by_one(v, elapsed_ms);
    }
}

/// Going back after a step leads to the record that was handed out, and the next step hands it out
/// again and leaves the controller as the first step did.
pub proof fn previous_undoes_a_step(v: ReplayControllerView, first_ms: u64, back_ms: u64, again_ms: u64)
    requires
        replay_wf(v),
        v.cursor < v.records.len(),
    ensures
        ({
            let once = stepped(v, first_ms);
            let back = at_event(once, previous_index(once), back_ms);
            let again = stepped(back, again_ms);
            &&& back.cursor == v.cursor
            &&& back.records[back.cursor] == v.records[v.cursor]
            &&& again.cursor == once.cursor && again.position == once.position
            &&& again.records == v.records && !again.playing
        }),
{
}

/// Going on leads to the record at the cursor, the next one that a step would hand out, or behind
/// the end to the last record; the clock is stopped there.
pub proof fn next_shows_the_record_at_the_cursor(v: ReplayControllerView, elapsed_ms: u64)
    requires
        replay_wf(v),
        v.records.len() > 0,
    ensures
        ({
            let after = at_event(v, next_index(v), elapsed_ms);
            &&& v.cursor < v.records.len() ==> after.cursor == v.cursor
            &&& v.cursor == v.records.len() ==> after.cursor == v.records.len() - 1
            &&& next_index(v) == after.cursor
            &&& after.position == v.records[after.cursor].offset_ms
            &&& !after.playing && after.anchor is None
            &&& after.records == v.records && after.speed == v.speed && after.path == v.path
            &&& replay_wf(after)
        }),
{
    assert(v.records[next_index(v)].offset_ms <= v.records[v.records.len() - 1].offset_ms);
}

/// A step stops the clock and moves the cursor on by one record, to whose place it goes; behind the
/// last record it only stops the clock, where it is.
pub proof fn steps_hand_out_one_record(v: ReplayControllerView, elapsed_ms: u64)
    requires
        replay_wf(v),
    ensures
        ({
            let after = stepped(v, elapsed_ms);
            &&& v.cursor < v.records.len() ==> after.cursor == v.cursor + 1 && after.position
                == v.records[v.cursor].offset_ms
            &&& v.cursor == v.records.len() ==> after == paused(v, elapsed_ms)
            &&& !after.playing && after.anchor is None
            &&& after.records == v.records && after.speed == v.speed && after.path == v.path
            &&& after.duration == v.duration
        }),
{
}

/// Pausing stops the clock at the place that it has reached, the time that passed added to the
/// place at which it was started, but not beyond the last record. A replay that stands still stays
/// where it is.
pub proof fn pausing_keeps_the_reached_place(v: ReplayControllerView, elapsed_ms: u64)
    requires
        replay_wf(v),
    ensures
        ({
            let after = paused(v, elapsed_ms);
            &&& v.playing && v.anchor_position + elapsed_ms <= v.duration ==> after.position
                == v.anchor_position + elapsed_ms
            &&& v.playing && v.anchor_position + elapsed_ms > v.duration ==> after.position
                == v.duration
            &&& !v.playing ==> after.position == v.position
            &&& !after.playing && after.anchor is None
            &&& after.cursor == v.cursor && after.records == v.records && after.speed == v.speed
            &&& after.duration == v.duration && after.path == v.path
        }),
{
}

/// Playing starts the clock: where the replay had come to its end, at the start with every record
/// still to come, otherwise where it stands. A capture without records is not played.
pub proof fn playing_starts_the_clock(v: ReplayControllerView, now: u64)
    requires
        replay_wf(v),
    ensures
        ({
            let after = played(v, now);
            let ended = v.position == v.duration && v.cursor == v.records.len();
            &&& v.records.len() == 0 ==> after == v
            &&& v.records.len() > 0 ==> after.playing && after.anchor == Some(now)
                && after.anchor_position == after.position
            &&& v.records.len() > 0 && ended ==> after.position == 0 && after.cursor == 0
            &&& v.records.len() > 0 && !ended ==> after.position == v.position && after.cursor
                == v.cursor
            &&& after.records == v.records && after.speed == v.speed && after.path == v.path
            &&& after.duration == v.duration
        }),
{
    first_at_or_after_is_first(v.records, 0);
}

/// Seeking goes to the place asked for, or to the end where that lies before it, and keeps a
/// running clock running from there.
pub proof fn seeking_goes_to_the_place(v: ReplayControllerView, place: u64, now: u64)
    requires
        replay_wf(v),
    ensures
        ({
            let after = sought(v, place, now);
            &&& place <= v.duration ==> after.position == place
            &&& place > v.duration ==> after.position == v.duration
            &&& after.anchor_position == after.position
            &&& after.playing == v.playing
            &&& after.anchor == if v.playing {
                Some(now)
            } else {
                None
            }
            &&& 0 <= after.cursor <= v.records.len()
            &&& after.records == v.records && after.speed == v.speed && after.path == v.path
            &&& after.duration == v.duration
        }),
{
    first_at_or_after_is_first(v.records, sought(v, place, now).position);
}

/// A tick of a replay that stands still does nothing. One of a running replay goes to the place
/// that the clock has reached and keeps it running, or stops it at the end once the last record is
/// handed out; it hands out, in order, up to ten thousand of the records from the cursor on that lie
/// no later than that place.
pub proof fn ticks_follow_the_clock(v: ReplayControllerView, elapsed_ms: u64)
    requires
        replay_wf(v),
    ensures
        ({
            let after = ticked(v, elapsed_ms).0;
            let due = ticked(v, elapsed_ms).1;
            let place: int = if v.anchor_position + elapsed_ms <= v.duration {
                v.anchor_position + elapsed_ms
            } else {
                v.duration as int
            };
            if !v.playing {
                after == v && due.len() == 0
            } else {
                &&& after.cursor == v.cursor + due.len() && after.cursor <= v.records.len()
                &&& due.len() <= 10_000
                &&& forall|i: int|
                    0 <= i < due.len() ==> #[trigger] due[i] == v.records[v.cursor + i].record
                        && v.records[v.cursor + i].offset_ms <= place
                &&& due.len() == 10_000 || after.cursor == v.records.len()
                    || v.records[after.cursor].offset_ms > place
                &&& after.cursor < v.records.len() ==> after.playing && after.position == place
                    && after.anchor == v.anchor && after.anchor_position == v.anchor_position
                &&& after.cursor == v.records.len() ==> !after.playing && after.position
                    == v.duration && after.anchor is None
                &&& after.records == v.records && after.speed == v.speed && after.path == v.path
                &&& after.duration == v.duration
            }
        }),
{
    let there = synced(v, elapsed_ms);
    due_count_is_exact(there.records, there.cursor, there.position, MAX_TICK_BATCH as nat);
}

/// Changing the speed of a running replay keeps the place that the clock has reached and counts
/// from there. The speed lies between a quarter and twenty afterwards, as written in the bit
/// patterns of single-precision numbers: a smaller or negative one becomes a quarter, a larger one
/// twenty.
pub proof fn changed_speeds_keep_the_place(
    v: ReplayControllerView,
    speed: F32Bits,
    elapsed_ms: u64,
    now: u64,
)
    requires
        replay_wf(v),
        speed.bits <= 0x7F80_0000 || 0x8000_0000 <= speed.bits <= 0xFF80_0000,
    ensures
        ({
            let after = reanchored(
                ReplayControllerView { speed: clamped_speed(speed), ..synced(v, elapsed_ms) },
                now,
            );
            &&& after.speed.bits == (if speed.bits >= 0x8000_0000 || speed.bits < 0x3E80_0000 {
                0x3E80_0000u32
            } else if speed.bits > 0x41A0_0000 {
                0x41A0_0000u32
            } else {
                speed.bits
            })
            &&& v.playing && v.anchor_position + elapsed_ms <= v.duration ==> after.position
                == v.anchor_position + elapsed_ms
            &&& v.playing && v.anchor_position + elapsed_ms > v.duration ==> after.position
                == v.duration
            &&& after.anchor_position == after.position
            &&& after.cursor == v.cursor && after.records == v.records
            &&& v.playing ==> after.anchor == Some(now)
        }),
{
}

/// A record whose timestamp can be read stands at its distance from the first timestamp that can be
/// read, or where its predecessor stands if that is later. One that was stamped before the first
/// one counts as ten milliseconds for each record before it.
pub proof fn readable_timestamps_set_the_place(parsed: Seq<Option<u64>>, first: int, index: int)
    requires
        0 <= first < parsed.len(),
        parsed[first] is Some,
        forall|i: int| 0 <= i < first ==> (#[trigger] parsed[i]) is None,
        0 < index < parsed.len(),
        parsed[index] is Some,
        index * 10 <= u64::MAX,
    ensures
        ({
            let before = offset_at(parsed, index - 1) as int;
            let own: int = if parsed[index]->0 >= parsed[first]->0 {
                parsed[index]->0 - parsed[first]->0
            } else {
                index * 10
            };
            offset_at(parsed, index) == if own >= before {
                own
            } else {
                before
            }
        }),
        offset_at(parsed, 0) == 0,
{
    first_parsed_is_first(parsed, first);
}

proof fn first_parsed_is_first(parsed: Seq<Option<u64>>, first: int)
    requires
        0 <= first < parsed.len(),
        parsed[first] is Some,
        forall|i: int| 0 <= i < first ==> (#[trigger] parsed[i]) is None,
    ensures
        first_parsed(parsed) == parsed[first],
    decreases parsed.len(),
{
    if first > 0 {
        assert(parsed[0] is None);
        assert forall|i: int| 0 <= i < first - 1 implies (#[trigger] parsed.skip(1)[i]) is None by {
            assert(parsed[i + 1] is None);
        }
        first_parsed_is_first(parsed.skip(1), first - 1);
    }
}

/// The timeline holds every record, in the order of the capture.
pub proof fn timelines_hold_every_record(
    records: Seq<ReplayRecordView>,
    parsed: Seq<Option<u64>>,
    i: int,
)
    requires
        0 <= i < records.len(),
    ensures
        timeline(records, parsed).len() == records.len(),
        timeline(records, parsed)[i].record == records[i],
        end_of(timeline(records, parsed)) == offset_at(parsed, records.len() - 1),
{
}

/// A duration is shown as minutes of at least two digits, seconds of two and milliseconds of three.
pub proof fn durations_are_split(minutes: nat, seconds: nat, millis: nat)
    requires
        seconds < 60,
        millis < 1_000,
        60_000 * minutes + 1_000 * seconds + millis <= u64::MAX,
    ensures
        duration_text((60_000 * minutes + 1_000 * seconds + millis) as u64)
            == text::padded_decimal(minutes, 2) + ":"@ + text::padded_decimal(seconds, 2) + "."@
            + text::padded_decimal(millis, 3),
{
    let ms = (60_000 * minutes + 1_000 * seconds + millis) as u64;
    assert(ms / 60_000 == minutes);
    assert(ms / 1_000 == 60 * minutes + seconds);
    assert(ms / 1_000 % 60 == seconds);
    assert(ms % 1_000 == millis);
}

/// A time from the epoch on is used as it is; an earlier one, like a text that is no time, is none.
pub proof fn times_before_the_epoch_are_unreadable(millis: i64)
    ensures
        millis >= 0 ==> usable_time(Some(millis)) == Some(millis as u64),
        millis < 0 ==> usable_time(Some(millis)) is None,
        usable_time(None) is None,
{
}

/// A record that is not there cannot be gone to.
pub proof fn missing_records_change_nothing(v: ReplayControllerView, index: int, elapsed_ms: u64)
    requires
        index < 0 || index >= v.records.len(),
    ensures
        at_event(v, index, elapsed_ms) == v,
{
}

} // verus!
