//! A session: the packets of one device or capture, with their counters, frames and replay.

use crate::ble::model::CharacteristicKey;
#[allow(unused_imports)]
use crate::ble::model::CharacteristicKeyView;
use crate::capture::ReplayRecord;
#[allow(unused_imports)]
use crate::capture::ReplayRecordView;
use crate::codec;
use crate::lists;
use crate::monitor::log::{LogDirection, LogEntry, ProtocolFrameEntry, TrafficStats};
use crate::monitor::log;
#[allow(unused_imports)]
use crate::monitor::log::{LogEntryView, ProtocolFrameEntryView};
#[allow(unused_imports)]
use crate::numbers::F32Bits;
use crate::protocol;
use crate::protocol::{ProtocolConfig, ProtocolDecoder, StreamProtocolDecoder};
#[allow(unused_imports)]
use crate::protocol::{DecodedFrameView, ProtocolConfigView, StreamProtocolDecoderView};
use crate::protocol_export;
use crate::protocol_export::ProtocolExportFrame;
#[allow(unused_imports)]
use crate::protocol_export::ProtocolExportFrameView;
use crate::replay;
use crate::replay::ReplayController;
#[allow(unused_imports)]
use crate::replay::ReplayControllerView;
use crate::text;
use crate::workspace;
use crate::workspace::{Bookmark, SessionKind, WorkspaceSession};
#[allow(unused_imports)]
use crate::workspace::{BookmarkView, WorkspaceSessionView};
use std::collections::VecDeque;
use std::path::PathBuf;
use vstd::prelude::*;
#[allow(unused_imports)]
use vstd::string::*;

verus! {

/// The most packets that a log keeps.
pub const MAX_LOG_ENTRIES: usize = 20_000;

/// The most decoded frames that a session keeps.
pub const MAX_PROTOCOL_FRAMES: usize = 5_000;

/// A session.
pub struct RuntimeSession {
    pub meta: WorkspaceSession,
    pub logs: VecDeque<LogEntry>,
    pub stats: TrafficStats,
    pub protocol_decoder: StreamProtocolDecoder,
    pub protocol_frames: VecDeque<ProtocolFrameEntry>,
    /// The number of the newest frame.
    pub protocol_sequence: u64,
    pub replay: Option<ReplayController>,
}

/// The mathematical value of [`RuntimeSession`].
#[verifier::ext_equal]
pub struct RuntimeSessionView {
    pub meta: WorkspaceSessionView,
    pub logs: Seq<LogEntryView>,
    pub stats: TrafficStats,
    pub protocol_decoder: StreamProtocolDecoderView,
    pub protocol_frames: Seq<ProtocolFrameEntryView>,
    pub protocol_sequence: u64,
    pub replay: Option<ReplayControllerView>,
}

impl DeepView for RuntimeSession {
    type V = RuntimeSessionView;

    open spec fn deep_view(&self) -> RuntimeSessionView {
        RuntimeSessionView {
            meta: self.meta.deep_view(),
            logs: self.logs.deep_view(),
            stats: self.stats,
            protocol_decoder: self.protocol_decoder.deep_view(),
            protocol_frames: self.protocol_frames.deep_view(),
            protocol_sequence: self.protocol_sequence,
            replay: self.replay.deep_view(),
        }
    }
}

/// What holds of a session at any time.
pub open spec fn session_wf(s: RuntimeSessionView) -> bool {
    &&& s.logs.len() <= MAX_LOG_ENTRIES
    &&& s.protocol_frames.len() <= MAX_PROTOCOL_FRAMES
    &&& s.protocol_decoder.buffer.len() <= protocol::MAX_BUFFER_BYTES
    &&& s.replay matches Some(controller) ==> replay::replay_wf(controller)
}

/// A session without packets.
pub open spec fn empty_session(meta: WorkspaceSessionView) -> RuntimeSessionView {
    RuntimeSessionView {
        meta,
        logs: Seq::empty(),
        stats: log::no_traffic(),
        protocol_decoder: StreamProtocolDecoderView {
            config: protocol::default_config(),
            buffer: Seq::empty(),
        },
        protocol_frames: Seq::empty(),
        protocol_sequence: 0,
        replay: None,
    }
}

/// The session for the connected device.
pub open spec fn live_meta(id: u64, created_at: Seq<char>) -> WorkspaceSessionView {
    WorkspaceSessionView {
        id,
        name: "Live "@ + text::decimal(id as nat),
        kind: SessionKind::Live,
        ..workspace::blank_session(created_at)
    }
}

/// The session for a capture file.
pub open spec fn replay_meta(
    id: u64,
    path: PathBuf,
    file_name: Option<Seq<char>>,
    created_at: Seq<char>,
) -> WorkspaceSessionView {
    WorkspaceSessionView {
        id,
        name: match file_name {
            Some(name) => name,
            None => "Replay"@,
        },
        kind: SessionKind::Replay,
        source_path: Some(path),
        ..workspace::blank_session(created_at)
    }
}

/// `a + b`, or the largest number where that is too large.
pub open spec fn capped_sum(a: u64, b: nat) -> u64 {
    if a + b <= u64::MAX {
        (a + b) as u64
    } else {
        u64::MAX
    }
}

/// New frames with their numbers and the time of the packet.
pub open spec fn numbered(frames: Seq<DecodedFrameView>, sequence: u64, timestamp: Seq<char>) -> Seq<
    ProtocolFrameEntryView,
> {
    Seq::new(
        frames.len(),
        |i: int|
            ProtocolFrameEntryView {
                sequence: capped_sum(sequence, (i + 1) as nat),
                timestamp,
                data: frames[i].data,
                crc: frames[i].crc,
                fields: frames[i].fields,
            },
    )
}

/// Whether a packet goes to the protocol decoder.
pub open spec fn is_decoded(
    entry: LogEntryView,
    source: Option<CharacteristicKeyView>,
    config: ProtocolConfigView,
) -> bool {
    entry.direction == LogDirection::Rx && config.enabled && source == Some(log::entry_key(entry))
}

/// A session after the decoder has seen a packet.
pub open spec fn with_frames(
    s: RuntimeSessionView,
    entry: LogEntryView,
    source: Option<CharacteristicKeyView>,
    config: ProtocolConfigView,
) -> RuntimeSessionView {
    if is_decoded(entry, source, config) {
        let decoder = protocol::configured(s.protocol_decoder, config);
        let cut = protocol::pushed(decoder.config, decoder.buffer, entry.data);
        RuntimeSessionView {
            protocol_decoder: StreamProtocolDecoderView { buffer: cut.1, ..decoder },
            protocol_frames: lists::newest(
                s.protocol_frames + numbered(cut.0, s.protocol_sequence, entry.timestamp),
                MAX_PROTOCOL_FRAMES as nat,
            ),
            protocol_sequence: capped_sum(s.protocol_sequence, cut.0.len()),
            ..s
        }
    } else {
        s
    }
}

/// A session after a packet: it is counted and decoded, and logged unless it is hidden.
pub open spec fn ingested(
    s: RuntimeSessionView,
    entry: LogEntryView,
    source: Option<CharacteristicKeyView>,
    config: ProtocolConfigView,
    hidden: bool,
) -> RuntimeSessionView {
    let stats = log::counted(s.stats, entry.direction, entry.data.len());
    let decoded = with_frames(RuntimeSessionView { stats, ..s }, entry, source, config);
    if hidden {
        RuntimeSessionView {
            stats: TrafficStats {
                paused_rx_packets: capped_sum(stats.paused_rx_packets, 1),
                ..stats
            },
            ..decoded
        }
    } else {
        RuntimeSessionView {
            logs: lists::newest(s.logs.push(entry), MAX_LOG_ENTRIES as nat),
            ..decoded
        }
    }
}

/// A session with its decoder and its frames cleared.
pub open spec fn without_frames(s: RuntimeSessionView) -> RuntimeSessionView {
    RuntimeSessionView {
        protocol_decoder: StreamProtocolDecoderView {
            buffer: Seq::empty(),
            ..s.protocol_decoder
        },
        protocol_frames: Seq::empty(),
        protocol_sequence: 0,
        ..s
    }
}

/// A session with one more bookmark.
pub open spec fn with_bookmark(s: RuntimeSessionView, bookmark: BookmarkView) -> RuntimeSessionView {
    RuntimeSessionView {
        meta: WorkspaceSessionView { bookmarks: s.meta.bookmarks.push(bookmark), ..s.meta },
        ..s
    }
}

/// The place of the replay, where the session has one.
pub open spec fn replay_place(s: RuntimeSessionView) -> Option<u64> {
    match s.replay {
        Some(controller) => Some(controller.position),
        None => None,
    }
}

/// The bookmark for a packet.
pub open spec fn log_bookmark(s: RuntimeSessionView, id: u64, entry: LogEntryView) -> BookmarkView {
    BookmarkView {
        id,
        label: log::direction_text(entry.direction) + " "@ + entry.timestamp,
        timestamp: entry.timestamp,
        source: "log"@,
        sequence: None,
        replay_position_ms: replay_place(s),
        service_uuid: entry.service_uuid,
        characteristic_uuid: entry.characteristic_uuid,
        hex: codec::hex_text(entry.data),
    }
}

/// The bookmark for a frame.
pub open spec fn frame_bookmark(
    s: RuntimeSessionView,
    id: u64,
    frame: ProtocolFrameEntryView,
    source: Option<CharacteristicKeyView>,
) -> BookmarkView {
    BookmarkView {
        id,
        label: "Protocol frame #"@ + text::decimal(frame.sequence as nat),
        timestamp: frame.timestamp,
        source: "protocol"@,
        sequence: Some(frame.sequence),
        replay_position_ms: replay_place(s),
        service_uuid: match source {
            Some(key) => key.service_uuid,
            None => Seq::empty(),
        },
        characteristic_uuid: match source {
            Some(key) => key.characteristic_uuid,
            None => Seq::empty(),
        },
        hex: codec::hex_text(frame.data),
    }
}

/// The bookmark for a place on the timeline.
pub open spec fn place_bookmark(id: u64, offset_ms: u64) -> BookmarkView {
    BookmarkView {
        id,
        label: "Replay "@ + replay::duration_text(offset_ms),
        timestamp: Seq::empty(),
        source: "replay"@,
        sequence: None,
        replay_position_ms: Some(offset_ms),
        service_uuid: Seq::empty(),
        characteristic_uuid: Seq::empty(),
        hex: Seq::empty(),
    }
}

/// The bookmarks with a new label on the first one with an id.
pub open spec fn relabelled(bookmarks: Seq<BookmarkView>, id: u64, label: Seq<char>) -> Seq<
    BookmarkView,
>
    decreases bookmarks.len(),
{
    if bookmarks.len() == 0 {
        bookmarks
    } else if bookmarks[0].id == id {
        bookmarks.update(0, BookmarkView { label, ..bookmarks[0] })
    } else {
        seq![bookmarks[0]] + relabelled(bookmarks.skip(1), id, label)
    }
}

/// The packet that a record of a capture stands for.
pub open spec fn entry_of(record: ReplayRecordView, direction: LogDirection) -> LogEntryView {
    LogEntryView {
        timestamp: record.timestamp,
        direction,
        service_uuid: record.service_uuid,
        characteristic_uuid: record.characteristic_uuid,
        data: record.data,
    }
}

/// The packet that a record of a capture stands for; a record without a known direction stands
/// for none.
pub fn entry_from_record(record: ReplayRecord) -> (r: Option<LogEntry>)
    ensures
        match (r, log::direction_named(record.direction@)) {
            (Some(entry), Some(direction)) => entry.deep_view() == entry_of(
                record.deep_view(),
                direction,
            ),
            (None, None) => true,
            _ => false,
        },
{
    match log::parse_direction(record.direction.as_str()) {
        Some(direction) => Some(
            LogEntry {
                timestamp: record.timestamp,
                direction,
                service_uuid: record.service_uuid,
                characteristic_uuid: record.characteristic_uuid,
                data: record.data,
            },
        ),
        None => None,
    }
}

/// A frame as it is exported.
pub open spec fn is_export_of(out: ProtocolExportFrameView, frame: ProtocolFrameEntryView) -> bool {
    &&& out.sequence == frame.sequence
    &&& out.timestamp == frame.timestamp
    &&& out.crc == crc_text(frame.crc)
    &&& out.hex == codec::hex_text(frame.data)
    &&& protocol_export::by_name(out.fields, frame.fields)
}

/// The name of a checksum verdict.
pub open spec fn crc_text(status: protocol::CrcStatus) -> Seq<char> {
    match status {
        protocol::CrcStatus::Disabled => "-"@,
        protocol::CrcStatus::Valid => "OK"@,
        protocol::CrcStatus::Invalid => "BAD"@,
        protocol::CrcStatus::TooShort => "SHORT"@,
    }
}

impl RuntimeSession {
    /// A session without packets.
    pub fn new(meta: WorkspaceSession) -> (r: Self)
        ensures
            r.deep_view() == empty_session(meta.deep_view()),
            session_wf(r.deep_view()),
    {
        let r = RuntimeSession {
            meta,
            logs: VecDeque::new(),
            stats: TrafficStats::default(),
            protocol_decoder: StreamProtocolDecoder::default(),
            protocol_frames: VecDeque::new(),
            protocol_sequence: 0,
            replay: None,
        };
        assert(r.deep_view().logs =~= Seq::empty());
        assert(r.deep_view().protocol_frames =~= Seq::empty());
        r
    }

    /// The session for the connected device.
    pub fn live(id: u64, created_at: String) -> (r: Self)
        ensures
            r.deep_view() == empty_session(live_meta(id, created_at@)),
            session_wf(r.deep_view()),
    {
        let number = text::decimal_text(id);
        let name = text::joined("Live ", number.as_str());
        let base = WorkspaceSession::blank(created_at);
        RuntimeSession::new(WorkspaceSession { id, name, kind: SessionKind::Live, ..base })
    }

    /// The session for a capture file.
    pub fn replay(
        id: u64,
        path: PathBuf,
        file_name: Option<String>,
        replay: ReplayController,
        created_at: String,
    ) -> (r: Self)
        requires
            replay.wf(),
        ensures
            r.deep_view() == (RuntimeSessionView {
                replay: Some(replay.deep_view()),
                ..empty_session(replay_meta(id, path, file_name.deep_view(), created_at@))
            }),
            session_wf(r.deep_view()),
    {
        let name = match file_name {
            Some(name) => name,
            None => "Replay".to_owned(),
        };
        let base = WorkspaceSession::blank(created_at);
        let mut session = RuntimeSession::new(
            WorkspaceSession {
                id,
                name,
                kind: SessionKind::Replay,
                source_path: Some(path),
                ..base
            },
        );
        session.replay = Some(replay);
        session
    }

    /// Takes a packet: counts it, hands it to the protocol decoder where it comes from the
    /// protocol source, and logs it unless it is hidden.
    pub fn ingest(
        &mut self,
        entry: LogEntry,
        source: &Option<CharacteristicKey>,
        config: &ProtocolConfig,
        hidden: bool,
    )
        requires
            session_wf(old(self).deep_view()),
            log::has_room(old(self).stats, entry.direction, entry.data@.len()),
        ensures
            final(self).deep_view() == ingested(
                old(self).deep_view(),
                entry.deep_view(),
                source.deep_view(),
                config.deep_view(),
                hidden,
            ),
            session_wf(final(self).deep_view()),
    {
        self.stats.record(entry.direction, entry.data.len());
        self.capture_protocol_frames(&entry, source, config);
        if hidden {
            self.stats.paused_rx_packets = self.stats.paused_rx_packets.saturating_add(1);
            return;
        }
        let ghost value = entry.deep_view();
        let ghost all = self.logs.deep_view().push(value);
        self.logs.push_back(entry);
        assert(self.logs.deep_view() =~= all);
        lists::keep_newest(&mut self.logs, MAX_LOG_ENTRIES);
        assert(self.logs.deep_view() =~= lists::newest(all, MAX_LOG_ENTRIES as nat));
    }

    fn capture_protocol_frames(
        &mut self,
        entry: &LogEntry,
        source: &Option<CharacteristicKey>,
        config: &ProtocolConfig,
    )
        requires
            session_wf(old(self).deep_view()),
        ensures
            final(self).deep_view() == with_frames(
                old(self).deep_view(),
                entry.deep_view(),
                source.deep_view(),
                config.deep_view(),
            ),
            session_wf(final(self).deep_view()),
            final(self).stats == old(self).stats,
    {
        if entry.direction != LogDirection::Rx || !config.enabled {
            return;
        }
        match source {
            Some(key) => if entry.service_uuid != key.service_uuid || entry.characteristic_uuid
                != key.characteristic_uuid {
                return;
            },
            None => {
                return;
            },
        }
        let ghost before = self.deep_view();
        let ghost value = entry.deep_view();
        self.protocol_decoder.configure(config);
        let ghost decoder = self.protocol_decoder.deep_view();
        let frames = self.protocol_decoder.push(entry.data.as_slice());
        let ghost cut = protocol::pushed(decoder.config, decoder.buffer, value.data);
        proof {
            protocol::buffer_stays_bounded(decoder.config, decoder.buffer, value.data);
        }
        let ghost added = numbered(cut.0, before.protocol_sequence, value.timestamp);
        let ghost all = before.protocol_frames + added;
        let ghost after_push = self.deep_view();
        let mut i: usize = 0;
        assert(self.protocol_frames.deep_view() =~= before.protocol_frames + added.take(0));
        while i < frames.len()
            invariant
                i <= frames@.len(),
                frames.deep_view() == cut.0,
                value == entry.deep_view(),
                added == numbered(cut.0, before.protocol_sequence, value.timestamp),
                self.protocol_sequence == capped_sum(before.protocol_sequence, i as nat),
                self.protocol_frames.deep_view() =~= before.protocol_frames + added.take(i as int),
                self.deep_view() == (RuntimeSessionView {
                    protocol_frames: self.protocol_frames.deep_view(),
                    protocol_sequence: self.protocol_sequence,
                    ..after_push
                }),
            decreases frames@.len() - i,
        {
            let frame = frames[i].clone();
            assert(cut.0[i as int] == frame.deep_view());
            let ghost earlier = self.protocol_frames.deep_view();
            self.protocol_sequence = self.protocol_sequence.saturating_add(1);
            let next = ProtocolFrameEntry {
                sequence: self.protocol_sequence,
                timestamp: entry.timestamp.clone(),
                data: frame.data,
                crc: frame.crc,
                fields: frame.fields,
            };
            assert(next.deep_view() =~= added[i as int]);
            self.protocol_frames.push_back(next);
            assert(self.protocol_frames.deep_view() =~= earlier.push(added[i as int]));
            i = i + 1;
        }
        assert(self.protocol_frames.deep_view() =~= all);
        lists::keep_newest(&mut self.protocol_frames, MAX_PROTOCOL_FRAMES);
        assert(self.protocol_frames.deep_view() =~= lists::newest(
            all,
            MAX_PROTOCOL_FRAMES as nat,
        ));
    }

    /// Clears the decoder and the frames.
    pub fn reset_protocol(&mut self)
        requires
            session_wf(old(self).deep_view()),
        ensures
            final(self).deep_view() == without_frames(old(self).deep_view()),
            session_wf(final(self).deep_view()),
    {
        self.protocol_decoder.reset();
        self.protocol_frames.clear();
        self.protocol_sequence = 0;
        assert(self.protocol_frames.deep_view() =~= Seq::empty());
    }

    /// Clears the log.
    pub fn clear_logs(&mut self)
        requires
            session_wf(old(self).deep_view()),
        ensures
            final(self).deep_view() == (RuntimeSessionView {
                logs: Seq::empty(),
                ..old(self).deep_view()
            }),
            session_wf(final(self).deep_view()),
    {
        self.logs.clear();
        assert(self.logs.deep_view() =~= Seq::empty());
    }

    /// The place of the replay, where the session has one.
    pub fn replay_position(&self) -> (r: Option<u64>)
        ensures
            r == replay_place(self.deep_view()),
    {
        match &self.replay {
            Some(controller) => Some(controller.position_ms()),
            None => None,
        }
    }

    /// Adds a bookmark.
    pub fn add_bookmark(&mut self, bookmark: Bookmark)
        requires
            session_wf(old(self).deep_view()),
        ensures
            final(self).deep_view() == with_bookmark(old(self).deep_view(), bookmark.deep_view()),
            session_wf(final(self).deep_view()),
    {
        let ghost before = self.meta.bookmarks.deep_view();
        let ghost value = bookmark.deep_view();
        self.meta.bookmarks.push(bookmark);
        assert(self.meta.bookmarks.deep_view() =~= before.push(value));
    }

    /// The bookmark for a packet.
    pub fn bookmark_for_log(&self, id: u64, entry: &LogEntry) -> (r: Bookmark)
        ensures
            r.deep_view() == log_bookmark(self.deep_view(), id, entry.deep_view()),
    {
        let head = text::joined(entry.direction.label(), " ");
        Bookmark {
            id,
            label: text::joined(head.as_str(), entry.timestamp.as_str()),
            timestamp: entry.timestamp.clone(),
            source: "log".to_owned(),
            sequence: None,
            replay_position_ms: self.replay_position(),
            service_uuid: entry.service_uuid.clone(),
            characteristic_uuid: entry.characteristic_uuid.clone(),
            hex: codec::format_hex(entry.data.as_slice()),
        }
    }

    /// The bookmark for a frame.
    pub fn bookmark_for_frame(
        &self,
        id: u64,
        frame: &ProtocolFrameEntry,
        source: &Option<CharacteristicKey>,
    ) -> (r: Bookmark)
        ensures
            r.deep_view() == frame_bookmark(
                self.deep_view(),
                id,
                frame.deep_view(),
                source.deep_view(),
            ),
    {
        let number = text::decimal_text(frame.sequence);
        let service_uuid = match source {
            Some(key) => key.service_uuid.clone(),
            None => String::new(),
        };
        let characteristic_uuid = match source {
            Some(key) => key.characteristic_uuid.clone(),
            None => String::new(),
        };
        Bookmark {
            id,
            label: text::joined("Protocol frame #", number.as_str()),
            timestamp: frame.timestamp.clone(),
            source: "protocol".to_owned(),
            sequence: Some(frame.sequence),
            replay_position_ms: self.replay_position(),
            service_uuid,
            characteristic_uuid,
            hex: codec::format_hex(frame.data.as_slice()),
        }
    }

    /// Changes the label of a bookmark.
    pub fn relabel_bookmark(&mut self, id: u64, label: String)
        requires
            session_wf(old(self).deep_view()),
        ensures
            final(self).deep_view() == (RuntimeSessionView {
                meta: WorkspaceSessionView {
                    bookmarks: relabelled(old(self).deep_view().meta.bookmarks, id, label@),
                    ..old(self).deep_view().meta
                },
                ..old(self).deep_view()
            }),
            session_wf(final(self).deep_view()),
    {
        let ghost all = self.meta.bookmarks.deep_view();
        let mut i: usize = 0;
        assert(all.skip(0) =~= all);
        assert(all.take(0) + relabelled(all, id, label@) =~= relabelled(all, id, label@));
        while i < self.meta.bookmarks.len() && self.meta.bookmarks[i].id != id
            invariant
                i <= self.meta.bookmarks@.len(),
                all == self.meta.bookmarks.deep_view(),
                self.deep_view() == old(self).deep_view(),
                relabelled(all, id, label@) =~= all.take(i as int) + relabelled(
                    all.skip(i as int),
                    id,
                    label@,
                ),
            decreases self.meta.bookmarks@.len() - i,
        {
            assert(all.skip(i as int)[0] == self.meta.bookmarks@[i as int].deep_view());
            assert(all.skip(i as int).skip(1) =~= all.skip(i + 1));
            assert(all.take(i as int) + (seq![all[i as int]] + relabelled(
                all.skip(i + 1),
                id,
                label@,
            )) =~= all.take(i + 1) + relabelled(all.skip(i + 1), id, label@));
            i = i + 1;
        }
        if i < self.meta.bookmarks.len() {
            assert(all.skip(i as int)[0] == self.meta.bookmarks@[i as int].deep_view());
            let old_mark = self.meta.bookmarks[i].clone();
            let changed = Bookmark { label, ..old_mark };
            let ghost value = changed.deep_view();
            self.meta.bookmarks.set(i, changed);
            assert(self.meta.bookmarks.deep_view() =~= all.update(i as int, value));
            assert(all.update(i as int, value) =~= relabelled(all, id, label@));
        } else {
            assert(all.take(i as int) + relabelled(all.skip(i as int), id, label@) =~= all);
        }
    }

    /// Removes the bookmarks with an id.
    pub fn remove_bookmark(&mut self, id: u64)
        requires
            session_wf(old(self).deep_view()),
        ensures
            final(self).deep_view() == (RuntimeSessionView {
                meta: WorkspaceSessionView {
                    bookmarks: old(self).deep_view().meta.bookmarks.filter(
                        |bookmark: BookmarkView| bookmark.id != id,
                    ),
                    ..old(self).deep_view().meta
                },
                ..old(self).deep_view()
            }),
            session_wf(final(self).deep_view()),
    {
        let ghost all = self.meta.bookmarks.deep_view();
        let ghost stays = |bookmark: BookmarkView| bookmark.id != id;
        let mut kept: Vec<Bookmark> = Vec::new();
        let mut i: usize = 0;
        proof {
            reveal(Seq::filter);
            assert(all.take(0).filter(stays) =~= Seq::empty());
        }
        while i < self.meta.bookmarks.len()
            invariant
                i <= self.meta.bookmarks@.len(),
                all == self.meta.bookmarks.deep_view(),
                self.deep_view() == old(self).deep_view(),
                stays == (|bookmark: BookmarkView| bookmark.id != id),
                kept.deep_view() =~= all.take(i as int).filter(stays),
            decreases self.meta.bookmarks@.len() - i,
        {
            let ghost before = kept.deep_view();
            let ghost next = all.take(i + 1);
            proof {
                reveal(Seq::filter);
                assert(next.drop_last() =~= all.take(i as int));
                assert(next.last() == self.meta.bookmarks@[i as int].deep_view());
            }
            if self.meta.bookmarks[i].id != id {
                kept.push(self.meta.bookmarks[i].clone());
                assert(kept.deep_view() =~= before.push(all[i as int]));
            }
            i = i + 1;
        }
        assert(all.take(i as int) =~= all);
        self.meta.bookmarks = kept;
    }

    /// The first frame with a number.
    pub fn frame_numbered(&self, sequence: u64) -> (r: Option<&ProtocolFrameEntry>)
        ensures
            match r {
                Some(frame) => exists|i: int|
                    0 <= i < self.deep_view().protocol_frames.len() && frame.deep_view()
                        == #[trigger] self.deep_view().protocol_frames[i]
                        && self.deep_view().protocol_frames[i].sequence == sequence
                        && forall|j: int|
                        0 <= j < i ==> (#[trigger] self.deep_view().protocol_frames[j]).sequence
                            != sequence,
                None => forall|j: int|
                    0 <= j < self.deep_view().protocol_frames.len() ==> (
                    #[trigger] self.deep_view().protocol_frames[j]).sequence != sequence,
            },
    {
        let ghost all = self.deep_view().protocol_frames;
        let mut i: usize = 0;
        while i < self.protocol_frames.len()
            invariant
                i <= self.protocol_frames@.len(),
                all == self.deep_view().protocol_frames,
                forall|j: int| 0 <= j < i ==> (#[trigger] all[j]).sequence != sequence,
            decreases self.protocol_frames@.len() - i,
        {
            assert(all[i as int] == self.protocol_frames@[i as int].deep_view());
            if self.protocol_frames[i].sequence == sequence {
                return Some(&self.protocol_frames[i]);
            }
            i = i + 1;
        }
        None
    }

    /// The frames as they are exported.
    pub fn protocol_export_frames(&self) -> (r: Vec<ProtocolExportFrame>)
        ensures
            r@.len() == self.protocol_frames@.len(),
            forall|i: int|
                0 <= i < r@.len() ==> is_export_of(
                    #[trigger] r.deep_view()[i],
                    self.deep_view().protocol_frames[i],
                ),
    {
        let ghost all = self.protocol_frames.deep_view();
        let mut out: Vec<ProtocolExportFrame> = Vec::new();
        let mut i: usize = 0;
        while i < self.protocol_frames.len()
            invariant
                i <= self.protocol_frames@.len(),
                all == self.protocol_frames.deep_view(),
                out@.len() == i,
                forall|j: int|
                    0 <= j < i ==> is_export_of(#[trigger] out.deep_view()[j], all[j]),
            decreases self.protocol_frames@.len() - i,
        {
            let frame = &self.protocol_frames[i];
            assert(all[i as int] == frame.deep_view());
            let slice = frame.fields.as_slice();
            assert(slice.deep_view() =~= frame.fields.deep_view());
            let next = ProtocolExportFrame {
                sequence: frame.sequence,
                timestamp: frame.timestamp.clone(),
                crc: frame.crc.label().to_owned(),
                hex: codec::format_hex(frame.data.as_slice()),
                fields: protocol_export::collect_fields(slice),
            };
            let ghost value = next.deep_view();
            assert(is_export_of(value, all[i as int]));
            let ghost before = out.deep_view();
            out.push(next);
            assert(out.deep_view() =~= before.push(value));
            i = i + 1;
        }
        out
    }
}

/// The log and the list of frames never grow beyond their limits: the oldest go first, and the
/// newest packet is in the log unless it is hidden.
pub proof fn newest_packets_stay(
    s: RuntimeSessionView,
    entry: LogEntryView,
    source: Option<CharacteristicKeyView>,
    config: ProtocolConfigView,
)
    requires
        session_wf(s),
    ensures
        ({
            let after = ingested(s, entry, source, config, false);
            &&& after.logs.len() <= MAX_LOG_ENTRIES
            &&& after.logs.last() == entry
            &&& after.protocol_frames.len() <= MAX_PROTOCOL_FRAMES
            &&& s.logs.len() < MAX_LOG_ENTRIES ==> after.logs == s.logs.push(entry)
        }),
{
}

/// A hidden packet is counted and decoded like any other; only the log does not take it.
pub proof fn hidden_packets_are_counted(
    s: RuntimeSessionView,
    entry: LogEntryView,
    source: Option<CharacteristicKeyView>,
    config: ProtocolConfigView,
)
    ensures
        ({
            let hidden = ingested(s, entry, source, config, true);
            let shown = ingested(s, entry, source, config, false);
            &&& hidden.logs == s.logs
            &&& hidden.stats.rx_packets == shown.stats.rx_packets
            &&& hidden.stats.rx_bytes == shown.stats.rx_bytes
            &&& hidden.protocol_frames == shown.protocol_frames
            &&& hidden.protocol_decoder == shown.protocol_decoder
        }),
{
}

/// Only packets that the device sent by itself, from the protocol source, reach the decoder.
pub proof fn only_the_source_is_decoded(
    s: RuntimeSessionView,
    entry: LogEntryView,
    source: Option<CharacteristicKeyView>,
    config: ProtocolConfigView,
    hidden: bool,
)
    requires
        entry.direction != LogDirection::Rx || source != Some(log::entry_key(entry)),
    ensures
        ingested(s, entry, source, config, hidden).protocol_frames == s.protocol_frames,
        ingested(s, entry, source, config, hidden).protocol_decoder == s.protocol_decoder,
{
}

/// The numbers of the frames of one packet go up by one from the newest earlier number.
pub proof fn frame_numbers_continue(
    frames: Seq<DecodedFrameView>,
    sequence: u64,
    timestamp: Seq<char>,
    i: int,
)
    requires
        0 <= i < frames.len(),
        sequence + frames.len() <= u64::MAX,
    ensures
        numbered(frames, sequence, timestamp)[i].sequence == sequence + i + 1,
        capped_sum(sequence, frames.len()) == sequence + frames.len(),
{
}

/// What a packet changes in a session: it is counted, it goes behind the others in the log unless it
/// is hidden, when it is counted as hidden instead, and of the log the newest twenty thousand
/// packets stay. What the session is and where its replay stands does not change.
pub proof fn packets_are_logged_and_counted(
    s: RuntimeSessionView,
    entry: LogEntryView,
    source: Option<CharacteristicKeyView>,
    config: ProtocolConfigView,
    hidden: bool,
)
    requires
        session_wf(s),
        log::has_room(s.stats, entry.direction, entry.data.len()),
        s.stats.paused_rx_packets < u64::MAX,
    ensures
        ({
            let after = ingested(s, entry, source, config, hidden);
            let counted = log::counted(s.stats, entry.direction, entry.data.len());
            &&& after.meta == s.meta && after.replay == s.replay
            &&& hidden ==> after.logs == s.logs && after.stats.paused_rx_packets
                == s.stats.paused_rx_packets + 1
            &&& !hidden ==> after.stats.paused_rx_packets == s.stats.paused_rx_packets
            &&& after.stats.rx_packets == counted.rx_packets && after.stats.rx_bytes
                == counted.rx_bytes && after.stats.read_packets == counted.read_packets
                && after.stats.read_bytes == counted.read_bytes && after.stats.tx_packets
                == counted.tx_packets && after.stats.tx_bytes == counted.tx_bytes
            &&& !hidden && s.logs.len() < 20_000 ==> after.logs == s.logs.push(entry)
            &&& !hidden && s.logs.len() == 20_000 ==> after.logs == s.logs.skip(1).push(entry)
        }),
{
    if s.logs.len() == 20_000 {
        assert(s.logs.push(entry).skip(1) =~= s.logs.skip(1).push(entry));
    }
}

/// A packet that the device sent by itself from the protocol source, while decoding is on, goes
/// through the decoder under the configuration: the frames that come out go behind the others, with
/// the time of the packet and the next numbers, and the newest five thousand stay. Any other packet
/// leaves decoder, frames and numbers as they are.
pub proof fn packets_of_the_source_are_decoded(
    s: RuntimeSessionView,
    entry: LogEntryView,
    source: Option<CharacteristicKeyView>,
    config: ProtocolConfigView,
    hidden: bool,
)
    ensures
        ({
            let after = ingested(s, entry, source, config, hidden);
            let decoded = config.enabled && entry.direction == LogDirection::Rx && (
            source matches Some(key) && key.service_uuid == entry.service_uuid
                && key.characteristic_uuid == entry.characteristic_uuid);
            let ready = protocol::configured(s.protocol_decoder, config);
            let cut = protocol::pushed(ready.config, ready.buffer, entry.data);
            let n = cut.0.len() as int;
            let kept = after.protocol_frames.len() as int;
            let total = s.protocol_frames.len() + n;
            &&& !decoded ==> after.protocol_decoder == s.protocol_decoder && after.protocol_frames
                == s.protocol_frames && after.protocol_sequence == s.protocol_sequence
            &&& decoded ==> {
                &&& after.protocol_decoder.config == ready.config
                &&& after.protocol_decoder.buffer == cut.1
                &&& s.protocol_sequence + n <= u64::MAX ==> after.protocol_sequence
                    == s.protocol_sequence + n
                &&& kept == if total <= 5_000 {
                    total
                } else {
                    5_000
                }
                &&& forall|i: int|
                    0 <= i < kept && total - kept + i < s.protocol_frames.len()
                        ==> #[trigger] after.protocol_frames[i] == s.protocol_frames[total - kept
                        + i]
                &&& s.protocol_sequence + n <= u64::MAX ==> forall|i: int|
                    0 <= i < kept && total - kept + i >= s.protocol_frames.len() ==> ({
                        let j = total - kept + i - s.protocol_frames.len();
                        let frame = #[trigger] after.protocol_frames[i];
                        &&& frame.sequence == s.protocol_sequence + j + 1
                        &&& frame.timestamp == entry.timestamp
                        &&& frame.data == cut.0[j].data
                        &&& frame.crc == cut.0[j].crc
                        &&& frame.fields == cut.0[j].fields
                    })
            }
        }),
{
    if source is Some {
        assert(log::entry_key(entry) == source->0 <==> source->0.service_uuid
            == entry.service_uuid && source->0.characteristic_uuid == entry.characteristic_uuid) by {
            if source->0.service_uuid == entry.service_uuid && source->0.characteristic_uuid
                == entry.characteristic_uuid {
                assert(log::entry_key(entry) =~= source->0);
            }
        }
    }
}

/// Clearing the frames empties the decoder, the list and the numbering, and keeps the rest.
pub proof fn cleared_frames_start_anew(s: RuntimeSessionView)
    ensures
        ({
            let after = without_frames(s);
            &&& after.protocol_frames.len() == 0 && after.protocol_sequence == 0
            &&& after.protocol_decoder.buffer.len() == 0
            &&& after.protocol_decoder.config == s.protocol_decoder.config
            &&& after.logs == s.logs && after.stats == s.stats && after.meta == s.meta
            &&& after.replay == s.replay
        }),
{
}

/// A bookmark says what it marks: a packet or a frame by its time, its UUIDs and its bytes, which
/// read back from their HEX notation, a frame also by its number, and each with the place of the
/// replay, where there is one.
pub proof fn bookmarks_say_what_they_mark(
    s: RuntimeSessionView,
    id: u64,
    entry: LogEntryView,
    frame: ProtocolFrameEntryView,
    key: CharacteristicKeyView,
    offset_ms: u64,
)
    ensures
        ({
            let a = log_bookmark(s, id, entry);
            let b = frame_bookmark(s, id, frame, Some(key));
            let c = frame_bookmark(s, id, frame, None);
            let d = place_bookmark(id, offset_ms);
            &&& a.id == id && b.id == id && c.id == id && d.id == id
            &&& a.timestamp == entry.timestamp && a.service_uuid == entry.service_uuid
            &&& a.characteristic_uuid == entry.characteristic_uuid && a.sequence is None
            &&& codec::hex_result(a.hex) == Ok::<Seq<u8>, Option<Seq<char>>>(entry.data)
            &&& b.timestamp == frame.timestamp && b.sequence == Some(frame.sequence)
            &&& b.service_uuid == key.service_uuid && b.characteristic_uuid
                == key.characteristic_uuid
            &&& c.service_uuid.len() == 0 && c.characteristic_uuid.len() == 0
            &&& codec::hex_result(b.hex) == Ok::<Seq<u8>, Option<Seq<char>>>(frame.data)
            &&& s.replay is None ==> a.replay_position_ms is None && b.replay_position_ms is None
            &&& s.replay matches Some(controller) ==> a.replay_position_ms == Some(
                controller.position,
            ) && b.replay_position_ms == Some(controller.position)
            &&& d.replay_position_ms == Some(offset_ms)
            &&& a.source == "log"@ && b.source == "protocol"@ && d.source == "replay"@
            &&& with_bookmark(s, a).meta.bookmarks == s.meta.bookmarks.push(a)
            &&& with_bookmark(s, a).logs == s.logs && with_bookmark(s, a).meta.notes
                == s.meta.notes
        }),
{
    codec::hex_notation_reads_back(entry.data);
    codec::hex_notation_reads_back(frame.data);
}

/// A new label goes to the first bookmark with the id; every other one stays as it is.
pub proof fn one_bookmark_is_relabelled(
    before: Seq<BookmarkView>,
    mark: BookmarkView,
    after: Seq<BookmarkView>,
    label: Seq<char>,
)
    requires
        forall|i: int| 0 <= i < before.len() ==> (#[trigger] before[i]).id != mark.id,
    ensures
        relabelled(before.push(mark) + after, mark.id, label) == before.push(
            BookmarkView { label, ..mark },
        ) + after,
        relabelled(before, mark.id, label) == before,
    decreases before.len(),
{
    let all = before.push(mark) + after;
    if before.len() == 0 {
        assert(all[0] == mark);
        assert(relabelled(all, mark.id, label) =~= before.push(BookmarkView { label, ..mark })
            + after);
    } else {
        let less = before.skip(1);
        assert(before[0].id != mark.id);
        assert forall|i: int| 0 <= i < less.len() implies (#[trigger] less[i]).id != mark.id by {
            assert(before[i + 1].id != mark.id);
        }
        one_bookmark_is_relabelled(less, mark, after, label);
        assert(all.skip(1) =~= less.push(mark) + after);
        assert(all[0] == before[0]);
        assert(relabelled(all, mark.id, label) =~= before.push(BookmarkView { label, ..mark })
            + after);
        assert(relabelled(before, mark.id, label) =~= before);
    }
}

/// A record of a capture stands for a packet with its own time, UUIDs and bytes.
pub proof fn records_stand_for_packets(record: ReplayRecordView, direction: LogDirection)
    ensures
        ({
            let entry = entry_of(record, direction);
            &&& entry.direction == direction && entry.timestamp == record.timestamp
            &&& entry.service_uuid == record.service_uuid && entry.data == record.data
            &&& entry.characteristic_uuid == record.characteristic_uuid
        }),
{
}

/// An exported frame has the number, the time and the bytes of the frame, which read back from their
/// HEX notation, and the verdict on its checksum in a word.
pub proof fn exported_frames_are_those_of_the_list(
    out: ProtocolExportFrameView,
    frame: ProtocolFrameEntryView,
)
    requires
        is_export_of(out, frame),
    ensures
        out.sequence == frame.sequence,
        out.timestamp == frame.timestamp,
        codec::hex_result(out.hex) == Ok::<Seq<u8>, Option<Seq<char>>>(frame.data),
        frame.crc == protocol::CrcStatus::Disabled ==> out.crc == "-"@,
        frame.crc == protocol::CrcStatus::Valid ==> out.crc == "OK"@,
        frame.crc == protocol::CrcStatus::Invalid ==> out.crc == "BAD"@,
        frame.crc == protocol::CrcStatus::TooShort ==> out.crc == "SHORT"@,
        protocol_export::by_name(out.fields, frame.fields),
{
    codec::hex_notation_reads_back(frame.data);
}

} // verus!
