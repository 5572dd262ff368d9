//! The sessions of a workspace: which one is live, which one is shown, and how they come and go.

use crate::ble::model::CharacteristicKey;
#[allow(unused_imports)]
use crate::ble::model::CharacteristicKeyView;
use crate::capture::ReplayRecord;
#[allow(unused_imports)]
use crate::capture::ReplayRecordView;
use crate::monitor::log;
use crate::monitor::log::{LogDirection, LogEntry, ProtocolFrameEntry};
#[allow(unused_imports)]
use crate::monitor::log::{LogEntryView, ProtocolFrameEntryView};
use crate::monitor::session;
use crate::monitor::session::RuntimeSession;
#[allow(unused_imports)]
use crate::monitor::session::RuntimeSessionView;
use crate::numbers::F32Bits;
use crate::protocol::ProtocolConfig;
#[allow(unused_imports)]
use crate::protocol::ProtocolConfigView;
use crate::replay;
use crate::replay::ReplayController;
#[allow(unused_imports)]
use crate::replay::ReplayControllerView;
use crate::text;
use crate::workspace::{Bookmark, SessionKind, WorkspaceSession};
#[allow(unused_imports)]
use crate::workspace::{BookmarkView, WorkspaceSessionView};
use std::path::PathBuf;
use vstd::prelude::*;
#[allow(unused_imports)]
use vstd::string::*;

verus! {

/// The sessions of a workspace.
pub struct SessionStore {
    pub sessions: Vec<RuntimeSession>,
    /// The session that is shown.
    pub active: usize,
    /// The session of the connected device.
    pub live: usize,
    pub next_session_id: u64,
    pub next_bookmark_id: u64,
    /// The frame whose fields are shown.
    pub selected_frame: Option<u64>,
}

/// The mathematical value of [`SessionStore`].
#[verifier::ext_equal]
pub struct SessionStoreView {
    pub sessions: Seq<RuntimeSessionView>,
    pub active: usize,
    pub live: usize,
    pub next_session_id: u64,
    pub next_bookmark_id: u64,
    pub selected_frame: Option<u64>,
}

impl DeepView for SessionStore {
    type V = SessionStoreView;

    open spec fn deep_view(&self) -> SessionStoreView {
        SessionStoreView {
            sessions: self.sessions.deep_view(),
            active: self.active,
            live: self.live,
            next_session_id: self.next_session_id,
            next_bookmark_id: self.next_bookmark_id,
            selected_frame: self.selected_frame,
        }
    }
}

/// Whether every number in use lies below the next one to be given out.
pub open spec fn ids_are_fresh(v: SessionStoreView) -> bool {
    &&& v.next_session_id == u64::MAX || forall|i: int|
        0 <= i < v.sessions.len() ==> (#[trigger] v.sessions[i]).meta.id < v.next_session_id
    &&& v.next_bookmark_id == u64::MAX || forall|i: int, j: int|
        0 <= i < v.sessions.len() && 0 <= j < v.sessions[i].meta.bookmarks.len() ==> (
        #[trigger] v.sessions[i].meta.bookmarks[j]).id < v.next_bookmark_id
}

/// What holds of the sessions at any time: there is a live session and a shown one, and new
/// sessions and bookmarks get numbers that are not in use.
pub open spec fn store_wf(v: SessionStoreView) -> bool {
    &&& v.active < v.sessions.len()
    &&& v.live < v.sessions.len()
    &&& v.sessions[v.live as int].meta.kind == SessionKind::Live
    &&& forall|i: int|
        0 <= i < v.sessions.len() ==> session::session_wf(#[trigger] v.sessions[i])
    &&& ids_are_fresh(v)
}

/// The store with another session at a place.
pub open spec fn with_session(v: SessionStoreView, index: int, s: RuntimeSessionView) -> SessionStoreView {
    SessionStoreView { sessions: v.sessions.update(index, s), ..v }
}

/// The store of a new workspace.
pub open spec fn fresh_store(created_at: Seq<char>) -> SessionStoreView {
    SessionStoreView {
        sessions: seq![session::empty_session(session::live_meta(1, created_at))],
        active: 0,
        live: 0,
        next_session_id: 2,
        next_bookmark_id: 1,
        selected_frame: None,
    }
}

/// Whether a packet is kept out of the log: the session is shown, the display is paused and the
/// device sent the packet by itself.
pub open spec fn is_hidden(v: SessionStoreView, index: usize, entry: LogEntryView, paused: bool) -> bool {
    index == v.active && paused && entry.direction == LogDirection::Rx
}

/// The store after a packet for a session.
pub open spec fn store_ingested(
    v: SessionStoreView,
    index: usize,
    entry: LogEntryView,
    source: Option<CharacteristicKeyView>,
    config: ProtocolConfigView,
    paused: bool,
) -> SessionStoreView {
    if index >= v.sessions.len() {
        v
    } else {
        with_session(
            v,
            index as int,
            session::ingested(
                v.sessions[index as int],
                entry,
                source,
                config,
                is_hidden(v, index, entry, paused),
            ),
        )
    }
}

/// The store with the decoder and the frames of the shown session cleared.
pub open spec fn protocol_cleared(v: SessionStoreView) -> SessionStoreView {
    SessionStoreView {
        selected_frame: None,
        ..with_session(v, v.active as int, session::without_frames(v.sessions[v.active as int]))
    }
}

/// The store after a capture was opened.
pub open spec fn replay_opened(
    v: SessionStoreView,
    path: PathBuf,
    file_name: Option<Seq<char>>,
    records: Seq<ReplayRecordView>,
    created_at: Seq<char>,
) -> SessionStoreView {
    SessionStoreView {
        sessions: v.sessions.push(
            RuntimeSessionView {
                replay: Some(fresh_replay(path, records)),
                ..session::empty_session(
                    session::replay_meta(v.next_session_id, path, file_name, created_at),
                )
            },
        ),
        active: v.sessions.len() as usize,
        next_session_id: session::capped_sum(v.next_session_id, 1),
        ..v
    }
}

/// The controller at the start of a capture.
pub open spec fn fresh_replay(path: PathBuf, records: Seq<ReplayRecordView>) -> ReplayControllerView {
    let items = replay::timeline(records, replay::parsed_timestamps(records));
    ReplayControllerView {
        path,
        records: items,
        duration: replay::end_of(items),
        position: 0,
        cursor: 0,
        speed: F32Bits { bits: replay::NORMAL_SPEED_BITS },
        playing: false,
        anchor: None,
        anchor_position: 0,
    }
}

/// A session that belongs to a device.
pub open spec fn named_session(s: RuntimeSessionView, device_id: Seq<char>, name: Option<Seq<char>>) -> RuntimeSessionView {
    let owned = WorkspaceSessionView { device_id: Some(device_id), ..s.meta };
    RuntimeSessionView {
        meta: match name {
            Some(name) => WorkspaceSessionView {
                device_name: Some(name),
                name: "Live · "@ + name,
                ..owned
            },
            None => owned,
        },
        ..s
    }
}

/// A live session that has become history.
pub open spec fn archived_session(s: RuntimeSessionView) -> RuntimeSessionView {
    RuntimeSessionView {
        meta: WorkspaceSessionView {
            kind: SessionKind::Capture,
            name: match s.meta.device_name {
                Some(name) => "Capture · "@ + name,
                None => s.meta.name,
            },
            ..s.meta
        },
        ..s
    }
}

/// Whether the live session belongs to another device.
pub open spec fn needs_rotation(v: SessionStoreView, device_id: Seq<char>) -> bool {
    let s = v.sessions[v.live as int];
    s.meta.device_id is Some && s.meta.device_id != Some(device_id)
}

/// The store with the live session archived and a fresh one in its place.
pub open spec fn rotated(v: SessionStoreView, created_at: Seq<char>) -> SessionStoreView {
    SessionStoreView {
        sessions: v.sessions.update(
            v.live as int,
            archived_session(v.sessions[v.live as int]),
        ).push(session::empty_session(session::live_meta(v.next_session_id, created_at))),
        live: v.sessions.len() as usize,
        next_session_id: session::capped_sum(v.next_session_id, 1),
        ..v
    }
}

/// The store when a device is about to be connected: the live session is shown and belongs to
/// the device.
pub open spec fn prepared_for(
    v: SessionStoreView,
    device_id: Seq<char>,
    name: Option<Seq<char>>,
    created_at: Seq<char>,
) -> SessionStoreView {
    let base = if needs_rotation(v, device_id) {
        rotated(v, created_at)
    } else {
        v
    };
    SessionStoreView {
        active: base.live,
        selected_frame: None,
        ..with_session(
            base,
            base.live as int,
            named_session(base.sessions[base.live as int], device_id, name),
        )
    }
}

/// The store after another session was chosen to be shown.
pub open spec fn shown(v: SessionStoreView, index: usize, elapsed_ms: u64) -> SessionStoreView {
    if index == v.active || index >= v.sessions.len() {
        v
    } else {
        let s = v.sessions[v.active as int];
        SessionStoreView {
            active: index,
            selected_frame: None,
            ..with_session(
                v,
                v.active as int,
                RuntimeSessionView {
                    replay: match s.replay {
                        Some(controller) => Some(replay::paused(controller, elapsed_ms)),
                        None => None,
                    },
                    ..s
                },
            )
        }
    }
}

/// The store after a session was closed; the live session stays open.
pub open spec fn closed(v: SessionStoreView, index: usize) -> SessionStoreView {
    if index >= v.sessions.len() || index == v.live {
        v
    } else {
        let live: usize = if v.live > index {
            (v.live - 1) as usize
        } else {
            v.live
        };
        SessionStoreView {
            sessions: v.sessions.remove(index as int),
            live,
            active: if v.active == index {
                live
            } else if v.active > index {
                (v.active - 1) as usize
            } else {
                v.active
            },
            selected_frame: None,
            ..v
        }
    }
}

/// The store with one more bookmark on the shown session.
pub open spec fn bookmarked(v: SessionStoreView, bookmark: BookmarkView) -> SessionStoreView {
    SessionStoreView {
        next_bookmark_id: session::capped_sum(v.next_bookmark_id, 1),
        ..with_session(
            v,
            v.active as int,
            session::with_bookmark(v.sessions[v.active as int], bookmark),
        )
    }
}

/// What the user asks of the replay.
#[derive(Debug, Clone, Copy)]
pub enum ReplayControl {
    PlayPause,
    Stop,
    Previous,
    Next,
    Seek(u64),
    SetSpeed(F32Bits),
}

/// A replay after a request.
pub open spec fn controlled(
    v: ReplayControllerView,
    control: ReplayControl,
    elapsed_ms: u64,
    now: u64,
) -> ReplayControllerView {
    match control {
        ReplayControl::PlayPause => if v.playing {
            replay::paused(v, elapsed_ms)
        } else {
            replay::played(v, now)
        },
        ReplayControl::Stop => ReplayControllerView {
            playing: false,
            position: 0,
            cursor: 0,
            anchor: None,
            anchor_position: 0,
            ..v
        },
        ReplayControl::Previous => replay::at_event(v, replay::previous_index(v), elapsed_ms),
        ReplayControl::Next => replay::at_event(v, replay::next_index(v), elapsed_ms),
        ReplayControl::Seek(place) => replay::sought(v, place, now),
        ReplayControl::SetSpeed(speed) => replay::reanchored(
            ReplayControllerView {
                speed: replay::clamped_speed(speed),
                ..replay::synced(v, elapsed_ms)
            },
            now,
        ),
    }
}

/// The store with another replay on the shown session.
pub open spec fn with_replay(v: SessionStoreView, controller: ReplayControllerView) -> SessionStoreView {
    with_session(
        v,
        v.active as int,
        RuntimeSessionView { replay: Some(controller), ..v.sessions[v.active as int] },
    )
}

/// The largest session number, or zero.
pub open spec fn max_session_id(sessions: Seq<RuntimeSessionView>) -> u64
    decreases sessions.len(),
{
    if sessions.len() == 0 {
        0
    } else {
        let before = max_session_id(sessions.drop_last());
        if sessions.last().meta.id >= before {
            sessions.last().meta.id
        } else {
            before
        }
    }
}

/// The largest bookmark number of a session, or zero.
pub open spec fn max_mark_id(bookmarks: Seq<BookmarkView>) -> u64
    decreases bookmarks.len(),
{
    if bookmarks.len() == 0 {
        0
    } else {
        let before = max_mark_id(bookmarks.drop_last());
        if bookmarks.last().id >= before {
            bookmarks.last().id
        } else {
            before
        }
    }
}

/// The largest bookmark number of all sessions, or zero.
pub open spec fn max_bookmark_id(sessions: Seq<RuntimeSessionView>) -> u64
    decreases sessions.len(),
{
    if sessions.len() == 0 {
        0
    } else {
        let before = max_bookmark_id(sessions.drop_last());
        let own = max_mark_id(sessions.last().meta.bookmarks);
        if own >= before {
            own
        } else {
            before
        }
    }
}

/// The first live session.
pub open spec fn first_live(sessions: Seq<RuntimeSessionView>) -> Option<int>
    decreases sessions.len(),
{
    if sessions.len() == 0 {
        None
    } else {
        match first_live(sessions.drop_last()) {
            Some(index) => Some(index),
            None => if sessions.last().meta.kind == SessionKind::Live {
                Some(sessions.len() - 1)
            } else {
                None
            },
        }
    }
}

/// The first session with a number.
pub open spec fn first_with_id(sessions: Seq<RuntimeSessionView>, id: u64) -> Option<int>
    decreases sessions.len(),
{
    if sessions.len() == 0 {
        None
    } else {
        match first_with_id(sessions.drop_last(), id) {
            Some(index) => Some(index),
            None => if sessions.last().meta.id == id {
                Some(sessions.len() - 1)
            } else {
                None
            },
        }
    }
}

/// The sessions of a workspace file, with a live session added where there is none.
pub open spec fn with_live(sessions: Seq<RuntimeSessionView>, created_at: Seq<char>) -> Seq<RuntimeSessionView> {
    if sessions.len() == 0 {
        seq![session::empty_session(session::live_meta(1, created_at))]
    } else if first_live(sessions) is None {
        sessions.push(
            session::empty_session(
                session::live_meta((max_session_id(sessions) + 1) as u64, created_at),
            ),
        )
    } else {
        sessions
    }
}

/// The store for the sessions of a workspace file.
pub open spec fn restored_store(
    sessions: Seq<RuntimeSessionView>,
    active_id: Option<u64>,
    created_at: Seq<char>,
) -> SessionStoreView {
    let all = with_live(sessions, created_at);
    let live = first_live(all)->0;
    SessionStoreView {
        sessions: all,
        active: match active_id {
            Some(id) => match first_with_id(all, id) {
                Some(index) => index as usize,
                None => live as usize,
            },
            None => live as usize,
        },
        live: live as usize,
        next_session_id: session::capped_sum(max_session_id(all), 1),
        next_bookmark_id: session::capped_sum(max_bookmark_id(all), 1),
        selected_frame: None,
    }
}

/// Whether the capture of a session is read again when its workspace is opened.
pub open spec fn is_replayable(meta: WorkspaceSessionView) -> bool {
    meta.source_path is Some && (meta.kind == SessionKind::Replay || meta.kind
        == SessionKind::Capture)
}

/// A session of a workspace file, with its replay where its capture could be read.
pub open spec fn restored_session(
    meta: WorkspaceSessionView,
    records: Option<Seq<ReplayRecordView>>,
) -> RuntimeSessionView {
    RuntimeSessionView {
        replay: match (meta.source_path, records) {
            (Some(source), Some(found)) if is_replayable(meta) => Some(
                fresh_replay(source, found),
            ),
            _ => None,
        },
        ..session::empty_session(meta)
    }
}

/// Whether the capture of a session is read again when its workspace is opened.
pub fn needs_capture(meta: &WorkspaceSession) -> (r: bool)
    ensures
        r == is_replayable(meta.deep_view()),
{
    meta.source_path.is_some() && (meta.kind == SessionKind::Replay || meta.kind
        == SessionKind::Capture)
}

/// A session of a workspace file, given the records of its capture where they could be read.
pub fn restore_session(meta: WorkspaceSession, records: Option<Vec<ReplayRecord>>) -> (r:
    RuntimeSession)
    ensures
        r.deep_view() == restored_session(meta.deep_view(), records.deep_view()),
        session::session_wf(r.deep_view()),
{
    let replayable = needs_capture(&meta);
    let source = meta.source_path.clone();
    let mut restored = RuntimeSession::new(meta);
    match (source, records) {
        (Some(source), Some(records)) => if replayable {
            restored.replay = Some(ReplayController::new(source, records));
        },
        _ => {},
    }
    restored
}

/// Whether sessions are those of a workspace file, in its order.
pub open spec fn are_sessions_of(
    sessions: Seq<RuntimeSessionView>,
    metas: Seq<WorkspaceSessionView>,
) -> bool {
    sessions.len() == metas.len() && forall|i: int|
        0 <= i < sessions.len() ==> (#[trigger] sessions[i]).meta == metas[i]
}

/// The sessions of a workspace file, each with its replay where its capture could be read.
pub open spec fn restored_sessions(
    metas: Seq<WorkspaceSessionView>,
    captures: Seq<Option<Seq<ReplayRecordView>>>,
) -> Seq<RuntimeSessionView> {
    Seq::new(metas.len(), |i: int| restored_session(metas[i], captures[i]))
}

/// Whether the sessions of a workspace file can be opened: one of them is live, or there is a
/// number left for a live one.
pub open spec fn is_restorable(metas: Seq<WorkspaceSessionView>) -> bool {
    ||| exists|i: int| 0 <= i < metas.len() && (#[trigger] metas[i]).kind == SessionKind::Live
    ||| forall|i: int| 0 <= i < metas.len() ==> (#[trigger] metas[i]).id < u64::MAX
}

/// Whether the sessions of a workspace file can be opened.
pub fn can_restore(metas: &Vec<WorkspaceSession>) -> (r: bool)
    ensures
        r == is_restorable(metas.deep_view()),
{
    let ghost all = metas.deep_view();
    let mut numbers_left = true;
    let mut i: usize = 0;
    while i < metas.len()
        invariant
            i <= metas@.len(),
            all == metas.deep_view(),
            forall|j: int| 0 <= j < i ==> (#[trigger] all[j]).kind != SessionKind::Live,
            numbers_left ==> forall|j: int| 0 <= j < i ==> (#[trigger] all[j]).id < u64::MAX,
            !numbers_left ==> exists|j: int| 0 <= j < i && (#[trigger] all[j]).id == u64::MAX,
        decreases metas@.len() - i,
    {
        assert(all[i as int] == metas@[i as int].deep_view());
        if metas[i].kind == SessionKind::Live {
            return true;
        }
        if metas[i].id == u64::MAX {
            numbers_left = false;
        }
        i = i + 1;
    }
    numbers_left
}

/// The sessions of a workspace file, given the records of their captures where they could be
/// read.
pub fn restore_sessions(
    metas: &Vec<WorkspaceSession>,
    captures: Vec<Option<Vec<ReplayRecord>>>,
) -> (r: Vec<RuntimeSession>)
    requires
        captures@.len() == metas@.len(),
    ensures
        r.deep_view() == restored_sessions(metas.deep_view(), captures.deep_view()),
        forall|i: int|
            0 <= i < r.deep_view().len() ==> session::session_wf(#[trigger] r.deep_view()[i]),
{
    let ghost all = metas.deep_view();
    let ghost found = captures.deep_view();
    let ghost wanted = restored_sessions(all, found);
    let mut captures = captures;
    let mut out: Vec<RuntimeSession> = Vec::new();
    let mut i: usize = 0;
    assert(captures.deep_view() =~= found.skip(0));
    while i < metas.len()
        invariant
            i <= metas@.len(),
            all == metas.deep_view(),
            found.len() == all.len(),
            wanted == restored_sessions(all, found),
            captures.deep_view() == found.skip(i as int),
            out.deep_view() =~= wanted.take(i as int),
            forall|j: int| 0 <= j < i ==> session::session_wf(#[trigger] wanted[j]),
        decreases metas@.len() - i,
    {
        let ghost waiting = captures.deep_view();
        assert(waiting.len() == captures@.len());
        assert(waiting[0] == captures@[0].deep_view());
        let records = captures.remove(0);
        assert(captures.deep_view() =~= waiting.skip(1));
        assert(waiting.skip(1) =~= found.skip(i + 1));
        assert(all[i as int] == metas@[i as int].deep_view());
        let ghost before = out.deep_view();
        let restored = restore_session(metas[i].clone(), records);
        out.push(restored);
        assert(out.deep_view() =~= before.push(wanted[i as int]));
        i = i + 1;
    }
    assert(out.deep_view() =~= wanted);
    out
}

/// The sessions of a workspace file that can be opened hold a live one or leave a number for one.
pub(crate) proof fn restorable_sessions_fit(
    metas: Seq<WorkspaceSessionView>,
    captures: Seq<Option<Seq<ReplayRecordView>>>,
)
    requires
        is_restorable(metas),
    ensures
        ({
            let sessions = restored_sessions(metas, captures);
            first_live(sessions) is Some || max_session_id(sessions) < u64::MAX
        }),
{
    let sessions = restored_sessions(metas, captures);
    first_live_is_live(sessions);
    if first_live(sessions) is None {
        assert forall|i: int| 0 <= i < metas.len() implies (#[trigger] metas[i]).kind
            != SessionKind::Live by {
            assert(sessions[i].meta.kind != SessionKind::Live);
        }
        assert forall|i: int| 0 <= i < sessions.len() implies (#[trigger] sessions[i]).meta.id
            < u64::MAX by {
            assert(metas[i].id < u64::MAX);
        }
        max_session_id_is_used(sessions);
    }
}

proof fn max_session_id_is_used(sessions: Seq<RuntimeSessionView>)
    requires
        forall|i: int| 0 <= i < sessions.len() ==> (#[trigger] sessions[i]).meta.id < u64::MAX,
    ensures
        max_session_id(sessions) < u64::MAX,
    decreases sessions.len(),
{
    if sessions.len() > 0 {
        let rest = sessions.drop_last();
        assert forall|i: int| 0 <= i < rest.len() implies (#[trigger] rest[i]).meta.id
            < u64::MAX by {
            assert(rest[i] == sessions[i]);
        }
        max_session_id_is_used(rest);
    }
}

proof fn max_session_id_bounds(sessions: Seq<RuntimeSessionView>)
    ensures
        forall|i: int|
            0 <= i < sessions.len() ==> (#[trigger] sessions[i]).meta.id <= max_session_id(
                sessions,
            ),
    decreases sessions.len(),
{
    if sessions.len() > 0 {
        let rest = sessions.drop_last();
        max_session_id_bounds(rest);
        assert forall|i: int| 0 <= i < sessions.len() implies (#[trigger] sessions[i]).meta.id
            <= max_session_id(sessions) by {
            if i < rest.len() {
                assert(rest[i] == sessions[i]);
            }
        }
    }
}

proof fn max_mark_id_bounds(bookmarks: Seq<BookmarkView>)
    ensures
        forall|i: int|
            0 <= i < bookmarks.len() ==> (#[trigger] bookmarks[i]).id <= max_mark_id(bookmarks),
    decreases bookmarks.len(),
{
    if bookmarks.len() > 0 {
        let rest = bookmarks.drop_last();
        max_mark_id_bounds(rest);
        assert forall|i: int| 0 <= i < bookmarks.len() implies (#[trigger] bookmarks[i]).id
            <= max_mark_id(bookmarks) by {
            if i < rest.len() {
                assert(rest[i] == bookmarks[i]);
            }
        }
    }
}

proof fn max_bookmark_id_bounds(sessions: Seq<RuntimeSessionView>)
    ensures
        forall|i: int, j: int|
            0 <= i < sessions.len() && 0 <= j < sessions[i].meta.bookmarks.len() ==> (
            #[trigger] sessions[i].meta.bookmarks[j]).id <= max_bookmark_id(sessions),
    decreases sessions.len(),
{
    if sessions.len() > 0 {
        let rest = sessions.drop_last();
        max_bookmark_id_bounds(rest);
        max_mark_id_bounds(sessions.last().meta.bookmarks);
        assert forall|i: int, j: int|
            0 <= i < sessions.len() && 0 <= j < sessions[i].meta.bookmarks.len() implies (
        #[trigger] sessions[i].meta.bookmarks[j]).id <= max_bookmark_id(sessions) by {
            if i < rest.len() {
                assert(rest[i] == sessions[i]);
                assert(rest[i].meta.bookmarks[j].id <= max_bookmark_id(rest));
            }
        }
    }
}

proof fn first_live_is_live(sessions: Seq<RuntimeSessionView>)
    ensures
        match first_live(sessions) {
            Some(index) => 0 <= index < sessions.len() && sessions[index].meta.kind
                == SessionKind::Live && forall|i: int|
                0 <= i < index ==> (#[trigger] sessions[i]).meta.kind != SessionKind::Live,
            None => forall|i: int|
                0 <= i < sessions.len() ==> (#[trigger] sessions[i]).meta.kind
                    != SessionKind::Live,
        },
    decreases sessions.len(),
{
    if sessions.len() > 0 {
        let rest = sessions.drop_last();
        first_live_is_live(rest);
        if let Some(index) = first_live(sessions) {
            assert forall|i: int| 0 <= i < index implies (#[trigger] sessions[i]).meta.kind
                != SessionKind::Live by {
                assert(rest[i] == sessions[i]);
            }
        }
        if first_live(sessions) is None {
            assert forall|i: int| 0 <= i < sessions.len() implies (#[trigger] sessions[i]).meta.kind
                != SessionKind::Live by {
                if i < rest.len() {
                    assert(rest[i] == sessions[i]);
                }
            }
        }
    }
}

proof fn first_with_id_fits(sessions: Seq<RuntimeSessionView>, id: u64)
    ensures
        match first_with_id(sessions, id) {
            Some(index) => 0 <= index < sessions.len() && sessions[index].meta.id == id,
            None => forall|i: int| 0 <= i < sessions.len() ==> (#[trigger] sessions[i]).meta.id != id,
        },
    decreases sessions.len(),
{
    if sessions.len() > 0 {
        let rest = sessions.drop_last();
        first_with_id_fits(rest, id);
        if first_with_id(sessions, id) is None {
            assert forall|i: int| 0 <= i < sessions.len() implies (#[trigger] sessions[i]).meta.id
                != id by {
                if i < rest.len() {
                    assert(rest[i] == sessions[i]);
                }
            }
        }
    }
}

/// Replacing a session by one with the same number and bookmarks keeps the store in shape.
proof fn replaced_session_fits(v: SessionStoreView, index: int, s: RuntimeSessionView)
    requires
        store_wf(v),
        0 <= index < v.sessions.len(),
        session::session_wf(s),
        s.meta.id == v.sessions[index].meta.id,
        index == v.live ==> s.meta.kind == SessionKind::Live,
        forall|j: int|
            0 <= j < s.meta.bookmarks.len() ==> (#[trigger] s.meta.bookmarks[j]).id
                < v.next_bookmark_id || v.next_bookmark_id == u64::MAX,
    ensures
        store_wf(with_session(v, index, s)),
{
    let w = with_session(v, index, s);
    assert forall|i: int| 0 <= i < w.sessions.len() implies session::session_wf(
        #[trigger] w.sessions[i],
    ) by {
        if i != index {
            assert(w.sessions[i] == v.sessions[i]);
        }
    }
    if v.next_session_id != u64::MAX {
        assert forall|i: int| 0 <= i < w.sessions.len() implies (#[trigger] w.sessions[i]).meta.id
            < w.next_session_id by {
            assert(v.sessions[i].meta.id < v.next_session_id);
        }
    }
    if v.next_bookmark_id != u64::MAX {
        assert forall|i: int, j: int|
            0 <= i < w.sessions.len() && 0 <= j < w.sessions[i].meta.bookmarks.len() implies (
        #[trigger] w.sessions[i].meta.bookmarks[j]).id < w.next_bookmark_id by {
            if i != index {
                assert(v.sessions[i].meta.bookmarks[j].id < v.next_bookmark_id);
            } else {
                assert(s.meta.bookmarks[j].id < v.next_bookmark_id);
            }
        }
    }
}

/// The numbers of the bookmarks of a session are in use.
proof fn own_marks_are_used(v: SessionStoreView, index: int)
    requires
        store_wf(v),
        0 <= index < v.sessions.len(),
    ensures
        forall|j: int|
            0 <= j < v.sessions[index].meta.bookmarks.len() ==> (
            #[trigger] v.sessions[index].meta.bookmarks[j]).id < v.next_bookmark_id
                || v.next_bookmark_id == u64::MAX,
{
}

/// Adding a session with the next number keeps the store in shape.
proof fn added_session_fits(v: SessionStoreView, s: RuntimeSessionView)
    requires
        store_wf(v),
        session::session_wf(s),
        s.meta.id == v.next_session_id,
        s.meta.bookmarks.len() == 0,
    ensures
        ({
            let w = SessionStoreView {
                sessions: v.sessions.push(s),
                next_session_id: session::capped_sum(v.next_session_id, 1),
                ..v
            };
            store_wf(w)
        }),
{
    let w = SessionStoreView {
        sessions: v.sessions.push(s),
        next_session_id: session::capped_sum(v.next_session_id, 1),
        ..v
    };
    assert forall|i: int| 0 <= i < w.sessions.len() implies session::session_wf(
        #[trigger] w.sessions[i],
    ) by {
        if i < v.sessions.len() {
            assert(w.sessions[i] == v.sessions[i]);
        }
    }
    if w.next_session_id != u64::MAX {
        assert forall|i: int| 0 <= i < w.sessions.len() implies (#[trigger] w.sessions[i]).meta.id
            < w.next_session_id by {
            if i < v.sessions.len() {
                assert(v.sessions[i].meta.id < v.next_session_id);
            }
        }
    }
    if w.next_bookmark_id != u64::MAX {
        assert forall|i: int, j: int|
            0 <= i < w.sessions.len() && 0 <= j < w.sessions[i].meta.bookmarks.len() implies (
        #[trigger] w.sessions[i].meta.bookmarks[j]).id < w.next_bookmark_id by {
            assert(v.sessions[i].meta.bookmarks[j].id < v.next_bookmark_id);
        }
    }
}

impl SessionStore {
    /// The store of a new workspace.
    pub fn new(created_at: String) -> (r: Self)
        ensures
            r.deep_view() == fresh_store(created_at@),
            store_wf(r.deep_view()),
    {
        let mut sessions: Vec<RuntimeSession> = Vec::new();
        sessions.push(RuntimeSession::live(1, created_at));
        assert(sessions.deep_view() =~= fresh_store(created_at@).sessions);
        SessionStore {
            sessions,
            active: 0,
            live: 0,
            next_session_id: 2,
            next_bookmark_id: 1,
            selected_frame: None,
        }
    }

    /// The session that is shown.
    pub fn active_session(&self) -> (r: &RuntimeSession)
        requires
            store_wf(self.deep_view()),
        ensures
            r.deep_view() == self.deep_view().sessions[self.active as int],
    {
        &self.sessions[self.active]
    }

    /// Takes a packet for a session. A session that is not there takes nothing.
    pub fn ingest(
        &mut self,
        index: usize,
        entry: LogEntry,
        source: &Option<CharacteristicKey>,
        config: &ProtocolConfig,
        paused: bool,
    )
        requires
            store_wf(old(self).deep_view()),
            index < old(self).sessions@.len() ==> log::has_room(
                old(self).sessions@[index as int].stats,
                entry.direction,
                entry.data@.len(),
            ),
        ensures
            final(self).deep_view() == store_ingested(
                old(self).deep_view(),
                index,
                entry.deep_view(),
                source.deep_view(),
                config.deep_view(),
                paused,
            ),
            store_wf(final(self).deep_view()),
    {
        if index >= self.sessions.len() {
            return;
        }
        let ghost before = self.deep_view();
        let hidden = index == self.active && paused && entry.direction == LogDirection::Rx;
        assert(session::session_wf(before.sessions[index as int]));
        self.sessions[index].ingest(entry, source, config, hidden);
        proof {
            let s = self.sessions@[index as int].deep_view();
            assert(self.sessions.deep_view() =~= before.sessions.update(index as int, s));
            own_marks_are_used(before, index as int);
            replaced_session_fits(before, index as int, s);
        }
    }

    /// Clears the decoder and the frames of the shown session.
    pub fn reset_active_protocol(&mut self)
        requires
            store_wf(old(self).deep_view()),
        ensures
            final(self).deep_view() == protocol_cleared(old(self).deep_view()),
            store_wf(final(self).deep_view()),
    {
        let ghost before = self.deep_view();
        let index: usize = self.active;
        assert(session::session_wf(before.sessions[index as int]));
        self.sessions[index].reset_protocol();
        self.selected_frame = None;
        proof {
            let s = self.sessions@[index as int].deep_view();
            assert(self.sessions.deep_view() =~= before.sessions.update(index as int, s));
            own_marks_are_used(before, index as int);
            replaced_session_fits(before, index as int, s);
        }
    }

    /// Clears the log of the shown session.
    pub fn clear_active_logs(&mut self)
        requires
            store_wf(old(self).deep_view()),
        ensures
            final(self).deep_view() == with_session(
                old(self).deep_view(),
                old(self).active as int,
                (RuntimeSessionView {
                    logs: Seq::empty(),
                    ..old(self).deep_view().sessions[old(self).active as int]
                }),
            ),
            store_wf(final(self).deep_view()),
    {
        let ghost before = self.deep_view();
        let index: usize = self.active;
        assert(session::session_wf(before.sessions[index as int]));
        self.sessions[index].clear_logs();
        proof {
            let s = self.sessions@[index as int].deep_view();
            assert(self.sessions.deep_view() =~= before.sessions.update(index as int, s));
            own_marks_are_used(before, index as int);
            replaced_session_fits(before, index as int, s);
        }
    }

    /// Adds a session for a capture and shows it.
    pub fn open_replay(
        &mut self,
        path: PathBuf,
        file_name: Option<String>,
        records: Vec<ReplayRecord>,
        created_at: String,
    )
        requires
            store_wf(old(self).deep_view()),
            old(self).sessions@.len() < usize::MAX,
        ensures
            final(self).deep_view() == replay_opened(
                old(self).deep_view(),
                path,
                file_name.deep_view(),
                records.deep_view(),
                created_at@,
            ),
            store_wf(final(self).deep_view()),
    {
        let ghost before = self.deep_view();
        let id: u64 = self.next_session_id;
        self.next_session_id = self.next_session_id.saturating_add(1);
        let controller = ReplayController::new(path.clone(), records);
        let opened = RuntimeSession::replay(id, path, file_name, controller, created_at);
        let ghost s = opened.deep_view();
        self.sessions.push(opened);
        self.active = self.sessions.len() - 1;
        proof {
            assert(self.sessions.deep_view() =~= before.sessions.push(s));
            added_session_fits(before, s);
        }
    }

    /// Gives the live session the id and the name of the connected device.
    pub fn name_live(&mut self, device_id: String, name: String)
        requires
            store_wf(old(self).deep_view()),
        ensures
            final(self).deep_view() == with_session(
                old(self).deep_view(),
                old(self).live as int,
                named_session(
                    old(self).deep_view().sessions[old(self).live as int],
                    device_id@,
                    Some(name@),
                ),
            ),
            store_wf(final(self).deep_view()),
    {
        self.assign_live(device_id, Some(name));
    }

    fn assign_live(&mut self, device_id: String, name: Option<String>)
        requires
            store_wf(old(self).deep_view()),
        ensures
            final(self).deep_view() == with_session(
                old(self).deep_view(),
                old(self).live as int,
                named_session(
                    old(self).deep_view().sessions[old(self).live as int],
                    device_id@,
                    name.deep_view(),
                ),
            ),
            store_wf(final(self).deep_view()),
    {
        let ghost before = self.deep_view();
        let index: usize = self.live;
        assert(session::session_wf(before.sessions[index as int]));
        let target = &mut self.sessions[index];
        target.meta.device_id = Some(device_id);
        match name {
            Some(name) => {
                target.meta.name = text::joined("Live · ", name.as_str());
                target.meta.device_name = Some(name);
            },
            None => {},
        }
        proof {
            let s = self.sessions@[index as int].deep_view();
            assert(self.sessions.deep_view() =~= before.sessions.update(index as int, s));
            own_marks_are_used(before, index as int);
            replaced_session_fits(before, index as int, s);
        }
    }

    /// Gives the live session its capture file.
    pub fn set_live_source(&mut self, path: PathBuf)
        requires
            store_wf(old(self).deep_view()),
        ensures
            final(self).deep_view() == with_session(
                old(self).deep_view(),
                old(self).live as int,
                (RuntimeSessionView {
                    meta: WorkspaceSessionView {
                        source_path: Some(path),
                        ..old(self).deep_view().sessions[old(self).live as int].meta
                    },
                    ..old(self).deep_view().sessions[old(self).live as int]
                }),
            ),
            store_wf(final(self).deep_view()),
    {
        let ghost before = self.deep_view();
        let index: usize = self.live;
        assert(session::session_wf(before.sessions[index as int]));
        let target = &mut self.sessions[index];
        target.meta.source_path = Some(path);
        proof {
            let s = self.sessions@[index as int].deep_view();
            assert(self.sessions.deep_view() =~= before.sessions.update(index as int, s));
            own_marks_are_used(before, index as int);
            replaced_session_fits(before, index as int, s);
        }
    }

    /// Makes the live session the one of a device that is about to be connected. Where it belongs
    /// to another device, it becomes history and a fresh session takes its place.
    pub fn ensure_live_session_for_device(
        &mut self,
        device_id: String,
        device_name: Option<String>,
        created_at: String,
    )
        requires
            store_wf(old(self).deep_view()),
            old(self).sessions@.len() < usize::MAX,
        ensures
            final(self).deep_view() == prepared_for(
                old(self).deep_view(),
                device_id@,
                device_name.deep_view(),
                created_at@,
            ),
            store_wf(final(self).deep_view()),
    {
        let ghost before = self.deep_view();
        let index: usize = self.live;
        assert(before.sessions[index as int] == self.sessions@[index as int].deep_view());
        let rotate = match &self.sessions[index].meta.device_id {
            Some(current) => *current != device_id,
            None => false,
        };
        assert(rotate == needs_rotation(before, device_id@));
        if rotate {
            self.rotate_live(created_at);
        }
        self.assign_live(device_id, device_name);
        self.active = self.live;
        self.selected_frame = None;
    }

    fn rotate_live(&mut self, created_at: String)
        requires
            store_wf(old(self).deep_view()),
            old(self).sessions@.len() < usize::MAX,
        ensures
            final(self).deep_view() == rotated(old(self).deep_view(), created_at@),
            store_wf(final(self).deep_view()),
    {
        let ghost before = self.deep_view();
        let index: usize = self.live;
        let id: u64 = self.next_session_id;
        self.next_session_id = self.next_session_id.saturating_add(1);
        let fresh = RuntimeSession::live(id, created_at);
        let ghost added = fresh.deep_view();
        self.sessions.push(fresh);
        self.live = self.sessions.len() - 1;
        let ghost middle = self.deep_view();
        proof {
            assert(self.sessions.deep_view() =~= before.sessions.push(added));
            added_session_fits(before, added);
            let grown = SessionStoreView {
                sessions: before.sessions.push(added),
                next_session_id: session::capped_sum(before.next_session_id, 1),
                ..before
            };
            assert(middle =~= SessionStoreView { live: middle.live, ..grown });
            assert(middle.sessions[index as int] == before.sessions[index as int]);
        }
        let target = &mut self.sessions[index];
        target.meta.kind = SessionKind::Capture;
        match &target.meta.device_name {
            Some(name) => {
                let archived = text::joined("Capture · ", name.as_str());
                target.meta.name = archived;
            },
            None => {},
        }
        proof {
            let s = self.sessions@[index as int].deep_view();
            assert(self.sessions.deep_view() =~= middle.sessions.update(index as int, s));
            assert(self.sessions.deep_view() =~= before.sessions.update(index as int, s).push(
                added,
            ));
            own_marks_are_used(middle, index as int);
            replaced_session_fits(middle, index as int, s);
        }
    }

    /// Shows another session; the replay of the session that was shown is paused. Tells whether
    /// anything changed.
    pub fn activate(&mut self, index: usize, elapsed_ms: u64) -> (r: bool)
        requires
            store_wf(old(self).deep_view()),
        ensures
            final(self).deep_view() == shown(old(self).deep_view(), index, elapsed_ms),
            r == (index != old(self).active && index < old(self).sessions@.len()),
            store_wf(final(self).deep_view()),
    {
        if index == self.active || index >= self.sessions.len() {
            return false;
        }
        let ghost before = self.deep_view();
        let current: usize = self.active;
        assert(session::session_wf(before.sessions[current as int]));
        assert(before.sessions[current as int] == self.sessions@[current as int].deep_view());
        let target = &mut self.sessions[current];
        match &mut target.replay {
            Some(controller) => {
                controller.pause(elapsed_ms);
            },
            None => {},
        }
        self.active = index;
        self.selected_frame = None;
        proof {
            let s = self.sessions@[current as int].deep_view();
            assert(self.sessions.deep_view() =~= before.sessions.update(current as int, s));
            own_marks_are_used(before, current as int);
            replaced_session_fits(before, current as int, s);
        }
        true
    }

    /// Closes a session other than the live one. Tells whether anything changed.
    pub fn close_session(&mut self, index: usize) -> (r: bool)
        requires
            store_wf(old(self).deep_view()),
        ensures
            final(self).deep_view() == closed(old(self).deep_view(), index),
            r == (index < old(self).sessions@.len() && index != old(self).live),
            store_wf(final(self).deep_view()),
    {
        if index >= self.sessions.len() || index == self.live {
            return false;
        }
        let ghost before = self.deep_view();
        let _ = self.sessions.remove(index);
        if self.live > index {
            self.live = self.live - 1;
        }
        if self.active == index {
            self.active = self.live;
        } else if self.active > index {
            self.active = self.active - 1;
        }
        self.selected_frame = None;
        proof {
            let w = self.deep_view();
            assert(w.sessions =~= before.sessions.remove(index as int));
            assert forall|i: int| 0 <= i < w.sessions.len() implies session::session_wf(
                #[trigger] w.sessions[i],
            ) by {
                let j = if i < index {
                    i
                } else {
                    i + 1
                };
                assert(w.sessions[i] == before.sessions[j]);
            }
            if w.next_session_id != u64::MAX {
                assert forall|i: int| 0 <= i < w.sessions.len() implies (
                #[trigger] w.sessions[i]).meta.id < w.next_session_id by {
                    let j = if i < index {
                        i
                    } else {
                        i + 1
                    };
                    assert(before.sessions[j].meta.id < before.next_session_id);
                }
            }
            if w.next_bookmark_id != u64::MAX {
                assert forall|i: int, k: int|
                    0 <= i < w.sessions.len() && 0 <= k
                        < w.sessions[i].meta.bookmarks.len() implies (
                #[trigger] w.sessions[i].meta.bookmarks[k]).id < w.next_bookmark_id by {
                    let j = if i < index {
                        i
                    } else {
                        i + 1
                    };
                    assert(before.sessions[j].meta.bookmarks[k].id < before.next_bookmark_id);
                }
            }
        }
        true
    }

    fn add_bookmark(&mut self, bookmark: Bookmark)
        requires
            store_wf(old(self).deep_view()),
            bookmark.id == old(self).next_bookmark_id,
        ensures
            final(self).deep_view() == bookmarked(old(self).deep_view(), bookmark.deep_view()),
            store_wf(final(self).deep_view()),
    {
        let ghost before = self.deep_view();
        let ghost value = bookmark.deep_view();
        let index: usize = self.active;
        assert(session::session_wf(before.sessions[index as int]));
        self.next_bookmark_id = self.next_bookmark_id.saturating_add(1);
        self.sessions[index].add_bookmark(bookmark);
        proof {
            let s = self.sessions@[index as int].deep_view();
            assert(self.sessions.deep_view() =~= before.sessions.update(index as int, s));
            let raised = SessionStoreView { next_bookmark_id: self.next_bookmark_id, ..before };
            assert(store_wf(raised)) by {
                if raised.next_bookmark_id != u64::MAX {
                    assert forall|i: int, j: int|
                        0 <= i < raised.sessions.len() && 0 <= j
                            < raised.sessions[i].meta.bookmarks.len() implies (
                    #[trigger] raised.sessions[i].meta.bookmarks[j]).id
                        < raised.next_bookmark_id by {
                        assert(before.sessions[i].meta.bookmarks[j].id < before.next_bookmark_id);
                    }
                }
                assert forall|i: int| 0 <= i < raised.sessions.len() implies session::session_wf(
                    #[trigger] raised.sessions[i],
                ) by {
                    assert(session::session_wf(before.sessions[i]));
                }
                if raised.next_session_id != u64::MAX {
                    assert forall|i: int| 0 <= i < raised.sessions.len() implies (
                    #[trigger] raised.sessions[i]).meta.id < raised.next_session_id by {
                        assert(before.sessions[i].meta.id < before.next_session_id);
                    }
                }
            }
            own_marks_are_used(before, index as int);
            let marks = before.sessions[index as int].meta.bookmarks;
            assert forall|j: int| 0 <= j < s.meta.bookmarks.len() implies (
            #[trigger] s.meta.bookmarks[j]).id < raised.next_bookmark_id || raised.next_bookmark_id
                == u64::MAX by {
                if j < marks.len() {
                    assert(s.meta.bookmarks[j] == marks[j]);
                }
            }
            replaced_session_fits(raised, index as int, s);
        }
    }

    /// Marks a packet of the shown session.
    pub fn add_log_bookmark(&mut self, entry: &LogEntry)
        requires
            store_wf(old(self).deep_view()),
        ensures
            final(self).deep_view() == bookmarked(
                old(self).deep_view(),
                session::log_bookmark(
                    old(self).deep_view().sessions[old(self).active as int],
                    old(self).next_bookmark_id,
                    entry.deep_view(),
                ),
            ),
            store_wf(final(self).deep_view()),
    {
        let bookmark = self.active_session().bookmark_for_log(self.next_bookmark_id, entry);
        self.add_bookmark(bookmark);
    }

    /// Marks a frame of the shown session.
    pub fn add_protocol_bookmark(
        &mut self,
        frame: &ProtocolFrameEntry,
        source: &Option<CharacteristicKey>,
    )
        requires
            store_wf(old(self).deep_view()),
        ensures
            final(self).deep_view() == bookmarked(
                old(self).deep_view(),
                session::frame_bookmark(
                    old(self).deep_view().sessions[old(self).active as int],
                    old(self).next_bookmark_id,
                    frame.deep_view(),
                    source.deep_view(),
                ),
            ),
            store_wf(final(self).deep_view()),
    {
        let bookmark = self.active_session().bookmark_for_frame(
            self.next_bookmark_id,
            frame,
            source,
        );
        self.add_bookmark(bookmark);
    }

    /// Marks a place on the timeline of the shown session.
    pub fn add_replay_bookmark(&mut self, offset_ms: u64)
        requires
            store_wf(old(self).deep_view()),
        ensures
            final(self).deep_view() == bookmarked(
                old(self).deep_view(),
                session::place_bookmark(old(self).next_bookmark_id, offset_ms),
            ),
            store_wf(final(self).deep_view()),
    {
        let place = replay::format_duration(offset_ms);
        let bookmark = Bookmark {
            id: self.next_bookmark_id,
            label: text::joined("Replay ", place.as_str()),
            timestamp: String::new(),
            source: "replay".to_owned(),
            sequence: None,
            replay_position_ms: Some(offset_ms),
            service_uuid: String::new(),
            characteristic_uuid: String::new(),
            hex: String::new(),
        };
        self.add_bookmark(bookmark);
    }

    /// Changes the label of a bookmark of the shown session.
    pub fn relabel_bookmark(&mut self, id: u64, label: String)
        requires
            store_wf(old(self).deep_view()),
        ensures
            final(self).deep_view() == with_session(
                old(self).deep_view(),
                old(self).active as int,
                (RuntimeSessionView {
                    meta: WorkspaceSessionView {
                        bookmarks: session::relabelled(
                            old(self).deep_view().sessions[old(self).active as int].meta.bookmarks,
                            id,
                            label@,
                        ),
                        ..old(self).deep_view().sessions[old(self).active as int].meta
                    },
                    ..old(self).deep_view().sessions[old(self).active as int]
                }),
            ),
            store_wf(final(self).deep_view()),
    {
        let ghost before = self.deep_view();
        let index: usize = self.active;
        let ghost marks = before.sessions[index as int].meta.bookmarks;
        assert(session::session_wf(before.sessions[index as int]));
        self.sessions[index].relabel_bookmark(id, label);
        proof {
            let s = self.sessions@[index as int].deep_view();
            assert(self.sessions.deep_view() =~= before.sessions.update(index as int, s));
            own_marks_are_used(before, index as int);
            relabelling_keeps_ids(marks, id, label@);
            assert forall|j: int| 0 <= j < s.meta.bookmarks.len() implies (
            #[trigger] s.meta.bookmarks[j]).id < before.next_bookmark_id || before.next_bookmark_id
                == u64::MAX by {
                assert(s.meta.bookmarks[j].id == marks[j].id);
            }
            replaced_session_fits(before, index as int, s);
        }
    }

    /// Removes the bookmarks of the shown session with an id.
    pub fn remove_bookmark(&mut self, id: u64)
        requires
            store_wf(old(self).deep_view()),
        ensures
            final(self).deep_view() == with_session(
                old(self).deep_view(),
                old(self).active as int,
                (RuntimeSessionView {
                    meta: WorkspaceSessionView {
                        bookmarks: old(self).deep_view().sessions[old(
                            self,
                        ).active as int].meta.bookmarks.filter(
                            |bookmark: BookmarkView| bookmark.id != id,
                        ),
                        ..old(self).deep_view().sessions[old(self).active as int].meta
                    },
                    ..old(self).deep_view().sessions[old(self).active as int]
                }),
            ),
            store_wf(final(self).deep_view()),
    {
        let ghost before = self.deep_view();
        let index: usize = self.active;
        let ghost marks = before.sessions[index as int].meta.bookmarks;
        assert(session::session_wf(before.sessions[index as int]));
        self.sessions[index].remove_bookmark(id);
        proof {
            let s = self.sessions@[index as int].deep_view();
            assert(self.sessions.deep_view() =~= before.sessions.update(index as int, s));
            own_marks_are_used(before, index as int);
            let stays = |bookmark: BookmarkView| bookmark.id != id;
            assert forall|j: int| 0 <= j < s.meta.bookmarks.len() implies (
            #[trigger] s.meta.bookmarks[j]).id < before.next_bookmark_id || before.next_bookmark_id
                == u64::MAX by {
                filtered_comes_from(marks, stays, j);
            }
            replaced_session_fits(before, index as int, s);
        }
    }

    /// Changes the notes of the shown session.
    pub fn set_notes(&mut self, notes: String)
        requires
            store_wf(old(self).deep_view()),
        ensures
            final(self).deep_view() == with_session(
                old(self).deep_view(),
                old(self).active as int,
                (RuntimeSessionView {
                    meta: WorkspaceSessionView {
                        notes: notes@,
                        ..old(self).deep_view().sessions[old(self).active as int].meta
                    },
                    ..old(self).deep_view().sessions[old(self).active as int]
                }),
            ),
            store_wf(final(self).deep_view()),
    {
        let ghost before = self.deep_view();
        let index: usize = self.active;
        assert(session::session_wf(before.sessions[index as int]));
        let target = &mut self.sessions[index];
        target.meta.notes = notes;
        proof {
            let s = self.sessions@[index as int].deep_view();
            assert(self.sessions.deep_view() =~= before.sessions.update(index as int, s));
            own_marks_are_used(before, index as int);
            replaced_session_fits(before, index as int, s);
        }
    }

    /// Does what the user asks of the replay of the shown session, where it has one.
    pub fn control_replay(&mut self, control: ReplayControl, elapsed_ms: u64, now: u64)
        requires
            store_wf(old(self).deep_view()),
        ensures
            final(self).deep_view() == match old(self).deep_view().sessions[old(
                self,
            ).active as int].replay {
                Some(controller) => with_replay(
                    old(self).deep_view(),
                    controlled(controller, control, elapsed_ms, now),
                ),
                None => old(self).deep_view(),
            },
            store_wf(final(self).deep_view()),
    {
        let ghost before = self.deep_view();
        let index: usize = self.active;
        assert(session::session_wf(before.sessions[index as int]));
        assert(before.sessions[index as int] == self.sessions@[index as int].deep_view());
        let target = &mut self.sessions[index];
        match &mut target.replay {
            Some(controller) => {
                match control {
                    ReplayControl::PlayPause => {
                        if controller.is_playing() {
                            controller.pause(elapsed_ms);
                        } else {
                            controller.play(now);
                        }
                    },
                    ReplayControl::Stop => {
                        controller.stop();
                    },
                    ReplayControl::Previous => {
                        let _ = controller.previous_event(elapsed_ms);
                    },
                    ReplayControl::Next => {
                        let _ = controller.next_event(elapsed_ms);
                    },
                    ReplayControl::Seek(place) => {
                        controller.seek(place, now);
                    },
                    ReplayControl::SetSpeed(speed) => {
                        controller.set_speed(speed, elapsed_ms, now);
                    },
                }
            },
            None => {},
        }
        proof {
            let s = self.sessions@[index as int].deep_view();
            assert(self.sessions.deep_view() =~= before.sessions.update(index as int, s));
            own_marks_are_used(before, index as int);
            replaced_session_fits(before, index as int, s);
            assert(before.sessions.update(index as int, before.sessions[index as int])
                =~= before.sessions);
        }
    }

    /// Hands out the next record of the replay of the shown session.
    pub fn step_replay(&mut self, elapsed_ms: u64) -> (r: Option<ReplayRecord>)
        requires
            store_wf(old(self).deep_view()),
        ensures
            final(self).deep_view() == match old(self).deep_view().sessions[old(
                self,
            ).active as int].replay {
                Some(controller) => with_replay(
                    old(self).deep_view(),
                    replay::stepped(controller, elapsed_ms),
                ),
                None => old(self).deep_view(),
            },
            match (r, old(self).deep_view().sessions[old(self).active as int].replay) {
                (Some(record), Some(controller)) => controller.cursor < controller.records.len()
                    && record.deep_view() == controller.records[controller.cursor].record,
                (None, Some(controller)) => controller.cursor == controller.records.len(),
                (None, None) => true,
                _ => false,
            },
            store_wf(final(self).deep_view()),
    {
        let ghost before = self.deep_view();
        let index: usize = self.active;
        assert(session::session_wf(before.sessions[index as int]));
        assert(before.sessions[index as int] == self.sessions@[index as int].deep_view());
        let target = &mut self.sessions[index];
        let stepped = match &mut target.replay {
            Some(controller) => controller.step_one(elapsed_ms),
            None => None,
        };
        proof {
            let s = self.sessions@[index as int].deep_view();
            assert(self.sessions.deep_view() =~= before.sessions.update(index as int, s));
            own_marks_are_used(before, index as int);
            replaced_session_fits(before, index as int, s);
            assert(before.sessions.update(index as int, before.sessions[index as int])
                =~= before.sessions);
        }
        stepped
    }

    /// Hands out the records of the replay of the shown session that have become due.
    pub fn tick_replay(&mut self, elapsed_ms: u64) -> (r: Vec<ReplayRecord>)
        requires
            store_wf(old(self).deep_view()),
        ensures
            match old(self).deep_view().sessions[old(self).active as int].replay {
                Some(controller) => {
                    &&& final(self).deep_view() == with_replay(
                        old(self).deep_view(),
                        replay::ticked(controller, elapsed_ms).0,
                    )
                    &&& r.deep_view() == replay::ticked(controller, elapsed_ms).1
                },
                None => final(self).deep_view() == old(self).deep_view() && r@.len() == 0,
            },
            store_wf(final(self).deep_view()),
    {
        let ghost before = self.deep_view();
        let index: usize = self.active;
        assert(session::session_wf(before.sessions[index as int]));
        assert(before.sessions[index as int] == self.sessions@[index as int].deep_view());
        let target = &mut self.sessions[index];
        let due: Vec<ReplayRecord> = match &mut target.replay {
            Some(controller) => controller.tick(elapsed_ms),
            None => Vec::new(),
        };
        proof {
            let s = self.sessions@[index as int].deep_view();
            assert(self.sessions.deep_view() =~= before.sessions.update(index as int, s));
            own_marks_are_used(before, index as int);
            replaced_session_fits(before, index as int, s);
            assert(before.sessions.update(index as int, before.sessions[index as int])
                =~= before.sessions);
        }
        due
    }

    /// What a workspace file keeps of the sessions.
    pub fn metas(&self) -> (r: Vec<WorkspaceSession>)
        ensures
            r.deep_view() == Seq::new(
                self.sessions@.len(),
                |i: int| self.deep_view().sessions[i].meta,
            ),
    {
        let ghost all = self.deep_view().sessions;
        let mut out: Vec<WorkspaceSession> = Vec::new();
        let mut i: usize = 0;
        while i < self.sessions.len()
            invariant
                i <= self.sessions@.len(),
                all == self.deep_view().sessions,
                out.deep_view() =~= Seq::new(i as nat, |j: int| all[j].meta),
            decreases self.sessions@.len() - i,
        {
            let ghost before = out.deep_view();
            assert(all[i as int] == self.sessions@[i as int].deep_view());
            out.push(self.sessions[i].meta.clone());
            assert(out.deep_view() =~= before.push(all[i as int].meta));
            i = i + 1;
        }
        out
    }

    /// The store for the sessions of a workspace file.
    pub fn restore(
        sessions: Vec<RuntimeSession>,
        active_id: Option<u64>,
        created_at: String,
    ) -> (r: Self)
        requires
            sessions@.len() < usize::MAX,
            forall|i: int|
                0 <= i < sessions@.len() ==> session::session_wf(
                    #[trigger] sessions.deep_view()[i],
                ),
            first_live(sessions.deep_view()) is Some || max_session_id(sessions.deep_view())
                < u64::MAX,
        ensures
            r.deep_view() == restored_store(sessions.deep_view(), active_id, created_at@),
            store_wf(r.deep_view()),
    {
        let ghost given = sessions.deep_view();
        let mut sessions = sessions;
        proof {
            first_live_is_live(given);
        }
        if sessions.len() == 0 {
            sessions.push(RuntimeSession::live(1, created_at));
            assert(sessions.deep_view() =~= with_live(given, created_at@));
        } else if position_of_live(&sessions).is_none() {
            let id: u64 = largest_session_id(&sessions) + 1;
            let fresh = RuntimeSession::live(id, created_at);
            let ghost s = fresh.deep_view();
            sessions.push(fresh);
            assert(sessions.deep_view() =~= given.push(s));
        }
        let ghost all = sessions.deep_view();
        proof {
            assert(all =~= with_live(given, created_at@));
            first_live_is_live(all);
            if given.len() == 0 {
                assert(all[0].meta.kind == SessionKind::Live);
            } else if first_live(given) is None {
                assert(all[all.len() - 1].meta.kind == SessionKind::Live);
            }
            assert(first_live(all) is Some);
        }
        let live: usize = match position_of_live(&sessions) {
            Some(index) => index,
            None => 0,
        };
        let active: usize = match active_id {
            Some(id) => match position_of_id(&sessions, id) {
                Some(index) => index,
                None => live,
            },
            None => live,
        };
        let next_session_id: u64 = largest_session_id(&sessions).saturating_add(1);
        let next_bookmark_id: u64 = largest_bookmark_id(&sessions).saturating_add(1);
        proof {
            max_session_id_bounds(all);
            max_bookmark_id_bounds(all);
            if let Some(id) = active_id {
                first_with_id_fits(all, id);
            }
            assert forall|i: int| 0 <= i < all.len() implies session::session_wf(
                #[trigger] all[i],
            ) by {
                if i < given.len() {
                    assert(all[i] == given[i]);
                }
            }
        }
        let r = SessionStore {
            sessions,
            active,
            live,
            next_session_id,
            next_bookmark_id,
            selected_frame: None,
        };
        proof {
            let w = r.deep_view();
            assert(w.sessions == all);
            if w.next_session_id != u64::MAX {
                assert forall|i: int| 0 <= i < w.sessions.len() implies (
                #[trigger] w.sessions[i]).meta.id < w.next_session_id by {
                    assert(all[i].meta.id <= max_session_id(all));
                }
            }
            if w.next_bookmark_id != u64::MAX {
                assert forall|i: int, j: int|
                    0 <= i < w.sessions.len() && 0 <= j
                        < w.sessions[i].meta.bookmarks.len() implies (
                #[trigger] w.sessions[i].meta.bookmarks[j]).id < w.next_bookmark_id by {
                    assert(all[i].meta.bookmarks[j].id <= max_bookmark_id(all));
                }
            }
        }
        r
    }
}

proof fn relabelling_keeps_ids(bookmarks: Seq<BookmarkView>, id: u64, label: Seq<char>)
    ensures
        session::relabelled(bookmarks, id, label).len() == bookmarks.len(),
        forall|i: int|
            0 <= i < bookmarks.len() ==> (#[trigger] session::relabelled(
                bookmarks,
                id,
                label,
            )[i]).id == bookmarks[i].id,
    decreases bookmarks.len(),
{
    if bookmarks.len() > 0 && bookmarks[0].id != id {
        let rest = bookmarks.skip(1);
        relabelling_keeps_ids(rest, id, label);
        assert forall|i: int| 0 <= i < bookmarks.len() implies (#[trigger] session::relabelled(
            bookmarks,
            id,
            label,
        )[i]).id == bookmarks[i].id by {
            if i > 0 {
                assert(session::relabelled(rest, id, label)[i - 1].id == rest[i - 1].id);
            }
        }
    }
}

proof fn filtered_comes_from(
    bookmarks: Seq<BookmarkView>,
    stays: spec_fn(BookmarkView) -> bool,
    j: int,
)
    requires
        0 <= j < bookmarks.filter(stays).len(),
    ensures
        exists|i: int|
            0 <= i < bookmarks.len() && #[trigger] bookmarks[i] == bookmarks.filter(stays)[j],
    decreases bookmarks.len(),
{
    reveal(Seq::filter);
    if bookmarks.len() > 0 {
        let rest = bookmarks.drop_last();
        if j < rest.filter(stays).len() {
            filtered_comes_from(rest, stays, j);
            let i = choose|i: int|
                0 <= i < rest.len() && #[trigger] rest[i] == rest.filter(stays)[j];
            assert(bookmarks[i] == bookmarks.filter(stays)[j]);
        } else {
            assert(bookmarks[bookmarks.len() - 1] == bookmarks.filter(stays)[j]);
        }
    }
}

fn position_of_live(sessions: &Vec<RuntimeSession>) -> (r: Option<usize>)
    ensures
        match (r, first_live(sessions.deep_view())) {
            (Some(index), Some(wanted)) => index == wanted && index < sessions@.len(),
            (None, None) => true,
            _ => false,
        },
{
    let ghost all = sessions.deep_view();
    let mut i: usize = 0;
    assert(all.take(0) =~= Seq::empty());
    while i < sessions.len()
        invariant
            i <= sessions@.len(),
            all == sessions.deep_view(),
            first_live(all.take(i as int)) is None,
        decreases sessions@.len() - i,
    {
        let ghost next = all.take(i + 1);
        assert(next.drop_last() =~= all.take(i as int));
        assert(next.last() == sessions@[i as int].deep_view());
        if sessions[i].meta.kind == SessionKind::Live {
            proof {
                first_live_is_prefix(all, i + 1);
            }
            return Some(i);
        }
        i = i + 1;
    }
    assert(all.take(i as int) =~= all);
    None
}

proof fn first_live_is_prefix(sessions: Seq<RuntimeSessionView>, n: int)
    requires
        0 <= n <= sessions.len(),
        first_live(sessions.take(n)) is Some,
    ensures
        first_live(sessions) == first_live(sessions.take(n)),
    decreases sessions.len(),
{
    if n == sessions.len() {
        assert(sessions.take(n) =~= sessions);
    } else {
        assert(sessions.drop_last().take(n) =~= sessions.take(n));
        first_live_is_prefix(sessions.drop_last(), n);
    }
}

fn position_of_id(sessions: &Vec<RuntimeSession>, id: u64) -> (r: Option<usize>)
    ensures
        match (r, first_with_id(sessions.deep_view(), id)) {
            (Some(index), Some(wanted)) => index == wanted && index < sessions@.len(),
            (None, None) => true,
            _ => false,
        },
{
    let ghost all = sessions.deep_view();
    let mut i: usize = 0;
    assert(all.take(0) =~= Seq::empty());
    while i < sessions.len()
        invariant
            i <= sessions@.len(),
            all == sessions.deep_view(),
            first_with_id(all.take(i as int), id) is None,
        decreases sessions@.len() - i,
    {
        let ghost next = all.take(i + 1);
        assert(next.drop_last() =~= all.take(i as int));
        assert(next.last() == sessions@[i as int].deep_view());
        if sessions[i].meta.id == id {
            proof {
                first_with_id_is_prefix(all, id, i + 1);
            }
            return Some(i);
        }
        i = i + 1;
    }
    assert(all.take(i as int) =~= all);
    None
}

proof fn first_with_id_is_prefix(sessions: Seq<RuntimeSessionView>, id: u64, n: int)
    requires
        0 <= n <= sessions.len(),
        first_with_id(sessions.take(n), id) is Some,
    ensures
        first_with_id(sessions, id) == first_with_id(sessions.take(n), id),
    decreases sessions.len(),
{
    if n == sessions.len() {
        assert(sessions.take(n) =~= sessions);
    } else {
        assert(sessions.drop_last().take(n) =~= sessions.take(n));
        first_with_id_is_prefix(sessions.drop_last(), id, n);
    }
}

fn largest_session_id(sessions: &Vec<RuntimeSession>) -> (r: u64)
    ensures
        r == max_session_id(sessions.deep_view()),
{
    let ghost all = sessions.deep_view();
    let mut largest: u64 = 0;
    let mut i: usize = 0;
    assert(all.take(0) =~= Seq::empty());
    while i < sessions.len()
        invariant
            i <= sessions@.len(),
            all == sessions.deep_view(),
            largest == max_session_id(all.take(i as int)),
        decreases sessions@.len() - i,
    {
        let ghost next = all.take(i + 1);
        assert(next.drop_last() =~= all.take(i as int));
        assert(next.last() == sessions@[i as int].deep_view());
        if sessions[i].meta.id >= largest {
            largest = sessions[i].meta.id;
        }
        i = i + 1;
    }
    assert(all.take(i as int) =~= all);
    largest
}

fn largest_mark_id(bookmarks: &Vec<Bookmark>) -> (r: u64)
    ensures
        r == max_mark_id(bookmarks.deep_view()),
{
    let ghost all = bookmarks.deep_view();
    let mut largest: u64 = 0;
    let mut i: usize = 0;
    assert(all.take(0) =~= Seq::empty());
    while i < bookmarks.len()
        invariant
            i <= bookmarks@.len(),
            all == bookmarks.deep_view(),
            largest == max_mark_id(all.take(i as int)),
        decreases bookmarks@.len() - i,
    {
        let ghost next = all.take(i + 1);
        assert(next.drop_last() =~= all.take(i as int));
        assert(next.last() == bookmarks@[i as int].deep_view());
        if bookmarks[i].id >= largest {
            largest = bookmarks[i].id;
        }
        i = i + 1;
    }
    assert(all.take(i as int) =~= all);
    largest
}

fn largest_bookmark_id(sessions: &Vec<RuntimeSession>) -> (r: u64)
    ensures
        r == max_bookmark_id(sessions.deep_view()),
{
    let ghost all = sessions.deep_view();
    let mut largest: u64 = 0;
    let mut i: usize = 0;
    assert(all.take(0) =~= Seq::empty());
    while i < sessions.len()
        invariant
            i <= sessions@.len(),
            all == sessions.deep_view(),
            largest == max_bookmark_id(all.take(i as int)),
        decreases sessions@.len() - i,
    {
        let ghost next = all.take(i + 1);
        assert(next.drop_last() =~= all.take(i as int));
        assert(next.last() == sessions@[i as int].deep_view());
        let own: u64 = largest_mark_id(&sessions[i].meta.bookmarks);
        if own >= largest {
            largest = own;
        }
        i = i + 1;
    }
    assert(all.take(i as int) =~= all);
    largest
}

/// Restoring a session keeps what the workspace file holds of it, whether or not its capture can
/// still be read.
pub proof fn restoring_keeps_the_meta(
    meta: WorkspaceSessionView,
    records: Option<Seq<ReplayRecordView>>,
)
    ensures
        restored_session(meta, records).meta == meta,
        restored_session(meta, records).replay is Some <==> records is Some && is_replayable(meta),
{
}

/// A workspace comes back as it was saved: the same sessions in the same order, and a session
/// with the number of the one that was shown is shown again.
pub proof fn sessions_survive_a_workspace_file(
    v: SessionStoreView,
    restored: Seq<RuntimeSessionView>,
    created_at: Seq<char>,
)
    requires
        store_wf(v),
        v.sessions.len() <= usize::MAX,
        restored.len() == v.sessions.len(),
        forall|i: int|
            0 <= i < v.sessions.len() ==> (#[trigger] restored[i]).meta == v.sessions[i].meta,
    ensures
        ({
            let shown_id = v.sessions[v.active as int].meta.id;
            let store = restored_store(restored, Some(shown_id), created_at);
            &&& store.sessions == restored
            &&& store.sessions[store.active as int].meta.id == shown_id
            &&& store.sessions[store.live as int].meta.kind == SessionKind::Live
        }),
{
    let shown_id = v.sessions[v.active as int].meta.id;
    first_live_is_live(restored);
    assert(restored[v.live as int].meta.kind == SessionKind::Live);
    id_is_found(restored, shown_id, v.active as int);
    first_with_id_fits(restored, shown_id);
}

proof fn id_is_found(sessions: Seq<RuntimeSessionView>, id: u64, i: int)
    requires
        0 <= i < sessions.len(),
        sessions[i].meta.id == id,
    ensures
        first_with_id(sessions, id) is Some,
    decreases sessions.len(),
{
    if i < sessions.len() - 1 {
        id_is_found(sessions.drop_last(), id, i);
    }
}

/// Connecting a device never mixes it with another one. Where the live session belongs to a
/// different device, it is kept as history under its number: but for its kind and its name
/// nothing of it changes, neither packets, counters, decoder and frames nor notes and bookmarks.
/// The live session afterwards is a new one, the last, with a number that no session has, and
/// holds nothing yet. Every other session stays as it is.
pub proof fn devices_are_not_mixed(
    v: SessionStoreView,
    device_id: Seq<char>,
    name: Option<Seq<char>>,
    created_at: Seq<char>,
)
    requires
        store_wf(v),
        v.sessions.len() < usize::MAX,
        v.sessions[v.live as int].meta.device_id is Some,
        v.sessions[v.live as int].meta.device_id != Some(device_id),
    ensures
        ({
            let after = prepared_for(v, device_id, name, created_at);
            let before = v.sessions[v.live as int];
            let kept = after.sessions[v.live as int];
            let fresh = after.sessions[after.live as int];
            &&& after.sessions.len() == v.sessions.len() + 1
            &&& kept == RuntimeSessionView {
                meta: WorkspaceSessionView {
                    kind: SessionKind::Capture,
                    name: kept.meta.name,
                    ..before.meta
                },
                ..before
            }
            &&& after.live == v.sessions.len() && after.active == after.live
            &&& fresh.meta.kind == SessionKind::Live
            &&& fresh.meta.device_id == Some(device_id)
            &&& fresh.meta.id == v.next_session_id
            &&& fresh.meta.notes.len() == 0
            &&& fresh.meta.bookmarks.len() == 0
            &&& fresh.meta.source_path is None
            &&& fresh == session::empty_session(fresh.meta)
            &&& forall|i: int|
                0 <= i < v.sessions.len() && i != v.live ==> #[trigger] after.sessions[i]
                    == v.sessions[i]
            &&& v.next_session_id < u64::MAX ==> forall|i: int|
                0 <= i < v.sessions.len() ==> (#[trigger] after.sessions[i]).meta.id
                    != fresh.meta.id
        }),
{
    let after = prepared_for(v, device_id, name, created_at);
    assert forall|i: int| v.next_session_id < u64::MAX && 0 <= i < v.sessions.len() implies (
    #[trigger] after.sessions[i]).meta.id != v.next_session_id by {
        assert(v.sessions[i].meta.id < v.next_session_id);
    }
}

/// Connecting the device of the live session again, or the first device of a fresh one, goes on
/// with that session: none is added, and it keeps all that it holds.
pub proof fn reconnecting_keeps_the_session(
    v: SessionStoreView,
    device_id: Seq<char>,
    name: Option<Seq<char>>,
    created_at: Seq<char>,
)
    requires
        store_wf(v),
        v.sessions[v.live as int].meta.device_id is None
            || v.sessions[v.live as int].meta.device_id == Some(device_id),
    ensures
        ({
            let after = prepared_for(v, device_id, name, created_at);
            let before = v.sessions[v.live as int];
            let live = after.sessions[after.live as int];
            &&& after.sessions.len() == v.sessions.len()
            &&& after.live == v.live && after.active == v.live
            &&& live == RuntimeSessionView {
                meta: WorkspaceSessionView {
                    device_id: Some(device_id),
                    device_name: live.meta.device_name,
                    name: live.meta.name,
                    ..before.meta
                },
                ..before
            }
            &&& forall|i: int|
                0 <= i < v.sessions.len() && i != v.live ==> #[trigger] after.sessions[i]
                    == v.sessions[i]
        }),
{
}

/// Opening a capture adds a session of its own and leaves every other one as it is.
pub proof fn opening_a_capture_keeps_the_sessions(
    v: SessionStoreView,
    path: PathBuf,
    file_name: Option<Seq<char>>,
    records: Seq<ReplayRecordView>,
    created_at: Seq<char>,
    i: int,
)
    requires
        store_wf(v),
        v.sessions.len() < usize::MAX,
        0 <= i < v.sessions.len(),
    ensures
        ({
            let after = replay_opened(v, path, file_name, records, created_at);
            &&& after.sessions[i] == v.sessions[i]
            &&& after.sessions.len() == v.sessions.len() + 1
            &&& after.live == v.live
            &&& after.sessions[after.active as int].meta.kind == SessionKind::Replay
            &&& after.sessions[after.active as int].replay is Some
        }),
{
}

/// A packet for one session leaves the log, the counters, the decoder and the frames of every
/// other session as they are.
pub proof fn sessions_are_isolated(
    v: SessionStoreView,
    index: usize,
    entry: LogEntryView,
    source: Option<CharacteristicKeyView>,
    config: ProtocolConfigView,
    paused: bool,
    other: int,
)
    requires
        0 <= other < v.sessions.len(),
        other != index,
    ensures
        store_ingested(v, index, entry, source, config, paused).sessions[other]
            == v.sessions[other],
{
}

/// Closing a session keeps the others: the live session stays live, and a shown session other
/// than the closed one stays shown.
pub proof fn closing_keeps_the_others(v: SessionStoreView, index: usize)
    requires
        store_wf(v),
        index < v.sessions.len(),
        index != v.live,
    ensures
        ({
            let after = closed(v, index);
            &&& after.sessions.len() == v.sessions.len() - 1
            &&& after.sessions[after.live as int] == v.sessions[v.live as int]
            &&& v.active != index ==> after.sessions[after.active as int]
                == v.sessions[v.active as int]
            &&& v.active == index ==> after.active == after.live
        }),
{
}

/// A bookmark gets a number that no other bookmark has, as long as numbers last.
pub proof fn bookmark_numbers_are_fresh(v: SessionStoreView, i: int, j: int)
    requires
        store_wf(v),
        v.next_bookmark_id < u64::MAX,
        0 <= i < v.sessions.len(),
        0 <= j < v.sessions[i].meta.bookmarks.len(),
    ensures
        v.sessions[i].meta.bookmarks[j].id != v.next_bookmark_id,
{
}

/// A restored workspace has a live session and shows the session that was shown when it was
/// saved, where the file still holds it.
pub proof fn restored_workspace_is_complete(
    sessions: Seq<RuntimeSessionView>,
    id: u64,
    created_at: Seq<char>,
)
    requires
        first_live(sessions) is Some || max_session_id(sessions) < u64::MAX,
        sessions.len() < usize::MAX,
        first_with_id(sessions, id) is Some,
    ensures
        ({
            let store = restored_store(sessions, Some(id), created_at);
            &&& store.sessions[store.live as int].meta.kind == SessionKind::Live
            &&& store.sessions[store.active as int].meta.id == id
            &&& forall|i: int|
                0 <= i < sessions.len() ==> store.sessions[i] == #[trigger] sessions[i]
        }),
{
    let all = with_live(sessions, created_at);
    first_with_id_fits(sessions, id);
    first_live_is_live(sessions);
    first_live_is_live(all);
    if first_live(sessions) is None {
        assert(all[all.len() - 1].meta.kind == SessionKind::Live);
        assert(all.take(sessions.len() as int) =~= sessions);
        first_with_id_is_prefix(all, id, sessions.len() as int);
    }
    first_with_id_fits(all, id);
}

/// A workspace file comes back whole. Its sessions stand in their order with all that the file
/// says of them, notes and bookmarks among it, and a live session follows only where the file has
/// none. A session has a replay exactly where it is one of a capture that could be read. The live
/// session is the first live one, the shown one is that of the file where there is one with its
/// number and the live one otherwise, and new numbers are larger than any in use.
pub proof fn workspace_files_come_back(
    metas: Seq<WorkspaceSessionView>,
    captures: Seq<Option<Seq<ReplayRecordView>>>,
    active_id: Option<u64>,
    created_at: Seq<char>,
)
    requires
        captures.len() == metas.len(),
        0 < metas.len() < usize::MAX,
        is_restorable(metas),
    ensures
        ({
            let store = restored_store(restored_sessions(metas, captures), active_id, created_at);
            let has_live = exists|i: int|
                0 <= i < metas.len() && (#[trigger] metas[i]).kind == SessionKind::Live;
            let n = metas.len() as int;
            &&& store.sessions.len() == if has_live {
                n
            } else {
                n + 1
            }
            &&& forall|i: int|
                0 <= i < n ==> (#[trigger] store.sessions[i]).meta == metas[i] && (
                store.sessions[i].replay is Some <==> (metas[i].kind == SessionKind::Replay
                    || metas[i].kind == SessionKind::Capture) && metas[i].source_path is Some
                    && captures[i] is Some)
            &&& !has_live ==> store.sessions[n] == session::empty_session(
                session::live_meta(store.sessions[n].meta.id, created_at),
            ) && store.live == n && forall|i: int|
                0 <= i < n ==> (#[trigger] metas[i]).id < store.sessions[n].meta.id
            &&& store.live < store.sessions.len()
            &&& store.sessions[store.live as int].meta.kind == SessionKind::Live
            &&& forall|i: int|
                0 <= i < store.live ==> (#[trigger] store.sessions[i]).meta.kind
                    != SessionKind::Live
            &&& store.active < store.sessions.len()
            &&& Some(store.sessions[store.active as int].meta.id) == active_id || (store.active
                == store.live && forall|i: int|
                0 <= i < store.sessions.len() ==> Some((#[trigger] store.sessions[i]).meta.id)
                    != active_id)
            &&& ids_are_fresh(store)
        }),
{
    let sessions = restored_sessions(metas, captures);
    let all = with_live(sessions, created_at);
    let store = restored_store(sessions, active_id, created_at);
    let n = metas.len() as int;
    restorable_sessions_fit(metas, captures);
    first_live_is_live(sessions);
    first_live_is_live(all);
    max_session_id_bounds(sessions);
    max_session_id_bounds(all);
    max_bookmark_id_bounds(all);
    if first_live(sessions) is None {
        assert forall|i: int| 0 <= i < n implies (#[trigger] metas[i]).kind
            != SessionKind::Live by {
            assert(sessions[i].meta.kind != SessionKind::Live);
        }
        assert(all[n].meta.kind == SessionKind::Live);
        assert forall|i: int| 0 <= i < n implies all[i].meta.kind != SessionKind::Live by {
            assert(all[i] == sessions[i]);
        }
        assert forall|i: int| 0 <= i < n implies (#[trigger] metas[i]).id < all[n].meta.id by {
            assert(sessions[i].meta.id <= max_session_id(sessions));
        }
    } else {
        assert(metas[first_live(sessions)->0].kind == SessionKind::Live);
    }
    assert forall|i: int| 0 <= i < n implies (#[trigger] store.sessions[i]).meta == metas[i] && (
    store.sessions[i].replay is Some <==> is_replayable(metas[i]) && captures[i] is Some) by {
        assert(all[i] == sessions[i]);
    }
    if let Some(id) = active_id {
        first_with_id_fits(all, id);
    }
}

/// A packet goes to the one session that it is for. It is hidden only where that session is shown,
/// the display is paused and the device sent the packet by itself.
pub proof fn packets_go_to_their_session(
    v: SessionStoreView,
    index: usize,
    entry: LogEntryView,
    source: Option<CharacteristicKeyView>,
    config: ProtocolConfigView,
    paused: bool,
)
    ensures
        ({
            let after = store_ingested(v, index, entry, source, config, paused);
            let hidden = paused && index == v.active && entry.direction == LogDirection::Rx;
            &&& index >= v.sessions.len() ==> after == v
            &&& index < v.sessions.len() ==> after.sessions[index as int] == session::ingested(
                v.sessions[index as int],
                entry,
                source,
                config,
                hidden,
            )
            &&& after.sessions.len() == v.sessions.len()
            &&& after.active == v.active && after.live == v.live
            &&& after.next_session_id == v.next_session_id && after.next_bookmark_id
                == v.next_bookmark_id && after.selected_frame == v.selected_frame
        }),
{
}

/// A capture that was opened is shown in a session of its own, with a new number and the name of its
/// file, and waits at its start, with every record in order, to be played at the recorded speed.
pub proof fn opened_captures_wait_at_their_start(
    v: SessionStoreView,
    path: PathBuf,
    file_name: Option<Seq<char>>,
    records: Seq<ReplayRecordView>,
    created_at: Seq<char>,
    i: int,
)
    requires
        store_wf(v),
        v.sessions.len() < usize::MAX,
        0 <= i < records.len(),
    ensures
        ({
            let after = replay_opened(v, path, file_name, records, created_at);
            let opened = after.sessions[after.active as int];
            let controller = opened.replay->0;
            &&& after.active == v.sessions.len()
            &&& opened.meta.id == v.next_session_id
            &&& v.next_session_id < u64::MAX ==> after.next_session_id == v.next_session_id + 1
            &&& opened.meta.name == match file_name {
                Some(name) => name,
                None => "Replay"@,
            }
            &&& opened.meta.source_path == Some(path) && opened.meta.created_at == created_at
            &&& opened.meta.notes.len() == 0 && opened.meta.bookmarks.len() == 0
            &&& opened.logs.len() == 0 && opened.protocol_frames.len() == 0
            &&& controller.records.len() == records.len()
            &&& controller.records[i].record == records[i]
            &&& controller.position == 0 && controller.cursor == 0 && !controller.playing
            &&& controller.speed.bits == 0x3F80_0000
            &&& controller.duration == controller.records[records.len() - 1].offset_ms
        }),
{
}

/// Showing another session pauses the replay of the one that was shown, deselects the frame, and
/// changes nothing else; a session that is shown already or not there changes nothing.
pub proof fn showing_a_session_pauses_the_last_one(
    v: SessionStoreView,
    index: usize,
    elapsed_ms: u64,
    other: int,
)
    requires
        store_wf(v),
        0 <= other < v.sessions.len(),
        other != v.active,
    ensures
        index == v.active || index >= v.sessions.len() ==> shown(v, index, elapsed_ms) == v,
        index != v.active && index < v.sessions.len() ==> ({
            let after = shown(v, index, elapsed_ms);
            let left = after.sessions[v.active as int];
            let before = v.sessions[v.active as int];
            &&& after.active == index && after.live == v.live && after.selected_frame is None
            &&& after.sessions.len() == v.sessions.len()
            &&& after.sessions[other] == v.sessions[other]
            &&& before.replay is None ==> left == before
            &&& before.replay matches Some(controller) ==> left.replay == Some(
                replay::paused(controller, elapsed_ms),
            )
            &&& left.logs == before.logs && left.meta == before.meta && left.stats == before.stats
                && left.protocol_frames == before.protocol_frames && left.protocol_decoder
                == before.protocol_decoder
        }),
{
}

/// Closing a session takes out that one alone: the sessions before it keep their places and those
/// behind it move up. The live session is never closed, and is shown where the shown one was closed.
pub proof fn closing_takes_out_one_session(v: SessionStoreView, index: usize, i: int)
    requires
        store_wf(v),
        0 <= i < v.sessions.len(),
    ensures
        index == v.live || index >= v.sessions.len() ==> closed(v, index) == v,
        index != v.live && index < v.sessions.len() ==> ({
            let after = closed(v, index);
            &&& i < index ==> after.sessions[i] == v.sessions[i]
            &&& i > index ==> after.sessions[i - 1] == v.sessions[i]
            &&& v.active == index ==> after.active == after.live
            &&& after.next_session_id == v.next_session_id && after.selected_frame is None
        }),
{
}

/// A bookmark goes behind the others of the shown session, and the next one gets the next number.
pub proof fn bookmarks_go_to_the_shown_session(
    v: SessionStoreView,
    bookmark: BookmarkView,
    other: int,
)
    requires
        store_wf(v),
        0 <= other < v.sessions.len(),
        other != v.active,
    ensures
        ({
            let after = bookmarked(v, bookmark);
            let before = v.sessions[v.active as int];
            let marked = after.sessions[v.active as int];
            &&& marked.meta.bookmarks == before.meta.bookmarks.push(bookmark)
            &&& marked.logs == before.logs && marked.meta.notes == before.meta.notes
            &&& after.sessions[other] == v.sessions[other]
            &&& after.sessions.len() == v.sessions.len()
            &&& v.next_bookmark_id < u64::MAX ==> after.next_bookmark_id == v.next_bookmark_id + 1
            &&& after.active == v.active && after.live == v.live
        }),
{
}

/// What the controls of the replay do: one button plays and pauses, stopping goes back to the start
/// with every record to come, and the others go to a record or a place or change the speed.
pub proof fn controls_move_the_replay(
    v: ReplayControllerView,
    place: u64,
    speed: F32Bits,
    elapsed_ms: u64,
    now: u64,
)
    requires
        replay::replay_wf(v),
        v.records.len() > 0,
        speed.bits <= 0x7F80_0000 || 0x8000_0000 <= speed.bits <= 0xFF80_0000,
    ensures
        ({
            let button = controlled(v, ReplayControl::PlayPause, elapsed_ms, now);
            let stopped = controlled(v, ReplayControl::Stop, elapsed_ms, now);
            let back = controlled(v, ReplayControl::Previous, elapsed_ms, now);
            let on = controlled(v, ReplayControl::Next, elapsed_ms, now);
            let there = controlled(v, ReplayControl::Seek(place), elapsed_ms, now);
            let faster = controlled(v, ReplayControl::SetSpeed(speed), elapsed_ms, now);
            &&& button.playing == !v.playing
            &&& v.playing ==> button.cursor == v.cursor && button.position == (
            if v.anchor_position + elapsed_ms <= v.duration {
                v.anchor_position + elapsed_ms
            } else {
                v.duration as int
            })
            &&& !stopped.playing && stopped.position == 0 && stopped.cursor == 0
            &&& stopped.records == v.records && stopped.speed == v.speed && stopped.anchor is None
            &&& !back.playing && back.cursor == if v.cursor > 0 {
                v.cursor - 1
            } else {
                0
            }
            &&& back.position == v.records[back.cursor].offset_ms
            &&& !on.playing && on.cursor == if v.cursor < v.records.len() {
                v.cursor
            } else {
                v.records.len() - 1
            }
            &&& on.position == v.records[on.cursor].offset_ms
            &&& there.playing == v.playing && there.position == if place <= v.duration {
                place
            } else {
                v.duration
            }
            &&& faster.playing == v.playing && faster.cursor == v.cursor
            &&& faster.speed.bits == if speed.bits >= 0x8000_0000 || speed.bits < 0x3E80_0000 {
                0x3E80_0000u32
            } else if speed.bits > 0x41A0_0000 {
                0x41A0_0000u32
            } else {
                speed.bits
            }
        }),
{
    replay::previous_goes_back_by_one(v, elapsed_ms);
    replay::next_shows_the_record_at_the_cursor(v, elapsed_ms);
    replay::changed_speeds_keep_the_place(v, speed, elapsed_ms, now);
    replay::playing_starts_the_clock(v, now);
    replay::seeking_goes_to_the_place(v, place, now);
}

/// The replay of the shown session is the only thing that a change of it touches.
pub proof fn replays_belong_to_the_shown_session(
    v: SessionStoreView,
    controller: ReplayControllerView,
    other: int,
)
    requires
        store_wf(v),
        0 <= other < v.sessions.len(),
        other != v.active,
    ensures
        ({
            let after = with_replay(v, controller);
            let before = v.sessions[v.active as int];
            let changed = after.sessions[v.active as int];
            &&& changed.replay == Some(controller)
            &&& changed.logs == before.logs && changed.meta == before.meta && changed.stats
                == before.stats && changed.protocol_frames == before.protocol_frames
            &&& after.sessions[other] == v.sessions[other]
            &&& after.sessions.len() == v.sessions.len()
            &&& after.active == v.active && after.live == v.live
        }),
{
}

/// A live session is named after its device, and keeps that name as a capture.
pub proof fn sessions_are_named_after_their_device(
    s: RuntimeSessionView,
    device_id: Seq<char>,
    name: Seq<char>,
)
    ensures
        ({
            let named = named_session(s, device_id, Some(name));
            let unnamed = named_session(s, device_id, None);
            let archived = archived_session(named);
            &&& named.meta.device_id == Some(device_id) && named.meta.device_name == Some(name)
            &&& named.meta.name == "Live · "@ + name
            &&& unnamed.meta.device_id == Some(device_id) && unnamed.meta.name == s.meta.name
                && unnamed.meta.device_name == s.meta.device_name
            &&& archived.meta.name == "Capture · "@ + name && archived.meta.device_id == Some(
                device_id,
            )
            &&& archived.meta.kind == SessionKind::Capture
            &&& archived.logs == s.logs && archived.meta.bookmarks == s.meta.bookmarks
            &&& s.meta.device_name is None ==> archived_session(s).meta.name == s.meta.name
        }),
{
}

/// A file without sessions, like a new workspace, starts with one live session under the first
/// number, which is shown.
pub proof fn empty_workspaces_get_a_live_session(active_id: Option<u64>, created_at: Seq<char>)
    ensures
        ({
            let opened = restored_store(Seq::empty(), active_id, created_at);
            let fresh = fresh_store(created_at);
            &&& opened.sessions.len() == 1 && fresh.sessions.len() == 1
            &&& opened.sessions[0].meta.id == 1 && fresh.sessions[0].meta.id == 1
            &&& opened.sessions[0].meta.kind == SessionKind::Live
            &&& fresh.sessions[0].meta.kind == SessionKind::Live
            &&& opened.live == 0 && fresh.live == 0 && opened.active == 0 && fresh.active == 0
            &&& opened.next_session_id == 2 && fresh.next_session_id == 2
            &&& opened.next_bookmark_id == 1 && fresh.next_bookmark_id == 1
            &&& opened.sessions[0].meta.created_at == created_at
            &&& opened.sessions[0].logs.len() == 0
        }),
{
    let all = with_live(Seq::empty(), created_at);
    reveal_with_fuel(first_live, 2);
    reveal_with_fuel(first_with_id, 2);
    reveal_with_fuel(max_session_id, 2);
    reveal_with_fuel(max_bookmark_id, 2);
    reveal_with_fuel(max_mark_id, 2);
    assert(all.drop_last() =~= Seq::<RuntimeSessionView>::empty());
    if let Some(id) = active_id {
        first_with_id_fits(all, id);
    }
}

/// Clearing the frames empties decoder and frames of the shown session, deselects the frame, and
/// leaves every other session as it is.
pub proof fn frames_of_the_shown_session_are_cleared(v: SessionStoreView, other: int)
    requires
        store_wf(v),
        0 <= other < v.sessions.len(),
        other != v.active,
    ensures
        ({
            let after = protocol_cleared(v);
            let cleared = after.sessions[v.active as int];
            let before = v.sessions[v.active as int];
            &&& cleared.protocol_frames.len() == 0 && cleared.protocol_decoder.buffer.len() == 0
            &&& cleared.protocol_sequence == 0 && after.selected_frame is None
            &&& cleared.logs == before.logs && cleared.meta == before.meta && cleared.stats
                == before.stats && cleared.replay == before.replay
            &&& after.sessions[other] == v.sessions[other]
            &&& after.active == v.active && after.live == v.live
        }),
{
}

} // verus!
