//! Workspaces: the sessions, their bookmarks and the layout that a workspace file keeps.

use crate::text;
use std::path::PathBuf;
use vstd::prelude::*;
#[allow(unused_imports)]
use vstd::string::*;

verus! {

/// The version of the workspace file.
pub const WORKSPACE_VERSION: u32 = 1;

/// Where the packets of a session come from.
#[derive(Debug, Clone, Copy, PartialEq, Eq, Structural)]
pub enum SessionKind {
    /// The connected device.
    Live,
    /// A device that was connected earlier.
    Capture,
    /// A capture file.
    Replay,
}

impl SessionKind {
    /// The name shown to the user.
    pub fn label(self) -> (r: &'static str)
        ensures
            r@ == match self {
                SessionKind::Live => "LIVE"@,
                SessionKind::Capture => "CAPTURE"@,
                SessionKind::Replay => "REPLAY"@,
            },
    {
        match self {
            SessionKind::Live => "LIVE",
            SessionKind::Capture => "CAPTURE",
            SessionKind::Replay => "REPLAY",
        }
    }
}

/// A marked packet or frame.
#[derive(Debug, PartialEq, Eq)]
pub struct Bookmark {
    pub id: u64,
    pub label: String,
    pub timestamp: String,
    /// Where the bookmark was set: `log`, `protocol` or `replay`.
    pub source: String,
    /// The number of the frame.
    pub sequence: Option<u64>,
    pub replay_position_ms: Option<u64>,
    pub service_uuid: String,
    pub characteristic_uuid: String,
    pub hex: String,
}

/// The mathematical value of [`Bookmark`].
#[verifier::ext_equal]
pub struct BookmarkView {
    pub id: u64,
    pub label: Seq<char>,
    pub timestamp: Seq<char>,
    pub source: Seq<char>,
    pub sequence: Option<u64>,
    pub replay_position_ms: Option<u64>,
    pub service_uuid: Seq<char>,
    pub characteristic_uuid: Seq<char>,
    pub hex: Seq<char>,
}

impl DeepView for Bookmark {
    type V = BookmarkView;

    open spec fn deep_view(&self) -> BookmarkView {
        BookmarkView {
            id: self.id,
            label: self.label@,
            timestamp: self.timestamp@,
            source: self.source@,
            sequence: self.sequence,
            replay_position_ms: self.replay_position_ms,
            service_uuid: self.service_uuid@,
            characteristic_uuid: self.characteristic_uuid@,
            hex: self.hex@,
        }
    }
}

impl Clone for Bookmark {
    fn clone(&self) -> (r: Self)
        ensures
            r.deep_view() == self.deep_view(),
    {
        Bookmark {
            id: self.id,
            label: self.label.clone(),
            timestamp: self.timestamp.clone(),
            source: self.source.clone(),
            sequence: self.sequence,
            replay_position_ms: self.replay_position_ms,
            service_uuid: self.service_uuid.clone(),
            characteristic_uuid: self.characteristic_uuid.clone(),
            hex: self.hex.clone(),
        }
    }
}

impl Default for Bookmark {
    fn default() -> (r: Self)
        ensures
            r.deep_view() == (BookmarkView {
                id: 0,
                label: Seq::empty(),
                timestamp: Seq::empty(),
                source: Seq::empty(),
                sequence: None,
                replay_position_ms: None,
                service_uuid: Seq::empty(),
                characteristic_uuid: Seq::empty(),
                hex: Seq::empty(),
            }),
    {
        Bookmark {
            id: 0,
            label: String::new(),
            timestamp: String::new(),
            source: String::new(),
            sequence: None,
            replay_position_ms: None,
            service_uuid: String::new(),
            characteristic_uuid: String::new(),
            hex: String::new(),
        }
    }
}

/// What a workspace file keeps of a session.
#[derive(Debug, PartialEq, Eq)]
pub struct WorkspaceSession {
    pub id: u64,
    pub name: String,
    pub kind: SessionKind,
    pub device_id: Option<String>,
    pub device_name: Option<String>,
    /// The capture file that belongs to the session.
    pub source_path: Option<PathBuf>,
    pub bookmarks: Vec<Bookmark>,
    pub notes: String,
    pub created_at: String,
}

/// The mathematical value of [`WorkspaceSession`].
#[verifier::ext_equal]
pub struct WorkspaceSessionView {
    pub id: u64,
    pub name: Seq<char>,
    pub kind: SessionKind,
    pub device_id: Option<Seq<char>>,
    pub device_name: Option<Seq<char>>,
    pub source_path: Option<PathBuf>,
    pub bookmarks: Seq<BookmarkView>,
    pub notes: Seq<char>,
    pub created_at: Seq<char>,
}

impl DeepView for WorkspaceSession {
    type V = WorkspaceSessionView;

    open spec fn deep_view(&self) -> WorkspaceSessionView {
        WorkspaceSessionView {
            id: self.id,
            name: self.name@,
            kind: self.kind,
            device_id: self.device_id.deep_view(),
            device_name: self.device_name.deep_view(),
            source_path: self.source_path,
            bookmarks: self.bookmarks.deep_view(),
            notes: self.notes@,
            created_at: self.created_at@,
        }
    }
}

impl Clone for WorkspaceSession {
    fn clone(&self) -> (r: Self)
        ensures
            r.deep_view() == self.deep_view(),
    {
        let r = WorkspaceSession {
            id: self.id,
            name: self.name.clone(),
            kind: self.kind,
            device_id: self.device_id.clone(),
            device_name: self.device_name.clone(),
            source_path: self.source_path.clone(),
            bookmarks: self.bookmarks.clone(),
            notes: self.notes.clone(),
            created_at: self.created_at.clone(),
        };
        assert(r.bookmarks.deep_view() =~= self.bookmarks.deep_view());
        r
    }
}

/// A session as it is before anything is known of it.
pub open spec fn blank_session(created_at: Seq<char>) -> WorkspaceSessionView {
    WorkspaceSessionView {
        id: 1,
        name: "Live Session"@,
        kind: SessionKind::Live,
        device_id: None,
        device_name: None,
        source_path: None,
        bookmarks: Seq::empty(),
        notes: Seq::empty(),
        created_at,
    }
}

impl WorkspaceSession {
    /// A session as it is before anything is known of it.
    pub fn blank(created_at: String) -> (r: Self)
        ensures
            r.deep_view() == blank_session(created_at@),
    {
        let bookmarks: Vec<Bookmark> = Vec::new();
        assert(bookmarks.deep_view() =~= Seq::empty());
        WorkspaceSession {
            id: 1,
            name: "Live Session".to_owned(),
            kind: SessionKind::Live,
            device_id: None,
            device_name: None,
            source_path: None,
            bookmarks,
            notes: String::new(),
            created_at,
        }
    }
}

/// Which parts of the window are shown.
#[derive(Debug, Clone, Copy, PartialEq, Eq, Structural)]
pub struct WorkspaceLayout {
    pub show_devices_gatt: bool,
    pub show_plot: bool,
    pub show_protocol: bool,
    pub show_replay: bool,
    pub show_bookmarks: bool,
    pub show_monitor: bool,
}

/// Every part shown.
pub open spec fn full_layout() -> WorkspaceLayout {
    WorkspaceLayout {
        show_devices_gatt: true,
        show_plot: true,
        show_protocol: true,
        show_replay: true,
        show_bookmarks: true,
        show_monitor: true,
    }
}

impl Default for WorkspaceLayout {
    fn default() -> (r: Self)
        ensures
            r == full_layout(),
    {
        WorkspaceLayout {
            show_devices_gatt: true,
            show_plot: true,
            show_protocol: true,
            show_replay: true,
            show_bookmarks: true,
            show_monitor: true,
        }
    }
}

/// The contents of a workspace file.
#[derive(Debug)]
pub struct WorkspaceFile {
    pub version: u32,
    pub name: String,
    pub saved_at: String,
    pub active_session_id: Option<u64>,
    pub sessions: Vec<WorkspaceSession>,
    pub layout: WorkspaceLayout,
}

/// The mathematical value of [`WorkspaceFile`].
#[verifier::ext_equal]
pub struct WorkspaceFileView {
    pub version: u32,
    pub name: Seq<char>,
    pub saved_at: Seq<char>,
    pub active_session_id: Option<u64>,
    pub sessions: Seq<WorkspaceSessionView>,
    pub layout: WorkspaceLayout,
}

impl DeepView for WorkspaceFile {
    type V = WorkspaceFileView;

    open spec fn deep_view(&self) -> WorkspaceFileView {
        WorkspaceFileView {
            version: self.version,
            name: self.name@,
            saved_at: self.saved_at@,
            active_session_id: self.active_session_id,
            sessions: self.sessions.deep_view(),
            layout: self.layout,
        }
    }
}

impl Clone for WorkspaceFile {
    fn clone(&self) -> (r: Self)
        ensures
            r.deep_view() == self.deep_view(),
    {
        let r = WorkspaceFile {
            version: self.version,
            name: self.name.clone(),
            saved_at: self.saved_at.clone(),
            active_session_id: self.active_session_id,
            sessions: self.sessions.clone(),
            layout: self.layout,
        };
        assert(r.sessions.deep_view() =~= self.sessions.deep_view());
        r
    }
}

/// A new workspace.
pub open spec fn blank_workspace(created_at: Seq<char>) -> WorkspaceFileView {
    WorkspaceFileView {
        version: WORKSPACE_VERSION,
        name: "Untitled Workspace"@,
        saved_at: Seq::empty(),
        active_session_id: None,
        sessions: seq![blank_session(created_at)],
        layout: full_layout(),
    }
}

impl WorkspaceFile {
    /// A new workspace.
    pub fn blank(created_at: String) -> (r: Self)
        ensures
            r.deep_view() == blank_workspace(created_at@),
    {
        let mut sessions: Vec<WorkspaceSession> = Vec::new();
        sessions.push(WorkspaceSession::blank(created_at));
        assert(sessions.deep_view() =~= seq![blank_session(created_at@)]);
        WorkspaceFile {
            version: WORKSPACE_VERSION,
            name: "Untitled Workspace".to_owned(),
            saved_at: String::new(),
            active_session_id: None,
            sessions,
            layout: WorkspaceLayout::default(),
        }
    }
}

/// A workspace as it is written: with the current version and the time.
pub open spec fn stamped(workspace: WorkspaceFileView, saved_at: Seq<char>) -> WorkspaceFileView {
    WorkspaceFileView { version: WORKSPACE_VERSION, saved_at, ..workspace }
}

/// What is written for a workspace.
pub fn save_workspace(workspace: &WorkspaceFile, saved_at: String) -> (r: WorkspaceFile)
    ensures
        r.deep_view() == stamped(workspace.deep_view(), saved_at@),
{
    let copy = workspace.clone();
    WorkspaceFile { version: WORKSPACE_VERSION, saved_at, ..copy }
}

/// The message for a workspace of a later version.
pub open spec fn too_new_message(version: u32) -> Seq<char> {
    "Workspace version "@ + text::decimal(version as nat) + " 比当前支持的 "@ + text::decimal(
        WORKSPACE_VERSION as nat,
    ) + " 更新"@
}

/// Takes what was read from a workspace file, unless a later version wrote it.
pub fn load_workspace(workspace: WorkspaceFile) -> (r: Result<WorkspaceFile, String>)
    ensures
        match r {
            Ok(loaded) => workspace.version <= WORKSPACE_VERSION && loaded.deep_view()
                == workspace.deep_view(),
            Err(message) => workspace.version > WORKSPACE_VERSION && message@ == too_new_message(
                workspace.version,
            ),
        },
{
    if workspace.version > WORKSPACE_VERSION {
        let number = text::decimal_text(workspace.version as u64);
        let mut message = text::joined("Workspace version ", number.as_str());
        message.append(" 比当前支持的 ");
        let own = text::decimal_text(WORKSPACE_VERSION as u64);
        message.append(own.as_str());
        message.append(" 更新");
        return Err(message);
    }
    Ok(workspace)
}

/// What was saved is never too new to be loaded, and keeps everything but the version and the
/// time of saving.
pub proof fn saved_workspaces_load(workspace: WorkspaceFileView, saved_at: Seq<char>)
    ensures
        stamped(workspace, saved_at).version <= WORKSPACE_VERSION,
        stamped(workspace, saved_at).name == workspace.name,
        stamped(workspace, saved_at).active_session_id == workspace.active_session_id,
        stamped(workspace, saved_at).sessions == workspace.sessions,
        stamped(workspace, saved_at).layout == workspace.layout,
{
}

} // verus!
