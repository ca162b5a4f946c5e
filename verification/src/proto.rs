//! What the renderer and its daemon tell each other: agent states, sessions,
//! snapshots, window facts, and the actions a user takes on the pet.

use vstd::prelude::*;

use crate::strings::opt_clone;
use crate::strings::opt_eq;
use crate::strings::str_eq;

verus! {

#[derive(Debug, Clone, Copy, PartialEq, Eq, Structural)]
pub enum AgentState {
    Idle,
    Running,
    Waiting,
    Ready,
    Failed,
    Gone,
}

/// Name of the animation track that shows a state.
pub open spec fn track_of(state: AgentState) -> Seq<char> {
    match state {
        AgentState::Idle => "idle"@,
        AgentState::Running => "running"@,
        AgentState::Waiting => "waiting"@,
        AgentState::Ready => "review"@,
        AgentState::Failed => "failed"@,
        AgentState::Gone => "idle"@,
    }
}

/// What a state is called in the speech bubble.
pub open spec fn label_of(state: AgentState) -> Seq<char> {
    match state {
        AgentState::Idle => "Idle"@,
        AgentState::Running => "Running"@,
        AgentState::Waiting => "Needs input"@,
        AgentState::Ready => "Ready"@,
        AgentState::Failed => "Blocked"@,
        AgentState::Gone => "Gone"@,
    }
}

impl AgentState {
    pub fn track(self) -> (name: &'static str)
        ensures
            name@ == track_of(self),
    {
        match self {
            AgentState::Idle => "idle",
            AgentState::Running => "running",
            AgentState::Waiting => "waiting",
            AgentState::Ready => "review",
            AgentState::Failed => "failed",
            AgentState::Gone => "idle",
        }
    }

    pub fn label(self) -> (text: &'static str)
        ensures
            text@ == label_of(self),
    {
        match self {
            AgentState::Idle => "Idle",
            AgentState::Running => "Running",
            AgentState::Waiting => "Needs input",
            AgentState::Ready => "Ready",
            AgentState::Failed => "Blocked",
            AgentState::Gone => "Gone",
        }
    }
}

/// Which harness a session belongs to.
#[derive(Debug, Clone, Copy, PartialEq, Eq, Structural)]
pub enum Source {
    Claude,
    Codex,
    Other,
}

#[derive(Debug, PartialEq, Eq)]
pub struct SessionKey {
    pub source: Source,
    pub session: String,
}

/// What a `SessionKey` says.
#[verifier::ext_equal]
pub struct SessionKeyView {
    pub source: Source,
    pub session: Seq<char>,
}

impl View for SessionKey {
    type V = SessionKeyView;

    open spec fn view(&self) -> SessionKeyView {
        SessionKeyView { source: self.source, session: self.session@ }
    }
}

impl SessionKey {
    pub fn new(source: Source, session: &str) -> (key: Self)
        ensures
            key@ == (SessionKeyView { source, session: session@ }),
    {
        SessionKey { source, session: session.to_owned() }
    }

    /// Whether two keys name the same session.
    pub fn same(&self, other: &SessionKey) -> (same: bool)
        ensures
            same == (self@ == other@),
    {
        self.source == other.source && str_eq(self.session.as_str(), other.session.as_str())
    }
}

impl Clone for SessionKey {
    fn clone(&self) -> (copy: Self)
        ensures
            copy@ == self@,
    {
        SessionKey { source: self.source, session: self.session.clone() }
    }
}

/// One session of a snapshot.
#[derive(Debug, PartialEq, Eq)]
pub struct SessionView {
    pub key: SessionKey,
    pub state: AgentState,
    pub since: i64,
    pub seen: bool,
    pub focused: bool,
    pub body: Option<String>,
    pub subtitle: Option<String>,
}

/// All sessions, and the state that matters most.
#[derive(Debug, PartialEq, Eq)]
pub struct Snapshot {
    pub top: AgentState,
    pub sessions: Vec<SessionView>,
    pub unread: u32,
    pub at: i64,
}

/// The window that has the focus, as far as the compositor tells.
#[derive(Debug, PartialEq, Eq)]
pub struct ActiveWindow {
    pub pid: Option<u32>,
    pub address: Option<String>,
    pub app_id: Option<String>,
    pub title: Option<String>,
}

/// What an `ActiveWindow` says.
#[verifier::ext_equal]
pub struct ActiveWindowView {
    pub pid: Option<u32>,
    pub address: Option<Seq<char>>,
    pub app_id: Option<Seq<char>>,
    pub title: Option<Seq<char>>,
}

impl View for ActiveWindow {
    type V = ActiveWindowView;

    open spec fn view(&self) -> ActiveWindowView {
        ActiveWindowView {
            pid: self.pid,
            address: crate::strings::text_of(self.address),
            app_id: crate::strings::text_of(self.app_id),
            title: crate::strings::text_of(self.title),
        }
    }
}

/// A window about which nothing is known.
pub open spec fn unknown_window() -> ActiveWindowView {
    ActiveWindowView { pid: None, address: None, app_id: None, title: None }
}

/// What an optional window says.
pub open spec fn window_view(window: Option<ActiveWindow>) -> Option<ActiveWindowView> {
    match window {
        Some(w) => Some(w@),
        None => None,
    }
}

impl ActiveWindow {
    /// Whether two windows are described alike.
    pub fn same(&self, other: &ActiveWindow) -> (same: bool)
        ensures
            same == (self@ == other@),
    {
        let pids: bool = match (self.pid, other.pid) {
            (None, None) => true,
            (Some(a), Some(b)) => a == b,
            _ => false,
        };
        pids && opt_eq(&self.address, &other.address) && opt_eq(&self.app_id, &other.app_id) && opt_eq(
            &self.title,
            &other.title,
        )
    }
}

impl Clone for ActiveWindow {
    fn clone(&self) -> (copy: Self)
        ensures
            copy@ == self@,
    {
        ActiveWindow {
            pid: self.pid,
            address: opt_clone(&self.address),
            app_id: opt_clone(&self.app_id),
            title: opt_clone(&self.title),
        }
    }
}

impl Default for ActiveWindow {
    fn default() -> (window: Self)
        ensures
            window@ == unknown_window(),
    {
        ActiveWindow { pid: None, address: None, app_id: None, title: None }
    }
}

/// Whether two optional windows are described alike.
pub fn same_window(a: &Option<ActiveWindow>, b: &Option<ActiveWindow>) -> (same: bool)
    ensures
        same == (window_view(*a) == window_view(*b)),
{
    match (a, b) {
        (None, None) => true,
        (Some(x), Some(y)) => x.same(y),
        _ => false,
    }
}

/// A copy of an optional window.
pub fn clone_window(a: &Option<ActiveWindow>) -> (copy: Option<ActiveWindow>)
    ensures
        window_view(copy) == window_view(*a),
{
    match a {
        None => None,
        Some(w) => Some(w.clone()),
    }
}

/// What the user did that the daemon should know about.
#[derive(Debug, PartialEq, Eq)]
pub enum UiAction {
    FocusSession { key: SessionKey },
    SetVisible { visible: bool },
    ActiveWindowChanged { window: Option<ActiveWindow> },
}

/// The states that call for the user are told apart by their labels.
pub proof fn alert_labels_differ()
    ensures
        label_of(AgentState::Waiting) != label_of(AgentState::Failed),
        label_of(AgentState::Waiting) != label_of(AgentState::Ready),
        label_of(AgentState::Failed) != label_of(AgentState::Ready),
        label_of(AgentState::Waiting) == "Needs input"@,
{
    reveal_strlit("Needs input");
    reveal_strlit("Blocked");
    reveal_strlit("Ready");
    assert("Needs input"@.len() == 11 && "Blocked"@.len() == 7 && "Ready"@.len() == 5);
}

} // verus!
