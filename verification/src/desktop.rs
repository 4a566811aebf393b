//! What the desktop shell shows: the records it hands to its web view, and
//! how stream-consumer effects and daemon status become those records.
use vstd::prelude::*;

use crate::text::{chars_of, starts_with, string_of};

verus! {

#[derive(Debug, Clone)]
pub struct SystemStatusDto {
    pub daemon_version: String,
    pub uptime_seconds: u64,
    pub active_model_id: String,
    pub workspace_root: String,
    pub lifecycle_state: String,
    pub idle_seconds: u64,
}

#[derive(Debug, Clone)]
pub struct SessionEventDto {
    pub sequence: u64,
    pub event: String,
    pub text: String,
    pub turn_id: String,
    pub tool_name: String,
    pub phase: String,
}

#[derive(Debug, Clone)]
pub struct FetchSessionEventsDto {
    pub events: Vec<SessionEventDto>,
    pub has_more_before: bool,
    pub has_more_after: bool,
    pub head_sequence: u64,
}

#[derive(Debug, Clone)]
pub struct ToolApprovalResultDto {
    pub ok: bool,
    pub error: String,
}

#[derive(Debug, Clone)]
pub enum DaemonLifecycleEvent {
    Ready { workspace_root: String },
    Unavailable { message: String },
}

#[derive(Debug, Clone)]
pub enum StreamEventDto {
    Chunk { text: String },
    Phase { phase: String },
    Message { text: String },
    ApprovalRequired { tool_call_id: String, tool_name: String, detail: String, approval_token: String },
    Done,
    Error { code: String, message: String },
}

/// The phase of a turn as the stream consumer tracks it.
#[derive(Debug, Clone, Copy, PartialEq, Eq, Structural)]
pub enum TurnPhase {
    Idle,
    Generating,
    ToolRunning,
    ToolApproval,
    Terminal,
}

/// A tool card the stream consumer updates.
#[derive(Debug, Clone)]
pub struct ToolCard {
    pub tool_call_id: String,
    pub name: String,
    pub phase: String,
    pub detail: String,
}

/// What the stream consumer asks the view to do for one chunk.
#[derive(Debug, Clone)]
pub enum UiEffect {
    AppendChunk(String),
    OperatorMessage(String),
    PhaseChanged(TurnPhase),
    ToolUpdated(ToolCard),
    TerminalDone,
    TerminalError { code: String, message: String },
    Ignored,
}

/// Stable label of a turn phase.
pub open spec fn phase_label(p: TurnPhase) -> Seq<char> {
    match p {
        TurnPhase::Idle => "idle"@,
        TurnPhase::Generating => "generating"@,
        TurnPhase::ToolRunning => "tool_running"@,
        TurnPhase::ToolApproval => "tool_approval"@,
        TurnPhase::Terminal => "terminal"@,
    }
}

/// The label of a turn phase.
pub fn phase_to_str(phase: TurnPhase) -> (s: &'static str)
    ensures
        s@ == phase_label(phase),
{
    match phase {
        TurnPhase::Idle => "idle",
        TurnPhase::Generating => "generating",
        TurnPhase::ToolRunning => "tool_running",
        TurnPhase::ToolApproval => "tool_approval",
        TurnPhase::Terminal => "terminal",
    }
}

/// Position of the last `|` in `s`.
pub open spec fn last_bar(s: Seq<char>) -> int {
    crate::broker::last_index_of(s, '|')
}

/// An approval card's detail split into the detail proper and the approval
/// token after the last `|` (only a `tap-` token counts).
pub open spec fn approval_detail_parts(detail: Seq<char>) -> (Seq<char>, Seq<char>) {
    let i = last_bar(detail);
    if i >= 0 && starts_with(detail.skip(i + 1), "tap-"@) {
        (detail.take(i), detail.skip(i + 1))
    } else {
        (detail, Seq::<char>::empty())
    }
}

/// Split an approval card's detail into (detail, approval token).
pub fn split_approval_detail(detail: &str) -> (r: (String, String))
    ensures
        (r.0@, r.1@) == approval_detail_parts(detail@),
{
    let d = chars_of(detail);
    let mut i: usize = d.len();
    assert(d@.take(i as int) =~= d@);
    while i > 0
        invariant
            i <= d.len(),
            d@ == detail@,
            last_bar(d@) == crate::broker::last_index_of(d@.take(i as int), '|'),
        decreases i,
    {
        assert(d@.take(i as int).drop_last() =~= d@.take(i - 1));
        assert(d@.take(i as int).last() == d@[i - 1]);
        if d[i - 1] == '|' {
            assert(last_bar(d@) == i - 1);
            let token = crate::text::slice_vec(&d, i, d.len());
            assert(token@ =~= d@.skip(i as int));
            if crate::text::starts_with_vec(&token, &chars_of("tap-")) {
                let path = crate::text::slice_vec(&d, 0, i - 1);
                assert(path@ =~= d@.take(i - 1));
                return (string_of(&path), string_of(&token));
            }
            return (String::from_str(detail), String::new());
        }
        i = i - 1;
    }
    (String::from_str(detail), String::new())
}

/// The record a consumer effect becomes (`None` for effects the view ignores).
pub fn map_effect(effect: UiEffect) -> (r: Option<StreamEventDto>)
    ensures
        match effect {
            UiEffect::AppendChunk(t) => r matches Some(StreamEventDto::Chunk { text }) && text == t,
            UiEffect::OperatorMessage(t) => r matches Some(StreamEventDto::Message { text })
                && text == t,
            UiEffect::PhaseChanged(p) => r matches Some(StreamEventDto::Phase { phase }) && phase@
                == phase_label(p),
            UiEffect::ToolUpdated(card) => if card.phase@ == "approval_required"@ {
                r matches Some(
                    StreamEventDto::ApprovalRequired { tool_call_id, tool_name, detail, approval_token },
                ) && tool_call_id == card.tool_call_id && tool_name == card.name && (detail@, approval_token@)
                    == approval_detail_parts(card.detail@)
            } else {
                r is None
            },
            UiEffect::TerminalDone => r matches Some(StreamEventDto::Done),
            UiEffect::TerminalError { code: c, message: m } => if starts_with(
                m@,
                "approval_required:"@,
            ) {
                r matches Some(
                    StreamEventDto::ApprovalRequired { tool_call_id, tool_name, detail, approval_token },
                ) && tool_call_id@.len() == 0 && tool_name@.len() == 0 && detail@.len() == 0
                    && approval_token@ == m@.skip(18)
            } else {
                r matches Some(StreamEventDto::Error { code, message }) && code == c && message == m
            },
            UiEffect::Ignored => r is None,
        },
{
    match effect {
        UiEffect::AppendChunk(text) => Some(StreamEventDto::Chunk { text }),
        UiEffect::OperatorMessage(text) => Some(StreamEventDto::Message { text }),
        UiEffect::PhaseChanged(phase) => Some(
            StreamEventDto::Phase { phase: String::from_str(phase_to_str(phase)) },
        ),
        UiEffect::ToolUpdated(card) => {
            if crate::text::eq_vec(&chars_of(card.phase.as_str()), &chars_of("approval_required")) {
                let (detail, approval_token) = split_approval_detail(card.detail.as_str());
                Some(
                    StreamEventDto::ApprovalRequired {
                        tool_call_id: card.tool_call_id,
                        tool_name: card.name,
                        detail,
                        approval_token,
                    },
                )
            } else {
                None
            }
        },
        UiEffect::TerminalDone => Some(StreamEventDto::Done),
        UiEffect::TerminalError { code, message } => {
            let m = chars_of(message.as_str());
            let prefix = chars_of("approval_required:");
            proof {
                reveal_strlit("approval_required:");
            }
            if crate::text::starts_with_vec(&m, &prefix) {
                let token = crate::text::slice_vec(&m, 18, m.len());
                assert(token@ =~= message@.skip(18));
                return Some(
                    StreamEventDto::ApprovalRequired {
                        tool_call_id: String::new(),
                        tool_name: String::new(),
                        detail: String::new(),
                        approval_token: string_of(&token),
                    },
                );
            }
            Some(StreamEventDto::Error { code, message })
        },
        UiEffect::Ignored => None,
    }
}

/// What the view is told when the stream ends without a `done` chunk: nothing
/// while a tool approval is pending, else an incomplete-stream error.
pub fn stream_end_event(phase: TurnPhase) -> (r: Option<StreamEventDto>)
    ensures
        phase == TurnPhase::ToolApproval ==> r is None,
        phase != TurnPhase::ToolApproval ==> (r matches Some(StreamEventDto::Error { code, message })
            && code@ == "stream_incomplete"@ && message@ == "Stream ended without done"@),
{
    if phase == TurnPhase::ToolApproval {
        None
    } else {
        Some(
            StreamEventDto::Error {
                code: String::from_str("stream_incomplete"),
                message: String::from_str("Stream ended without done"),
            },
        )
    }
}

/// A stream error is swallowed while a tool approval is pending.
pub fn stream_error_is_expected(phase: TurnPhase) -> (b: bool)
    ensures
        b == (phase == TurnPhase::ToolApproval),
{
    phase == TurnPhase::ToolApproval
}

/// The lifecycle event for a status probe: ready with the workspace root, or
/// unavailable with the operator message.
pub fn lifecycle_event(status: Result<SystemStatusDto, String>) -> (e: DaemonLifecycleEvent)
    ensures
        match status {
            Ok(s) => e matches DaemonLifecycleEvent::Ready { workspace_root } && workspace_root
                == s.workspace_root,
            Err(m) => e matches DaemonLifecycleEvent::Unavailable { message } && message == m,
        },
{
    match status {
        Ok(s) => DaemonLifecycleEvent::Ready { workspace_root: s.workspace_root },
        Err(message) => DaemonLifecycleEvent::Unavailable { message },
    }
}


/// A stored session event as the web view shows it.
pub open spec fn event_dto_of(e: crate::session_store::SessionEvent, d: SessionEventDto) -> bool {
    &&& d.sequence == e.sequence
    &&& d.event == e.event
    &&& d.text == e.text
    &&& d.turn_id == e.turn_id
    &&& d.tool_name == e.tool_name
    &&& d.phase == e.phase
}

/// A page of session events as the web view shows it.
pub fn map_fetch_response(page: &crate::session_store::FetchPage) -> (d: FetchSessionEventsDto)
    ensures
        d.events@.len() == page.events@.len(),
        forall|i: int| 0 <= i < page.events@.len() ==> event_dto_of(page.events@[i], #[trigger] d.events@[i]),
        d.has_more_before == page.has_more_before,
        d.has_more_after == page.has_more_after,
        d.head_sequence == page.head_sequence,
{
    let mut events: Vec<SessionEventDto> = Vec::new();
    let mut i: usize = 0;
    while i < page.events.len()
        invariant
            i <= page.events.len(),
            events@.len() == i,
            forall|k: int| 0 <= k < i ==> event_dto_of(page.events@[k], #[trigger] events@[k]),
        decreases page.events.len() - i,
    {
        let e = &page.events[i];
        events.push(
            SessionEventDto {
                sequence: e.sequence,
                event: e.event.clone(),
                text: e.text.clone(),
                turn_id: e.turn_id.clone(),
                tool_name: e.tool_name.clone(),
                phase: e.phase.clone(),
            },
        );
        i = i + 1;
    }
    FetchSessionEventsDto {
        events,
        has_more_before: page.has_more_before,
        has_more_after: page.has_more_after,
        head_sequence: page.head_sequence,
    }
}

/// The result of answering a tool approval.
pub fn map_approval_response(ok: bool, error: String) -> (d: ToolApprovalResultDto)
    ensures
        d.ok == ok,
        d.error == error,
{
    ToolApprovalResultDto { ok, error }
}

/// A desktop session id: `hs-<process>-<counter>-<nanoseconds>`.
pub fn harness_session_id(process_id: u32, counter: u64, nanos: u128) -> (s: String)
    ensures
        s@ == "hs-"@ + crate::text::decimal(process_id as nat) + "-"@ + crate::text::decimal(
            counter as nat,
        ) + "-"@ + crate::text::decimal(nanos as nat),
{
    let mut v = chars_of("hs-");
    crate::text::append_vec(&mut v, &crate::text::decimal_vec(process_id as u64));
    v.push('-');
    crate::text::append_vec(&mut v, &crate::text::decimal_vec(counter));
    v.push('-');
    crate::text::append_vec(&mut v, &decimal_u128(nanos));
    proof {
        reveal_strlit("hs-");
        reveal_strlit("-");
    }
    string_of(&v)
}

/// Decimal digits of a `u128`.
fn decimal_u128(n: u128) -> (r: Vec<char>)
    ensures
        r@ == crate::text::decimal(n as nat),
    decreases n,
{
    if n < 10 {
        let mut r: Vec<char> = Vec::new();
        r.push(digit_char_exec((n % 10) as u8));
        proof {
            reveal_with_fuel(crate::text::decimal, 2);
        }
        r
    } else {
        let mut r = decimal_u128(n / 10);
        r.push(digit_char_exec((n % 10) as u8));
        proof {
            reveal_with_fuel(crate::text::decimal, 2);
        }
        r
    }
}

fn digit_char_exec(d: u8) -> (c: char)
    requires
        d < 10,
    ensures
        c == crate::text::digit_char(d as nat),
{
    match d {
        0 => '0',
        1 => '1',
        2 => '2',
        3 => '3',
        4 => '4',
        5 => '5',
        6 => '6',
        7 => '7',
        8 => '8',
        _ => '9',
    }
}

/// The trace id of a prompt sent from the desktop: `web-<session id>`.
pub fn web_trace_id(session_id: &str) -> (s: String)
    ensures
        s@ == "web-"@ + session_id@,
{
    String::from_str("web-").concat(session_id)
}

/// One entry of a desktop menu.
#[derive(Debug, Clone)]
pub enum MenuEntry {
    Item { id: String, label: String },
    About,
    Separator,
    Hide,
    HideOthers,
    Quit,
}

/// A submenu of the desktop menu bar.
#[derive(Debug, Clone)]
pub struct SubmenuSpec {
    pub title: String,
    pub entries: Vec<MenuEntry>,
}

/// The model of a menu entry.
pub open spec fn entry_view(e: MenuEntry) -> Option<(Seq<char>, Seq<char>)> {
    match e {
        MenuEntry::Item { id, label } => Some((id@, label@)),
        _ => None,
    }
}

fn item(id: &str, label: &str) -> (e: MenuEntry)
    ensures
        e matches MenuEntry::Item { id: i, label: l } && i@ == id@ && l@ == label@,
{
    MenuEntry::Item { id: String::from_str(id), label: String::from_str(label) }
}

/// The desktop menu bar: the application menu, then Session, View and Help.
pub fn desktop_menu() -> (m: Vec<SubmenuSpec>)
    ensures
        m@.len() == 4,
        m@[0].title@ == "Rex"@,
        m@[0].entries@.len() == 6,
        m@[0].entries@[0] is About,
        m@[0].entries@[1] is Separator,
        m@[0].entries@[2] is Hide,
        m@[0].entries@[3] is HideOthers,
        m@[0].entries@[4] is Separator,
        m@[0].entries@[5] is Quit,
        m@[1].title@ == "Session"@,
        m@[1].entries@.map_values(|e: MenuEntry| entry_view(e)) == seq![
            Some(("session_new"@, "New Session"@)),
            Some(("session_continue"@, "Continue…"@)),
            Some(("session_last"@, "Last Session"@)),
        ],
        m@[2].title@ == "View"@,
        m@[2].entries@.map_values(|e: MenuEntry| entry_view(e)) == seq![
            Some(("view_reload"@, "Reload"@)),
        ],
        m@[3].title@ == "Help"@,
        m@[3].entries@.map_values(|e: MenuEntry| entry_view(e)) == seq![
            Some(("help_about"@, "About Rex"@)),
        ],
{
    let mut app_entries: Vec<MenuEntry> = Vec::new();
    app_entries.push(MenuEntry::About);
    app_entries.push(MenuEntry::Separator);
    app_entries.push(MenuEntry::Hide);
    app_entries.push(MenuEntry::HideOthers);
    app_entries.push(MenuEntry::Separator);
    app_entries.push(MenuEntry::Quit);
    let mut session: Vec<MenuEntry> = Vec::new();
    session.push(item("session_new", "New Session"));
    session.push(item("session_continue", "Continue…"));
    session.push(item("session_last", "Last Session"));
    assert(session@.map_values(|e: MenuEntry| entry_view(e)) =~= seq![
        Some(("session_new"@, "New Session"@)),
        Some(("session_continue"@, "Continue…"@)),
        Some(("session_last"@, "Last Session"@)),
    ]);
    let mut view: Vec<MenuEntry> = Vec::new();
    view.push(item("view_reload", "Reload"));
    assert(view@.map_values(|e: MenuEntry| entry_view(e)) =~= seq![
        Some(("view_reload"@, "Reload"@)),
    ]);
    let mut help: Vec<MenuEntry> = Vec::new();
    help.push(item("help_about", "About Rex"));
    assert(help@.map_values(|e: MenuEntry| entry_view(e)) =~= seq![
        Some(("help_about"@, "About Rex"@)),
    ]);
    let mut m: Vec<SubmenuSpec> = Vec::new();
    m.push(SubmenuSpec { title: String::from_str("Rex"), entries: app_entries });
    m.push(SubmenuSpec { title: String::from_str("Session"), entries: session });
    m.push(SubmenuSpec { title: String::from_str("View"), entries: view });
    m.push(SubmenuSpec { title: String::from_str("Help"), entries: help });
    m
}

/// The socket the browser-test plugin listens on: the configured one, else
/// the default.
pub fn playwright_socket_path(configured: Option<String>) -> (s: String)
    ensures
        match configured {
            Some(c) => s == c,
            None => s@ == "/tmp/rex-playwright.sock"@,
        },
{
    match configured {
        Some(c) => c,
        None => String::from_str("/tmp/rex-playwright.sock"),
    }
}

} // verus!
