use pet_render::compositor::backend::{detect, Kind};
use pet_render::compositor::hyprland::cursor::{CursorPoll, IDLE_INTERVAL_MS, POLL_INTERVAL_MS};
use pet_render::compositor::hyprland::events::{is_focus_cleared, is_focus_event, line_action, LineAction};
use pet_render::compositor::hyprland::query::{
    parse_active_window, parse_cursor_pos, point_of, socket1_path, socket2_path, window_of, Field,
};
use pet_render::compositor::hyprland::reader::Reconnect;
use pet_render::proto::Source;

/// What an agent's terminal has in its title: the harness, in lower case.
fn agent() -> String {
    format!("{:?}", Source::Claude).to_lowercase()
}

#[test]
fn recognizes_focus_events() {
    assert!(is_focus_event(&format!("activewindow>>kitty,{} — repo", agent())));
    assert!(is_focus_event("activewindowv2>>5f3a1c0"));
    assert!(is_focus_event("focusedmon>>DP-1,3"));
    assert!(is_focus_event("closewindow>>5f3a1c0"));
    assert!(is_focus_event("openwindow>>5f3a1c0,1,kitty,title"));
    assert!(!is_focus_event("workspace>>2"));
    assert!(!is_focus_event("createworkspace>>3"));
    assert!(!is_focus_event("monitorremoved>>DP-1"));
    assert!(!is_focus_event(""));
}

#[test]
fn detects_focus_cleared() {
    assert!(is_focus_cleared("activewindowv2>>"));
    assert!(is_focus_cleared("activewindow>>,"));
    assert!(is_focus_cleared("activewindow>>"));
    assert!(!is_focus_cleared("activewindowv2>>5f3a1c0"));
    assert!(!is_focus_cleared(&format!("activewindow>>kitty,{}", agent())));
    assert!(!is_focus_cleared("focusedmon>>DP-1,3"));
}

#[test]
fn only_the_first_mark_separates_name_and_data() {
    assert!(is_focus_event("openwindow>>a>>b"));
    assert!(is_focus_event("openwindow"));
    assert!(!is_focus_event("openwindow>"));
    assert!(!is_focus_cleared("activewindow"));
    assert!(!is_focus_cleared("activewindowv2>>>"));
    assert!(!is_focus_cleared("activewindowv2>>,"));
}

#[test]
fn clearing_lines_are_focus_events() {
    for line in ["activewindowv2>>", "activewindow>>,", "activewindow>>"] {
        assert!(is_focus_cleared(line) && is_focus_event(line));
    }
}

#[test]
fn event_lines_call_for_a_report_a_query_or_nothing() {
    assert_eq!(line_action("activewindowv2>>\n"), LineAction::ReportNone);
    assert_eq!(line_action("activewindow>>, \r\n"), LineAction::ReportNone);
    assert_eq!(line_action("closewindow>>5f3a1c0\n"), LineAction::Query);
    assert_eq!(line_action("workspace>>2\n"), LineAction::Ignore);
}

#[test]
fn parses_a_focused_window() {
    let title = format!("{} — agent-pet", agent());
    let json = format!(
        r#"{{
            "address": "0x5f3a1c0",
            "pid": 4242,
            "class": "kitty",
            "title": "{title}",
            "workspace": {{"id": 3}}
        }}"#
    );
    let w = parse_active_window(&json).unwrap();
    assert_eq!(w.pid, Some(4242));
    assert_eq!(w.address.as_deref(), Some("0x5f3a1c0"));
    assert_eq!(w.app_id.as_deref(), Some("kitty"));
    assert_eq!(w.title.as_deref(), Some(title.as_str()));
}

#[test]
fn empty_reply_is_no_focus() {
    assert_eq!(parse_active_window("{}"), None);
    assert_eq!(parse_active_window("null"), None);
    assert_eq!(parse_active_window("not json"), None);
}

#[test]
fn missing_pid_and_blanks_are_dropped() {
    let json = r#"{"address": "0xabc", "class": "", "title": "Firefox", "pid": 0}"#;
    let w = parse_active_window(json).unwrap();
    assert_eq!(w.pid, None); // pid 0 dropped
    assert_eq!(w.app_id, None); // empty class dropped
    assert_eq!(w.address.as_deref(), Some("0xabc"));
    assert_eq!(w.title.as_deref(), Some("Firefox"));
}

#[test]
fn numbers_that_are_no_pid_are_dropped() {
    assert_eq!(parse_active_window(r#"{"pid": 1.5, "workspace": 3}"#), None);
    assert_eq!(parse_active_window(r#"{"pid": -7}"#), None);
    assert_eq!(parse_active_window(r#"{"pid": "12"}"#), None);
    assert_eq!(parse_active_window("[1, 2]"), None);
    // Larger than 32 bits: the low word counts.
    assert_eq!(parse_active_window(r#"{"pid": 4294967301}"#).unwrap().pid, Some(5));
    // The last of several equal keys counts.
    let twice = parse_active_window(r#"{"title": "a", "title": "b"}"#).unwrap();
    assert_eq!(twice.title.as_deref(), Some("b"));
}

#[test]
fn window_fields_are_read_by_key() {
    let fields = vec![
        ("title".to_string(), Field::Text("t".to_string())),
        ("other".to_string(), Field::Other),
        ("pid".to_string(), Field::Number(Some(9))),
        ("class".to_string(), Field::Number(None)),
    ];
    let w = window_of(&fields).unwrap();
    assert_eq!(w.pid, Some(9));
    assert_eq!(w.address, None);
    assert_eq!(w.app_id, None);
    assert_eq!(w.title.as_deref(), Some("t"));
    assert_eq!(window_of(&[]), None);
}

#[test]
fn sockets_need_runtime_dir_and_signature() {
    assert_eq!(
        socket1_path(Some("/run/user/1000"), Some("abc")).as_deref(),
        Some("/run/user/1000/hypr/abc/.socket.sock")
    );
    assert_eq!(
        socket2_path(Some("/run/user/1000"), Some("abc")).as_deref(),
        Some("/run/user/1000/hypr/abc/.socket2.sock")
    );
    assert_eq!(socket1_path(None, Some("abc")), None);
    assert_eq!(socket2_path(Some("/run"), None), None);
}

#[test]
fn cursor_poll_pushes_movement_only() {
    let mut poll = CursorPoll::new();
    assert_eq!(poll.polled(Some((3, 4))), (Some((3, 4)), POLL_INTERVAL_MS));
    assert_eq!(poll.polled(Some((3, 4))), (None, 66));
    assert_eq!(poll.polled(None), (None, 66));
    assert_eq!(poll.polled(Some((3, 5))), (Some((3, 5)), 66));
    // The first point is sent again when gaze resumes.
    assert_eq!(poll.rest(), IDLE_INTERVAL_MS);
    assert_eq!(poll.polled(Some((3, 5))), (Some((3, 5)), 66));
}

#[test]
fn reconnects_with_growing_delays() {
    let mut r = Reconnect::new();
    let delays: Vec<u64> = (0..4).map(|_| r.attempted(false)).collect();
    assert_eq!(delays, vec![1, 3, 10, 10]);
    assert_eq!(r.attempted(true), 1);
    assert_eq!(r.attempted(false), 3);
}

#[test]
fn compositor_is_told_by_its_signature() {
    assert_eq!(detect(true), Kind::Hyprland);
    assert_eq!(detect(false), Kind::WlrGeneric);
    assert_eq!(detect(true).name(), "hyprland");
    assert_eq!(detect(false).name(), "wlr-generic");
}

#[test]
fn cursor_positions_are_read_from_the_reply() {
    assert_eq!(parse_cursor_pos(r#"{"x": -5, "y": 1200}"#), Some((-5, 1200)));
    assert_eq!(parse_cursor_pos(r#"{"x": 1}"#), None);
    assert_eq!(parse_cursor_pos(r#"{"x": 1.5, "y": 2}"#), None);
    assert_eq!(parse_cursor_pos(r#"{"x": 2147483648, "y": 2}"#), None);
    assert_eq!(parse_cursor_pos("unknown request"), None);
    let fields = [
        ("y".to_string(), Field::Number(Some(8))),
        ("x".to_string(), Field::Number(Some(7))),
    ];
    assert_eq!(point_of(&fields), Some((7, 8)));
}
