//! Pure socket2 line classification. Hyprland emits `EVENT>>DATA` lines; we
//! only care which ones mean "the active toplevel might have changed" and so
//! warrant a fresh socket1 query. The event payloads are intentionally
//! ignored - they are thin/lossy (e.g. `activewindow>>class,title` has no
//! address), so the query is the source of truth.

use vstd::prelude::*;

use crate::strings::chars_of;
use crate::strings::str_eq;
use crate::strings::trim_end;

verus! {

/// `>>` stands at `i`.
pub open spec fn mark_at(line: Seq<char>, i: int) -> bool {
    0 <= i && i + 1 < line.len() && line[i] == '>' && line[i + 1] == '>'
}

/// The first `>>` of the line stands at `i`.
pub open spec fn first_mark(line: Seq<char>, i: int) -> bool {
    mark_at(line, i) && forall|k: int| 0 <= k < i ==> !mark_at(line, k)
}

/// The line has no `>>`.
pub open spec fn unmarked(line: Seq<char>) -> bool {
    forall|k: int| !mark_at(line, k)
}

/// `name` is the line's event name: what stands before the first `>>`, or the
/// whole line.
pub open spec fn is_event_name(line: Seq<char>, name: Seq<char>) -> bool {
    ||| unmarked(line) && name == line
    ||| exists|i: int| #[trigger] first_mark(line, i) && name == line.take(i)
}

/// The events after which another toplevel may be active.
pub open spec fn is_focus_name(name: Seq<char>) -> bool {
    ||| name == "activewindow"@
    ||| name == "activewindowv2"@
    ||| name == "focusedmon"@
    ||| name == "closewindow"@
    ||| name == "openwindow"@
}

/// The line's event may have changed the active toplevel.
pub open spec fn focus_event(line: Seq<char>) -> bool {
    exists|name: Seq<char>| #[trigger] is_event_name(line, name) && is_focus_name(name)
}

/// The line says that no toplevel has the focus any more.
pub open spec fn focus_cleared(line: Seq<char>) -> bool {
    exists|i: int| #[trigger]
        first_mark(line, i) && {
            ||| line.take(i) == "activewindowv2"@ && line.skip(i + 2).len() == 0
            ||| line.take(i) == "activewindow"@ && (line.skip(i + 2).len() == 0 || line.skip(i + 2) == ","@)
        }
}

proof fn lemma_one_mark(line: Seq<char>, i: int, j: int)
    requires
        first_mark(line, i),
        first_mark(line, j),
    ensures
        i == j,
{
}

fn find_mark(v: &Vec<char>) -> (at: Option<usize>)
    ensures
        match at {
            Some(i) => first_mark(v@, i as int),
            None => unmarked(v@),
        },
{
    let mut i: usize = 0;
    while i < v.len()
        invariant
            i <= v@.len(),
            forall|k: int| 0 <= k < i ==> !mark_at(v@, k),
        decreases v@.len() - i,
    {
        if v.len() - i > 1 && v[i] == '>' && v[i + 1] == '>' {
            assert(mark_at(v@, i as int));
            return Some(i);
        }
        assert(!mark_at(v@, i as int));
        i += 1;
    }
    None
}

/// Does this socket2 line imply a possible active-window change?
///
/// The active toplevel changed (v2 carries the address; both trigger a
/// requery); focusedmon fires on monitor focus moves, which also change the
/// active window; closewindow/openwindow can shift focus.
pub fn is_focus_event(line: &str) -> (yes: bool)
    ensures
        yes == focus_event(line@),
{
    let v: Vec<char> = chars_of(line);
    let name: &str = match find_mark(&v) {
        Some(i) => {
            assert(line@.subrange(0, i as int) =~= line@.take(i as int));
            line.substring_char(0, i)
        },
        None => line,
    };
    proof {
        assert(is_event_name(line@, name@));
        assert forall|other: Seq<char>| #[trigger] is_event_name(line@, other) implies other == name@ by {
            if !unmarked(line@) {
                let i = choose|i: int| #[trigger] first_mark(line@, i) && name@ == line@.take(i);
                let j = choose|j: int| #[trigger] first_mark(line@, j) && other == line@.take(j);
                lemma_one_mark(line@, i, j);
            }
        }
    }
    str_eq(name, "activewindow") || str_eq(name, "activewindowv2") || str_eq(name, "focusedmon") || str_eq(
        name,
        "closewindow",
    ) || str_eq(name, "openwindow")
}

/// Empty `activewindowv2>>` / `activewindow>>,` mean focus left every
/// toplevel (e.g. the last window on a workspace closed). Lets the reader
/// short-circuit to a `None` fact without a query.
pub fn is_focus_cleared(line: &str) -> (yes: bool)
    ensures
        yes == focus_cleared(line@),
{
    let v: Vec<char> = chars_of(line);
    match find_mark(&v) {
        None => false,
        Some(i) => {
            let n: usize = v.len();
            let name: &str = line.substring_char(0, i);
            let data: &str = line.substring_char(i + 2, n);
            let rest: Vec<char> = chars_of(data);
            proof {
                assert(name@ =~= line@.take(i as int));
                assert(data@ =~= line@.skip(i + 2));
                assert forall|j: int| #[trigger] first_mark(line@, j) implies j == i by {
                    lemma_one_mark(line@, i as int, j);
                }
            }
            if str_eq(name, "activewindowv2") {
                proof {
                    lemma_names_differ();
                }
                rest.len() == 0
            } else if str_eq(name, "activewindow") {
                rest.len() == 0 || str_eq(data, ",")
            } else {
                false
            }
        },
    }
}

proof fn lemma_names_differ()
    ensures
        "activewindow"@ != "activewindowv2"@,
{
    reveal_strlit("activewindow");
    reveal_strlit("activewindowv2");
    assert("activewindow"@.len() != "activewindowv2"@.len());
}

/// A line that clears the focus is a focus event.
pub proof fn clearing_is_a_focus_event(line: Seq<char>)
    requires
        focus_cleared(line),
    ensures
        focus_event(line),
{
    let i = choose|i: int| #[trigger]
        first_mark(line, i) && (line.take(i) == "activewindowv2"@ || line.take(i) == "activewindow"@);
    assert(is_event_name(line, line.take(i)));
}

/// What a line of the event stream calls for.
#[derive(Debug, Clone, Copy, PartialEq, Eq, Structural)]
pub enum LineAction {
    /// Report that nothing is focused.
    ReportNone,
    /// Ask which window is active.
    Query,
    Ignore,
}

/// What a line of the event stream, as it was read, calls for.
pub fn line_action(line: &str) -> (action: LineAction)
    ensures
        action == if focus_cleared(crate::strings::trimmed_end(line@)) {
            LineAction::ReportNone
        } else if focus_event(crate::strings::trimmed_end(line@)) {
            LineAction::Query
        } else {
            LineAction::Ignore
        },
{
    let line: &str = trim_end(line);
    if is_focus_cleared(line) {
        LineAction::ReportNone
    } else if is_focus_event(line) {
        LineAction::Query
    } else {
        LineAction::Ignore
    }
}

/// The mark that ends an event's name stands right behind a name without a
/// `>`, whatever follows.
proof fn lemma_mark_behind_name(name: Seq<char>, data: Seq<char>)
    requires
        !name.contains('>'),
    ensures
        first_mark(name + ">>"@ + data, name.len() as int),
        (name + ">>"@ + data).take(name.len() as int) == name,
        (name + ">>"@ + data).skip(name.len() as int + 2) == data,
{
    reveal_strlit(">>");
    let line = name + ">>"@ + data;
    assert forall|k: int| 0 <= k < name.len() implies !mark_at(line, k) by {
        assert(line[k] == name[k]);
        assert(name.contains(name[k]));
    }
    assert(line.take(name.len() as int) =~= name);
    assert(line.skip(name.len() as int + 2) =~= data);
}

/// A line `NAME>>DATA` may have changed the active window exactly if its name
/// is one of the five that do, whatever the data.
pub proof fn events_go_by_their_name(name: Seq<char>, data: Seq<char>, line: &str, yes: bool)
    requires
        call_ensures(is_focus_event, (line,), yes),
        !name.contains('>'),
        line@ == name + ">>"@ + data,
    ensures
        yes <==> name == "activewindow"@ || name == "activewindowv2"@ || name == "focusedmon"@ || name == "closewindow"@
            || name == "openwindow"@,
{
    lemma_mark_behind_name(name, data);
    let at = name.len() as int;
    assert(is_event_name(line@, name));
    assert forall|other: Seq<char>| #[trigger] is_event_name(line@, other) implies other == name by {
        let j = choose|j: int| #[trigger] first_mark(line@, j) && other == line@.take(j);
        if exists|j: int| #[trigger] first_mark(line@, j) && other == line@.take(j) {
            lemma_one_mark(line@, at, j);
        } else {
            assert(unmarked(line@));
            assert(!mark_at(line@, at));
        }
    }
}

/// A line `NAME>>DATA` says that the focus is gone exactly if it is
/// `activewindowv2` without data, or `activewindow` without any or with only
/// the comma between class and title.
pub proof fn focus_is_gone_without_data(name: Seq<char>, data: Seq<char>, line: &str, yes: bool)
    requires
        call_ensures(is_focus_cleared, (line,), yes),
        !name.contains('>'),
        line@ == name + ">>"@ + data,
    ensures
        yes <==> (name == "activewindowv2"@ && data.len() == 0) || (name == "activewindow"@ && (data.len() == 0 || data
            == ","@)),
{
    lemma_mark_behind_name(name, data);
    let at = name.len() as int;
    assert forall|j: int| #[trigger] first_mark(line@, j) implies j == at by {
        lemma_one_mark(line@, at, j);
    }
}

/// Lines without any `>>` clear nothing, and a line that calls for a report
/// calls for no query.
pub proof fn unmarked_lines_clear_nothing(line: &str, yes: bool)
    requires
        call_ensures(is_focus_cleared, (line,), yes),
        forall|k: int| 0 <= k < line@.len() - 1 ==> !(#[trigger] line@[k] == '>' && line@[k + 1] == '>'),
    ensures
        !yes,
{
    assert forall|j: int| !#[trigger] mark_at(line@, j) by {
        if mark_at(line@, j) {
            assert(line@[j] == '>');
        }
    }
}

/// What a line calls for does not depend on the line's end.
pub proof fn line_ends_do_not_matter(
    line: &str,
    bare: &str,
    action: LineAction,
    cleared: bool,
    focus: bool,
)
    requires
        call_ensures(line_action, (line,), action),
        bare@ == crate::strings::trimmed_end(line@),
        call_ensures(is_focus_cleared, (bare,), cleared),
        call_ensures(is_focus_event, (bare,), focus),
    ensures
        action is ReportNone <==> cleared,
        action is Query <==> focus && !cleared,
        action is Ignore <==> !focus,
{
    if cleared {
        clearing_is_a_focus_event(bare@);
    }
}

} // verus!
