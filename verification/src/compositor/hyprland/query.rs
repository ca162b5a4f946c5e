//! socket1 paths and `j/...` reply parsing.
//!
//! Queries are NOT dispatchers, so they behave identically under both the
//! classic and Lua config dialects (only `dispatch`/`keyword` differ).

use vstd::prelude::*;

use crate::proto::ActiveWindow;
use crate::proto::ActiveWindowView;
use crate::strings::str_eq;

verus! {

/// A socket of the running Hyprland instance.
pub open spec fn socket_path_of(runtime_dir: Seq<char>, signature: Seq<char>, file: Seq<char>) -> Seq<char> {
    runtime_dir + "/hypr/"@ + signature + file
}

fn socket_path(runtime_dir: Option<&str>, signature: Option<&str>, file: &str) -> (path: Option<String>)
    ensures
        match path {
            Some(p) => {
                &&& runtime_dir is Some
                &&& signature is Some
                &&& p@ == socket_path_of(runtime_dir->0@, signature->0@, file@)
            },
            None => runtime_dir is None || signature is None,
        },
{
    match (runtime_dir, signature) {
        (Some(dir), Some(signature)) => {
            let mut path: String = dir.to_owned();
            path.append("/hypr/");
            path.append(signature);
            path.append(file);
            Some(path)
        },
        _ => None,
    }
}

/// Path of the request socket, from `XDG_RUNTIME_DIR` and
/// `HYPRLAND_INSTANCE_SIGNATURE`; `None` where either is unset.
pub fn socket1_path(runtime_dir: Option<&str>, signature: Option<&str>) -> (path: Option<String>)
    ensures
        match path {
            Some(p) => {
                &&& runtime_dir is Some
                &&& signature is Some
                &&& p@ == socket_path_of(runtime_dir->0@, signature->0@, "/.socket.sock"@)
            },
            None => runtime_dir is None || signature is None,
        },
{
    socket_path(runtime_dir, signature, "/.socket.sock")
}

/// Path of the event socket, from `XDG_RUNTIME_DIR` and
/// `HYPRLAND_INSTANCE_SIGNATURE`; `None` where either is unset.
pub fn socket2_path(runtime_dir: Option<&str>, signature: Option<&str>) -> (path: Option<String>)
    ensures
        match path {
            Some(p) => {
                &&& runtime_dir is Some
                &&& signature is Some
                &&& p@ == socket_path_of(runtime_dir->0@, signature->0@, "/.socket2.sock"@)
            },
            None => runtime_dir is None || signature is None,
        },
{
    socket_path(runtime_dir, signature, "/.socket2.sock")
}

/// The value of one field of a reply, as far as replies are read.
#[derive(Debug, PartialEq, Eq)]
pub enum Field {
    Text(String),
    /// A number, with its value where that is a 64-bit signed integer.
    Number(Option<i64>),
    Other,
}

/// What a `Field` says.
pub enum FieldView {
    Text(Seq<char>),
    Number(Option<i64>),
    Other,
}

impl View for Field {
    type V = FieldView;

    open spec fn view(&self) -> FieldView {
        match self {
            Field::Text(s) => FieldView::Text(s@),
            Field::Number(n) => FieldView::Number(*n),
            Field::Other => FieldView::Other,
        }
    }
}

/// Where `key` stands among the fields.
pub open spec fn field_named(fields: Seq<(String, Field)>, key: Seq<char>, i: int) -> bool {
    0 <= i < fields.len() && fields[i].0@ == key
}

/// No key occurs twice.
pub open spec fn distinct_keys(fields: Seq<(String, Field)>) -> bool {
    forall|i: int, j: int| #![trigger fields[i], fields[j]]
        0 <= i < j < fields.len() ==> fields[i].0@ != fields[j].0@
}

/// The fields by key.
pub open spec fn fields_map(fields: Seq<(String, Field)>) -> Map<Seq<char>, FieldView> {
    Map::new(
        |key: Seq<char>| exists|i: int| field_named(fields, key, i),
        |key: Seq<char>| fields[choose|i: int| field_named(fields, key, i)].1@,
    )
}

/// The fields of the JSON object that a text is, by key; `None` where the text
/// is not JSON, or JSON of another kind than an object.
pub uninterp spec fn json_object(text: Seq<char>) -> Option<Map<Seq<char>, FieldView>>;

/// `serde_json::from_str` into a `serde_json::Value`, with the fields of an
/// object taken over one by one: strings as they are, numbers by their
/// `as_i64`, anything else without its contents. Claimed is that the outcome
/// depends on the text alone, and that an object has each key once.
#[verifier::external_body]
fn object_fields(json: &str) -> (fields: Option<Vec<(String, Field)>>)
    ensures
        match fields {
            Some(f) => distinct_keys(f@) && json_object(json@) == Some(fields_map(f@)),
            None => json_object(json@) is None,
        },
{
    match serde_json::from_str::<serde_json::Value>(json) {
        Ok(serde_json::Value::Object(map)) => Some(
            map.into_iter().map(
                |(key, value)|
                    match value {
                        serde_json::Value::String(s) => (key, Field::Text(s)),
                        serde_json::Value::Number(n) => (key, Field::Number(n.as_i64())),
                        _ => (key, Field::Other),
                    },
            ).collect(),
        ),
        _ => None,
    }
}

fn field<'a>(fields: &'a [(String, Field)], key: &str) -> (found: Option<&'a Field>)
    requires
        distinct_keys(fields@),
    ensures
        match found {
            Some(f) => fields_map(fields@).dom().contains(key@) && fields_map(fields@)[key@] == f@,
            None => !fields_map(fields@).dom().contains(key@),
        },
{
    let mut i: usize = 0;
    while i < fields.len()
        invariant
            i <= fields@.len(),
            distinct_keys(fields@),
            forall|k: int| 0 <= k < i ==> (#[trigger] fields@[k]).0@ != key@,
        decreases fields@.len() - i,
    {
        if str_eq(fields[i].0.as_str(), key) {
            proof {
                assert(field_named(fields@, key@, i as int));
                let j = choose|j: int| field_named(fields@, key@, j);
                assert(field_named(fields@, key@, j));
                if j != i {
                    assert(fields@[i as int].0@ == fields@[j].0@);
                }
            }
            return Some(&fields[i].1);
        }
        i += 1;
    }
    None
}

/// A field that is a text with something in it.
pub open spec fn text_in(fields: Map<Seq<char>, FieldView>, key: Seq<char>) -> Option<Seq<char>> {
    if fields.dom().contains(key) {
        match fields[key] {
            FieldView::Text(s) => if s.len() > 0 {
                Some(s)
            } else {
                None
            },
            _ => None,
        }
    } else {
        None
    }
}

/// The positive process id of a reply.
pub open spec fn pid_in(fields: Map<Seq<char>, FieldView>) -> Option<u32> {
    if fields.dom().contains("pid"@) {
        match fields["pid"@] {
            FieldView::Number(Some(p)) => if p > 0 {
                Some((p % 0x1_0000_0000) as u32)
            } else {
                None
            },
            _ => None,
        }
    } else {
        None
    }
}

/// What a reply says of the active window; a reply with no identifying fields
/// at all is as good as no focus.
pub open spec fn window_in(fields: Map<Seq<char>, FieldView>) -> Option<ActiveWindowView> {
    let w = ActiveWindowView {
        pid: pid_in(fields),
        address: text_in(fields, "address"@),
        app_id: text_in(fields, "class"@),
        title: text_in(fields, "title"@),
    };
    if w == crate::proto::unknown_window() {
        None
    } else {
        Some(w)
    }
}

fn text_field(fields: &[(String, Field)], key: &str) -> (text: Option<String>)
    requires
        distinct_keys(fields@),
    ensures
        crate::strings::text_of(text) == text_in(fields_map(fields@), key@),
{
    match field(fields, key) {
        Some(Field::Text(s)) => {
            if s.as_str().is_empty() {
                None
            } else {
                Some(s.clone())
            }
        },
        _ => None,
    }
}

fn low_word(p: i64) -> (w: u32)
    requires
        0 < p,
    ensures
        w == p % 0x1_0000_0000,
{
    assert(0 < p ==> p as u32 == p % 0x1_0000_0000) by (bit_vector);
    #[verifier::truncate]
    (p as u32)
}

/// The active window that the fields of a `j/activewindow` reply describe.
pub fn window_of(fields: &[(String, Field)]) -> (window: Option<ActiveWindow>)
    requires
        distinct_keys(fields@),
    ensures
        crate::proto::window_view(window) == window_in(fields_map(fields@)),
{
    let pid: Option<u32> = match field(fields, "pid") {
        Some(Field::Number(Some(p))) => {
            if *p > 0 {
                Some(low_word(*p))
            } else {
                None
            }
        },
        _ => None,
    };
    let window = ActiveWindow {
        pid,
        address: text_field(fields, "address"),
        app_id: text_field(fields, "class"),
        title: text_field(fields, "title"),
    };
    if window.pid.is_none() && window.address.is_none() && window.app_id.is_none() && window.title.is_none() {
        None
    } else {
        Some(window)
    }
}

/// Parse a `j/activewindow` JSON reply into an `ActiveWindow`. Hyprland
/// returns `{}` (or `null`) when no window is focused, which is `None`.
pub fn parse_active_window(json: &str) -> (window: Option<ActiveWindow>)
    ensures
        crate::proto::window_view(window) == match json_object(json@) {
            Some(fields) => window_in(fields),
            None => None,
        },
{
    match object_fields(json) {
        Some(fields) => window_of(fields.as_slice()),
        None => None,
    }
}

/// A field that is a 32-bit signed integer.
pub open spec fn coord_in(fields: Map<Seq<char>, FieldView>, key: Seq<char>) -> Option<i32> {
    if fields.dom().contains(key) {
        match fields[key] {
            FieldView::Number(Some(n)) => if i32::MIN <= n <= i32::MAX {
                Some(n as i32)
            } else {
                None
            },
            _ => None,
        }
    } else {
        None
    }
}

/// The point that a reply names.
pub open spec fn point_in(fields: Map<Seq<char>, FieldView>) -> Option<(i32, i32)> {
    match (coord_in(fields, "x"@), coord_in(fields, "y"@)) {
        (Some(x), Some(y)) => Some((x, y)),
        _ => None,
    }
}

fn coord_field(fields: &[(String, Field)], key: &str) -> (coord: Option<i32>)
    requires
        distinct_keys(fields@),
    ensures
        coord == coord_in(fields_map(fields@), key@),
{
    match field(fields, key) {
        Some(Field::Number(Some(n))) => {
            if *n >= i32::MIN as i64 && *n <= i32::MAX as i64 {
                Some(*n as i32)
            } else {
                None
            }
        },
        _ => None,
    }
}

/// The point that the fields of a `j/cursorpos` reply name.
pub fn point_of(fields: &[(String, Field)]) -> (point: Option<(i32, i32)>)
    requires
        distinct_keys(fields@),
    ensures
        point == point_in(fields_map(fields@)),
{
    match (coord_field(fields, "x"), coord_field(fields, "y")) {
        (Some(x), Some(y)) => Some((x, y)),
        _ => None,
    }
}

/// Parse a `j/cursorpos` JSON reply into the cursor's global position.
pub fn parse_cursor_pos(json: &str) -> (point: Option<(i32, i32)>)
    ensures
        point == match json_object(json@) {
            Some(fields) => point_in(fields),
            None => None,
        },
{
    match object_fields(json) {
        Some(fields) => point_of(fields.as_slice()),
        None => None,
    }
}

/// A field of a reply by its key: there is one exactly if some entry has the
/// key.
pub open spec fn entry(fields: Seq<(String, Field)>, key: Seq<char>, value: Field) -> bool {
    exists|i: int| 0 <= i < fields.len() && (#[trigger] fields[i]).0@ == key && fields[i].1 == value
}

proof fn lemma_entry(fields: Seq<(String, Field)>, key: Seq<char>, value: Field)
    requires
        distinct_keys(fields),
        entry(fields, key, value),
    ensures
        fields_map(fields).dom().contains(key),
        fields_map(fields)[key] == value@,
{
    let i = choose|i: int| 0 <= i < fields.len() && (#[trigger] fields[i]).0@ == key && fields[i].1 == value;
    assert(field_named(fields, key, i));
    let j = choose|j: int| field_named(fields, key, j);
    assert(field_named(fields, key, j));
    if i != j {
        assert(fields[i].0@ == fields[j].0@);
    }
}

/// The active window has the labels of the reply: its class as the id, its
/// title, its address, each where it says something, and its process where the
/// number is positive.
pub proof fn windows_have_the_replys_labels(
    fields: &[(String, Field)],
    window: Option<ActiveWindow>,
    class: String,
    title: String,
    address: String,
    pid: i64,
)
    requires
        distinct_keys(fields@),
        call_ensures(window_of, (fields,), window),
    ensures
        entry(fields@, "class"@, Field::Text(class)) && class@.len() > 0 ==> window is Some
            && crate::strings::text_of(window->0.app_id) == Some(class@),
        entry(fields@, "title"@, Field::Text(title)) && title@.len() > 0 ==> window is Some
            && crate::strings::text_of(window->0.title) == Some(title@),
        entry(fields@, "address"@, Field::Text(address)) && address@.len() > 0 ==> window is Some
            && crate::strings::text_of(window->0.address) == Some(address@),
        entry(fields@, "pid"@, Field::Number(Some(pid))) && 0 < pid <= u32::MAX ==> window is Some && window->0.pid
            == Some(pid as u32),
        entry(fields@, "pid"@, Field::Number(Some(pid))) && pid <= 0 ==> window is None || window->0.pid is None,
{
    if entry(fields@, "class"@, Field::Text(class)) {
        lemma_entry(fields@, "class"@, Field::Text(class));
    }
    if entry(fields@, "title"@, Field::Text(title)) {
        lemma_entry(fields@, "title"@, Field::Text(title));
    }
    if entry(fields@, "address"@, Field::Text(address)) {
        lemma_entry(fields@, "address"@, Field::Text(address));
    }
    if entry(fields@, "pid"@, Field::Number(Some(pid))) {
        lemma_entry(fields@, "pid"@, Field::Number(Some(pid)));
        if 0 < pid <= u32::MAX {
            assert(pid % 0x1_0000_0000 == pid);
        }
    }
}

/// A reply in which no field identifies a window means that none is focused.
pub proof fn nameless_replies_mean_no_focus(fields: &[(String, Field)], window: Option<ActiveWindow>)
    requires
        distinct_keys(fields@),
        call_ensures(window_of, (fields,), window),
        forall|i: int|
            0 <= i < fields@.len() ==> (#[trigger] fields@[i]).0@ != "pid"@ && fields@[i].0@ != "address"@
                && fields@[i].0@ != "class"@ && fields@[i].0@ != "title"@,
    ensures
        window is None,
{
    assert forall|key: Seq<char>|
        key == "pid"@ || key == "address"@ || key == "class"@ || key == "title"@ implies !#[trigger] fields_map(
        fields@,
    ).dom().contains(key) by {
        if fields_map(fields@).dom().contains(key) {
            let i = choose|i: int| field_named(fields@, key, i);
            assert(fields@[i].0@ == key);
        }
    }
}

/// A window that is reported has something that identifies it.
pub proof fn reported_windows_are_identified(fields: &[(String, Field)], window: ActiveWindow)
    requires
        distinct_keys(fields@),
        call_ensures(window_of, (fields,), Some(window)),
    ensures
        window.pid is Some || window.address is Some || window.app_id is Some || window.title is Some,
{
    if window.pid is None && window.address is None && window.app_id is None && window.title is None {
        assert(window@ =~= crate::proto::unknown_window());
    }
}

/// The cursor is at the reply's x and y, across first, where both are there.
pub proof fn points_are_x_and_y(fields: &[(String, Field)], point: Option<(i32, i32)>, x: i32, y: i32)
    requires
        distinct_keys(fields@),
        call_ensures(point_of, (fields,), point),
    ensures
        entry(fields@, "x"@, Field::Number(Some(x as i64))) && entry(fields@, "y"@, Field::Number(Some(y as i64)))
            ==> point == Some((x, y)),
        (forall|i: int| 0 <= i < fields@.len() ==> (#[trigger] fields@[i]).0@ != "x"@) ==> point is None,
        (forall|i: int| 0 <= i < fields@.len() ==> (#[trigger] fields@[i]).0@ != "y"@) ==> point is None,
{
    if entry(fields@, "x"@, Field::Number(Some(x as i64))) {
        lemma_entry(fields@, "x"@, Field::Number(Some(x as i64)));
    }
    if entry(fields@, "y"@, Field::Number(Some(y as i64))) {
        lemma_entry(fields@, "y"@, Field::Number(Some(y as i64)));
    }
    if fields_map(fields@).dom().contains("x"@) {
        let i = choose|i: int| field_named(fields@, "x"@, i);
        assert(fields@[i].0@ == "x"@);
    }
    if fields_map(fields@).dom().contains("y"@) {
        let i = choose|i: int| field_named(fields@, "y"@, i);
        assert(fields@[i].0@ == "y"@);
    }
}

/// Both sockets of an instance lie in its own directory below the runtime
/// directory; requests and events have different ones.
pub proof fn sockets_lie_in_the_instances_directory(
    runtime_dir: &str,
    signature: &str,
    requests: Option<String>,
    events: Option<String>,
)
    requires
        call_ensures(socket1_path, (Some(runtime_dir), Some(signature)), requests),
        call_ensures(socket2_path, (Some(runtime_dir), Some(signature)), events),
    ensures
        requests matches Some(r) && events matches Some(e) && {
            let dir = runtime_dir@ + "/hypr/"@ + signature@;
            &&& r@.take(dir.len() as int) == dir
            &&& e@.take(dir.len() as int) == dir
            &&& r@.skip(dir.len() as int) == "/.socket.sock"@
            &&& e@.skip(dir.len() as int) == "/.socket2.sock"@
            &&& r@ != e@
        },
{
    let dir = runtime_dir@ + "/hypr/"@ + signature@;
    let r = requests->0@;
    let e = events->0@;
    reveal_strlit("/.socket.sock");
    reveal_strlit("/.socket2.sock");
    assert(r.take(dir.len() as int) =~= dir);
    assert(e.take(dir.len() as int) =~= dir);
    assert(r.skip(dir.len() as int) =~= "/.socket.sock"@);
    assert(e.skip(dir.len() as int) =~= "/.socket2.sock"@);
    assert(r.len() != e.len());
}

} // verus!
