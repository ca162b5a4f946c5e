//! String operations that the rest of the library shares, stated over the
//! characters (or the UTF-8 bytes) of the text.

use vstd::prelude::*;

verus! {

/// The text of an optional string.
pub open spec fn text_of(s: Option<String>) -> Option<Seq<char>> {
    match s {
        None => None,
        Some(t) => Some(t@),
    }
}

/// Whether two texts are the same sequence of characters.
pub fn str_eq(a: &str, b: &str) -> (same: bool)
    ensures
        same == (a@ == b@),
{
    let x: &[u8] = a.as_bytes();
    let y: &[u8] = b.as_bytes();
    proof {
        vstd::utf8::encode_utf8_decode_utf8(a@);
        vstd::utf8::encode_utf8_decode_utf8(b@);
    }
    if x.len() != y.len() {
        return false;
    }
    let mut i: usize = 0;
    while i < x.len()
        invariant
            i <= x@.len(),
            x@.len() == y@.len(),
            x@ == vstd::utf8::encode_utf8(a@),
            y@ == vstd::utf8::encode_utf8(b@),
            forall|k: int| 0 <= k < i ==> x@[k] == y@[k],
        decreases x@.len() - i,
    {
        if x[i] != y[i] {
            return false;
        }
        i += 1;
    }
    assert(x@ =~= y@);
    true
}

/// Whether two optional texts are the same.
pub fn opt_eq(a: &Option<String>, b: &Option<String>) -> (same: bool)
    ensures
        same == (text_of(*a) == text_of(*b)),
{
    match (a, b) {
        (None, None) => true,
        (Some(x), Some(y)) => str_eq(x.as_str(), y.as_str()),
        _ => false,
    }
}

/// A copy of an optional text.
pub fn opt_clone(a: &Option<String>) -> (copy: Option<String>)
    ensures
        text_of(copy) == text_of(*a),
{
    match a {
        None => None,
        Some(x) => Some(x.clone()),
    }
}

/// The characters of a text.
pub fn chars_of(s: &str) -> (v: Vec<char>)
    ensures
        v@ == s@,
{
    let mut v: Vec<char> = Vec::new();
    for c in it: s.chars()
        invariant
            v@ == s@.take(it.index()),
            it.seq() == s@,
    {
        v.push(c);
        assert(s@.take(it.index() + 1) =~= s@.take(it.index()).push(c));
    }
    assert(s@.take(s@.len() as int) =~= s@);
    v
}

/// The White_Space characters of Unicode.
pub open spec fn is_white(c: char) -> bool {
    ||| '\u{9}' <= c <= '\u{d}'
    ||| c == ' '
    ||| c == '\u{85}'
    ||| c == '\u{a0}'
    ||| c == '\u{1680}'
    ||| '\u{2000}' <= c <= '\u{200a}'
    ||| c == '\u{2028}'
    ||| c == '\u{2029}'
    ||| c == '\u{202f}'
    ||| c == '\u{205f}'
    ||| c == '\u{3000}'
}

fn white(c: char) -> (w: bool)
    ensures
        w == is_white(c),
{
    ('\u{9}' <= c && c <= '\u{d}') || c == ' ' || c == '\u{85}' || c == '\u{a0}' || c == '\u{1680}' || (
    '\u{2000}' <= c && c <= '\u{200a}') || c == '\u{2028}' || c == '\u{2029}' || c == '\u{202f}' || c
        == '\u{205f}' || c == '\u{3000}'
}

/// `s` without its leading white space.
pub open spec fn trimmed_start(s: Seq<char>) -> Seq<char>
    decreases s.len(),
{
    if s.len() > 0 && is_white(s[0]) {
        trimmed_start(s.drop_first())
    } else {
        s
    }
}

/// `s` without its trailing white space.
pub open spec fn trimmed_end(s: Seq<char>) -> Seq<char>
    decreases s.len(),
{
    if s.len() > 0 && is_white(s.last()) {
        trimmed_end(s.drop_last())
    } else {
        s
    }
}

/// `s` without white space at either end.
pub open spec fn trimmed(s: Seq<char>) -> Seq<char> {
    trimmed_end(trimmed_start(s))
}

/// The text without its trailing white space.
pub fn trim_end(s: &str) -> (t: &str)
    ensures
        t@ == trimmed_end(s@),
{
    let v: Vec<char> = chars_of(s);
    let mut end: usize = v.len();
    assert(s@.take(end as int) =~= s@);
    while end > 0 && white(v[end - 1])
        invariant
            end <= v@.len(),
            v@ == s@,
            trimmed_end(s@) == trimmed_end(s@.take(end as int)),
        decreases end,
    {
        assert(s@.take(end as int).drop_last() =~= s@.take(end - 1));
        end -= 1;
    }
    assert(s@.take(end as int) =~= s@.subrange(0, end as int));
    s.substring_char(0, end)
}

/// The text without white space at either end.
pub fn trim(s: &str) -> (t: &str)
    ensures
        t@ == trimmed(s@),
{
    let v: Vec<char> = chars_of(s);
    let mut start: usize = 0;
    assert(s@.skip(0) =~= s@);
    while start < v.len() && white(v[start])
        invariant
            start <= v@.len(),
            v@ == s@,
            trimmed_start(s@) == trimmed_start(s@.skip(start as int)),
        decreases v@.len() - start,
    {
        assert(s@.skip(start as int).drop_first() =~= s@.skip(start + 1));
        start += 1;
    }
    assert(s@.skip(start as int) =~= s@.subrange(start as int, s@.len() as int));
    trim_end(s.substring_char(start, v.len()))
}

/// One decimal digit.
pub open spec fn digit(d: int) -> char {
    ('0' as int + d) as char
}

/// Decimal notation of a number.
pub open spec fn decimal_of(n: nat) -> Seq<char>
    decreases n,
{
    if n < 10 {
        seq![digit(n as int)]
    } else {
        decimal_of(n / 10).push(digit((n % 10) as int))
    }
}

fn digit_text(d: u64) -> (s: &'static str)
    requires
        d < 10,
    ensures
        s@ == seq![digit(d as int)],
{
    proof {
        reveal_strlit("0");
        reveal_strlit("1");
        reveal_strlit("2");
        reveal_strlit("3");
        reveal_strlit("4");
        reveal_strlit("5");
        reveal_strlit("6");
        reveal_strlit("7");
        reveal_strlit("8");
        reveal_strlit("9");
    }
    let s: &'static str = if d == 0 {
        "0"
    } else if d == 1 {
        "1"
    } else if d == 2 {
        "2"
    } else if d == 3 {
        "3"
    } else if d == 4 {
        "4"
    } else if d == 5 {
        "5"
    } else if d == 6 {
        "6"
    } else if d == 7 {
        "7"
    } else if d == 8 {
        "8"
    } else {
        "9"
    };
    assert(s@ =~= seq![digit(d as int)]);
    s
}

/// Decimal notation of a number.
pub fn decimal(n: u64) -> (s: String)
    ensures
        s@ == decimal_of(n as nat),
    decreases n,
{
    if n < 10 {
        digit_text(n).to_owned()
    } else {
        let mut s: String = decimal(n / 10);
        let last: &str = digit_text(n % 10);
        s.append(last);
        assert(s@ =~= decimal_of((n / 10) as nat).push(digit((n % 10) as int)));
        s
    }
}

/// The parts of a text between occurrences of `sep`.
pub open spec fn pieces(s: Seq<char>, sep: char) -> Seq<Seq<char>>
    decreases s.len(),
{
    if s.len() == 0 {
        seq![Seq::empty()]
    } else {
        let before = pieces(s.drop_last(), sep);
        if s.last() == sep {
            before.push(Seq::empty())
        } else {
            before.drop_last().push(before.last().push(s.last()))
        }
    }
}

/// The texts of a list of strings.
pub open spec fn texts_of(v: Seq<String>) -> Seq<Seq<char>> {
    v.map_values(|t: String| t@)
}

/// Split a text at every occurrence of `sep`.
pub fn split(s: &str, sep: char) -> (parts: Vec<String>)
    ensures
        texts_of(parts@) == pieces(s@, sep),
{
    let v: Vec<char> = chars_of(s);
    let mut parts: Vec<String> = Vec::new();
    let mut start: usize = 0;
    let mut i: usize = 0;
    assert(s@.take(0) =~= Seq::<char>::empty());
    assert(texts_of(parts@).push(s@.subrange(0, 0)) =~= seq![Seq::<char>::empty()]);
    while i < v.len()
        invariant
            start <= i <= v@.len(),
            v@ == s@,
            pieces(s@.take(i as int), sep) == texts_of(parts@).push(s@.subrange(start as int, i as int)),
        decreases v@.len() - i,
    {
        let ghost before = texts_of(parts@);
        let ghost last = s@.subrange(start as int, i as int);
        assert(s@.take(i + 1).drop_last() =~= s@.take(i as int));
        assert(before.push(last).drop_last() =~= before);
        if v[i] == sep {
            parts.push(s.substring_char(start, i).to_owned());
            start = i + 1;
            assert(texts_of(parts@) =~= before.push(last));
            assert(s@.subrange(start as int, i + 1) =~= Seq::<char>::empty());
        } else {
            assert(s@.subrange(start as int, i + 1) =~= last.push(s@[i as int]));
        }
        i += 1;
    }
    let ghost before = texts_of(parts@);
    parts.push(s.substring_char(start, v.len()).to_owned());
    assert(s@.take(i as int) =~= s@);
    assert(texts_of(parts@) =~= before.push(s@.subrange(start as int, i as int)));
    parts
}

/// A relative path `name` below `dir`.
pub open spec fn joined(dir: Seq<char>, name: Seq<char>) -> Seq<char> {
    if dir.len() == 0 || dir.last() == '/' {
        dir + name
    } else {
        dir.push('/') + name
    }
}

/// A relative path below a directory.
pub fn join_path(dir: &str, name: &str) -> (path: String)
    ensures
        path@ == joined(dir@, name@),
{
    let v: Vec<char> = chars_of(dir);
    let mut path: String = dir.to_owned();
    if v.len() > 0 && v[v.len() - 1] != '/' {
        proof {
            reveal_strlit("/");
        }
        path.append("/");
        assert(path@ =~= dir@.push('/'));
    }
    path.append(name);
    path
}

/// Trimming a text leaves the middle of it: all that goes from either end is
/// white space, and what is left neither begins nor ends with any.
pub proof fn trimming_takes_only_white_space(s: &str, t: &str)
    requires
        call_ensures(trim, (s,), t),
    ensures
        exists|i: int, j: int| #[trigger] trimmed_between(s@, i, j) && t@ == s@.subrange(i, j),
        t@.len() > 0 ==> !is_white(t@[0]) && !is_white(t@[t@.len() - 1]),
        t@.len() == 0 <==> forall|k: int| 0 <= k < s@.len() ==> is_white(#[trigger] s@[k]),
{
    lemma_trimmed(s@);
    let (i, j) = choose|i: int, j: int| #[trigger] trimmed_between(s@, i, j) && trimmed(s@) == s@.subrange(i, j);
    assert(trimmed_between(s@, i, j));
    if t@.len() == 0 {
        assert(i == j);
    } else {
        assert(s@[i] == t@[0]);
    }
}

/// All white space stands outside `i..j`.
pub open spec fn trimmed_between(s: Seq<char>, i: int, j: int) -> bool {
    &&& 0 <= i <= j <= s.len()
    &&& forall|k: int| 0 <= k < i || j <= k < s.len() ==> is_white(#[trigger] s[k])
}

proof fn lemma_trimmed_start(s: Seq<char>) -> (i: int)
    ensures
        0 <= i <= s.len(),
        trimmed_start(s) == s.skip(i),
        forall|k: int| 0 <= k < i ==> is_white(#[trigger] s[k]),
        i < s.len() ==> !is_white(s[i]),
    decreases s.len(),
{
    if s.len() > 0 && is_white(s[0]) {
        let i = lemma_trimmed_start(s.drop_first());
        assert(s.drop_first().skip(i) =~= s.skip(i + 1));
        assert forall|k: int| 0 <= k < i + 1 implies is_white(#[trigger] s[k]) by {
            if k > 0 {
                assert(s.drop_first()[k - 1] == s[k]);
            }
        }
        i + 1
    } else {
        assert(s.skip(0) =~= s);
        0
    }
}

/// Only white space is cut off the end, and all of it.
pub proof fn trimming_the_end_takes_only_white_space(s: Seq<char>) -> (j: int)
    ensures
        0 <= j <= s.len(),
        trimmed_end(s) == s.take(j),
        forall|k: int| j <= k < s.len() ==> is_white(#[trigger] s[k]),
        j > 0 ==> !is_white(s[j - 1]),
    decreases s.len(),
{
    if s.len() > 0 && is_white(s.last()) {
        let j = trimming_the_end_takes_only_white_space(s.drop_last());
        assert(s.drop_last().take(j) =~= s.take(j));
        assert forall|k: int| j <= k < s.len() implies is_white(#[trigger] s[k]) by {
            if k < s.len() - 1 {
                assert(s.drop_last()[k] == s[k]);
            }
        }
        j
    } else {
        assert(s.take(s.len() as int) =~= s);
        s.len() as int
    }
}

pub(crate) proof fn lemma_trimmed(s: Seq<char>)
    ensures
        exists|i: int, j: int| #[trigger] trimmed_between(s, i, j) && trimmed(s) == s.subrange(i, j),
        trimmed(s).len() > 0 ==> !is_white(trimmed(s)[0]) && !is_white(trimmed(s).last()),
{
    let i = lemma_trimmed_start(s);
    let rest = s.skip(i);
    let n = trimming_the_end_takes_only_white_space(rest);
    assert(rest.take(n) =~= s.subrange(i, i + n));
    assert forall|k: int| 0 <= k < i || i + n <= k < s.len() implies is_white(#[trigger] s[k]) by {
        if k >= i {
            assert(rest[k - i] == s[k]);
        }
    }
    assert(trimmed_between(s, i, i + n));
    if n > 0 {
        assert(rest[0] == s[i]);
        assert(trimmed(s)[0] == rest[0]);
        assert(trimmed(s).last() == rest[n - 1]);
    }
}

/// What a row of digits is worth.
pub open spec fn value_of(digits: Seq<char>) -> int
    decreases digits.len(),
{
    if digits.len() == 0 {
        0
    } else {
        10 * value_of(digits.drop_last()) + (digits.last() as int - '0' as int)
    }
}

/// Decimal notation is made of digits, is worth the number, and has no zero in
/// front but for the number zero.
pub proof fn decimal_notation_reads_back(n: u64, s: String)
    requires
        call_ensures(decimal, (n,), s),
    ensures
        value_of(s@) == n,
        s@.len() >= 1,
        forall|k: int| 0 <= k < s@.len() ==> '0' <= #[trigger] s@[k] <= '9',
        s@[0] == '0' ==> n == 0 && s@.len() == 1,
{
    lemma_decimal(n as nat);
}

proof fn lemma_decimal(n: nat)
    ensures
        value_of(decimal_of(n)) == n,
        decimal_of(n).len() >= 1,
        forall|k: int| 0 <= k < decimal_of(n).len() ==> '0' <= #[trigger] decimal_of(n)[k] <= '9',
        decimal_of(n)[0] == '0' ==> n == 0 && decimal_of(n).len() == 1,
    decreases n,
{
    let s = decimal_of(n);
    reveal_with_fuel(value_of, 2);
    if n < 10 {
        assert(s.drop_last() =~= Seq::<char>::empty());
    } else {
        lemma_decimal(n / 10);
        assert(s.drop_last() =~= decimal_of(n / 10));
        assert forall|k: int| 0 <= k < s.len() implies '0' <= #[trigger] s[k] <= '9' by {
            if k < s.len() - 1 {
                assert(s[k] == decimal_of(n / 10)[k]);
            }
        }
        assert(s[0] == decimal_of(n / 10)[0]);
    }
}

/// Texts strung together, with `sep` between them.
pub open spec fn strung(parts: Seq<Seq<char>>, sep: char) -> Seq<char>
    decreases parts.len(),
{
    if parts.len() == 0 {
        Seq::empty()
    } else if parts.len() == 1 {
        parts[0]
    } else {
        strung(parts.drop_last(), sep).push(sep) + parts.last()
    }
}

/// Splitting loses nothing: the parts, strung together again, are the text, and
/// no part holds the separator.
pub proof fn splitting_loses_nothing(s: &str, sep: char, parts: Vec<String>)
    requires
        call_ensures(split, (s, sep), parts),
    ensures
        parts@.len() >= 1,
        strung(texts_of(parts@), sep) == s@,
        forall|k: int| 0 <= k < parts@.len() ==> !(#[trigger] parts@[k])@.contains(sep),
{
    lemma_pieces(s@, sep);
    assert(parts@.len() == texts_of(parts@).len());
    assert forall|k: int| 0 <= k < parts@.len() implies !(#[trigger] parts@[k])@.contains(sep) by {
        assert(texts_of(parts@)[k] == parts@[k]@);
    }
}

/// The parts of a text, strung together, are the text.
pub(crate) proof fn lemma_pieces(s: Seq<char>, sep: char)
    ensures
        pieces(s, sep).len() >= 1,
        strung(pieces(s, sep), sep) == s,
        forall|k: int| 0 <= k < pieces(s, sep).len() ==> !(#[trigger] pieces(s, sep)[k]).contains(sep),
    decreases s.len(),
{
    let p = pieces(s, sep);
    if s.len() == 0 {
        assert(strung(p, sep) =~= s);
    } else {
        let rest = s.drop_last();
        let before = pieces(rest, sep);
        lemma_pieces(rest, sep);
        if s.last() == sep {
            assert(p.drop_last() =~= before);
            assert(strung(p, sep) =~= s);
            assert forall|k: int| 0 <= k < p.len() implies !(#[trigger] p[k]).contains(sep) by {
                if k < before.len() {
                    assert(p[k] == before[k]);
                }
            }
        } else {
            let grown = before.last().push(s.last());
            assert(p.drop_last() =~= before.drop_last());
            if p.len() == 1 {
                assert(strung(before, sep) == before[0]);
                assert(strung(p, sep) =~= s);
            } else {
                assert(strung(p, sep) =~= strung(before, sep).push(s.last()));
                assert(strung(p, sep) =~= s);
            }
            assert forall|k: int| 0 <= k < p.len() implies !(#[trigger] p[k]).contains(sep) by {
                if k < before.len() - 1 {
                    assert(p[k] == before[k]);
                } else {
                    assert(p[k] == grown);
                    assert(!before[before.len() - 1].contains(sep));
                    if grown.contains(sep) {
                        let m = choose|m: int| 0 <= m < grown.len() && grown[m] == sep;
                        if m < grown.len() - 1 {
                            assert(before.last()[m] == sep);
                        }
                    }
                }
            }
        }
    }
}

/// A path below a directory is the directory, a slash, and the name; a
/// directory that ends with the slash (or is empty) gets no second one.
pub proof fn joining_puts_one_slash_between(dir: &str, name: &str, path: String)
    requires
        call_ensures(join_path, (dir, name), path),
    ensures
        path@.take(dir@.len() as int) == dir@,
        path@.skip(path@.len() - name@.len()) == name@,
        dir@.len() > 0 ==> path@[path@.len() - name@.len() - 1] == '/',
        path@.len() - name@.len() - dir@.len() == if dir@.len() > 0 && dir@[dir@.len() - 1] != '/' {
            1int
        } else {
            0
        },
{
    assert(path@.take(dir@.len() as int) =~= dir@);
    assert(path@.skip(path@.len() - name@.len()) =~= name@);
}

/// White space is what Unicode counts as such, by code point.
pub proof fn white_space_is_unicodes(c: char)
    ensures
        is_white(c) <==> {
            let n = c as int;
            ||| 9 <= n <= 13
            ||| n == 32
            ||| n == 133
            ||| n == 160
            ||| n == 5760
            ||| 8192 <= n <= 8202
            ||| n == 8232
            ||| n == 8233
            ||| n == 8239
            ||| n == 8287
            ||| n == 12288
        },
{
}

} // verus!
