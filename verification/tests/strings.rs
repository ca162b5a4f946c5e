use pet_render::ints::{cast_i32, div_i32};
use pet_render::strings::{decimal, join_path, split, str_eq, trim, trim_end};

#[test]
fn trimming_agrees_with_the_standard_library() {
    for s in ["", " a ", "\t\u{85}x\u{2003}\u{205f}", "\u{200b}z\u{200b}", "a b", "\u{1680}\u{202f}"] {
        assert_eq!(trim(s), s.trim());
        assert_eq!(trim_end(s), s.trim_end());
    }
    for c in '\0'..='\u{ffff}' {
        let s = format!("a{c}");
        assert_eq!(trim_end(&s), s.trim_end(), "{:x}", c as u32);
    }
}

#[test]
fn splitting_and_decimals_agree_with_the_standard_library() {
    for s in ["", "a", ":", "a::b", ":é:"] {
        assert_eq!(split(s, ':'), s.split(':').map(String::from).collect::<Vec<_>>());
    }
    for n in [0, 9, 10, 255, 4_294_967_296, u64::MAX] {
        assert_eq!(decimal(n), n.to_string());
    }
}

#[test]
fn paths_are_joined_like_std_paths() {
    for (dir, name) in [("/a", "b/c"), ("/a/", "b"), ("", "b"), ("/", "x"), ("a", "")] {
        let std_path = std::path::Path::new(dir).join(name);
        assert_eq!(join_path(dir, name), std_path.to_str().unwrap());
    }
}

#[test]
fn texts_are_compared_by_character() {
    assert!(str_eq("é", "\u{e9}"));
    assert!(!str_eq("é", "e"));
    assert!(!str_eq("ab", "abc"));
    assert!(str_eq("", ""));
}

#[test]
fn machine_integers_convert_exactly() {
    for v in [0, 1, i32::MAX as u32, 0x8000_0000, u32::MAX] {
        assert_eq!(cast_i32(v), v as i32);
    }
    for (a, b) in [(7, 2), (-7, 2), (i32::MIN, 1), (i32::MIN, i32::MAX), (-1, 3)] {
        assert_eq!(div_i32(a, b), a / b);
    }
}
