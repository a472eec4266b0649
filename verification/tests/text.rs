use helmor::text::{chars_of, decimal_string, first_line_chars, replace_lit, string_of, trim_str};

#[test]
fn trim_matches_std() {
    for s in ["", "  ", " a ", "\u{3000}x\u{85}", "\t\r\nab c\n", "\u{200b}x", "x\u{a0}"] {
        assert_eq!(trim_str(s), s.trim(), "{s:?}");
    }
}

#[test]
fn decimal_matches_std() {
    for n in [0u32, 7, 10, 99, 100, 65535, 4_294_967_295] {
        assert_eq!(decimal_string(n), n.to_string());
    }
}

#[test]
fn replace_matches_std() {
    for (s, pat, rep) in [("aaa", "aa", "b"), ("it's", "'", "''"), ("", "x", "y"), ("$HOME$HOME", "$HOME", "/h"), ("abcabc", "bc", "")] {
        let out = string_of(&replace_lit(&chars_of(s), pat, rep));
        assert_eq!(out, s.replace(pat, rep), "{s:?}");
    }
}

#[test]
fn first_line_matches_std_lines() {
    for s in ["", "a", "a\nb", "a\r\nb", "a\r", "\n", "\r\n", "ab\r\r\nc"] {
        let out = string_of(&first_line_chars(&chars_of(s)));
        assert_eq!(out, s.lines().next().unwrap_or(""), "{s:?}");
    }
}
