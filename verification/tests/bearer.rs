use auth_core::bearer::{bearer_header, bearer_token, is_whitespace};

fn expected(header: &str) -> String {
    header.strip_prefix("Bearer ").unwrap_or(header).trim().to_string()
}

#[test]
fn scheme_is_stripped() {
    assert_eq!(bearer_token("Bearer abc.def.ghi"), "abc.def.ghi");
}

#[test]
fn value_without_scheme_is_the_token() {
    assert_eq!(bearer_token("abc.def.ghi"), "abc.def.ghi");
    assert_eq!(bearer_token("bearer abc"), "bearer abc");
    assert_eq!(bearer_token("Bearerabc"), "Bearerabc");
    assert_eq!(bearer_token("Bearer"), "Bearer");
}

#[test]
fn white_space_around_the_token_is_trimmed() {
    assert_eq!(bearer_token("Bearer   abc  "), "abc");
    assert_eq!(bearer_token("  abc\t"), "abc");
    assert_eq!(bearer_token("Bearer a b "), "a b");
    assert_eq!(bearer_token(" Bearer abc"), "Bearer abc");
    assert_eq!(bearer_token("Bearer \u{2003}abc\u{3000}\n"), "abc");
}

#[test]
fn empty_and_blank_values_give_an_empty_token() {
    assert_eq!(bearer_token(""), "");
    assert_eq!(bearer_token("   "), "");
    assert_eq!(bearer_token("Bearer "), "");
    assert_eq!(bearer_token("Bearer    "), "");
}

#[test]
fn scheme_is_stripped_once() {
    assert_eq!(bearer_token("Bearer Bearer abc"), "Bearer abc");
}

#[test]
fn token_agrees_with_the_standard_library() {
    let samples = [
        "Bearer tok",
        "Bearer  tok ",
        "tok",
        "\ttok\r\n",
        "Bearer\ttok",
        "Bearer \u{a0}tok\u{a0}",
        "Béarer tok",
        "Bearer tök\u{2028}",
        "Bear",
        "Bearer \u{200b}tok",
        "\u{1680}Bearer tok\u{205f}",
        "Bearer x",
        " ",
    ];
    for sample in samples {
        assert_eq!(bearer_token(sample), expected(sample), "{:?}", sample);
    }
}

#[test]
fn white_space_is_what_unicode_says() {
    for code in 0u32..0x3100 {
        if let Some(c) = char::from_u32(code) {
            assert_eq!(is_whitespace(c), c.is_whitespace(), "{:x}", code);
        }
    }
    assert!(!is_whitespace('\u{feff}'));
    assert!(!is_whitespace('\u{10ffff}'));
}

#[test]
fn header_carries_the_token() {
    assert_eq!(bearer_header("abc"), "Bearer abc");
    assert_eq!(bearer_header(""), "Bearer ");
}

#[test]
fn header_round_trips() {
    for token in ["abc", "a.b.c", "x y", "", " padded "] {
        assert_eq!(bearer_token(&bearer_header(token)), token.trim());
    }
}
