use rusting::source::{clean_field, strip_newlines, url_tokens};

fn listed_as_whitespace(c: char) -> bool {
    let n = c as u32;
    (0x09..=0x0D).contains(&n)
        || n == 0x20
        || n == 0x85
        || n == 0xA0
        || n == 0x1680
        || (0x2000..=0x200A).contains(&n)
        || n == 0x2028
        || n == 0x2029
        || n == 0x202F
        || n == 0x205F
        || n == 0x3000
}

#[test]
fn three_fields_give_three_tokens() {
    let tokens = url_tokens("http://a.test, http://b.test,http://c.test");
    assert_eq!(tokens, vec!["http://a.test", "http://b.test", "http://c.test"]);
}

#[test]
fn empty_input_is_one_empty_token() {
    assert_eq!(url_tokens(""), vec![String::new()]);
}

#[test]
fn input_without_comma_is_one_token() {
    assert_eq!(url_tokens("  http://only.test\n"), vec!["http://only.test"]);
}

#[test]
fn empty_fields_are_kept() {
    assert_eq!(url_tokens("a,,b"), vec!["a", "", "b"]);
    assert_eq!(url_tokens(","), vec!["", ""]);
    assert_eq!(url_tokens("a,"), vec!["a", ""]);
    assert_eq!(url_tokens(",a"), vec!["", "a"]);
    assert_eq!(url_tokens(" , \n ,\t"), vec!["", "", ""]);
}

#[test]
fn token_count_is_comma_count_plus_one() {
    let inputs = ["", ",", ",,", "a,b,c,d", "x\n,y\n,\n", "no comma at all", ",,,,,,,"];
    for input in inputs {
        let commas = input.chars().filter(|c| *c == ',').count();
        assert_eq!(url_tokens(input).len(), commas + 1, "input {:?}", input);
    }
}

#[test]
fn duplicates_are_kept_in_order() {
    assert_eq!(url_tokens("b,a,b,a"), vec!["b", "a", "b", "a"]);
}

#[test]
fn tokens_are_trimmed_and_lose_inner_newlines() {
    let tokens = url_tokens(" http://a.test/pa\nth \n,\r\nhttp://b.test\t");
    assert_eq!(tokens, vec!["http://a.test/path", "http://b.test"]);
}

#[test]
fn inner_blanks_and_carriage_returns_stay() {
    assert_eq!(clean_field(" a b "), "a b");
    assert_eq!(clean_field("a\r\nb"), "a\rb");
    assert_eq!(clean_field("a \n b"), "a  b");
    assert_eq!(clean_field("\n\na\n\n"), "a");
}

#[test]
fn all_whitespace_field_is_empty_token() {
    assert_eq!(clean_field(" \t\r\n\u{a0}\u{3000} "), "");
    assert_eq!(clean_field(""), "");
}

#[test]
fn clean_field_agrees_with_trim_then_replace() {
    let inputs = [
        "",
        " ",
        "x",
        "  x  ",
        "\nx\n",
        "a\nb\nc",
        " \n a \n b \n ",
        "\u{2003}http://e.test/\u{2003}",
        "\u{200b}zero width\u{200b}",
        "ünï\ncödé ",
        "a,b",
    ];
    for input in inputs {
        assert_eq!(clean_field(input), input.trim().replace("\n", ""), "input {:?}", input);
    }
}

#[test]
fn surrounding_whitespace_is_exactly_what_is_trimmed() {
    let mut code: u32 = 0;
    while code <= 0x3100 {
        if let Some(c) = char::from_u32(code) {
            let field = format!("{}x{}", c, c);
            let token = clean_field(&field);
            if listed_as_whitespace(c) {
                assert_eq!(token, "x", "U+{:04X}", code);
            } else {
                assert_eq!(token, field, "U+{:04X}", code);
            }
        }
        code += 1;
    }
    for c in ['\u{180e}', '\u{200b}', '\u{2060}', '\u{feff}', '\u{10ffff}', '\u{e000}'] {
        let field = format!("{}x{}", c, c);
        assert_eq!(clean_field(&field), field);
    }
}

#[test]
fn strip_newlines_drops_only_line_feeds() {
    assert_eq!(strip_newlines("a\nb\r\nc\n"), "ab\rc");
    assert_eq!(strip_newlines("\n\n"), "");
    assert_eq!(strip_newlines(" a b "), " a b ");
    assert_eq!(strip_newlines(""), "");
}
