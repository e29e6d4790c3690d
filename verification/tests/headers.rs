use loadfleet::headers::{chars_of, is_space, parse_header, parse_headers};

fn pair(name: &str, value: &str) -> (String, String) {
    (name.to_string(), value.to_string())
}

fn args(list: &[&str]) -> Vec<String> {
    list.iter().map(|s| s.to_string()).collect()
}

#[test]
fn parses_name_and_value() {
    let headers = parse_headers(&args(&["Content-Type: application/json", "Accept:*/*"]));
    assert_eq!(headers, vec![pair("Content-Type", "application/json"), pair("Accept", "*/*")]);
}

#[test]
fn splits_at_the_first_colon() {
    let headers = parse_headers(&args(&["Host: example.test:8080", "X-Time: 12:30:00"]));
    assert_eq!(headers, vec![pair("Host", "example.test:8080"), pair("X-Time", "12:30:00")]);
}

#[test]
fn trims_white_space_on_both_parts() {
    let headers = parse_headers(&args(&["  X-A \t:\t  some value \r\n", "\u{3000}X-B\u{a0}:\u{2003}v\u{85}"]));
    assert_eq!(headers, vec![pair("X-A", "some value"), pair("X-B", "v")]);
}

#[test]
fn passes_over_arguments_without_a_colon() {
    let headers = parse_headers(&args(&["no colon here", "", "X-A: 1", "   "]));
    assert_eq!(headers, vec![pair("X-A", "1")]);
}

#[test]
fn a_later_header_overrides_an_earlier_one() {
    let headers = parse_headers(&args(&["X-A: 1", "X-B: 2", " X-A :3", "X-C: 4", "X-B:"]));
    assert_eq!(headers, vec![pair("X-A", "3"), pair("X-B", ""), pair("X-C", "4")]);
}

#[test]
fn names_are_compared_exactly() {
    let headers = parse_headers(&args(&["x-a: 1", "X-A: 2"]));
    assert_eq!(headers, vec![pair("x-a", "1"), pair("X-A", "2")]);
}

#[test]
fn empty_name_and_empty_value_are_kept() {
    let headers = parse_headers(&args(&[":", " : v", ":w"]));
    assert_eq!(headers, vec![pair("", "w")]);
    assert_eq!(parse_header(":"), Some(pair("", "")));
    assert_eq!(parse_header("  :  "), Some(pair("", "")));
}

#[test]
fn no_arguments_give_no_headers() {
    assert!(parse_headers(&[]).is_empty());
}

#[test]
fn parse_header_on_single_arguments() {
    assert_eq!(parse_header("A: b"), Some(pair("A", "b")));
    assert_eq!(parse_header("A b"), None);
    assert_eq!(parse_header(""), None);
    assert_eq!(parse_header("Ünï: çödé ✓"), Some(pair("Ünï", "çödé ✓")));
    assert_eq!(parse_header("a : b : c "), Some(pair("a", "b : c")));
}

#[test]
fn agrees_with_the_standard_trim_and_split() {
    let samples = [
        "Key: value",
        " \t Key\u{2028}:\u{1680}value\u{205f}",
        "\u{200b}Key: value\u{200b}",
        "k:\u{feff}v",
        "::",
        " a\u{2000}b : c\u{202f}d ",
    ];
    for s in samples {
        let expected = s.split_once(':').map(|(n, v)| (n.trim().to_string(), v.trim().to_string()));
        assert_eq!(parse_header(s), expected, "for {:?}", s);
    }
}

#[test]
fn white_space_is_what_the_standard_library_calls_white_space() {
    for code in 0u32..0x3100 {
        if let Some(c) = char::from_u32(code) {
            assert_eq!(is_space(c), c.is_whitespace(), "for U+{:04X}", code);
        }
    }
    assert!(!is_space('\u{feff}'));
    assert!(!is_space('\u{10ffff}'));
}

#[test]
fn chars_of_lists_the_characters() {
    assert_eq!(chars_of("aé✓"), vec!['a', 'é', '✓']);
    assert!(chars_of("").is_empty());
}
