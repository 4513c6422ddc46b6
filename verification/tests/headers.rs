use tileserver_config::headers::{invalid_header_warnings, parse_header, parse_headers};

fn texts(items: &[&str]) -> Vec<String> {
    items.iter().map(|t| t.to_string()).collect()
}

fn pair(name: &str, value: &str) -> (String, String) {
    (name.to_string(), value.to_string())
}

#[test]
fn header_is_name_and_value() {
    assert_eq!(
        parse_header("cache-control: public,max-age=14400"),
        Some(pair("cache-control", "public,max-age=14400"))
    );
    assert_eq!(
        parse_header("access-control-allow-origin: *"),
        Some(pair("access-control-allow-origin", "*"))
    );
    assert_eq!(parse_header("k:v"), Some(pair("k", "v")));
}

#[test]
fn header_loses_white_space_around_both_parts() {
    assert_eq!(parse_header("  k  :  v  "), Some(pair("k", "v")));
    assert_eq!(parse_header("\tk\t:\tv\n"), Some(pair("k", "v")));
    assert_eq!(
        parse_header(" x-served by : tile server "),
        Some(pair("x-served by", "tile server"))
    );
    assert_eq!(parse_header("\u{a0}k\u{2003}:\u{3000}v\u{85}"), Some(pair("k", "v")));
}

#[test]
fn header_without_colon_is_none() {
    assert_eq!(parse_header(""), None);
    assert_eq!(parse_header("cache-control"), None);
    assert_eq!(parse_header("k v"), None);
}

#[test]
fn header_with_empty_part_is_none() {
    assert_eq!(parse_header("k:"), None);
    assert_eq!(parse_header(":v"), None);
    assert_eq!(parse_header(" k:"), None);
    assert_eq!(parse_header(" :v"), None);
    assert_eq!(parse_header(":"), None);
    assert_eq!(parse_header(" : "), None);
    assert_eq!(parse_header("k: \t "), None);
}

#[test]
fn header_with_two_colons_is_none() {
    assert_eq!(parse_header("location: http://tiles.example"), None);
    assert_eq!(parse_header("a:b:c"), None);
    assert_eq!(parse_header("k::"), None);
    assert_eq!(parse_header("::"), None);
    assert_eq!(parse_header("k:v:"), None);
}

#[test]
fn headers_keep_order_and_duplicates() {
    assert_eq!(
        parse_headers(&texts(&["b: 2", "a: 1", "b: 2", "a: 3"])),
        vec![pair("b", "2"), pair("a", "1"), pair("b", "2"), pair("a", "3")]
    );
}

#[test]
fn headers_leave_out_what_is_none() {
    assert_eq!(
        parse_headers(&texts(&["k:", "a: 1", "nothing", ":v", "b: 2", "c:d:e"])),
        vec![pair("a", "1"), pair("b", "2")]
    );
    assert_eq!(parse_headers(&texts(&[])), vec![]);
    assert_eq!(parse_headers(&texts(&["k:"])), vec![]);
    assert_eq!(parse_headers(&texts(&[":v"])), vec![]);
}

#[test]
fn headers_read_have_name_and_value() {
    let raw = texts(&["a:1", " : ", "b : 2", "c:", ":d", "e: f ", "g"]);
    for (name, value) in parse_headers(&raw) {
        assert!(!name.is_empty());
        assert!(!value.is_empty());
        assert_eq!(name.trim(), name);
        assert_eq!(value.trim(), value);
    }
}

#[test]
fn warnings_name_what_is_no_header() {
    assert_eq!(
        invalid_header_warnings(&texts(&["k:", "a: 1", "nothing", ":v", "b: 2", "c:d:e"])),
        vec![
            "Invalid header: k:",
            "Invalid header: nothing",
            "Invalid header: :v",
            "Invalid header: c:d:e"
        ]
    );
    assert_eq!(
        invalid_header_warnings(&texts(&["a: 1", "b: 2"])),
        Vec::<String>::new()
    );
}

#[test]
fn every_text_is_a_header_or_a_warning() {
    let raw = texts(&["a:1", " : ", "b : 2", "c:", ":d", "e: f ", "g", "a:1"]);
    assert_eq!(
        parse_headers(&raw).len() + invalid_header_warnings(&raw).len(),
        raw.len()
    );
}
