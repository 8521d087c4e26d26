use locagate::render::{body_preview, body_text, generate_qr_svg_path, pretty_print_json, svg_path};

#[test]
fn json_pretty_printing() {
    assert_eq!(pretty_print_json("{\"a\":1}"), "{\n  \"a\": 1\n}");
    assert_eq!(pretty_print_json("not json"), "not json");
}

#[test]
fn body_texts() {
    assert_eq!(body_text("aGk="), "hi");
    assert_eq!(body_text("/w=="), "[Binary Payload / Non-UTF8 Text]");
    assert_eq!(body_text("@@"), "[Error: Failed to decode base64]");
    // {"a":[1]}
    assert_eq!(body_preview("eyJhIjpbMV19"), "{\n  \"a\": [\n    1\n  ]\n}");
}

#[test]
fn svg_paths() {
    let grid = vec![vec![true, false], vec![false, true]];
    assert_eq!(svg_path(&grid), "M0 0h1v1h-1z M1 1h1v1h-1z ");
    assert_eq!(svg_path(&vec![]), "");
    let mut big = vec![vec![false; 12]; 11];
    big[10][11] = true;
    assert_eq!(svg_path(&big), "M11 10h1v1h-1z ");
}

#[test]
fn qr_paths() {
    let (path, size) = generate_qr_svg_path("https://t1.relay.dev").unwrap();
    assert!(size >= 21 && size <= 177);
    assert!(path.starts_with("M0 0h1v1h-1z "));
    let too_long = "x".repeat(5000);
    assert!(generate_qr_svg_path(&too_long).is_none());
}

#[test]
fn qr_path_draws_the_code_as_read() {
    // The finder pattern fills the top-left 7x7 corner except its inner
    // ring: (1, 1) is light, (0, 1) and (1, 0) are dark.
    let (path, size) = generate_qr_svg_path("hello").unwrap();
    assert_eq!(size, 21);
    assert!(path.contains("M1 0h1v1h-1z "));
    assert!(path.contains("M0 1h1v1h-1z "));
    assert!(!path.contains("M1 1h1v1h-1z "));
    // Module (8, 13) of every version 1 code is the dark module; its mirror
    // image (13, 8) is not part of any pattern, so only the first is certain.
    assert!(path.contains("M8 13h1v1h-1z "));
}

#[test]
fn json_bodies_are_pretty_printed_and_others_kept() {
    assert_eq!(pretty_print_json("[1,2]"), "[\n  1,\n  2\n]");
    assert_eq!(pretty_print_json("{\"a\""), "{\"a\"");
    // "plain text"
    assert_eq!(body_preview("cGxhaW4gdGV4dA=="), "plain text");
}
