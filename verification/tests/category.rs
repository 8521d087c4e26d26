use locagate::category::{categorize_request, categorize_request_fallback, classify_hints, classify_lowered};

fn headers(pairs: &[(&str, &str)]) -> Vec<(String, String)> {
    pairs
        .iter()
        .map(|(k, v)| (k.to_string(), v.to_string()))
        .collect()
}

#[test]
fn classifies_fetch_api_with_sec_fetch() {
    let h = headers(&[
        ("sec-fetch-dest", "empty"),
        ("sec-fetch-mode", "cors"),
        ("accept", "application/json"),
    ]);
    assert_eq!(categorize_request("GET", "/api/users", &h), "fetch");
}

#[test]
fn classifies_xhr_without_sec_fetch() {
    let h = headers(&[("x-requested-with", "XMLHttpRequest")]);
    assert_eq!(categorize_request("GET", "/api/data", &h), "fetch");
}

#[test]
fn classifies_post_without_sec_fetch() {
    let h = headers(&[("content-type", "application/json")]);
    assert_eq!(categorize_request("POST", "/api/save", &h), "fetch");
}

#[test]
fn classifies_script_tag() {
    let h = headers(&[("sec-fetch-dest", "script")]);
    assert_eq!(categorize_request("GET", "/bundle.js", &h), "css_js");
}

#[test]
fn header_names_ignore_case() {
    let h = headers(&[("Sec-Fetch-Dest", "Document")]);
    assert_eq!(categorize_request("GET", "/", &h), "document");
    let h = headers(&[("X-Requested-With", "xmlhttprequest"), ("Sec-Fetch-Dest", "image")]);
    assert_eq!(categorize_request("GET", "/a.png", &h), "fetch");
}

#[test]
fn last_duplicate_header_counts() {
    let h = headers(&[("sec-fetch-dest", "image"), ("SEC-FETCH-DEST", "style")]);
    assert_eq!(categorize_request("GET", "/x", &h), "css_js");
}

#[test]
fn sec_fetch_destinations() {
    for (dest, want) in [
        ("document", "document"),
        ("iframe", "document"),
        ("script", "css_js"),
        ("style", "css_js"),
        ("image", "image"),
        ("empty", "fetch"),
    ] {
        let h = headers(&[("sec-fetch-dest", dest)]);
        assert_eq!(categorize_request("GET", "/x.unknown", &h), want);
    }
}

#[test]
fn navigate_mode_is_document() {
    let h = headers(&[("sec-fetch-dest", "font"), ("sec-fetch-mode", "navigate")]);
    assert_eq!(categorize_request("GET", "/x", &h), "document");
}

#[test]
fn unknown_dest_falls_back() {
    let h = headers(&[("sec-fetch-dest", "font"), ("accept", "text/css")]);
    assert_eq!(categorize_request("GET", "/f.woff", &h), "css_js");
}

#[test]
fn fallback_by_method() {
    for m in ["POST", "put", "Patch", "DELETE", "options"] {
        assert_eq!(categorize_request_fallback(m, "/index.html", "text/html", ""), "fetch");
    }
}

#[test]
fn fallback_by_accept_and_content_type() {
    assert_eq!(categorize_request_fallback("GET", "/", "text/html,application/xhtml+xml", ""), "document");
    assert_eq!(categorize_request_fallback("GET", "/", "", "text/css"), "css_js");
    assert_eq!(categorize_request_fallback("GET", "/", "text/javascript", ""), "css_js");
    assert_eq!(categorize_request_fallback("GET", "/", "", "application/javascript"), "css_js");
    assert_eq!(categorize_request_fallback("GET", "/", "image/webp,*/*", ""), "image");
    assert_eq!(categorize_request_fallback("GET", "/", "application/xml", ""), "fetch");
    assert_eq!(categorize_request_fallback("GET", "/", "text/json", ""), "fetch");
}

#[test]
fn fallback_by_extension() {
    assert_eq!(categorize_request_fallback("GET", "/APP.MJS", "text/plain", ""), "css_js");
    assert_eq!(categorize_request_fallback("GET", "/a.ts", "text/plain", ""), "css_js");
    assert_eq!(categorize_request_fallback("GET", "/logo.SVG", "text/plain", ""), "image");
    assert_eq!(categorize_request_fallback("GET", "/f.ico", "text/plain", ""), "image");
    assert_eq!(categorize_request_fallback("GET", "/page.htm", "text/plain", ""), "document");
}

#[test]
fn fallback_last_resort() {
    assert_eq!(categorize_request_fallback("GET", "/data", "*/*", ""), "fetch");
    assert_eq!(categorize_request_fallback("GET", "/data", "", ""), "fetch");
    assert_eq!(categorize_request_fallback("GET", "/data", "text/plain", ""), "other");
}

#[test]
fn categories_are_always_known() {
    let known = ["fetch", "document", "css_js", "image", "other"];
    let cases = [
        ("GET", "/", headers(&[])),
        ("GET", "/x.txt", headers(&[("accept", "text/plain")])),
        ("HEAD", "/x", headers(&[("sec-fetch-mode", "no-cors")])),
        ("GET", "/x", headers(&[("sec-fetch-dest", "audio"), ("accept", "audio/*")])),
    ];
    for (m, p, h) in cases.iter() {
        let c = categorize_request(m, p, h);
        assert!(known.contains(&c.as_str()));
    }
}

#[test]
fn hints_and_lowered_parts() {
    assert_eq!(classify_hints("xmlhttprequest", "", ""), Some("fetch".to_string()));
    assert_eq!(classify_hints("", "", "cors"), None);
    assert_eq!(classify_hints("", "", "navigate"), Some("document".to_string()));
    assert_eq!(classify_lowered("GET", "/a.css", "", ""), "css_js");
    assert_eq!(classify_lowered("GET", "/a", "", ""), "fetch");
    assert_eq!(classify_lowered("GET", "/a.css", "text/plain", ""), "css_js");
}

#[test]
fn header_case_does_not_change_the_category() {
    let a = headers(&[("Sec-Fetch-Dest", "Script"), ("ACCEPT", "Text/HTML")]);
    let b = headers(&[("sec-fetch-dest", "script"), ("accept", "text/html")]);
    assert_eq!(categorize_request("GET", "/x", &a), categorize_request("GET", "/x", &b));
    assert_eq!(categorize_request("GET", "/x", &a), "css_js");
    let c = headers(&[("X-Requested-With", "XMLHTTPREQUEST")]);
    assert_eq!(categorize_request("GET", "/page.html", &c), "fetch");
}

#[test]
fn ascii_case_inside_non_ascii_text_does_not_matter() {
    let a = headers(&[("Accept", "Text/HTML; café"), ("X-Note-É", "x")]);
    let b = headers(&[("ACCEPT", "text/html; CAFé"), ("x-note-É", "x")]);
    assert_eq!(categorize_request("GET", "/x", &a), "document");
    assert_eq!(categorize_request("GET", "/x", &b), "document");
    let with_other = headers(&[("Accept", "Text/HTML; café"), ("X-Trace", "1")]);
    assert_eq!(categorize_request("GET", "/x", &with_other), "document");
}
