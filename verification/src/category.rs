//! Classification of relayed HTTP requests into the categories that the
//! request log filters by: "fetch", "document", "css_js", "image", "other".
//!
//! The browser's own `Sec-Fetch-*` headers decide first (as DevTools'
//! network filters do); without them the method, the `Accept` and
//! `Content-Type` headers and finally the path's extension decide.
use vstd::prelude::*;
use crate::text::{
    ascii_lowered, contains, ends_with, has_substring, is_suffix_of, lemma_lowercase_ignores_ascii_case,
    lowercase, owned, str_eq, to_lowercase, to_uppercase, uppercase,
};

verus! {

/// A request's headers: (name, value) pairs in the order they are read.
pub type Headers = Vec<(String, String)>;

/// The lowercased value of the last header whose lowercased name is `name`,
/// or the empty string when there is none.
pub open spec fn header_value(h: Seq<(String, String)>, name: Seq<char>) -> Seq<char>
    decreases h.len(),
{
    if h.len() == 0 {
        Seq::empty()
    } else if lowercase(h.last().0@) == name {
        lowercase(h.last().1@)
    } else {
        header_value(h.drop_last(), name)
    }
}

/// A header is looked up by its name in any letter case, and the last
/// header of that name counts: its value, in small letters, is what
/// classification reads; without such a header the value read is empty.
pub proof fn lemma_header_value_is_last_match(h: Seq<(String, String)>, name: Seq<char>, i: int)
    ensures
        0 <= i < h.len() && lowercase(h[i].0@) == name && (forall|j: int|
            i < j < h.len() ==> lowercase(#[trigger] h[j].0@) != name) ==> header_value(h, name)
            == lowercase(h[i].1@),
        (forall|j: int| 0 <= j < h.len() ==> lowercase(#[trigger] h[j].0@) != name)
            ==> header_value(h, name).len() == 0,
    decreases h.len(),
{
    if h.len() > 0 {
        lemma_header_value_is_last_match(h.drop_last(), name, i);
        if 0 <= i < h.len() - 1 && lowercase(h[i].0@) == name && (forall|j: int|
            i < j < h.len() ==> lowercase(#[trigger] h[j].0@) != name) {
            assert(lowercase(h[h.len() - 1].0@) != name);
            assert forall|j: int| i < j < h.len() - 1 implies lowercase(
                #[trigger] h.drop_last()[j].0@,
            ) != name by {
                assert(h.drop_last()[j] == h[j]);
            }
            assert(h.drop_last()[i] == h[i]);
        }
        if forall|j: int| 0 <= j < h.len() ==> lowercase(#[trigger] h[j].0@) != name {
            assert(lowercase(h[h.len() - 1].0@) != name);
            assert forall|j: int| 0 <= j < h.len() - 1 implies lowercase(
                #[trigger] h.drop_last()[j].0@,
            ) != name by {
                assert(h.drop_last()[j] == h[j]);
            }
        }
    }
}

/// One of the five category names.
pub open spec fn is_category(c: Seq<char>) -> bool {
    ||| c == "fetch"@
    ||| c == "document"@
    ||| c == "css_js"@
    ||| c == "image"@
    ||| c == "other"@
}

/// `p` occurs in the `Accept` value or in the `Content-Type` value.
pub open spec fn in_either(accept: Seq<char>, content_type: Seq<char>, p: Seq<char>) -> bool {
    has_substring(accept, p) || has_substring(content_type, p)
}

/// A method that browsers only use for programmatic requests.
pub open spec fn is_api_method(upper: Seq<char>) -> bool {
    ||| upper == "POST"@
    ||| upper == "PUT"@
    ||| upper == "PATCH"@
    ||| upper == "DELETE"@
    ||| upper == "OPTIONS"@
}

/// A path (lowercased) that names a script or a style sheet.
pub open spec fn is_script_path(p: Seq<char>) -> bool {
    ||| is_suffix_of(".js"@, p)
    ||| is_suffix_of(".mjs"@, p)
    ||| is_suffix_of(".ts"@, p)
    ||| is_suffix_of(".css"@, p)
}

/// A path (lowercased) that names an image.
pub open spec fn is_image_path(p: Seq<char>) -> bool {
    ||| is_suffix_of(".png"@, p)
    ||| is_suffix_of(".jpg"@, p)
    ||| is_suffix_of(".jpeg"@, p)
    ||| is_suffix_of(".gif"@, p)
    ||| is_suffix_of(".svg"@, p)
    ||| is_suffix_of(".webp"@, p)
    ||| is_suffix_of(".ico"@, p)
}

/// A path (lowercased) that names an HTML page.
pub open spec fn is_html_path(p: Seq<char>) -> bool {
    is_suffix_of(".html"@, p) || is_suffix_of(".htm"@, p)
}

/// The category of a request without `Sec-Fetch-*` information, from its
/// method, path, and lowercased `Accept` and `Content-Type` values.
pub open spec fn fallback_category(
    method: Seq<char>,
    path: Seq<char>,
    accept: Seq<char>,
    content_type: Seq<char>,
) -> Seq<char> {
    lowered_fallback_category(uppercase(method), lowercase(path), accept, content_type)
}

/// [`fallback_category`] once the method is uppercased and the path
/// lowercased.
pub open spec fn lowered_fallback_category(
    upper_method: Seq<char>,
    p: Seq<char>,
    accept: Seq<char>,
    content_type: Seq<char>,
) -> Seq<char> {
    if is_api_method(upper_method) {
        "fetch"@
    } else if in_either(accept, content_type, "text/html"@) {
        "document"@
    } else if in_either(accept, content_type, "text/css"@) {
        "css_js"@
    } else if in_either(accept, content_type, "application/javascript"@) || in_either(
        accept,
        content_type,
        "text/javascript"@,
    ) {
        "css_js"@
    } else if in_either(accept, content_type, "image/"@) {
        "image"@
    } else if in_either(accept, content_type, "application/json"@) || in_either(
        accept,
        content_type,
        "text/json"@,
    ) || in_either(accept, content_type, "application/xml"@) {
        "fetch"@
    } else if is_script_path(p) {
        "css_js"@
    } else if is_image_path(p) {
        "image"@
    } else if is_html_path(p) {
        "document"@
    } else if has_substring(accept, "*/*"@) || accept.len() == 0 {
        "fetch"@
    } else {
        "other"@
    }
}

/// The category that the browser's hints decide, from the lowercased
/// `X-Requested-With`, `Sec-Fetch-Dest` and `Sec-Fetch-Mode` values, if
/// they decide one.
pub open spec fn hinted_category(
    requested_with: Seq<char>,
    dest: Seq<char>,
    mode: Seq<char>,
) -> Option<Seq<char>> {
    if requested_with == "xmlhttprequest"@ {
        Some("fetch"@)
    } else if dest == "document"@ || dest == "iframe"@ {
        Some("document"@)
    } else if dest == "script"@ || dest == "style"@ {
        Some("css_js"@)
    } else if dest == "image"@ {
        Some("image"@)
    } else if dest == "empty"@ {
        Some("fetch"@)
    } else if mode == "navigate"@ {
        Some("document"@)
    } else {
        None
    }
}

/// The category of a request with the given method, path and headers.
pub open spec fn request_category(
    method: Seq<char>,
    path: Seq<char>,
    h: Seq<(String, String)>,
) -> Seq<char> {
    match hinted_category(
        header_value(h, "x-requested-with"@),
        header_value(h, "sec-fetch-dest"@),
        header_value(h, "sec-fetch-mode"@),
    ) {
        Some(c) => c,
        None => fallback_category(
            method,
            path,
            header_value(h, "accept"@),
            header_value(h, "content-type"@),
        ),
    }
}

/// Every request falls in exactly one of the five categories that the log
/// filters offer.
pub proof fn lemma_category_is_known(method: Seq<char>, path: Seq<char>, h: Seq<(String, String)>)
    ensures
        is_category(request_category(method, path, h)),
{
}

/// A request that announces itself as `XMLHttpRequest` (in any letter case
/// of the header name, the last such header counting) is a fetch, whatever
/// its other headers say.
pub proof fn lemma_xhr_is_fetch(method: Seq<char>, path: Seq<char>, h: Seq<(String, String)>)
    requires
        header_value(h, "x-requested-with"@) == "xmlhttprequest"@,
    ensures
        request_category(method, path, h) == "fetch"@,
{
}

/// Without `X-Requested-With`, `Sec-Fetch-Dest` or `Sec-Fetch-Mode`, the
/// method, `Accept`, `Content-Type` and path decide alone.
pub proof fn lemma_no_browser_hints(method: Seq<char>, path: Seq<char>, h: Seq<(String, String)>)
    requires
        header_value(h, "x-requested-with"@).len() == 0,
        header_value(h, "sec-fetch-dest"@).len() == 0,
        header_value(h, "sec-fetch-mode"@).len() == 0,
    ensures
        request_category(method, path, h) == fallback_category(
            method,
            path,
            header_value(h, "accept"@),
            header_value(h, "content-type"@),
        ),
{
    reveal_strlit("xmlhttprequest");
    reveal_strlit("document");
    reveal_strlit("iframe");
    reveal_strlit("script");
    reveal_strlit("style");
    reveal_strlit("image");
    reveal_strlit("empty");
    reveal_strlit("navigate");
}

// ---------------------------------------------------------------------------
// The classification rules, stated on their own
// ---------------------------------------------------------------------------

/// The `Accept` value `a` or the `Content-Type` value `c` mentions `t`.
pub open spec fn mentions_type(a: Seq<char>, c: Seq<char>, t: Seq<char>) -> bool {
    has_substring(a, t) || has_substring(c, t)
}

/// The method, in capitals, is one that only scripts send.
pub open spec fn scripted_method(method: Seq<char>) -> bool {
    let m = uppercase(method);
    m == "POST"@ || m == "PUT"@ || m == "PATCH"@ || m == "DELETE"@ || m == "OPTIONS"@
}

/// `a` or `c` mentions a page, style, script or image type.
pub open spec fn mentions_resource_type(a: Seq<char>, c: Seq<char>) -> bool {
    ||| mentions_type(a, c, "text/html"@)
    ||| mentions_type(a, c, "text/css"@)
    ||| mentions_type(a, c, "application/javascript"@)
    ||| mentions_type(a, c, "text/javascript"@)
    ||| mentions_type(a, c, "image/"@)
}

/// `a` or `c` mentions a data type (JSON or XML).
pub open spec fn mentions_data_type(a: Seq<char>, c: Seq<char>) -> bool {
    ||| mentions_type(a, c, "application/json"@)
    ||| mentions_type(a, c, "text/json"@)
    ||| mentions_type(a, c, "application/xml"@)
}

/// The path, in small letters, ends in the extension `x`.
pub open spec fn path_ends_in(path: Seq<char>, x: Seq<char>) -> bool {
    is_suffix_of(x, lowercase(path))
}

/// The path names a script, style sheet, image or page by its extension.
pub open spec fn path_has_known_extension(path: Seq<char>) -> bool {
    ||| path_ends_in(path, ".js"@) || path_ends_in(path, ".mjs"@) || path_ends_in(path, ".ts"@)
    ||| path_ends_in(path, ".css"@)
    ||| path_ends_in(path, ".png"@) || path_ends_in(path, ".jpg"@) || path_ends_in(path, ".jpeg"@)
    ||| path_ends_in(path, ".gif"@) || path_ends_in(path, ".svg"@) || path_ends_in(path, ".webp"@)
    ||| path_ends_in(path, ".ico"@)
    ||| path_ends_in(path, ".html"@) || path_ends_in(path, ".htm"@)
}

/// How a request without browser hints is classified, rule by rule: a
/// method that only scripts send is a fetch; so is a request for JSON or
/// XML that names no page, style, script or image type, whatever its
/// method. Otherwise the first of the page, style, script and image types
/// that `Accept` or `Content-Type` mentions decides; then the path's
/// extension; then `*/*` or an empty `Accept` mean a fetch, and anything
/// else is "other".
pub proof fn lemma_fallback_rules(method: Seq<char>, path: Seq<char>, a: Seq<char>, c: Seq<char>)
    ensures
        scripted_method(method) ==> fallback_category(method, path, a, c) == "fetch"@,
        mentions_data_type(a, c) && !mentions_resource_type(a, c) ==> fallback_category(
            method,
            path,
            a,
            c,
        ) == "fetch"@,
        !scripted_method(method) && mentions_type(a, c, "text/html"@) ==> fallback_category(
            method,
            path,
            a,
            c,
        ) == "document"@,
        !scripted_method(method) && !mentions_type(a, c, "text/html"@) && (mentions_type(
            a,
            c,
            "text/css"@,
        ) || mentions_type(a, c, "application/javascript"@) || mentions_type(
            a,
            c,
            "text/javascript"@,
        )) ==> fallback_category(method, path, a, c) == "css_js"@,
        !scripted_method(method) && !mentions_type(a, c, "text/html"@) && !mentions_type(
            a,
            c,
            "text/css"@,
        ) && !mentions_type(a, c, "application/javascript"@) && !mentions_type(
            a,
            c,
            "text/javascript"@,
        ) && mentions_type(a, c, "image/"@) ==> fallback_category(method, path, a, c)
            == "image"@,
        !scripted_method(method) && !mentions_resource_type(a, c) && !mentions_data_type(a, c)
            ==> {
            &&& (path_ends_in(path, ".js"@) || path_ends_in(path, ".mjs"@) || path_ends_in(
                path,
                ".ts"@,
            ) || path_ends_in(path, ".css"@)) ==> fallback_category(method, path, a, c)
                == "css_js"@
            &&& path_has_known_extension(path) && !path_ends_in(path, ".js"@) && !path_ends_in(
                path,
                ".mjs"@,
            ) && !path_ends_in(path, ".ts"@) && !path_ends_in(path, ".css"@) && !path_ends_in(
                path,
                ".html"@,
            ) && !path_ends_in(path, ".htm"@) ==> fallback_category(method, path, a, c)
                == "image"@
            &&& (path_ends_in(path, ".html"@) || path_ends_in(path, ".htm"@))
                && !path_ends_in(path, ".js"@) && !path_ends_in(path, ".mjs"@) && !path_ends_in(
                path,
                ".ts"@,
            ) && !path_ends_in(path, ".css"@) && !path_ends_in(path, ".png"@) && !path_ends_in(
                path,
                ".jpg"@,
            ) && !path_ends_in(path, ".jpeg"@) && !path_ends_in(path, ".gif"@) && !path_ends_in(
                path,
                ".svg"@,
            ) && !path_ends_in(path, ".webp"@) && !path_ends_in(path, ".ico"@)
                ==> fallback_category(method, path, a, c) == "document"@
            &&& !path_has_known_extension(path) && (has_substring(a, "*/*"@) || a.len() == 0)
                ==> fallback_category(method, path, a, c) == "fetch"@
            &&& !path_has_known_extension(path) && !has_substring(a, "*/*"@) && a.len() > 0
                ==> fallback_category(method, path, a, c) == "other"@
        },
{
}

/// What the browser's hints decide, rule by rule: `X-Requested-With:
/// XMLHttpRequest` (in any letter case) is a fetch; otherwise the
/// `Sec-Fetch-Dest` value decides (document and iframe are documents,
/// script and style are styles and scripts, image is an image, empty is a
/// fetch); otherwise `Sec-Fetch-Mode: navigate` is a document; otherwise
/// the hints decide nothing.
pub proof fn lemma_hint_rules(method: Seq<char>, path: Seq<char>, h: Seq<(String, String)>)
    ensures
        ({
            let xrw = header_value(h, "x-requested-with"@);
            let dest = header_value(h, "sec-fetch-dest"@);
            let mode = header_value(h, "sec-fetch-mode"@);
            let cat = request_category(method, path, h);
            &&& xrw == "xmlhttprequest"@ ==> cat == "fetch"@
            &&& xrw != "xmlhttprequest"@ ==> {
                &&& (dest == "document"@ || dest == "iframe"@) ==> cat == "document"@
                &&& (dest == "script"@ || dest == "style"@) ==> cat == "css_js"@
                &&& dest == "image"@ ==> cat == "image"@
                &&& dest == "empty"@ ==> cat == "fetch"@
                &&& dest != "document"@ && dest != "iframe"@ && dest != "script"@ && dest
                    != "style"@ && dest != "image"@ && dest != "empty"@ ==> {
                    &&& mode == "navigate"@ ==> cat == "document"@
                    &&& mode != "navigate"@ ==> cat == fallback_category(
                        method,
                        path,
                        header_value(h, "accept"@),
                        header_value(h, "content-type"@),
                    )
                }
            }
        }),
{
    reveal_strlit("xmlhttprequest");
    reveal_strlit("document");
    reveal_strlit("iframe");
    reveal_strlit("script");
    reveal_strlit("style");
    reveal_strlit("image");
    reveal_strlit("empty");
    reveal_strlit("navigate");
    assert("script"@ != "document"@ && "script"@ != "iframe"@) by {
        assert("script"@[0] != "iframe"@[0]);
    }
    assert("style"@ != "document"@ && "style"@ != "iframe"@) by {
        assert("style"@[0] != "document"@[0] && "style"@[0] != "iframe"@[0]);
    }
    assert("image"@ != "document"@ && "image"@ != "iframe"@ && "image"@ != "script"@) by {
        assert("image"@[1] != "iframe"@[1]);
    }
    assert("image"@ != "style"@) by {
        assert("image"@[0] != "style"@[0]);
    }
    assert("empty"@ != "document"@ && "empty"@ != "iframe"@ && "empty"@ != "script"@) by {
        assert("empty"@[0] != "script"@[0]);
    }
    assert("empty"@ != "style"@ && "empty"@ != "image"@) by {
        assert("empty"@[0] != "style"@[0]);
        assert("empty"@[0] != "image"@[0]);
    }
}

/// Two texts that differ at most in the case of their ASCII letters.
pub open spec fn same_ascii_ignoring_case(a: Seq<char>, b: Seq<char>) -> bool {
    ascii_lowered(a) == ascii_lowered(b)
}

/// Two header lists, entry by entry alike but for the ASCII letter case of
/// the names and the values.
pub open spec fn headers_alike_ignoring_case(h1: Seq<(String, String)>, h2: Seq<(String, String)>) -> bool {
    &&& h1.len() == h2.len()
    &&& forall|i: int|
        0 <= i < h1.len() ==> same_ascii_ignoring_case(#[trigger] h1[i].0@, h2[i].0@)
            && same_ascii_ignoring_case(h1[i].1@, h2[i].1@)
}

/// Header lookup ignores the ASCII letter case of names and values.
pub proof fn lemma_header_value_ignores_case(
    h1: Seq<(String, String)>,
    h2: Seq<(String, String)>,
    name: Seq<char>,
)
    requires
        headers_alike_ignoring_case(h1, h2),
    ensures
        header_value(h1, name) == header_value(h2, name),
    decreases h1.len(),
{
    if h1.len() > 0 {
        assert(same_ascii_ignoring_case(h1[h1.len() - 1].0@, h2[h2.len() - 1].0@));
        lemma_lowercase_ignores_ascii_case(h1.last().0@, h2.last().0@);
        lemma_lowercase_ignores_ascii_case(h1.last().1@, h2.last().1@);
        assert(headers_alike_ignoring_case(h1.drop_last(), h2.drop_last())) by {
            assert forall|i: int| 0 <= i < h1.len() - 1 implies same_ascii_ignoring_case(
                #[trigger] h1.drop_last()[i].0@,
                h2.drop_last()[i].0@,
            ) && same_ascii_ignoring_case(h1.drop_last()[i].1@, h2.drop_last()[i].1@) by {
                assert(same_ascii_ignoring_case(h1[i].0@, h2[i].0@));
            }
        }
        lemma_header_value_ignores_case(h1.drop_last(), h2.drop_last(), name);
    }
}

/// A request's category does not depend on the case of the ASCII letters
/// in its header names or header values, whatever other characters they
/// hold: `Accept`, `accept` and `ACCEPT` are one header, and
/// `XMLHttpRequest` is `xmlhttprequest`.
pub proof fn lemma_category_ignores_header_case(
    method: Seq<char>,
    path: Seq<char>,
    h1: Seq<(String, String)>,
    h2: Seq<(String, String)>,
)
    requires
        headers_alike_ignoring_case(h1, h2),
    ensures
        request_category(method, path, h1) == request_category(method, path, h2),
{
    lemma_header_value_ignores_case(h1, h2, "x-requested-with"@);
    lemma_header_value_ignores_case(h1, h2, "sec-fetch-dest"@);
    lemma_header_value_ignores_case(h1, h2, "sec-fetch-mode"@);
    lemma_header_value_ignores_case(h1, h2, "accept"@);
    lemma_header_value_ignores_case(h1, h2, "content-type"@);
}

/// One of the five header names that classification reads.
pub open spec fn is_read_header(name: Seq<char>) -> bool {
    ||| name == "x-requested-with"@
    ||| name == "sec-fetch-dest"@
    ||| name == "sec-fetch-mode"@
    ||| name == "accept"@
    ||| name == "content-type"@
}

/// A header whose lowercased name differs from `name` does not change the
/// value looked up under `name`, wherever it stands.
pub proof fn lemma_other_header_ignored(
    h: Seq<(String, String)>,
    k: int,
    e: (String, String),
    name: Seq<char>,
)
    requires
        0 <= k <= h.len(),
        lowercase(e.0@) != name,
    ensures
        header_value(h.insert(k, e), name) == header_value(h, name),
    decreases h.len(),
{
    let g = h.insert(k, e);
    if k == h.len() {
        assert(g.drop_last() =~= h);
    } else {
        assert(g.last() == h.last());
        assert(g.drop_last() =~= h.drop_last().insert(k, e));
        lemma_other_header_ignored(h.drop_last(), k, e, name);
    }
}

/// Adding a header that classification does not read, anywhere in the
/// list, leaves the category as it was.
pub proof fn lemma_category_ignores_other_headers(
    method: Seq<char>,
    path: Seq<char>,
    h: Seq<(String, String)>,
    k: int,
    e: (String, String),
)
    requires
        0 <= k <= h.len(),
        !is_read_header(lowercase(e.0@)),
    ensures
        request_category(method, path, h.insert(k, e)) == request_category(method, path, h),
{
    lemma_other_header_ignored(h, k, e, "x-requested-with"@);
    lemma_other_header_ignored(h, k, e, "sec-fetch-dest"@);
    lemma_other_header_ignored(h, k, e, "sec-fetch-mode"@);
    lemma_other_header_ignored(h, k, e, "accept"@);
    lemma_other_header_ignored(h, k, e, "content-type"@);
}

/// The category that the lowercased `X-Requested-With`, `Sec-Fetch-Dest`
/// and `Sec-Fetch-Mode` values decide, if they decide one.
pub fn classify_hints(requested_with: &str, dest: &str, mode: &str) -> (r: Option<String>)
    ensures
        r.is_some() == hinted_category(requested_with@, dest@, mode@).is_some(),
        r matches Some(c) ==> c@ == hinted_category(requested_with@, dest@, mode@).unwrap(),
{
    if str_eq(requested_with, "xmlhttprequest") {
        return Some(owned("fetch"));
    }
    if !dest.is_empty() {
        if str_eq(dest, "document") || str_eq(dest, "iframe") {
            return Some(owned("document"));
        }
        if str_eq(dest, "script") || str_eq(dest, "style") {
            return Some(owned("css_js"));
        }
        if str_eq(dest, "image") {
            return Some(owned("image"));
        }
        if str_eq(dest, "empty") {
            return Some(owned("fetch"));
        }
    }
    proof {
        reveal_strlit("document");
        reveal_strlit("iframe");
        reveal_strlit("script");
        reveal_strlit("style");
        reveal_strlit("image");
        reveal_strlit("empty");
    }
    if str_eq(mode, "navigate") {
        return Some(owned("document"));
    }
    None
}

/// `p` occurs in `accept` or in `content_type`.
fn occurs_in_either(accept: &str, content_type: &str, p: &str) -> (r: bool)
    ensures
        r == in_either(accept@, content_type@, p@),
{
    contains(accept, p) || contains(content_type, p)
}

/// The category of a request that carries no `Sec-Fetch-*` decision, from
/// its method, path and lowercased `Accept` and `Content-Type` values.
pub fn categorize_request_fallback(method: &str, path: &str, accept: &str, content_type: &str) -> (r:
    String)
    ensures
        r@ == fallback_category(method@, path@, accept@, content_type@),
{
    let method_upper = to_uppercase(method);
    let path_lower = to_lowercase(path);
    classify_lowered(method_upper.as_str(), path_lower.as_str(), accept, content_type)
}

/// [`categorize_request_fallback`] on an uppercased method and a lowercased
/// path.
pub fn classify_lowered(m: &str, pl: &str, accept: &str, content_type: &str) -> (r: String)
    ensures
        r@ == lowered_fallback_category(m@, pl@, accept@, content_type@),
{
    if str_eq(m, "POST") || str_eq(m, "PUT") || str_eq(m, "PATCH") || str_eq(m, "DELETE")
        || str_eq(m, "OPTIONS") {
        return owned("fetch");
    }
    if occurs_in_either(accept, content_type, "text/html") {
        return owned("document");
    }
    if occurs_in_either(accept, content_type, "text/css") {
        return owned("css_js");
    }
    if occurs_in_either(accept, content_type, "application/javascript") || occurs_in_either(
        accept,
        content_type,
        "text/javascript",
    ) {
        return owned("css_js");
    }
    if occurs_in_either(accept, content_type, "image/") {
        return owned("image");
    }
    if occurs_in_either(accept, content_type, "application/json") || occurs_in_either(
        accept,
        content_type,
        "text/json",
    ) || occurs_in_either(accept, content_type, "application/xml") {
        return owned("fetch");
    }
    if ends_with(pl, ".js") || ends_with(pl, ".mjs") || ends_with(pl, ".ts") || ends_with(
        pl,
        ".css",
    ) {
        return owned("css_js");
    }
    if ends_with(pl, ".png") || ends_with(pl, ".jpg") || ends_with(pl, ".jpeg") || ends_with(
        pl,
        ".gif",
    ) || ends_with(pl, ".svg") || ends_with(pl, ".webp") || ends_with(pl, ".ico") {
        return owned("image");
    }
    if ends_with(pl, ".html") || ends_with(pl, ".htm") {
        return owned("document");
    }
    if contains(accept, "*/*") || accept.is_empty() {
        return owned("fetch");
    }
    owned("other")
}

/// The category of a request: "fetch", "document", "css_js", "image" or
/// "other" (see [`request_category`]).
pub fn categorize_request(method: &str, path: &str, headers: &Headers) -> (r: String)
    ensures
        r@ == request_category(method@, path@, headers@),
{
    let mut sec_fetch_dest = String::new();
    let mut sec_fetch_mode = String::new();
    let mut x_requested_with = String::new();
    let mut accept = String::new();
    let mut content_type = String::new();
    let mut i: usize = 0;
    while i < headers.len()
        invariant
            i <= headers.len(),
            sec_fetch_dest@ == header_value(headers@.take(i as int), "sec-fetch-dest"@),
            sec_fetch_mode@ == header_value(headers@.take(i as int), "sec-fetch-mode"@),
            x_requested_with@ == header_value(headers@.take(i as int), "x-requested-with"@),
            accept@ == header_value(headers@.take(i as int), "accept"@),
            content_type@ == header_value(headers@.take(i as int), "content-type"@),
        decreases headers.len() - i,
    {
        assert(headers@.take(i + 1).drop_last() =~= headers@.take(i as int));
        let (k, v) = &headers[i];
        let key = to_lowercase(k.as_str());
        let kk = key.as_str();
        // The five names are distinct, so at most one of these applies.
        if str_eq(kk, "sec-fetch-dest") {
            sec_fetch_dest = to_lowercase(v.as_str());
        }
        if str_eq(kk, "sec-fetch-mode") {
            sec_fetch_mode = to_lowercase(v.as_str());
        }
        if str_eq(kk, "x-requested-with") {
            x_requested_with = to_lowercase(v.as_str());
        }
        if str_eq(kk, "accept") {
            accept = to_lowercase(v.as_str());
        }
        if str_eq(kk, "content-type") {
            content_type = to_lowercase(v.as_str());
        }
        i = i + 1;
    }
    assert(headers@.take(headers.len() as int) =~= headers@);
    match classify_hints(x_requested_with.as_str(), sec_fetch_dest.as_str(), sec_fetch_mode.as_str()) {
        Some(c) => c,
        None => categorize_request_fallback(method, path, accept.as_str(), content_type.as_str()),
    }
}

} // verus!
