//! Character-level text helpers: comparisons, searches and rewrites of
//! strings, each stated over the string's characters (`Seq<char>`).
use vstd::prelude::*;

verus! {

// ---------------------------------------------------------------------------
// Specifications
// ---------------------------------------------------------------------------

/// `p` is a prefix of `s`.
pub open spec fn is_prefix_of(p: Seq<char>, s: Seq<char>) -> bool {
    p.len() <= s.len() && s.take(p.len() as int) == p
}

/// `p` is a suffix of `s`.
pub open spec fn is_suffix_of(p: Seq<char>, s: Seq<char>) -> bool {
    p.len() <= s.len() && s.skip(s.len() - p.len()) == p
}

/// `p` occurs in `s` starting at position `i`.
pub open spec fn occurs_at(s: Seq<char>, p: Seq<char>, i: int) -> bool {
    0 <= i && i + p.len() <= s.len() && s.subrange(i, i + p.len()) == p
}

/// `p` occurs somewhere in `s` (the empty pattern occurs in every string).
pub open spec fn has_substring(s: Seq<char>, p: Seq<char>) -> bool {
    exists|i: int| occurs_at(s, p, i)
}

// ---------------------------------------------------------------------------
// Conversions between strings and character vectors
// ---------------------------------------------------------------------------

/// Appends one character to a string (`String::push`).
#[verifier::external_body]
fn push_char(s: &mut String, c: char)
    ensures
        final(s)@ == old(s)@.push(c),
{
    s.push(c);
}

/// The characters of `s`, in order.
pub fn to_chars(s: &str) -> (r: Vec<char>)
    ensures
        r@ == s@,
{
    let mut r: Vec<char> = Vec::new();
    for c in it: s.chars()
        invariant
            r@ == it.seq().take(it.index()),
    {
        r.push(c);
    }
    r
}

/// The string made of the characters `v[start..end]`.
pub fn from_char_range(v: &Vec<char>, start: usize, end: usize) -> (r: String)
    requires
        start <= end <= v.len(),
    ensures
        r@ == v@.subrange(start as int, end as int),
{
    let mut r = String::new();
    let mut i: usize = start;
    while i < end
        invariant
            start <= i <= end <= v.len(),
            r@ == v@.subrange(start as int, i as int),
        decreases end - i,
    {
        push_char(&mut r, v[i]);
        assert(v@.subrange(start as int, i + 1) == v@.subrange(start as int, i as int).push(v@[i as int]));
        i = i + 1;
    }
    r
}

/// The string made of the characters of `v`.
pub fn from_chars(v: &Vec<char>) -> (r: String)
    ensures
        r@ == v@,
{
    let r = from_char_range(v, 0, v.len());
    assert(v@.subrange(0, v@.len() as int) == v@);
    r
}

/// A copy of `s` as an owned string.
pub fn owned(s: &str) -> (r: String)
    ensures
        r@ == s@,
{
    s.to_owned()
}

/// `a` followed by `b`.
pub fn join2(a: &str, b: &str) -> (r: String)
    ensures
        r@ == a@ + b@,
{
    let mut r = a.to_owned();
    r.append(b);
    r
}

/// `a`, `b` and `c` one after another.
pub fn join3(a: &str, b: &str, c: &str) -> (r: String)
    ensures
        r@ == a@ + b@ + c@,
{
    let mut r = a.to_owned();
    r.append(b);
    r.append(c);
    r
}

// ---------------------------------------------------------------------------
// Comparisons and searches
// ---------------------------------------------------------------------------

/// Whether `p` occurs in `s` at position `i`, which leaves room for it.
fn chars_match_at(s: &Vec<char>, p: &Vec<char>, i: usize) -> (r: bool)
    requires
        i + p.len() <= s.len(),
    ensures
        r == (s@.subrange(i as int, i + p.len()) == p@),
{
    let mut j: usize = 0;
    while j < p.len()
        invariant
            i + p.len() <= s.len(),
            j <= p.len(),
            forall|k: int| 0 <= k < j ==> s@[i + k] == p@[k],
        decreases p.len() - j,
    {
        if s[i + j] != p[j] {
            assert(s@.subrange(i as int, i + p.len())[j as int] != p@[j as int]);
            return false;
        }
        j = j + 1;
    }
    assert(s@.subrange(i as int, i + p.len()) =~= p@);
    true
}

/// Whether two strings hold the same characters.
pub fn str_eq(a: &str, b: &str) -> (r: bool)
    ensures
        r == (a@ == b@),
{
    let av = to_chars(a);
    let bv = to_chars(b);
    if av.len() != bv.len() {
        return false;
    }
    let r = chars_match_at(&av, &bv, 0);
    assert(av@.subrange(0, bv@.len() as int) =~= av@);
    r
}

/// Whether `s` starts with `p`.
pub fn starts_with(s: &str, p: &str) -> (r: bool)
    ensures
        r == is_prefix_of(p@, s@),
{
    let sv = to_chars(s);
    let pv = to_chars(p);
    if pv.len() > sv.len() {
        return false;
    }
    let r = chars_match_at(&sv, &pv, 0);
    assert(sv@.take(pv@.len() as int) =~= sv@.subrange(0, pv@.len() as int));
    r
}

/// Whether `s` ends with `p`.
pub fn ends_with(s: &str, p: &str) -> (r: bool)
    ensures
        r == is_suffix_of(p@, s@),
{
    let sv = to_chars(s);
    let pv = to_chars(p);
    if pv.len() > sv.len() {
        return false;
    }
    let start = sv.len() - pv.len();
    let r = chars_match_at(&sv, &pv, start);
    assert(sv@.skip(start as int) =~= sv@.subrange(start as int, start + pv@.len()));
    r
}

/// Whether `p` occurs anywhere in `s`.
pub fn contains(s: &str, p: &str) -> (r: bool)
    ensures
        r == has_substring(s@, p@),
{
    let sv = to_chars(s);
    let pv = to_chars(p);
    if pv.len() > sv.len() {
        assert forall|i: int| !occurs_at(s@, p@, i) by {}
        return false;
    }
    let last = sv.len() - pv.len();
    let mut i: usize = 0;
    while i <= last
        invariant
            sv@ == s@,
            pv@ == p@,
            last + pv.len() == sv.len(),
            i <= last,
            forall|k: int| 0 <= k < i ==> !occurs_at(s@, p@, k),
        ensures
            forall|k: int| 0 <= k <= last ==> !occurs_at(s@, p@, k),
        decreases last - i,
    {
        if chars_match_at(&sv, &pv, i) {
            assert(occurs_at(s@, p@, i as int));
            return true;
        }
        if i == last {
            break;
        }
        i = i + 1;
    }
    assert forall|k: int| !occurs_at(s@, p@, k) by {
        if 0 <= k && k + p@.len() <= s@.len() {
            assert(k <= last);
        }
    }
    false
}


// ---------------------------------------------------------------------------
// Case and character classes (Unicode tables, taken from std)
// ---------------------------------------------------------------------------

/// An ASCII character.
pub open spec fn is_ascii_char(c: char) -> bool {
    (c as u32) < 128
}

/// A string of ASCII characters only.
pub open spec fn is_ascii(s: Seq<char>) -> bool {
    forall|i: int| 0 <= i < s.len() ==> #[trigger] is_ascii_char(s[i])
}

/// `c` with an ASCII capital letter turned into its small letter.
pub open spec fn ascii_lower_char(c: char) -> char {
    if 'A' <= c && c <= 'Z' {
        ((c as u32) + 32) as char
    } else {
        c
    }
}

/// `c` with an ASCII small letter turned into its capital letter.
pub open spec fn ascii_upper_char(c: char) -> char {
    if 'a' <= c && c <= 'z' {
        ((c as u32) - 32) as char
    } else {
        c
    }
}

/// `s` with its ASCII capital letters made small.
pub open spec fn ascii_lowered(s: Seq<char>) -> Seq<char> {
    s.map_values(|c: char| ascii_lower_char(c))
}

/// `s` with its ASCII small letters made capital.
pub open spec fn ascii_uppered(s: Seq<char>) -> Seq<char> {
    s.map_values(|c: char| ascii_upper_char(c))
}

/// The result of `str::to_lowercase` on a string with these characters.
pub uninterp spec fn str_lowercase(s: Seq<char>) -> Seq<char>;

/// The result of `str::to_uppercase` on a string with these characters.
pub uninterp spec fn str_uppercase(s: Seq<char>) -> Seq<char>;

/// The result of `char::is_alphanumeric` (Unicode Alphabetic or Numeric).
pub uninterp spec fn char_alphanumeric(c: char) -> bool;

/// The lowercase form of `s` that `str::to_lowercase` gives: on ASCII text,
/// every capital letter made small; otherwise Unicode's case mapping, which
/// gives the same for `s` as for `s` with its ASCII capitals made small.
pub open spec fn lowercase(s: Seq<char>) -> Seq<char> {
    if is_ascii(s) {
        ascii_lowered(s)
    } else {
        str_lowercase(ascii_lowered(s))
    }
}

/// The uppercase form of `s` that `str::to_uppercase` gives: on ASCII text,
/// every small letter made capital; otherwise Unicode's case mapping, which
/// gives the same for `s` as for `s` with its ASCII small letters made
/// capital.
pub open spec fn uppercase(s: Seq<char>) -> Seq<char> {
    if is_ascii(s) {
        ascii_uppered(s)
    } else {
        str_uppercase(ascii_uppered(s))
    }
}

/// Making ASCII capitals small keeps a text ASCII or not ASCII.
pub proof fn lemma_ascii_lowered_keeps_ascii(s: Seq<char>)
    ensures
        is_ascii(ascii_lowered(s)) == is_ascii(s),
        ascii_lowered(ascii_lowered(s)) == ascii_lowered(s),
{
    assert forall|i: int| 0 <= i < s.len() implies is_ascii_char(#[trigger] ascii_lowered(s)[i])
        == is_ascii_char(s[i]) && ascii_lower_char(ascii_lowered(s)[i]) == ascii_lowered(s)[i] by {
        let c = s[i];
        if 'A' <= c && c <= 'Z' {
            assert(((c as u32) + 32) as char as u32 == (c as u32) + 32);
        }
    }
    if !is_ascii(s) {
        let i = choose|i: int| 0 <= i < s.len() && !is_ascii_char(s[i]);
        assert(!is_ascii_char(ascii_lowered(s)[i]));
    }
    if !is_ascii(ascii_lowered(s)) {
        let i = choose|i: int| 0 <= i < s.len() && !is_ascii_char(ascii_lowered(s)[i]);
        assert(!is_ascii_char(s[i]));
    }
    assert(ascii_lowered(ascii_lowered(s)) =~= ascii_lowered(s));
}

/// Texts that differ only in the case of their ASCII letters have the same
/// lowercase form.
pub proof fn lemma_lowercase_ignores_ascii_case(a: Seq<char>, b: Seq<char>)
    requires
        ascii_lowered(a) == ascii_lowered(b),
    ensures
        lowercase(a) == lowercase(b),
{
    lemma_ascii_lowered_keeps_ascii(a);
    lemma_ascii_lowered_keeps_ascii(b);
}

/// Whether `c` has the Unicode White_Space property, as `char::is_whitespace`
/// tells: the 25 code points U+0009 to U+000D, U+0020, U+0085, U+00A0,
/// U+1680, U+2000 to U+200A, U+2028, U+2029, U+202F, U+205F and U+3000.
pub open spec fn white_space(c: char) -> bool {
    let n = c as u32;
    ||| 0x09 <= n && n <= 0x0d
    ||| n == 0x20 || n == 0x85 || n == 0xa0 || n == 0x1680
    ||| 0x2000 <= n && n <= 0x200a
    ||| n == 0x2028 || n == 0x2029 || n == 0x202f || n == 0x205f || n == 0x3000
}

/// Whether `c` is alphanumeric, as `char::is_alphanumeric` tells: for an
/// ASCII character a digit or a letter; otherwise Unicode's Alphabetic or
/// Numeric property.
pub open spec fn alphanumeric(c: char) -> bool {
    if is_ascii_char(c) {
        ('0' <= c && c <= '9') || ('A' <= c && c <= 'Z') || ('a' <= c && c <= 'z')
    } else {
        char_alphanumeric(c)
    }
}

/// `str::to_lowercase`: the lowercase form of `s` under Unicode's case
/// mapping, a function of `s`. The contract also states that it maps the
/// ASCII capitals to their small letters, so that the result is the same
/// for `s` as for `s` with those made small (no context rule of the mapping
/// looks at the case of a letter), and that on ASCII text it changes
/// nothing else; of other characters it states nothing more.
#[verifier::external_body]
pub(crate) fn to_lowercase(s: &str) -> (r: String)
    ensures
        r@ == str_lowercase(s@),
        r@ == str_lowercase(ascii_lowered(s@)),
        is_ascii(s@) ==> r@ == ascii_lowered(s@),
{
    s.to_lowercase()
}

/// `str::to_uppercase`: the uppercase form of `s` under Unicode's case
/// mapping, a function of `s`. The contract also states that it maps the
/// ASCII small letters to their capitals, so that the result is the same
/// for `s` as for `s` with those made capital, and that on ASCII text it
/// changes nothing else; of other characters it states nothing more.
#[verifier::external_body]
pub(crate) fn to_uppercase(s: &str) -> (r: String)
    ensures
        r@ == str_uppercase(s@),
        r@ == str_uppercase(ascii_uppered(s@)),
        is_ascii(s@) ==> r@ == ascii_uppered(s@),
{
    s.to_uppercase()
}

/// Whether `c` has the Unicode White_Space property (the 25 code points of
/// [`white_space`]), as `char::is_whitespace` tells.
pub fn is_whitespace(c: char) -> (r: bool)
    ensures
        r == white_space(c),
{
    let n = c as u32;
    (0x09 <= n && n <= 0x0d) || n == 0x20 || n == 0x85 || n == 0xa0 || n == 0x1680 || (0x2000
        <= n && n <= 0x200a) || n == 0x2028 || n == 0x2029 || n == 0x202f || n == 0x205f || n
        == 0x3000
}

/// `char::is_alphanumeric`: whether `c` is Unicode Alphabetic or Numeric,
/// which for an ASCII character means a digit or a letter.
#[verifier::external_body]
pub(crate) fn is_alphanumeric(c: char) -> (r: bool)
    ensures
        r == char_alphanumeric(c),
        is_ascii_char(c) ==> r == (('0' <= c && c <= '9') || ('A' <= c && c <= 'Z') || ('a' <= c
            && c <= 'z')),
{
    c.is_alphanumeric()
}

// ---------------------------------------------------------------------------
// Trimming and rewriting
// ---------------------------------------------------------------------------

/// `s` without its leading whitespace.
pub open spec fn trim_start(s: Seq<char>) -> Seq<char>
    decreases s.len(),
{
    if s.len() > 0 && white_space(s[0]) {
        trim_start(s.skip(1))
    } else {
        s
    }
}

/// `s` without its trailing whitespace.
pub open spec fn trim_end(s: Seq<char>) -> Seq<char>
    decreases s.len(),
{
    if s.len() > 0 && white_space(s.last()) {
        trim_end(s.drop_last())
    } else {
        s
    }
}

/// `s` without leading and trailing whitespace (as `str::trim`).
pub open spec fn trimmed(s: Seq<char>) -> Seq<char> {
    trim_end(trim_start(s))
}

/// Where [`trim_start`] cuts: the leading whitespace before `i` goes.
proof fn lemma_trim_start_cut(s: Seq<char>) -> (i: int)
    ensures
        0 <= i <= s.len(),
        trim_start(s) == s.skip(i),
        forall|k: int| 0 <= k < i ==> white_space(#[trigger] s[k]),
        i < s.len() ==> !white_space(s[i]),
    decreases s.len(),
{
    if s.len() > 0 && white_space(s[0]) {
        let j = lemma_trim_start_cut(s.skip(1));
        assert(s.skip(1).skip(j) =~= s.skip(j + 1));
        assert forall|k: int| 0 <= k < j + 1 implies white_space(#[trigger] s[k]) by {
            if k > 0 {
                assert(s[k] == s.skip(1)[k - 1]);
            }
        }
        if j + 1 < s.len() {
            assert(s[j + 1] == s.skip(1)[j]);
        }
        j + 1
    } else {
        assert(s.skip(0) =~= s);
        0
    }
}

/// Where [`trim_end`] cuts: the trailing whitespace from `j` on goes.
proof fn lemma_trim_end_cut(s: Seq<char>) -> (j: int)
    ensures
        0 <= j <= s.len(),
        trim_end(s) == s.take(j),
        forall|k: int| j <= k < s.len() ==> white_space(#[trigger] s[k]),
        j > 0 ==> !white_space(s[j - 1]),
    decreases s.len(),
{
    if s.len() > 0 && white_space(s.last()) {
        let j = lemma_trim_end_cut(s.drop_last());
        assert(s.drop_last().take(j) =~= s.take(j));
        assert forall|k: int| j <= k < s.len() implies white_space(#[trigger] s[k]) by {
            if k < s.len() - 1 {
                assert(s[k] == s.drop_last()[k]);
            }
        }
        if j > 0 {
            assert(s[j - 1] == s.drop_last()[j - 1]);
        }
        j
    } else {
        assert(s.take(s.len() as int) =~= s);
        s.len() as int
    }
}

/// Trimming removes whitespace at both ends and nothing else: the result
/// is a piece of `s` with only whitespace before and after it, and it
/// neither starts nor ends with whitespace.
pub proof fn lemma_trim_removes_only_outer_space(s: Seq<char>)
    ensures
        exists|i: int, j: int|
            0 <= i <= j <= s.len() && trimmed(s) == s.subrange(i, j) && (forall|k: int|
                0 <= k < i ==> white_space(#[trigger] s[k])) && (forall|k: int|
                j <= k < s.len() ==> white_space(#[trigger] s[k])),
        trimmed(s).len() > 0 ==> !white_space(trimmed(s)[0]) && !white_space(
            trimmed(s).last(),
        ),
{
    let i = lemma_trim_start_cut(s);
    let t = s.skip(i);
    let j = lemma_trim_end_cut(t);
    assert(t.take(j) =~= s.subrange(i, i + j));
    assert forall|k: int| i + j <= k < s.len() implies white_space(#[trigger] s[k]) by {
        assert(s[k] == t[k - i]);
    }
    if j > 0 {
        assert(trimmed(s)[0] == s[i]);
        assert(trimmed(s).last() == t[j - 1]);
    }
    assert(0 <= i <= i + j <= s.len() && trimmed(s) == s.subrange(i, i + j) && (forall|k: int|
        0 <= k < i ==> white_space(#[trigger] s[k])) && (forall|k: int|
        i + j <= k < s.len() ==> white_space(#[trigger] s[k])));
}

/// `s` with its leading and trailing whitespace removed.
pub fn trim(s: &str) -> (r: String)
    ensures
        r@ == trimmed(s@),
{
    let v = to_chars(s);
    let mut i: usize = 0;
    assert(s@.skip(0) =~= s@);
    while i < v.len() && is_whitespace(v[i])
        invariant
            v@ == s@,
            i <= v.len(),
            trim_start(s@) == trim_start(s@.skip(i as int)),
        decreases v.len() - i,
    {
        assert(s@.skip(i as int).skip(1) =~= s@.skip(i + 1));
        i = i + 1;
    }
    let mut j: usize = v.len();
    while j > i && is_whitespace(v[j - 1])
        invariant
            v@ == s@,
            i <= j <= v.len(),
            trim_start(s@) == s@.skip(i as int),
            trim_end(s@.skip(i as int)) == trim_end(s@.subrange(i as int, j as int)),
        decreases j,
    {
        assert(s@.subrange(i as int, j as int).drop_last() =~= s@.subrange(i as int, j - 1));
        j = j - 1;
    }
    assert(s@.skip(i as int) =~= s@.subrange(i as int, s@.len() as int));
    from_char_range(&v, i, j)
}

/// `s` with every occurrence of the character `c` replaced by `t`.
pub open spec fn replace_char_spec(s: Seq<char>, c: char, t: Seq<char>) -> Seq<char>
    decreases s.len(),
{
    if s.len() == 0 {
        s
    } else {
        replace_char_spec(s.drop_last(), c, t) + if s.last() == c {
            t
        } else {
            seq![s.last()]
        }
    }
}

/// `s` with every occurrence of `c` replaced by `t` (as `str::replace` with a
/// character pattern).
pub fn replace_char(s: &str, c: char, t: &str) -> (r: String)
    ensures
        r@ == replace_char_spec(s@, c, t@),
{
    let v = to_chars(s);
    let mut r = String::new();
    let mut i: usize = 0;
    while i < v.len()
        invariant
            v@ == s@,
            i <= v.len(),
            r@ == replace_char_spec(s@.take(i as int), c, t@),
        decreases v.len() - i,
    {
        assert(s@.take(i + 1).drop_last() =~= s@.take(i as int));
        if v[i] == c {
            r.append(t);
        } else {
            push_char(&mut r, v[i]);
            assert(r@ =~= replace_char_spec(s@.take(i as int), c, t@) + seq![v@[i as int]]);
        }
        i = i + 1;
    }
    assert(s@.take(v.len() as int) =~= s@);
    r
}

/// `s` with every non-overlapping occurrence of the non-empty pattern `p`,
/// found from left to right, replaced by `t` (as `str::replace`).
pub open spec fn replace_all_spec(s: Seq<char>, p: Seq<char>, t: Seq<char>) -> Seq<char>
    decreases s.len(),
{
    if s.len() == 0 {
        s
    } else if p.len() > 0 && is_prefix_of(p, s) {
        t + replace_all_spec(s.skip(p.len() as int), p, t)
    } else {
        seq![s[0]] + replace_all_spec(s.skip(1), p, t)
    }
}

/// `s` with every non-overlapping occurrence of `p` replaced by `t`,
/// scanning from the left.
pub fn replace_all(s: &str, p: &str, t: &str) -> (r: String)
    requires
        p@.len() > 0,
    ensures
        r@ == replace_all_spec(s@, p@, t@),
{
    let v = to_chars(s);
    let pv = to_chars(p);
    let mut r = String::new();
    let mut i: usize = 0;
    assert(s@.skip(0) =~= s@);
    while i < v.len()
        invariant
            v@ == s@,
            pv@ == p@,
            pv@.len() > 0,
            i <= v.len(),
            replace_all_spec(s@, p@, t@) == r@ + replace_all_spec(s@.skip(i as int), p@, t@),
        decreases v.len() - i,
    {
        let ghost rest = s@.skip(i as int);
        if pv.len() <= v.len() - i && chars_match_at(&v, &pv, i) {
            assert(rest.take(p@.len() as int) =~= s@.subrange(i as int, i + p@.len()));
            assert(rest.skip(p@.len() as int) =~= s@.skip(i + p@.len()));
            r.append(t);
            i = i + pv.len();
        } else {
            proof {
                if p@.len() <= rest.len() {
                    assert(rest.take(p@.len() as int) =~= s@.subrange(i as int, i + p@.len()));
                }
            }
            assert(rest.skip(1) =~= s@.skip(i + 1));
            push_char(&mut r, v[i]);
            i = i + 1;
        }
    }
    r
}

/// `s` without the prefix `p`, if `s` starts with it (as `str::strip_prefix`).
pub fn strip_prefix(s: &str, p: &str) -> (r: Option<String>)
    ensures
        r.is_some() == is_prefix_of(p@, s@),
        r matches Some(rest) ==> rest@ == s@.skip(p@.len() as int),
{
    if starts_with(s, p) {
        let v = to_chars(s);
        let n = to_chars(p).len();
        let rest = from_char_range(&v, n, v.len());
        assert(s@.skip(n as int) =~= s@.subrange(n as int, s@.len() as int));
        Some(rest)
    } else {
        None
    }
}

// ---------------------------------------------------------------------------
// Number formatting
// ---------------------------------------------------------------------------

/// The character of digit `d` (below 16) in lowercase hexadecimal, which
/// is the decimal digit for `d` below 10.
pub open spec fn digit_char(d: nat) -> char {
    if d < 10 {
        (48 + d) as char
    } else {
        (87 + d) as char
    }
}

/// The digits of `n` in base `b` (2..=16), most significant first, without
/// leading zeros ("0" for zero).
pub open spec fn digits(n: nat, b: nat) -> Seq<char>
    decreases n,
{
    if b < 2 || n < b {
        seq![digit_char(n)]
    } else {
        proof {
            assert(n / b < n) by (nonlinear_arith)
                requires
                    b >= 2,
                    n >= b,
            ;
        }
        digits(n / b, b).push(digit_char(n % b))
    }
}

fn digit_of(d: u32) -> (c: char)
    requires
        d < 16,
    ensures
        c == digit_char(d as nat),
{
    if d < 10 {
        ((48 + d) as u8) as char
    } else {
        ((87 + d) as u8) as char
    }
}

/// The digits of `n` in base `b`, appended to `out`.
fn push_digits(out: &mut String, n: u32, b: u32)
    requires
        2 <= b <= 16,
    ensures
        final(out)@ == old(out)@ + digits(n as nat, b as nat),
    decreases n,
{
    if n < b {
        push_char(out, digit_of(n));
    } else {
        assert(n / b < n) by (nonlinear_arith)
            requires
                b >= 2,
                n >= b,
        ;
        push_digits(out, n / b, b);
        push_char(out, digit_of(n % b));
    }
}

/// `n` written in decimal (as `format!("{}", n)`).
pub fn decimal(n: u32) -> (r: String)
    ensures
        r@ == digits(n as nat, 10),
{
    let mut r = String::new();
    push_digits(&mut r, n, 10);
    r
}

/// `n` in lowercase hexadecimal, padded with zeros on the left to at least
/// four digits.
pub open spec fn hex4(n: nat) -> Seq<char> {
    let h = digits(n, 16);
    if h.len() < 4 {
        Seq::new((4 - h.len()) as nat, |i: int| '0') + h
    } else {
        h
    }
}

/// A lowercase hexadecimal digit.
pub open spec fn is_hex_digit(c: char) -> bool {
    ('0' <= c && c <= '9') || ('a' <= c && c <= 'f')
}

/// The hexadecimal digits of `n` are lowercase hex digits, at most as many
/// as `k` when `n` is below 16 to the power `k` (given as `bound`).
proof fn lemma_hex_digits(n: nat, k: nat, bound: int)
    requires
        k >= 1,
        bound == vstd::arithmetic::power::pow(16, k),
        n < bound,
    ensures
        digits(n, 16).len() <= k,
        forall|i: int| 0 <= i < digits(n, 16).len() ==> is_hex_digit(#[trigger] digits(n, 16)[i]),
    decreases k,
{
    vstd::arithmetic::power::lemma_pow_positive(16, k);
    if n < 16 {
        assert(digits(n, 16)[0] == digit_char(n));
        assert(is_hex_digit(digit_char(n)));
    } else {
        assert(k >= 2) by {
            if k == 1 {
                vstd::arithmetic::power::lemma_pow1(16);
            }
        }
        let b2 = vstd::arithmetic::power::pow(16, (k - 1) as nat);
        vstd::arithmetic::power::lemma_pow_adds(16, 1, (k - 1) as nat);
        vstd::arithmetic::power::lemma_pow1(16);
        assert(bound == 16 * b2);
        assert(n / 16 < b2) by (nonlinear_arith)
            requires
                n < 16 * b2,
        ;
        lemma_hex_digits(n / 16, (k - 1) as nat, b2);
        let d = digits(n, 16);
        assert(d == digits(n / 16, 16).push(digit_char(n % 16)));
        assert(is_hex_digit(digit_char(n % 16)));
        assert forall|i: int| 0 <= i < d.len() implies is_hex_digit(#[trigger] d[i]) by {
            if i < d.len() - 1 {
                assert(d[i] == digits(n / 16, 16)[i]);
            }
        }
    }
}

/// The random suffix of a new id, drawn below 65536, is exactly four
/// lowercase hexadecimal digits.
pub proof fn lemma_hex4_is_four_digits(n: nat)
    requires
        n < 65536,
    ensures
        hex4(n).len() == 4,
        forall|i: int| 0 <= i < 4 ==> is_hex_digit(#[trigger] hex4(n)[i]),
{
    assert(vstd::arithmetic::power::pow(16, 4) == 65536) by {
        reveal(vstd::arithmetic::power::pow);
        reveal_with_fuel(vstd::arithmetic::power::pow, 5);
    }
    lemma_hex_digits(n, 4, 65536);
    let h = digits(n, 16);
    assert forall|i: int| 0 <= i < 4 implies is_hex_digit(#[trigger] hex4(n)[i]) by {
        if h.len() < 4 {
            let pad = (4 - h.len()) as nat;
            if i >= pad {
                assert(hex4(n)[i] == h[i - pad]);
            } else {
                assert(hex4(n)[i] == '0');
            }
        }
    }
}

/// `n` in lowercase hexadecimal, at least four digits wide (as
/// `format!("{:04x}", n)`).
pub fn hex4_string(n: u32) -> (r: String)
    ensures
        r@ == hex4(n as nat),
{
    let mut h = String::new();
    push_digits(&mut h, n, 16);
    let hv = to_chars(h.as_str());
    if hv.len() < 4 {
        let mut r = String::new();
        let pad: usize = 4 - hv.len();
        let mut k: usize = 0;
        while k < pad
            invariant
                k <= pad,
                r@ == Seq::new(k as nat, |i: int| '0'),
            decreases pad - k,
        {
            push_char(&mut r, '0');
            assert(r@ =~= Seq::new((k + 1) as nat, |i: int| '0'));
            k = k + 1;
        }
        r.append(h.as_str());
        r
    } else {
        h
    }
}

} // verus!
