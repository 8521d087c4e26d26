//! What the interface renders from data: the text of a request or response
//! body, pretty-printed when it is JSON, and the SVG path of a tunnel's QR
//! code.
use vstd::prelude::*;
use vstd::utf8::{decode_utf8, encode_utf8, valid_utf8};
use crate::codec::{base64_decode, base64_decoded};
use crate::text::{decimal, digits, owned};

verus! {

// ---------------------------------------------------------------------------
// Bodies
// ---------------------------------------------------------------------------

/// `String::from_utf8`: the text that `bytes` encode in UTF-8, or `None`
/// when they are not valid UTF-8.
#[verifier::external_body]
fn string_from_utf8(bytes: Vec<u8>) -> (r: Option<String>)
    ensures
        r.is_some() == valid_utf8(bytes@),
        r matches Some(s) ==> s@ == decode_utf8(bytes@),
{
    String::from_utf8(bytes).ok()
}

/// Whether `serde_json::from_str::<serde_json::Value>` accepts the text.
pub uninterp spec fn json_accepted(s: Seq<char>) -> bool;

/// What `serde_json::to_string_pretty` writes for the document that
/// `serde_json::from_str` reads from the text.
pub uninterp spec fn json_pretty(s: Seq<char>) -> Seq<char>;

/// `serde_json::from_str::<serde_json::Value>` followed by
/// `serde_json::to_string_pretty`: the document that `s` holds, written
/// with indentation, or `None` when `s` is not JSON. Writing a document
/// that was read cannot fail (its object keys are strings), so the result
/// is there exactly when the text is accepted.
#[verifier::external_body]
fn pretty_json_text(s: &str) -> (r: Option<String>)
    ensures
        r.is_some() == json_accepted(s@),
        r matches Some(p) ==> p@ == json_pretty(s@),
{
    match serde_json::from_str::<serde_json::Value>(s) {
        Ok(v) => serde_json::to_string_pretty(&v).ok(),
        Err(_) => None,
    }
}

/// `raw` pretty-printed when it is a JSON document, else `raw` itself.
pub fn pretty_print_json(raw: &str) -> (r: String)
    ensures
        json_accepted(raw@) ==> r@ == json_pretty(raw@),
        !json_accepted(raw@) ==> r@ == raw@,
{
    match pretty_json_text(raw) {
        Some(pretty) => pretty,
        None => owned(raw),
    }
}

/// The text of a base64 body: its UTF-8 text, a note for a binary payload,
/// or a note that the base64 is broken.
pub open spec fn body_text_of(b64: Seq<char>) -> Seq<char> {
    match base64_decoded(b64) {
        Ok(bytes) => if valid_utf8(bytes) {
            decode_utf8(bytes)
        } else {
            "[Binary Payload / Non-UTF8 Text]"@
        },
        Err(_) => "[Error: Failed to decode base64]"@,
    }
}

/// What the inspector shows of a body, by what its base64 text decodes to:
/// bytes that are valid UTF-8 are shown as the text they encode, whatever
/// characters that text holds (written back in UTF-8, the shown text is
/// exactly the body's bytes); other bytes get the binary note; text that
/// is not base64 gets the decoding note.
pub proof fn lemma_body_text_cases(b64: Seq<char>)
    ensures
        base64_decoded(b64) is Ok && valid_utf8(base64_decoded(b64)->Ok_0) ==> body_text_of(b64)
            == decode_utf8(base64_decoded(b64)->Ok_0),
        base64_decoded(b64) is Ok && valid_utf8(base64_decoded(b64)->Ok_0) ==> encode_utf8(
            body_text_of(b64),
        ) == base64_decoded(b64)->Ok_0,
        base64_decoded(b64) is Ok && !valid_utf8(base64_decoded(b64)->Ok_0) ==> body_text_of(b64)
            == "[Binary Payload / Non-UTF8 Text]"@,
        base64_decoded(b64) is Err ==> body_text_of(b64) == "[Error: Failed to decode base64]"@,
{
    if base64_decoded(b64) is Ok && valid_utf8(base64_decoded(b64)->Ok_0) {
        vstd::utf8::decode_utf8_encode_utf8(base64_decoded(b64)->Ok_0);
    }
}

/// The text of a base64 body (see [`body_text_of`]).
pub fn body_text(b64: &str) -> (r: String)
    ensures
        r@ == body_text_of(b64@),
{
    match base64_decode(b64) {
        Ok(bytes) => match string_from_utf8(bytes) {
            Some(s) => s,
            None => owned("[Binary Payload / Non-UTF8 Text]"),
        },
        Err(_) => owned("[Error: Failed to decode base64]"),
    }
}

/// What the inspector shows of a base64 body: its text, pretty-printed
/// when it is JSON.
pub fn body_preview(b64: &str) -> (r: String)
    ensures
        json_accepted(body_text_of(b64@)) ==> r@ == json_pretty(body_text_of(b64@)),
        !json_accepted(body_text_of(b64@)) ==> r@ == body_text_of(b64@),
{
    let text = body_text(b64);
    pretty_print_json(text.as_str())
}

// ---------------------------------------------------------------------------
// QR codes
// ---------------------------------------------------------------------------

/// Whether `QrCode::encode_text` fits the text in a QR code at the medium
/// error-correction level.
pub uninterp spec fn qr_medium_fits(text: Seq<char>) -> bool;

/// The modules of the QR code that `QrCode::encode_text` makes of the text
/// at the medium error-correction level: row `y` from the top holds, from
/// the left, whether module (x, y) is dark.
pub uninterp spec fn qr_medium_modules(text: Seq<char>) -> Seq<Seq<bool>>;

/// `qrcodegen::QrCode::encode_text` at the medium error-correction level,
/// read out with `QrCode::size` and `QrCode::get_module(x, y)` into rows:
/// `None` when the text is too long for any version. The code is square,
/// with a side documented to lie in [21, 177].
#[verifier::external_body]
fn qr_medium_grid(text: &str) -> (r: Option<Vec<Vec<bool>>>)
    ensures
        r.is_some() == qr_medium_fits(text@),
        r matches Some(g) ==> grid_view(g@) == qr_medium_modules(text@),
        r matches Some(g) ==> 21 <= g@.len() <= 177,
        r matches Some(g) ==> forall|y: int| 0 <= y < g@.len() ==> #[trigger] g@[y]@.len() == g@.len(),
{
    let qr = match qrcodegen::QrCode::encode_text(text, qrcodegen::QrCodeEcc::Medium) {
        Ok(q) => q,
        Err(_) => return None,
    };
    let n = qr.size();
    Some((0..n).map(|y| (0..n).map(|x| qr.get_module(x, y)).collect()).collect())
}

/// The SVG path of one dark module at (x, y): a unit square.
pub open spec fn cell_path(x: nat, y: nat) -> Seq<char> {
    "M"@ + digits(x, 10) + " "@ + digits(y, 10) + "h1v1h-1z "@
}

/// The path of the dark modules of row `y`, left to right.
pub open spec fn row_path(row: Seq<bool>, y: nat) -> Seq<char>
    decreases row.len(),
{
    if row.len() == 0 {
        Seq::empty()
    } else {
        row_path(row.drop_last(), y) + if row.last() {
            cell_path((row.len() - 1) as nat, y)
        } else {
            Seq::empty()
        }
    }
}

/// The path of the dark modules of a grid, row by row from the top.
pub open spec fn grid_path(rows: Seq<Seq<bool>>) -> Seq<char>
    decreases rows.len(),
{
    if rows.len() == 0 {
        Seq::empty()
    } else {
        grid_path(rows.drop_last()) + row_path(rows.last(), (rows.len() - 1) as nat)
    }
}

/// How the path is drawn: rows from the top and, in each row, modules from
/// the left; a dark module at column x of row y adds the unit square
/// "M<x> <y>h1v1h-1z " (x and y in decimal), and a light one adds nothing.
pub proof fn lemma_path_drawing(rows: Seq<Seq<bool>>, row: Seq<bool>, y: nat)
    ensures
        row_path(row.push(true), y) == row_path(row, y) + "M"@ + digits(row.len(), 10) + " "@
            + digits(y, 10) + "h1v1h-1z "@,
        row_path(row.push(false), y) == row_path(row, y),
        grid_path(rows.push(row)) == grid_path(rows) + row_path(row, rows.len()),
        grid_path(Seq::empty()) == Seq::<char>::empty(),
{
    assert(row.push(true).drop_last() =~= row);
    assert(row.push(false).drop_last() =~= row);
    assert(rows.push(row).drop_last() =~= rows);
    assert(row_path(row.push(true), y) =~= row_path(row, y) + "M"@ + digits(row.len(), 10) + " "@
        + digits(y, 10) + "h1v1h-1z "@);
}

/// The rows of a grid as sequences.
pub open spec fn grid_view(grid: Seq<Vec<bool>>) -> Seq<Seq<bool>> {
    grid.map_values(|r: Vec<bool>| r@)
}

/// The SVG path that draws the dark modules of `grid` (rows from the top,
/// modules from the left) as unit squares.
pub fn svg_path(grid: &Vec<Vec<bool>>) -> (r: String)
    requires
        grid@.len() <= u32::MAX,
        forall|y: int| 0 <= y < grid@.len() ==> #[trigger] grid@[y]@.len() <= u32::MAX,
    ensures
        r@ == grid_path(grid_view(grid@)),
{
    let mut path = String::new();
    let mut y: usize = 0;
    while y < grid.len()
        invariant
            y <= grid.len(),
            grid@.len() <= u32::MAX,
            forall|k: int| 0 <= k < grid@.len() ==> #[trigger] grid@[k]@.len() <= u32::MAX,
            path@ == grid_path(grid_view(grid@).take(y as int)),
        decreases grid.len() - y,
    {
        let ghost g = grid_view(grid@).take(y + 1);
        assert(g.drop_last() =~= grid_view(grid@).take(y as int));
        let row = &grid[y];
        assert(row@.len() <= u32::MAX);
        let ghost start = path@;
        let mut x: usize = 0;
        assert(row@.take(0) =~= Seq::<bool>::empty());
        while x < row.len()
            invariant
                x <= row.len(),
                row@.len() <= u32::MAX,
                y < u32::MAX,
                path@ == start + row_path(row@.take(x as int), y as nat),
            decreases row.len() - x,
        {
            assert(row@.take(x + 1).drop_last() =~= row@.take(x as int));
            if row[x] {
                path.append("M");
                path.append(decimal(x as u32).as_str());
                path.append(" ");
                path.append(decimal(y as u32).as_str());
                path.append("h1v1h-1z ");
            }
            x = x + 1;
        }
        assert(row@.take(row@.len() as int) =~= row@);
        assert(g.last() == row@);
        y = y + 1;
    }
    assert(grid_view(grid@).take(grid@.len() as int) =~= grid_view(grid@));
    path
}

/// The SVG path of the QR code of `text` and the code's width, or `None`
/// when the text does not fit in a QR code.
pub fn generate_qr_svg_path(text: &str) -> (r: Option<(String, i32)>)
    ensures
        r.is_some() == qr_medium_fits(text@),
        r matches Some((path, size)) ==> {
            &&& size == qr_medium_modules(text@).len()
            &&& 21 <= size <= 177
            &&& path@ == grid_path(qr_medium_modules(text@))
        },
{
    let grid = match qr_medium_grid(text) {
        Some(g) => g,
        None => {
            return None;
        },
    };
    let path = svg_path(&grid);
    let size = grid.len() as i32;
    Some((path, size))
}

} // verus!
