//! QR codes in a terminal.
//!
//! Rendered with half-block characters so one text row carries two QR rows; a
//! full-block rendering is twice as tall and scrolls off an 80x24 terminal for
//! any realistic URL.

use vstd::prelude::*;

use vstd::string::StringSliceAdditionalSpecFns;

use crate::text::string_from;

verus! {

/// Four modules of quiet zone on every side, per the QR specification.
/// Without it many phone cameras simply will not lock on.
pub const QUIET: usize = 4;

/// The modules of the QR code for some data, row by row, dark as `true`, and
/// the code's width - or nothing when no QR code can hold the data.
pub uninterp spec fn qr_modules(data: Seq<u8>) -> Option<(nat, Seq<bool>)>;

/// The QR code for some bytes.
///
/// Wraps `qrcode::QrCode::new` (medium error correction, smallest version that
/// fits), `QrCode::width` and `QrCode::to_colors`, a dark module becoming
/// `true`. Claimed: the answer is `qr_modules` of the data, and - as the crate
/// builds its colours from a square canvas - there are `width * width` of them.
#[verifier::external_body]
fn qr_code(data: &[u8]) -> (r: Option<(usize, Vec<bool>)>)
    ensures
        r matches Some((w, cells)) ==> qr_modules(data@) == Some((w as nat, cells@)) && cells@.len()
            == w * w,
        r is None ==> qr_modules(data@) is None,
{
    match qrcode::QrCode::new(data) {
        Ok(code) => Some(
            (
                code.width(),
                code.to_colors().into_iter().map(|c| c == qrcode::types::Color::Dark).collect(),
            ),
        ),
        Err(_) => None,
    }
}

/// Whether the module at `(x, y)` of the padded picture is dark: the quiet
/// zone never is.
pub open spec fn dark(width: nat, cells: Seq<bool>, x: int, y: int) -> bool {
    if x < QUIET || y < QUIET || x >= width + QUIET || y >= width + QUIET {
        false
    } else {
        cells[(y - QUIET) * width + (x - QUIET)]
    }
}

/// The half-block character for a pair of stacked modules.
pub open spec fn block(top: bool, bottom: bool) -> char {
    if top && bottom {
        '\u{2588}'
    } else if top {
        '\u{2580}'
    } else if bottom {
        '\u{2584}'
    } else {
        ' '
    }
}

/// Text line `r`: two spaces of indent, then one character per column
/// carrying picture rows `2r` and `2r + 1`, then a newline.
pub open spec fn text_row(width: nat, cells: Seq<bool>, r: int) -> Seq<char> {
    let padded = width + 2 * QUIET;
    seq![' ', ' '] + Seq::new(
        padded as nat,
        |x: int| block(dark(width, cells, x, 2 * r), 2 * r + 1 < padded && dark(width, cells, x, 2 * r + 1)),
    ) + seq!['\n']
}

/// The first `k` text lines.
pub open spec fn text_rows(width: nat, cells: Seq<bool>, k: int) -> Seq<char>
    decreases k,
{
    if k <= 0 {
        Seq::empty()
    } else {
        text_rows(width, cells, k - 1) + text_row(width, cells, k - 1)
    }
}

/// The whole picture: enough text lines to cover every picture row.
pub open spec fn picture(width: nat, cells: Seq<bool>) -> Seq<char> {
    text_rows(width, cells, ((width + 2 * QUIET + 1) / 2) as int)
}

/// What `render` draws for some data: the picture, or nothing at all when the
/// data cannot be drawn.
pub open spec fn spec_render(data: Seq<u8>) -> Seq<char> {
    match qr_modules(data) {
        Some((w, cells)) => picture(w, cells),
        None => Seq::empty(),
    }
}

fn is_dark(width: usize, cells: &Vec<bool>, x: usize, y: usize) -> (b: bool)
    requires
        cells@.len() == width * width,
        width + 2 * QUIET <= usize::MAX,
    ensures
        b == dark(width as nat, cells@, x as int, y as int),
{
    if x < QUIET || y < QUIET || x >= width + QUIET || y >= width + QUIET {
        return false;
    }
    let row = y - QUIET;
    let col = x - QUIET;
    let n = cells.len();
    assert(row * width + col < width * width && row * width <= width * width) by (nonlinear_arith)
        requires
            row < width,
            col < width,
    ;
    cells[row * width + col]
}

/// A scannable code, indented and with the quiet zone scanners need. Data no
/// QR code can hold draws as nothing; the caller still prints the URL.
pub fn render(data: &str) -> (out: String)
    ensures
        out@ == spec_render(data.spec_bytes()),
{
    let bytes = data.as_bytes();
    let (width, cells) = match qr_code(bytes) {
        Some(code) => code,
        None => {
            let empty: Vec<char> = Vec::new();
            return string_from(&empty);
        },
    };
    let n = cells.len();
    assert(width + 2 * QUIET + 2 <= usize::MAX) by (nonlinear_arith)
        requires
            width * width == n,
            n <= usize::MAX,
    ;
    let padded = width + 2 * QUIET;
    let mut out: Vec<char> = Vec::new();
    let mut row: usize = 0;
    let mut r: usize = 0;
    while row < padded
        invariant
            cells@.len() == width * width,
            padded == width + 2 * QUIET,
            row == 2 * r,
            row <= padded + 1,
            padded + 2 <= usize::MAX,
            out@ == text_rows(width as nat, cells@, r as int),
        decreases padded + 1 - row,
    {
        let ghost before = out@;
        out.push(' ');
        out.push(' ');
        let mut x: usize = 0;
        while x < padded
            invariant
                cells@.len() == width * width,
                padded == width + 2 * QUIET,
                row == 2 * r,
                row < padded,
                x <= padded,
                out@.len() == before.len() + 2 + x,
                out@.subrange(0, before.len() as int) == before,
                out@[before.len() as int] == ' ',
                out@[before.len() as int + 1] == ' ',
                forall|j: int|
                    0 <= j < x ==> out@[before.len() + 2 + j] == block(
                        dark(width as nat, cells@, j, row as int),
                        row + 1 < padded && dark(width as nat, cells@, j, row + 1),
                    ),
            decreases padded - x,
        {
            let top = is_dark(width, &cells, x, row);
            let bottom = row + 1 < padded && is_dark(width, &cells, x, row + 1);
            let c = if top && bottom {
                '\u{2588}'
            } else if top {
                '\u{2580}'
            } else if bottom {
                '\u{2584}'
            } else {
                ' '
            };
            out.push(c);
            x = x + 1;
        }
        out.push('\n');
        assert(out@ =~= before + text_row(width as nat, cells@, r as int));
        row = row + 2;
        r = r + 1;
    }
    assert(r == (padded + 1) / 2);
    string_from(&out)
}

} // verus!
