//! The QR code that shows the stream address: the text the `qrcode` crate
//! renders for it, and the grid of dark and light cells read from that text.

use vstd::prelude::*;

use crate::text::{is_white_space, is_whitespace};

verus! {

broadcast use vstd::string::group_string_axioms;

/// The character the `qrcode` renderer draws for a dark module.
pub const DARK_MODULE: char = '\u{2588}';

/// The lines of `s` as `str::split('\n')` yields them: there is always at
/// least one, and a newline at the end gives an empty last line.
pub open spec fn split_lines(s: Seq<char>) -> Seq<Seq<char>>
    decreases s.len(),
{
    if s.len() == 0 {
        seq![Seq::<char>::empty()]
    } else {
        let prev = split_lines(s.drop_last());
        if s.last() == '\n' {
            prev.push(Seq::<char>::empty())
        } else {
            prev.update(prev.len() - 1, prev.last().push(s.last()))
        }
    }
}

/// The lines joined back together, with a newline between each two.
pub open spec fn join_lines(lines: Seq<Seq<char>>) -> Seq<char>
    decreases lines.len(),
{
    if lines.len() == 0 {
        Seq::<char>::empty()
    } else if lines.len() == 1 {
        lines[0]
    } else {
        join_lines(lines.drop_last()) + seq!['\n'] + lines.last()
    }
}

/// One row of cells: a cell is dark where the character is not white space.
pub open spec fn line_cells(line: Seq<char>) -> Seq<bool> {
    line.map_values(|c: char| !is_white_space(c))
}

/// The grid of cells read from a rendered text, one row per line.
pub open spec fn text_grid(s: Seq<char>) -> Seq<Seq<bool>> {
    split_lines(s).map_values(|l: Seq<char>| line_cells(l))
}

/// The rows of a `Vec` of rows, as sequences.
pub open spec fn rows_view(rows: Seq<Vec<bool>>) -> Seq<Seq<bool>> {
    rows.map_values(|r: Vec<bool>| r@)
}

/// Splitting always yields at least one line.
pub proof fn lemma_split_lines_nonempty(s: Seq<char>)
    ensures
        split_lines(s).len() >= 1,
    decreases s.len(),
{
    if s.len() > 0 {
        lemma_split_lines_nonempty(s.drop_last());
    }
}

/// Splitting a text at its newlines loses nothing: no line holds a newline,
/// and joining the lines with newlines gives the text back.
pub proof fn lemma_split_join(s: Seq<char>)
    ensures
        join_lines(split_lines(s)) == s,
        forall|r: int, c: int|
            0 <= r < split_lines(s).len() && 0 <= c < split_lines(s)[r].len() ==> #[trigger] split_lines(
                s,
            )[r][c] != '\n',
    decreases s.len(),
{
    if s.len() == 0 {
    } else {
        let t = s.drop_last();
        let c = s.last();
        lemma_split_join(t);
        lemma_split_lines_nonempty(t);
        let prev = split_lines(t);
        assert(t.push(c) == s);
        if c == '\n' {
            let next = prev.push(Seq::<char>::empty());
            assert(next.drop_last() == prev);
            assert(join_lines(next) == join_lines(prev) + seq!['\n'] + Seq::<char>::empty());
            assert(join_lines(next) =~= s);
        } else {
            let next = prev.update(prev.len() - 1, prev.last().push(c));
            if prev.len() == 1 {
                assert(join_lines(next) == next[0]);
                assert(join_lines(prev) == prev[0]);
                assert(join_lines(next) =~= s);
            } else {
                assert(next.drop_last() =~= prev.drop_last());
                assert(join_lines(next) == join_lines(prev.drop_last()) + seq!['\n'] + next.last());
                assert(join_lines(prev) == join_lines(prev.drop_last()) + seq!['\n'] + prev.last());
                assert(join_lines(next) =~= s);
            }
            assert forall|r: int, k: int|
                0 <= r < next.len() && 0 <= k < next[r].len() implies #[trigger] next[r][k] != '\n' by {
                if r < prev.len() - 1 {
                    assert(next[r] == prev[r]);
                } else {
                    assert(next[r] == prev.last().push(c));
                    if k < prev.last().len() {
                        assert(next[r][k] == prev[prev.len() - 1][k]);
                    }
                }
            }
        }
    }
}

/// Reads the grid of cells from a rendered text: the text is split at its
/// newlines, and each character becomes a cell that is dark unless the
/// character is white space.
pub fn grid_from_text(text: &str) -> (grid: Vec<Vec<bool>>)
    ensures
        rows_view(grid@) == text_grid(text@),
{
    let mut rows: Vec<Vec<bool>> = Vec::new();
    let mut cur: Vec<bool> = Vec::new();
    proof {
        assert(text@.take(0) =~= Seq::<char>::empty());
        assert(split_lines(Seq::<char>::empty()) == seq![Seq::<char>::empty()]);
        assert(line_cells(Seq::<char>::empty()) =~= Seq::<bool>::empty());
        assert(rows_view(rows@).push(cur@) =~= text_grid(Seq::<char>::empty()));
    }
    for c in it: text.chars()
        invariant
            it.seq() == text@,
            rows_view(rows@).push(cur@) == text_grid(text@.take(it.index() as int)),
    {
        let ghost i = it.index() as int;
        let ghost before = text@.take(i);
        let ghost old_rows = rows@;
        let ghost old_cur = cur@;
        proof {
            lemma_split_lines_nonempty(before);
            assert(text@.take(i + 1).drop_last() =~= before);
            assert(text@.take(i + 1).last() == c);
        }
        if c == '\n' {
            rows.push(cur);
            cur = Vec::new();
            proof {
                let prev = split_lines(before);
                let next = prev.push(Seq::<char>::empty());
                assert(split_lines(text@.take(i + 1)) == next);
                assert(line_cells(Seq::<char>::empty()) =~= Seq::<bool>::empty());
                assert(text_grid(text@.take(i + 1)) =~= text_grid(before).push(Seq::<bool>::empty()));
                assert(rows_view(rows@) =~= rows_view(old_rows).push(old_cur));
                assert(rows_view(rows@).push(cur@) =~= text_grid(text@.take(i + 1)));
            }
        } else {
            let dark = !is_whitespace(c);
            cur.push(dark);
            proof {
                let prev = split_lines(before);
                let next = prev.update(prev.len() - 1, prev.last().push(c));
                assert(split_lines(text@.take(i + 1)) == next);
                assert(line_cells(prev.last().push(c)) =~= line_cells(prev.last()).push(dark));
                assert(line_cells(prev.last()) == text_grid(before)[prev.len() - 1]);
                let g = rows_view(old_rows).push(old_cur);
                assert(g.len() == old_rows.len() + 1);
                assert(g[old_rows.len() as int] == old_cur);
                assert(g.len() == prev.len());
                assert(old_cur == line_cells(prev.last()));
                assert(text_grid(text@.take(i + 1)) =~= text_grid(before).update(
                    prev.len() - 1,
                    line_cells(prev.last()).push(dark),
                ));
                assert(rows_view(old_rows).push(old_cur.push(dark)) =~= text_grid(before).update(
                    prev.len() - 1,
                    line_cells(prev.last()).push(dark),
                ));
                assert(rows_view(rows@).push(cur@) =~= text_grid(text@.take(i + 1)));
            }
        }
    }
    proof {
        assert(text@.take(text@.len() as int) =~= text@);
    }
    let ghost old_rows = rows@;
    let ghost old_cur = cur@;
    rows.push(cur);
    proof {
        assert(rows_view(rows@) =~= rows_view(old_rows).push(old_cur));
    }
    rows
}

/// Cell `(r, c)` of an `n` by `n` rendering lies in the quiet zone, the
/// border four modules wide around the symbol.
pub open spec fn in_quiet_zone(n: int, r: int, c: int) -> bool {
    r < 4 || r >= n - 4 || c < 4 || c >= n - 4
}

/// The side of a rendered QR code of version `v`: the symbol is `4v + 17`
/// modules wide, plus four modules of quiet zone on each side.
pub open spec fn rendered_side(v: int) -> int {
    4 * v + 25
}

/// `n` is the side of a rendered QR code of some version from 1 to 40.
pub open spec fn is_rendered_side(n: int) -> bool {
    exists|v: int| 1 <= v <= 40 && n == #[trigger] rendered_side(v)
}

/// What the renderer gives for a QR code: the text splits into `n` lines of
/// `n` characters each, every one of them `DARK_MODULE` or a space, where `n`
/// is the side of a QR code of version 1 to 40 with its quiet zone. The
/// quiet zone is drawn light, and the outer corner of each of the three
/// finder patterns is dark.
pub open spec fn is_module_text(t: Seq<char>) -> bool {
    let rows = split_lines(t);
    let n = rows.len() as int;
    &&& is_rendered_side(n)
    &&& forall|r: int| 0 <= r < n ==> #[trigger] rows[r].len() == n
    &&& forall|r: int, c: int|
        0 <= r < n && 0 <= c < n ==> (#[trigger] rows[r][c] == DARK_MODULE || rows[r][c] == ' ')
    &&& forall|r: int, c: int|
        0 <= r < n && 0 <= c < n && in_quiet_zone(n, r, c) ==> #[trigger] rows[r][c] == ' '
    &&& rows[4][4] == DARK_MODULE
    &&& rows[4][n - 5] == DARK_MODULE
    &&& rows[n - 5][4] == DARK_MODULE
}

/// The shape of a QR code grid: `n` rows of `n` cells for a side `n` of a
/// rendered QR code of version 1 to 40, light in the quiet zone, dark at the
/// outer corners of the three finder patterns.
pub open spec fn is_qr_grid(g: Seq<Seq<bool>>) -> bool {
    let n = g.len() as int;
    &&& is_rendered_side(n)
    &&& forall|r: int| 0 <= r < n ==> #[trigger] g[r].len() == n
    &&& forall|r: int, c: int|
        0 <= r < n && 0 <= c < n && in_quiet_zone(n, r, c) ==> !#[trigger] g[r][c]
    &&& g[4][4]
    &&& g[4][n - 5]
    &&& g[n - 5][4]
}

/// The grid read from a rendered QR code has the shape of a QR code grid,
/// and a cell is dark exactly where the renderer drew a dark module.
pub proof fn lemma_module_grid(t: Seq<char>)
    requires
        is_module_text(t),
    ensures
        text_grid(t).len() == split_lines(t).len(),
        29 <= text_grid(t).len() <= 185,
        is_qr_grid(text_grid(t)),
        forall|r: int, c: int|
            0 <= r < text_grid(t).len() && 0 <= c < text_grid(t).len() ==> #[trigger] text_grid(t)[r][c]
                == (split_lines(t)[r][c] == DARK_MODULE),
{
    let rows = split_lines(t);
    let g = text_grid(t);
    let n = g.len() as int;
    let v = choose|v: int| 1 <= v <= 40 && n == rendered_side(v);
    assert(29 <= n <= 185);
    assert forall|r: int| 0 <= r < n implies #[trigger] g[r].len() == n by {
        assert(g[r] == line_cells(rows[r]));
        assert(rows[r].len() == rows.len());
    }
    assert forall|r: int, c: int| 0 <= r < n && 0 <= c < n implies #[trigger] g[r][c] == (
    rows[r][c] == DARK_MODULE) by {
        assert(g[r] == line_cells(rows[r]));
        assert(rows[r].len() == rows.len());
        assert(rows[r][c] == DARK_MODULE || rows[r][c] == ' ');
        assert(g[r][c] == !is_white_space(rows[r][c]));
    }
    assert forall|r: int, c: int| 0 <= r < n && 0 <= c < n && in_quiet_zone(n, r, c) implies !#[trigger] g[r][c] by {
        assert(g[r][c] == (rows[r][c] == DARK_MODULE));
        assert(rows[r][c] == ' ');
    }
    assert(g[4][4] == (rows[4][4] == DARK_MODULE));
    assert(g[4][n - 5] == (rows[4][n - 5] == DARK_MODULE));
    assert(g[n - 5][4] == (rows[n - 5][4] == DARK_MODULE));
}

#[verifier::external_type_specification]
#[verifier::external_body]
pub struct ExQrError(qrcode::types::QrError);

/// The text that `qrcode` renders for `content`, or `None` where it cannot
/// encode it.
pub uninterp spec fn qr_text(content: Seq<char>) -> Option<Seq<char>>;

/// Encodes `content` with `qrcode::QrCode::new` (medium error correction,
/// smallest QR code version that fits) and renders it with
/// `QrCode::render::<char>()`, quiet zone on, one character per module.
/// Trusted: the result is the named `qr_text(content)`, and the rendered text
/// has the shape that `Renderer::build` and the `char` canvas give it
/// (`is_module_text`): side `4v + 25` for a version `v` from 1 to 40 chosen by
/// `encode_auto`, quiet zone light, finder pattern corners dark (drawn by
/// `draw_finder_patterns`, never masked); an error is returned exactly where
/// `qr_text` is `None`. Which version is chosen and which other modules are
/// dark is not stated.
#[verifier::external_body]
fn render_qr_text(content: &str) -> (r: Result<String, qrcode::types::QrError>)
    ensures
        match r {
            Ok(t) => qr_text(content@) == Some(t@) && is_module_text(t@),
            Err(_) => qr_text(content@) is None,
        },
{
    match qrcode::QrCode::new(content.as_bytes()) {
        Ok(code) => Ok(code.render::<char>().quiet_zone(true).module_dimensions(1, 1).build()),
        Err(e) => Err(e),
    }
}

/// Why a QR code could not be made.
#[derive(Debug)]
pub enum QrCodeError {
    /// The `qrcode` crate could not encode the content (it is too long).
    Encoding(qrcode::types::QrError),
}

/// What a QR code holds: its content, its size in cells and its rows of
/// cells (`true` for dark).
pub struct QrCodeView {
    pub content: Seq<char>,
    pub width: int,
    pub height: int,
    pub items: Seq<Seq<bool>>,
}

/// The QR code made for `content` from the rendered text `t`.
pub open spec fn code_from_text(content: Seq<char>, t: Seq<char>) -> QrCodeView {
    QrCodeView {
        content,
        width: text_grid(t)[0].len() as int,
        height: text_grid(t).len() as int,
        items: text_grid(t),
    }
}

/// A QR code of some text, as a grid of dark and light cells.
pub struct QrCode {
    content: String,
    width: i32,
    height: i32,
    items: Vec<Vec<bool>>,
}

impl View for QrCode {
    type V = QrCodeView;

    closed spec fn view(&self) -> QrCodeView {
        QrCodeView {
            content: self.content@,
            width: self.width as int,
            height: self.height as int,
            items: rows_view(self.items@),
        }
    }
}

impl QrCode {
    #[verifier::type_invariant]
    closed spec fn well_formed(self) -> bool {
        &&& self.items@.len() >= 1
        &&& self.width as int == self.items@[0]@.len()
        &&& self.height as int == self.items@.len()
    }

    /// Makes the QR code of `content`. Fails where the `qrcode` crate cannot
    /// encode it; otherwise the code is square, `width == height == 4v + 25`
    /// for its version `v` from 1 to 40, every row `width` cells wide, light
    /// in the four-cell quiet zone, dark at the outer corners of the finder
    /// patterns, and a cell is dark exactly where the rendered text has a
    /// dark module.
    pub fn new(content: &str) -> (r: Result<QrCode, QrCodeError>)
        ensures
            match r {
                Ok(q) => qr_text(content@) is Some && q@ == code_from_text(content@, qr_text(content@)->0)
                    && q@.width == q@.height && q@.height == q@.items.len() && 29 <= q@.width <= 185
                    && is_rendered_side(q@.width) && is_qr_grid(q@.items)
                    && (forall|row: int, col: int|
                        0 <= row < q@.height && 0 <= col < q@.width ==> #[trigger] q@.items[row][col]
                            == (split_lines(qr_text(content@)->0)[row][col] == DARK_MODULE)),
                Err(QrCodeError::Encoding(_)) => qr_text(content@) is None,
            },
    {
        match render_qr_text(content) {
            Ok(text) => {
                let items = grid_from_text(text.as_str());
                proof {
                    lemma_module_grid(text@);
                    assert(rows_view(items@).len() == items@.len());
                    assert(rows_view(items@)[0] == items@[0]@);
                }
                let width = items[0].len() as i32;
                let height = items.len() as i32;
                let code = QrCode { content: String::from_str(content), width, height, items };
                Ok(code)
            },
            Err(e) => Err(QrCodeError::Encoding(e)),
        }
    }

    /// The text the code holds.
    pub fn content(&self) -> (r: String)
        ensures
            r@ == self@.content,
    {
        self.content.clone()
    }

    /// Number of cells in a row.
    pub fn width(&self) -> (r: i32)
        ensures
            r as int == self@.width,
    {
        self.width
    }

    /// Number of rows.
    pub fn height(&self) -> (r: i32)
        ensures
            r as int == self@.height,
    {
        self.height
    }

    /// The rows of cells, top to bottom; `true` is a dark cell.
    pub fn items(&self) -> (r: Vec<Vec<bool>>)
        ensures
            rows_view(r@) == self@.items,
    {
        let mut out: Vec<Vec<bool>> = Vec::new();
        let n = self.items.len();
        for i in 0..n
            invariant
                n == self.items@.len(),
                rows_view(out@) == rows_view(self.items@).take(i as int),
        {
            let row = self.items[i].clone();
            proof {
                assert(row@ =~= self.items@[i as int]@);
            }
            let ghost before = out@;
            out.push(row);
            proof {
                assert(rows_view(out@) =~= rows_view(before).push(row@));
                assert(rows_view(out@) =~= rows_view(self.items@).take(i + 1));
            }
        }
        proof {
            assert(rows_view(self.items@).take(n as int) =~= rows_view(self.items@));
        }
        out
    }
}

} // verus!
