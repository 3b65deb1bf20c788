//! The VGA console: an 80x25 text buffer with a cursor, and a linear frame
//! buffer for pixels. The buffers here are the memory the display shows.
use vstd::prelude::*;
use vstd::std_specs::iter::IteratorSpec;

verus! {

/// Columns of the text screen.
pub const VGA_WIDTH: usize = 80;
/// Rows of the text screen.
pub const VGA_HEIGHT: usize = 25;
/// Cells of the text screen.
pub const TEXT_CELLS: usize = 2000;
/// Attribute of text the console prints: white on black.
pub const WHITE_ON_BLACK: u8 = 0x0F;
/// A blank cell: a space, white on black.
pub const BLANK_CELL: u16 = 0x0F20;

/// Whether the display shows text or pixels.
#[derive(Debug, Clone, Copy, PartialEq, Eq, Structural)]
pub enum DisplayMode {
    Text,
    Graphics,
}

/// The console: mode, cursor, text cells, and the frame buffer's geometry and bytes.
pub struct Vga {
    mode: DisplayMode,
    row: usize,
    col: usize,
    text: Vec<u16>,
    fb_addr: u64,
    fb_width: usize,
    fb_height: usize,
    fb_pitch: usize,
    fb_bpp: usize,
    frame: Vec<u8>,
}

/// The console's state as plain values.
pub struct VgaView {
    pub mode: DisplayMode,
    pub row: usize,
    pub col: usize,
    pub text: Seq<u16>,
    pub fb_addr: u64,
    pub fb_width: usize,
    pub fb_height: usize,
    pub fb_pitch: usize,
    pub fb_bpp: usize,
    pub frame: Seq<u8>,
}

/// The cell that shows `c` in the console's colours.
pub open spec fn text_cell(c: char) -> u16 {
    ((c as u32) as u16) | ((WHITE_ON_BLACK as u16) << 8u16)
}

/// The text cells after scrolling up a line: every row moves up and the last
/// row is blank.
pub open spec fn scrolled(t: Seq<u16>) -> Seq<u16> {
    Seq::new(TEXT_CELLS as nat, |i: int| if i < TEXT_CELLS - VGA_WIDTH { t[i + VGA_WIDTH] } else { BLANK_CELL })
}

/// Bytes of frame memory for the geometry, when the size fits a machine word.
pub open spec fn frame_size(pitch: usize, height: usize) -> int {
    if pitch * height <= usize::MAX { pitch * height } else { 0 }
}

/// Whether `put_char(c)` can run on `v` without a counter overflowing.
pub open spec fn put_char_ok(v: VgaView, c: char) -> bool {
    v.mode == DisplayMode::Text ==> {
        if c == '\n' {
            v.row < usize::MAX
        } else if c == '\t' {
            v.col + 4 <= usize::MAX
        } else {
            v.col >= VGA_WIDTH ==> v.row < usize::MAX
        }
    }
}

/// What printing `c` does. In text mode a newline moves to the start of the
/// next row and a tab to the next multiple of four; any other character
/// wraps past the last column, scrolls below the last row, and is written at
/// the cursor, which advances. Nothing happens in graphics mode.
pub open spec fn put_char_effect(v: VgaView, c: char) -> VgaView {
    if v.mode != DisplayMode::Text {
        v
    } else if c == '\n' {
        VgaView { row: (v.row + 1) as usize, col: 0, ..v }
    } else if c == '\t' {
        VgaView { col: ((v.col + 4) as usize) & !3usize, ..v }
    } else {
        let (r1, c1) = if v.col >= VGA_WIDTH { ((v.row + 1) as usize, 0usize) } else { (v.row, v.col) };
        let (t2, r2, c2) = if r1 >= VGA_HEIGHT { (scrolled(v.text), (VGA_HEIGHT - 1) as usize, 0usize) } else { (v.text, r1, c1) };
        VgaView { text: t2.update(r2 * VGA_WIDTH + c2, text_cell(c)), row: r2, col: (c2 + 1) as usize, ..v }
    }
}

/// Printing the characters `cs` in order.
pub open spec fn print_effect(v: VgaView, cs: Seq<char>) -> VgaView
    decreases cs.len(),
{
    if cs.len() == 0 {
        v
    } else {
        put_char_effect(print_effect(v, cs.drop_last()), cs.last())
    }
}

/// Whether printing `cs` can run on `v`.
pub open spec fn print_ok(v: VgaView, cs: Seq<char>) -> bool {
    forall|k: int| 0 <= k < cs.len() ==> put_char_ok(#[trigger] print_effect(v, cs.take(k)), cs[k])
}

/// The cell for `c` in foreground `fg` on background `bg`.
pub open spec fn colored_cell(c: char, fg: u8, bg: u8) -> u16 {
    ((c as u32) as u16) | ((((bg << 4u8) | fg) as u16) << 8u16)
}

/// Byte offset of pixel (`x`, `y`) in the frame.
pub open spec fn pixel_offset(v: VgaView, x: usize, y: usize) -> int {
    y * v.fb_pitch + x * (v.fb_bpp / 8)
}

/// Whether drawing pixel (`x`, `y`) writes, given that it is on the screen of a
/// set-up frame buffer in graphics mode.
pub open spec fn pixel_drawn(v: VgaView, x: usize, y: usize) -> bool {
    &&& v.mode == DisplayMode::Graphics
    &&& v.fb_addr != 0
    &&& x < v.fb_width
    &&& y < v.fb_height
}

/// Whether pixel (`x`, `y`) can be drawn without an offset overflowing.
pub open spec fn pixel_ok(v: VgaView, x: usize, y: usize) -> bool {
    pixel_drawn(v, x, y) ==> v.fb_pitch * v.fb_height <= usize::MAX && pixel_offset(v, x, y) + 3 <= usize::MAX
}

/// What drawing pixel (`x`, `y`) in `color` does: its four bytes, least
/// significant first, when they lie in the frame.
pub open spec fn draw_pixel_effect(v: VgaView, x: usize, y: usize, color: u32) -> VgaView {
    let off = pixel_offset(v, x, y);
    if pixel_drawn(v, x, y) && off + 3 < v.frame.len() {
        VgaView {
            frame: v.frame
                .update(off, (color & 0xFF) as u8)
                .update(off + 1, ((color >> 8u32) & 0xFF) as u8)
                .update(off + 2, ((color >> 16u32) & 0xFF) as u8)
                .update(off + 3, ((color >> 24u32) & 0xFF) as u8),
            ..v
        }
    } else {
        v
    }
}

/// Drawing the pixels of `pts` in order.
pub open spec fn draw_points(v: VgaView, pts: Seq<(int, int, int)>, color: u32) -> VgaView
    decreases pts.len(),
{
    if pts.len() == 0 {
        v
    } else {
        let p = pts.last();
        draw_pixel_effect(draw_points(v, pts.drop_last(), color), p.0 as usize, p.1 as usize, color)
    }
}

/// One step of the line algorithm from position (`x`, `y`) with error `err`,
/// for extents `dx`, `dy` and directions `sx`, `sy`.
pub open spec fn line_step(p: (int, int, int), dx: int, dy: int, sx: int, sy: int) -> (int, int, int) {
    let (x, y, err) = p;
    let e2 = 2 * err;
    let (err1, x1) = if e2 > -dy { (err - dy, x + sx) } else { (err, x) };
    let (err2, y1) = if e2 < dx { (err1 + dx, y + sy) } else { (err1, y) };
    (x1, y1, err2)
}

/// The positions the line algorithm visits from (`a`, `c`) to (`b`, `d`),
/// with the error term at each: it starts at the first end with error
/// `dx - dy`, steps until it reaches the second end, and stops there.
pub open spec fn line_path(tr: Seq<(int, int, int)>, a: int, c: int, b: int, d: int) -> bool {
    let dx = if b >= a { b - a } else { a - b };
    let dy = if d >= c { d - c } else { c - d };
    let sx = if a < b { 1int } else { -1int };
    let sy = if c < d { 1int } else { -1int };
    &&& tr.len() > 0
    &&& tr[0] == (a, c, dx - dy)
    &&& path_steps(tr, b, d, dx, dy, sx, sy)
    &&& tr.last().0 == b && tr.last().1 == d
}

/// Every position of `tr` but the last is short of (`b`, `d`) and is followed
/// by the algorithm's next step.
pub open spec fn path_steps(tr: Seq<(int, int, int)>, b: int, d: int, dx: int, dy: int, sx: int, sy: int) -> bool {
    forall|k: int| 0 <= k < tr.len() - 1 ==> #[trigger] path_step_at(tr, k, b, d, dx, dy, sx, sy)
}

/// Position `k` of `tr` is short of (`b`, `d`) and position `k + 1` is the
/// algorithm's next step from it.
pub open spec fn path_step_at(tr: Seq<(int, int, int)>, k: int, b: int, d: int, dx: int, dy: int, sx: int, sy: int) -> bool {
    !(tr[k].0 == b && tr[k].1 == d) && tr[k + 1] == line_step(tr[k], dx, dy, sx, sy)
}

/// A path that has not reached (`b`, `d`) extends by one step.
proof fn lemma_extend_path(tr: Seq<(int, int, int)>, next: (int, int, int), b: int, d: int, dx: int, dy: int, sx: int, sy: int)
    requires
        tr.len() > 0,
        path_steps(tr, b, d, dx, dy, sx, sy),
        !(tr.last().0 == b && tr.last().1 == d),
        next == line_step(tr.last(), dx, dy, sx, sy),
    ensures
        path_steps(tr.push(next), b, d, dx, dy, sx, sy),
{
    let t = tr.push(next);
    assert forall|k: int| 0 <= k < t.len() - 1 implies #[trigger] path_step_at(t, k, b, d, dx, dy, sx, sy) by {
        if k < tr.len() - 1 {
            assert(path_step_at(tr, k, b, d, dx, dy, sx, sy));
            assert(t[k] == tr[k] && t[k + 1] == tr[k + 1]);
            assert(!(t[k].0 == b && t[k].1 == d));
        } else {
            assert(k == tr.len() - 1);
            assert(t[k] == tr.last());
            assert(t[k + 1] == next);
            assert(!(t[k].0 == b && t[k].1 == d));
        }
    }
    assert(path_steps(t, b, d, dx, dy, sx, sy));
}

/// How far position `p` has come from (`a`, `c`) towards (`b`, `d`) along
/// each axis.
pub open spec fn line_progress(p: (int, int, int), a: int, c: int, b: int, d: int) -> (int, int) {
    (if a < b { p.0 - a } else { a - p.0 }, if c < d { p.1 - c } else { c - p.1 })
}

/// What holds of position `k` of a line's trace: it has come no further than
/// the ends along either axis, its error term is the algorithm's for that
/// progress, and along the longer axis it has come exactly `k`, with the error
/// term on the side that makes the next step advance along that axis.
pub open spec fn line_inv(p: (int, int, int), k: int, a: int, c: int, b: int, d: int) -> bool {
    let dx = if b >= a { b - a } else { a - b };
    let dy = if d >= c { d - c } else { c - d };
    let (i, j) = line_progress(p, a, c, b, d);
    &&& 0 <= i <= dx
    &&& 0 <= j <= dy
    &&& p.2 == dx - dy + j * dx - i * dy
    &&& dx >= dy ==> i == k && (dx > 0 ==> 2 * p.2 > -dy)
    &&& dy >= dx ==> j == k && (dy > 0 ==> 2 * p.2 < dx)
}

/// Position `q` follows `p` by one pixel towards (`b`, `d`) from (`a`, `c`):
/// each coordinate stays or moves one towards that end, and not both stay.
pub open spec fn line_move(p: (int, int, int), q: (int, int, int), a: int, c: int, b: int, d: int) -> bool {
    let sx = if a < b { 1int } else { -1int };
    let sy = if c < d { 1int } else { -1int };
    &&& (q.0 == p.0 || q.0 == p.0 + sx)
    &&& (q.1 == p.1 || q.1 == p.1 + sy)
    &&& !(q.0 == p.0 && q.1 == p.1)
}

/// One step of the line algorithm from a position short of the end keeps
/// `line_inv` and moves one pixel towards the end.
proof fn lemma_line_step_inv(p: (int, int, int), k: int, a: int, c: int, b: int, d: int)
    requires
        line_inv(p, k, a, c, b, d),
        !(p.0 == b && p.1 == d),
    ensures
        ({
            let dx = if b >= a { b - a } else { a - b };
            let dy = if d >= c { d - c } else { c - d };
            let sx = if a < b { 1int } else { -1int };
            let sy = if c < d { 1int } else { -1int };
            let q = line_step(p, dx, dy, sx, sy);
            line_inv(q, k + 1, a, c, b, d) && line_move(p, q, a, c, b, d)
        }),
{
    let dx = if b >= a { b - a } else { a - b };
    let dy = if d >= c { d - c } else { c - d };
    let sx = if a < b { 1int } else { -1int };
    let sy = if c < d { 1int } else { -1int };
    let (i, j) = line_progress(p, a, c, b, d);
    let err = p.2;
    let e2 = 2 * err;
    let q = line_step(p, dx, dy, sx, sy);
    assert(p.0 == b <==> i == dx);
    assert(p.1 == d <==> j == dy);
    if i == dx && j < dy {
        assert(err <= -dy) by (nonlinear_arith)
            requires err == dx - dy + j * dx - i * dy, i == dx, j <= dy - 1, dx >= 0, dy >= 1;
    }
    if j == dy && i < dx {
        assert(err >= dx) by (nonlinear_arith)
            requires err == dx - dy + j * dx - i * dy, j == dy, i <= dx - 1, dy >= 0, dx >= 1;
    }
    if dx == dy && dx > 0 {
        assert(e2 != dx && e2 != -dy) by (nonlinear_arith)
            requires err == dx - dy + j * dx - i * dy, dx == dy, dx > 0, e2 == 2 * err;
    }
    assert(e2 > -dy || e2 < dx);
    let i1 = if e2 > -dy { i + 1 } else { i };
    let j1 = if e2 < dx { j + 1 } else { j };
    assert(line_progress(q, a, c, b, d) == (i1, j1));
    assert(q.2 == dx - dy + j1 * dx - i1 * dy) by (nonlinear_arith)
        requires
            err == dx - dy + j * dx - i * dy,
            i1 == i || i1 == i + 1,
            j1 == j || j1 == j + 1,
            q.2 == err - (if i1 == i + 1 { dy } else { 0 }) + (if j1 == j + 1 { dx } else { 0 });
}

/// Every position of a line's trace satisfies `line_inv`.
proof fn lemma_line_trace(tr: Seq<(int, int, int)>, a: int, c: int, b: int, d: int, k: int)
    requires
        line_path(tr, a, c, b, d),
        0 <= k < tr.len(),
    ensures
        line_inv(tr[k], k, a, c, b, d),
        k < tr.len() - 1 ==> line_move(tr[k], tr[k + 1], a, c, b, d),
    decreases k,
{
    let dx = if b >= a { b - a } else { a - b };
    let dy = if d >= c { d - c } else { c - d };
    let sx = if a < b { 1int } else { -1int };
    let sy = if c < d { 1int } else { -1int };
    if k > 0 {
        lemma_line_trace(tr, a, c, b, d, k - 1);
        assert(path_step_at(tr, k - 1, b, d, dx, dy, sx, sy));
        lemma_line_step_inv(tr[k - 1], k - 1, a, c, b, d);
    } else {
        assert(line_progress(tr[0], a, c, b, d) == (0int, 0int));
    }
    if k < tr.len() - 1 {
        assert(path_step_at(tr, k, b, d, dx, dy, sx, sy));
        lemma_line_step_inv(tr[k], k, a, c, b, d);
    }
}

/// A line is drawn as a path of `max(dx, dy) + 1` positions, `dx` and `dy`
/// being its extents, from its first end to its second, in which each step
/// moves one pixel, straight or diagonally, towards the second end.
pub proof fn law_line_path_shape(tr: Seq<(int, int, int)>, a: int, c: int, b: int, d: int)
    requires
        line_path(tr, a, c, b, d),
    ensures
        ({
            let dx = if b >= a { b - a } else { a - b };
            let dy = if d >= c { d - c } else { c - d };
            tr.len() == (if dx >= dy { dx } else { dy }) + 1
        }),
        tr[0].0 == a && tr[0].1 == c,
        tr.last().0 == b && tr.last().1 == d,
        forall|k: int| 0 <= k < tr.len() - 1 ==> #[trigger] line_move(tr[k], tr[k + 1], a, c, b, d),
{
    let dx = if b >= a { b - a } else { a - b };
    let dy = if d >= c { d - c } else { c - d };
    let n = tr.len() - 1;
    lemma_line_trace(tr, a, c, b, d, n);
    assert(line_progress(tr[n], a, c, b, d) == (dx, dy));
    assert forall|k: int| 0 <= k < tr.len() - 1 implies #[trigger] line_move(tr[k], tr[k + 1], a, c, b, d) by {
        lemma_line_trace(tr, a, c, b, d, k);
    }
}

/// Scrolling moves every row up by one and blanks the last row: after
/// `scroll`, and whenever printing a character runs past the last row, each
/// of the first 24 rows holds what the row below it held, and the last row is
/// all blank (white on black spaces) but for the printed character at its
/// start, where the cursor then stands just after it.
pub proof fn law_scroll_blanks_last_row(t: Seq<u16>, v: VgaView, c: char)
    requires
        t.len() == TEXT_CELLS,
        v.text.len() == TEXT_CELLS,
    ensures
        scrolled(t).len() == TEXT_CELLS,
        forall|i: int| 0 <= i < 1920 ==> #[trigger] scrolled(t)[i] == t[i + 80],
        forall|i: int| 1920 <= i < 2000 ==> #[trigger] scrolled(t)[i] == 0x0F20u16,
        ({
            let w = put_char_effect(v, c);
            v.mode == DisplayMode::Text && c != '\n' && c != '\t' && put_char_ok(v, c)
                && (v.row >= 25 || (v.row == 24 && v.col >= 80)) ==> {
                &&& w.row == 24 && w.col == 1
                &&& w.text.len() == TEXT_CELLS
                &&& forall|i: int| 0 <= i < 1920 ==> #[trigger] w.text[i] == v.text[i + 80]
                &&& w.text[1920] == text_cell(c)
                &&& forall|i: int| 1921 <= i < 2000 ==> #[trigger] w.text[i] == 0x0F20u16
            }
        }),
{
    let w = put_char_effect(v, c);
    if v.mode == DisplayMode::Text && c != '\n' && c != '\t' && put_char_ok(v, c)
        && (v.row >= 25 || (v.row == 24 && v.col >= 80)) {
        let st = scrolled(v.text);
        assert(w.text == st.update(1920, text_cell(c)));
        assert forall|i: int| 1921 <= i < 2000 implies #[trigger] w.text[i] == 0x0F20u16 by {
            assert(st[i] == BLANK_CELL);
        }
        assert forall|i: int| 0 <= i < 1920 implies #[trigger] w.text[i] == v.text[i + 80] by {
            assert(st[i] == v.text[i + 80]);
        }
    }
}

/// Printing a character in text mode: a newline moves to the start of the
/// next row and a tab to the next column that is a multiple of four, neither
/// writing a cell; any other character is written white on black at the
/// cursor, or at the start of the next row once the cursor is past the last
/// column, and the cursor moves one column on; every other cell keeps its
/// contents. Nothing changes in graphics mode.
pub proof fn law_put_char_cursor(v: VgaView, c: char)
    requires
        v.text.len() == TEXT_CELLS,
        put_char_ok(v, c),
    ensures
        ({
            let w = put_char_effect(v, c);
            &&& v.mode != DisplayMode::Text ==> w == v
            &&& v.mode == DisplayMode::Text && c == '\n' ==> w.row == v.row + 1 && w.col == 0 && w.text == v.text
            &&& v.mode == DisplayMode::Text && c == '\t' ==> w.row == v.row && w.text == v.text
                && w.col % 4 == 0 && v.col < w.col <= v.col + 4
            &&& v.mode == DisplayMode::Text && c != '\n' && c != '\t' && v.col < 80 && v.row < 25 ==> {
                &&& w.row == v.row && w.col == v.col + 1
                &&& w.text[v.row * 80 + v.col] == text_cell(c)
                &&& forall|i: int| 0 <= i < 2000 && i != v.row * 80 + v.col ==> #[trigger] w.text[i] == v.text[i]
            }
            &&& v.mode == DisplayMode::Text && c != '\n' && c != '\t' && v.col >= 80 && v.row + 1 < 25 ==> {
                &&& w.row == v.row + 1 && w.col == 1
                &&& w.text[(v.row + 1) * 80] == text_cell(c)
                &&& forall|i: int| 0 <= i < 2000 && i != (v.row + 1) * 80 ==> #[trigger] w.text[i] == v.text[i]
            }
        }),
        (c as u32) < 0x100 ==> text_cell(c) == (c as u32) + 0x0F00,
{
    let col = v.col;
    if v.mode == DisplayMode::Text && c == '\t' {
        let c4 = (col + 4) as usize;
        assert((c4 & !3usize) % 4 == 0 && col < (c4 & !3usize) && (c4 & !3usize) <= c4) by (bit_vector)
            requires c4 == col + 4;
    }
    let x = c as u32;
    if x < 0x100 {
        assert(((x as u16) | (0x0Fu16 << 8u16)) as u32 == x + 0x0F00) by (bit_vector)
            requires x < 0x100;
        assert(WHITE_ON_BLACK as u16 == 0x0Fu16);
    }
}

/// A third of the largest `isize`: the line algorithm's doubled error term
/// stays within three times the extents, so lines whose extents stay within
/// this keep every intermediate value in range. Longer ones can overflow: for
/// extents `2^62 - 1` and `1` the doubled error term reaches about `3 * 2^62`.
pub open spec fn line_limit() -> int {
    isize::MAX as int / 3
}

/// The ends of a line as the signed coordinates the algorithm works in.
pub open spec fn line_ends(x1: usize, y1: usize, x2: usize, y2: usize) -> (int, int, int, int) {
    ((x1 as isize) as int, (y1 as isize) as int, (x2 as isize) as int, (y2 as isize) as int)
}

/// Whether a line can be drawn: its extents are within `line_limit()` and every
/// pixel it may touch can be drawn.
pub open spec fn line_ok(v: VgaView, x1: usize, y1: usize, x2: usize, y2: usize) -> bool {
    let (a, c, b, d) = line_ends(x1, y1, x2, y2);
    &&& -line_limit() <= b - a <= line_limit()
    &&& -line_limit() <= d - c <= line_limit()
    &&& frame_sane(v)
}

/// `v` and `w` have the same mode and frame-buffer geometry.
pub open spec fn same_geometry(v: VgaView, w: VgaView) -> bool {
    &&& w.mode == v.mode
    &&& w.fb_addr == v.fb_addr && w.fb_width == v.fb_width && w.fb_height == v.fb_height
    &&& w.fb_pitch == v.fb_pitch && w.fb_bpp == v.fb_bpp
}

/// Every pixel can be drawn without an offset overflowing.
pub open spec fn frame_sane(v: VgaView) -> bool {
    forall|x: usize, y: usize| #[trigger] pixel_ok(v, x, y)
}

/// Drawing the first `n` pixels of row `yy`, from column `x` rightwards.
pub open spec fn row_effect(v: VgaView, x: usize, yy: usize, n: nat, color: u32) -> VgaView
    decreases n,
{
    if n == 0 {
        v
    } else {
        draw_pixel_effect(row_effect(v, x, yy, (n - 1) as nat, color), (x + n - 1) as usize, yy, color)
    }
}

/// Drawing the first `h` rows of the `w`-wide rectangle at (`x`, `y`), top down.
pub open spec fn fill_effect(v: VgaView, x: usize, y: usize, w: nat, h: nat, color: u32) -> VgaView
    decreases h,
{
    if h == 0 {
        v
    } else {
        row_effect(fill_effect(v, x, y, w, (h - 1) as nat, color), x, (y + h - 1) as usize, w, color)
    }
}

/// Whether a line can be drawn depends only on the mode and geometry.
pub proof fn lemma_line_ok_kept(v: VgaView, w: VgaView, x1: usize, y1: usize, x2: usize, y2: usize)
    requires
        same_geometry(v, w),
        line_ok(v, x1, y1, x2, y2),
    ensures
        line_ok(w, x1, y1, x2, y2),
        frame_sane(w),
{
    assert forall|x: usize, y: usize| #[trigger] pixel_ok(w, x, y) by {
        assert(pixel_ok(v, x, y));
    }
}

impl View for Vga {
    type V = VgaView;

    closed spec fn view(&self) -> VgaView {
        VgaView {
            mode: self.mode,
            row: self.row,
            col: self.col,
            text: self.text@,
            fb_addr: self.fb_addr,
            fb_width: self.fb_width,
            fb_height: self.fb_height,
            fb_pitch: self.fb_pitch,
            fb_bpp: self.fb_bpp,
            frame: self.frame@,
        }
    }
}

/// `n` copies of `value`.
fn filled<T: Copy>(n: usize, value: T) -> (v: Vec<T>)
    ensures
        v@ == Seq::new(n as nat, |i: int| value),
{
    let mut v: Vec<T> = Vec::new();
    let mut i: usize = 0;
    while i < n
        invariant
            i <= n,
            v@ == Seq::new(i as nat, |k: int| value),
        decreases n - i,
    {
        v.push(value);
        i = i + 1;
    }
    v
}

impl Vga {
    /// The text buffer has its cells and the frame its bytes.
    pub open spec fn wf(&self) -> bool {
        &&& self@.text.len() == TEXT_CELLS
        &&& self@.frame.len() == frame_size(self@.fb_pitch, self@.fb_height)
    }

    /// A text console with the cursor home, a blank screen and no frame buffer
    /// (1024x768 at 32 bits, pitch 0).
    pub fn new() -> (v: Self)
        ensures
            v.wf(),
            v@.mode == DisplayMode::Text,
            v@.row == 0 && v@.col == 0,
            v@.text == Seq::new(TEXT_CELLS as nat, |i: int| BLANK_CELL),
            v@.fb_addr == 0 && v@.fb_width == 1024 && v@.fb_height == 768 && v@.fb_pitch == 0 && v@.fb_bpp == 32,
            v@.frame == Seq::<u8>::empty(),
    {
        Vga {
            mode: DisplayMode::Text,
            row: 0,
            col: 0,
            text: filled(TEXT_CELLS, BLANK_CELL),
            fb_addr: 0,
            fb_width: 1024,
            fb_height: 768,
            fb_pitch: 0,
            fb_bpp: 32,
            frame: Vec::new(),
        }
    }

    /// Clears the screen of the current mode: in text mode every cell goes
    /// blank and the cursor home; in graphics mode a set-up frame is zeroed.
    pub fn clear_screen(&mut self)
        requires
            old(self).wf(),
            old(self)@.mode == DisplayMode::Graphics && old(self)@.fb_addr != 0
                ==> old(self)@.fb_pitch * old(self)@.fb_height <= usize::MAX,
        ensures
            final(self).wf(),
            final(self)@ == if old(self)@.mode == DisplayMode::Text {
                (VgaView { text: Seq::new(TEXT_CELLS as nat, |i: int| BLANK_CELL), row: 0, col: 0, ..old(self)@ })
            } else if old(self)@.fb_addr != 0 {
                (VgaView { frame: Seq::new(old(self)@.frame.len(), |i: int| 0u8), ..old(self)@ })
            } else {
                old(self)@
            },
    {
        match self.mode {
            DisplayMode::Text => {
                self.text = filled(TEXT_CELLS, BLANK_CELL);
                self.row = 0;
                self.col = 0;
            },
            DisplayMode::Graphics => {
                if self.fb_addr != 0 {
                    let n = self.frame.len();
                    self.frame = filled(n, 0u8);
                }
            },
        }
    }

    /// Clears the screen in the current mode, then homes the cursor and
    /// switches to text mode.
    pub fn init(&mut self)
        requires
            old(self).wf(),
            old(self)@.mode == DisplayMode::Graphics && old(self)@.fb_addr != 0
                ==> old(self)@.fb_pitch * old(self)@.fb_height <= usize::MAX,
        ensures
            final(self).wf(),
            final(self)@ == (VgaView {
                mode: DisplayMode::Text,
                row: 0,
                col: 0,
                text: if old(self)@.mode == DisplayMode::Text { Seq::new(TEXT_CELLS as nat, |i: int| BLANK_CELL) } else { old(self)@.text },
                frame: if old(self)@.mode == DisplayMode::Graphics && old(self)@.fb_addr != 0 {
                    Seq::new(old(self)@.frame.len(), |i: int| 0u8)
                } else {
                    old(self)@.frame
                },
                ..old(self)@
            }),
    {
        self.clear_screen();
        self.row = 0;
        self.col = 0;
        self.mode = DisplayMode::Text;
    }

    /// Records the frame buffer's address and geometry; its memory is taken
    /// to start cleared.
    pub fn set_framebuffer(&mut self, addr: u64, width: usize, height: usize, pitch: usize, bpp: usize)
        requires
            old(self).wf(),
        ensures
            final(self).wf(),
            final(self)@ == (VgaView {
                fb_addr: addr,
                fb_width: width,
                fb_height: height,
                fb_pitch: pitch,
                fb_bpp: bpp,
                frame: Seq::new(frame_size(pitch, height) as nat, |i: int| 0u8),
                ..old(self)@
            }),
    {
        self.fb_addr = addr;
        self.fb_width = width;
        self.fb_height = height;
        self.fb_pitch = pitch;
        self.fb_bpp = bpp;
        let size = match pitch.checked_mul(height) {
            Some(n) => n,
            None => 0,
        };
        self.frame = filled(size, 0u8);
    }

    /// The display mode.
    pub fn mode(&self) -> (m: DisplayMode)
        ensures
            m == self@.mode,
    {
        self.mode
    }

    /// The cursor as (column, row).
    pub fn cursor(&self) -> (c: (usize, usize))
        ensures
            c == (self@.col, self@.row),
    {
        (self.col, self.row)
    }

    /// The text cells, row by row, each a character in its low byte and its
    /// colours in the high byte.
    pub fn text_cells(&self) -> (t: &[u16])
        ensures
            t@ == self@.text,
    {
        self.text.as_slice()
    }

    /// The bytes of the frame buffer as drawn so far.
    pub fn frame_bytes(&self) -> (f: &[u8])
        ensures
            f@ == self@.frame,
    {
        self.frame.as_slice()
    }

    /// Switches the display mode.
    pub fn set_mode(&mut self, mode: DisplayMode)
        ensures
            final(self)@ == (VgaView { mode, ..old(self)@ }),
    {
        self.mode = mode;
    }

    /// Moves every row up one and blanks the last; the cursor goes to the
    /// start of the last row.
    fn scroll(&mut self)
        requires
            old(self).wf(),
        ensures
            final(self).wf(),
            final(self)@ == (VgaView { text: scrolled(old(self)@.text), row: (VGA_HEIGHT - 1) as usize, col: 0, ..old(self)@ }),
    {
        let mut i: usize = 0;
        while i < TEXT_CELLS - VGA_WIDTH
            invariant
                i <= TEXT_CELLS - VGA_WIDTH,
                self.text@.len() == TEXT_CELLS,
                forall|k: int| 0 <= k < i ==> #[trigger] self.text@[k] == old(self).text@[k + VGA_WIDTH],
                forall|k: int| i <= k < TEXT_CELLS ==> #[trigger] self.text@[k] == old(self).text@[k],
                self.mode == old(self).mode && self.fb_addr == old(self).fb_addr && self.fb_width == old(self).fb_width
                    && self.fb_height == old(self).fb_height && self.fb_pitch == old(self).fb_pitch
                    && self.fb_bpp == old(self).fb_bpp && self.frame@ == old(self).frame@,
            decreases TEXT_CELLS - VGA_WIDTH - i,
        {
            let cell = self.text[i + VGA_WIDTH];
            self.text.set(i, cell);
            i = i + 1;
        }
        while i < TEXT_CELLS
            invariant
                TEXT_CELLS - VGA_WIDTH <= i <= TEXT_CELLS,
                self.text@.len() == TEXT_CELLS,
                forall|k: int| 0 <= k < TEXT_CELLS - VGA_WIDTH ==> #[trigger] self.text@[k] == old(self).text@[k + VGA_WIDTH],
                forall|k: int| TEXT_CELLS - VGA_WIDTH <= k < i ==> #[trigger] self.text@[k] == BLANK_CELL,
                self.mode == old(self).mode && self.fb_addr == old(self).fb_addr && self.fb_width == old(self).fb_width
                    && self.fb_height == old(self).fb_height && self.fb_pitch == old(self).fb_pitch
                    && self.fb_bpp == old(self).fb_bpp && self.frame@ == old(self).frame@,
            decreases TEXT_CELLS - i,
        {
            self.text.set(i, BLANK_CELL);
            i = i + 1;
        }
        self.row = VGA_HEIGHT - 1;
        self.col = 0;
        assert(self.text@ =~= scrolled(old(self).text@));
    }

    /// Moves the cursor to column `x` of row `y` when that is on the screen.
    pub fn set_cursor_pos(&mut self, x: usize, y: usize)
        ensures
            final(self)@ == if x < VGA_WIDTH && y < VGA_HEIGHT { (VgaView { col: x, row: y, ..old(self)@ }) } else { old(self)@ },
    {
        if x < VGA_WIDTH && y < VGA_HEIGHT {
            self.col = x;
            self.row = y;
        }
    }

    /// Prints `c` at the cursor.
    pub fn put_char(&mut self, c: char)
        requires
            old(self).wf(),
            put_char_ok(old(self)@, c),
        ensures
            final(self).wf(),
            final(self)@ == put_char_effect(old(self)@, c),
    {
        match self.mode {
            DisplayMode::Text => {
                if c == '\n' {
                    self.row = self.row + 1;
                    self.col = 0;
                } else if c == '\t' {
                    self.col = (self.col + 4) & !3usize;
                } else {
                    if self.col >= VGA_WIDTH {
                        self.row = self.row + 1;
                        self.col = 0;
                    }
                    if self.row >= VGA_HEIGHT {
                        self.scroll();
                    }
                    let index = self.row * VGA_WIDTH + self.col;
                    self.text.set(index, ((c as u32) as u16) | ((WHITE_ON_BLACK as u16) << 8u16));
                    self.col = self.col + 1;
                }
            },
            DisplayMode::Graphics => {},
        }
    }

    /// Writes `c` in the given colours at column `x` of row `y` when that is
    /// on the screen; the cursor does not move.
    pub fn print_char(&mut self, c: char, x: usize, y: usize, fg_color: u8, bg_color: u8)
        requires
            old(self).wf(),
        ensures
            final(self).wf(),
            final(self)@ == if x < VGA_WIDTH && y < VGA_HEIGHT {
                (VgaView { text: old(self)@.text.update(y * VGA_WIDTH + x, colored_cell(c, fg_color, bg_color)), ..old(self)@ })
            } else {
                old(self)@
            },
    {
        if x < VGA_WIDTH && y < VGA_HEIGHT {
            let index = y * VGA_WIDTH + x;
            let color: u8 = (bg_color << 4u8) | fg_color;
            self.text.set(index, ((c as u32) as u16) | ((color as u16) << 8u16));
        }
    }

    /// Prints the characters of `s` in order.
    pub fn print(&mut self, s: &str)
        requires
            old(self).wf(),
            print_ok(old(self)@, s@),
        ensures
            final(self).wf(),
            final(self)@ == print_effect(old(self)@, s@),
    {
        let ghost cs = s@;
        let mut it = s.chars();
        let ghost mut k: int = 0;
        loop
            invariant
                0 <= k <= cs.len(),
                it.remaining() == cs.skip(k),
                cs == s@,
                self.wf(),
                self@ == print_effect(old(self)@, cs.take(k)),
                print_ok(old(self)@, cs),
            ensures
                self.wf(),
                self@ == print_effect(old(self)@, cs),
            decreases cs.len() - k,
        {
            match it.next() {
                Some(c) => {
                    proof {
                        assert(cs[k] == c);
                        assert(put_char_ok(print_effect(old(self)@, cs.take(k)), cs[k]));
                        assert(cs.take(k + 1).drop_last() =~= cs.take(k));
                    }
                    self.put_char(c);
                    proof {
                        k = k + 1;
                        assert(it.remaining() =~= cs.skip(k));
                    }
                },
                None => {
                    proof {
                        assert(cs.take(k) =~= cs);
                    }
                    break;
                },
            }
        }
    }

    /// Sets pixel (`x`, `y`) to `color` when in graphics mode with a frame
    /// buffer, the pixel is on the screen and its bytes lie in the frame.
    pub fn draw_pixel(&mut self, x: usize, y: usize, color: u32)
        requires
            old(self).wf(),
            pixel_ok(old(self)@, x, y),
        ensures
            final(self).wf(),
            final(self)@ == draw_pixel_effect(old(self)@, x, y, color),
    {
        match self.mode {
            DisplayMode::Graphics => {
                if self.fb_addr != 0 && x < self.fb_width && y < self.fb_height {
                    let byte_offset = y * self.fb_pitch + x * (self.fb_bpp / 8);
                    if byte_offset + 3 < self.frame.len() {
                        self.frame.set(byte_offset, (color & 0xFF) as u8);
                        self.frame.set(byte_offset + 1, ((color >> 8u32) & 0xFF) as u8);
                        self.frame.set(byte_offset + 2, ((color >> 16u32) & 0xFF) as u8);
                        self.frame.set(byte_offset + 3, ((color >> 24u32) & 0xFF) as u8);
                    }
                }
            },
            DisplayMode::Text => {},
        }
    }

    /// Draws the line from (`x1`, `y1`) to (`x2`, `y2`) with the integer line
    /// algorithm, both ends included.
    pub fn draw_line(&mut self, x1: usize, y1: usize, x2: usize, y2: usize, color: u32)
        requires
            old(self).wf(),
            line_ok(old(self)@, x1, y1, x2, y2),
        ensures
            final(self).wf(),
            same_geometry(old(self)@, final(self)@),
            ({
                let (a, c, b, d) = line_ends(x1, y1, x2, y2);
                exists|tr: Seq<(int, int, int)>| #[trigger] line_path(tr, a, c, b, d)
                    && final(self)@ == draw_points(old(self)@, tr, color)
            }),
    {
        let ghost (a, c, b, d) = line_ends(x1, y1, x2, y2);
        let mut x = x1 as isize;
        let mut y = y1 as isize;
        let tx = x2 as isize;
        let ty = y2 as isize;
        let dx = if tx >= x { tx - x } else { x - tx };
        let dy = if ty >= y { ty - y } else { y - ty };
        let sx: isize = if x < tx { 1 } else { -1 };
        let sy: isize = if y < ty { 1 } else { -1 };
        let mut err = dx - dy;
        let ghost mut i: int = 0;
        let ghost mut j: int = 0;
        let ghost mut tr: Seq<(int, int, int)> = seq![(a, c, dx - dy)];
        loop
            invariant_except_break
                0 <= i <= dx,
                0 <= j <= dy,
                sx == 1 ==> x == a + i,
                sx == -1 ==> x == a - i,
                sy == 1 ==> y == c + j,
                sy == -1 ==> y == c - j,
                sx == (if a < b { 1int } else { -1int }),
                sy == (if c < d { 1int } else { -1int }),
                dx == (if b >= a { b - a } else { a - b }),
                dy == (if d >= c { d - c } else { c - d }),
                b == tx && d == ty && a == x1 as isize && c == y1 as isize,
                err == dx - dy + j * dx - i * dy,
                -3 * dy <= 2 * err <= 3 * dx,
                dx <= line_limit() && dy <= line_limit(),
                tr.len() > 0,
                tr[0] == (a, c, dx - dy),
                path_steps(tr, b, d, dx as int, dy as int, sx as int, sy as int),
                tr.last() == (x as int, y as int, err as int),
                self.wf(),
                self@ == draw_points(old(self)@, tr.drop_last(), color),
                line_ok(old(self)@, x1, y1, x2, y2),
                self@.mode == old(self)@.mode && self@.fb_addr == old(self)@.fb_addr
                    && self@.fb_width == old(self)@.fb_width && self@.fb_height == old(self)@.fb_height
                    && self@.fb_pitch == old(self)@.fb_pitch && self@.fb_bpp == old(self)@.fb_bpp,
            ensures
                self.wf(),
                same_geometry(old(self)@, self@),
                line_path(tr, a, c, b, d),
                self@ == draw_points(old(self)@, tr, color),
            decreases (dx - i) + (dy - j),
        {
            proof {
                assert(pixel_ok(old(self)@, x as usize, y as usize));
                assert(pixel_ok(self@, x as usize, y as usize));
            }
            self.draw_pixel(x as usize, y as usize, color);
            proof {
                assert(tr.drop_last().push(tr.last()) =~= tr);
            }
            if x == tx && y == ty {
                break;
            }
            let ghost i0 = i;
            let ghost j0 = j;
            let ghost err0 = err as int;
            proof {
                if i == dx as int && j < dy as int {
                    assert(err <= -dy) by (nonlinear_arith)
                        requires err == dx - dy + j * dx - i * dy, i == dx, j <= dy - 1, dx >= 0, dy >= 1;
                }
                if j == dy as int && i < dx as int {
                    assert(err >= dx) by (nonlinear_arith)
                        requires err == dx - dy + j * dx - i * dy, j == dy, i <= dx - 1, dy >= 0, dx >= 1;
                }
                if i == dx as int && j == dy as int {
                    assert(x == tx && y == ty);
                }
            }
            let e2 = 2 * err;
            proof {
                assert(e2 > -dy || e2 < dx);
            }
            if e2 > -dy {
                err = err - dy;
                x = x + sx;
                proof {
                    i = i + 1;
                }
            }
            if e2 < dx {
                err = err + dx;
                y = y + sy;
                proof {
                    j = j + 1;
                }
            }
            proof {
                let di = i - i0;
                let dj = j - j0;
                assert(err == err0 - di * dy + dj * dx) by (nonlinear_arith)
                    requires
                        di == 0 || di == 1,
                        dj == 0 || dj == 1,
                        di == 1 ==> dj == 1 ==> err == err0 - dy + dx,
                        di == 1 ==> dj == 0 ==> err == err0 - dy,
                        di == 0 ==> dj == 1 ==> err == err0 + dx,
                        di == 0 ==> dj == 0 ==> err == err0;
                assert(err == dx - dy + j * dx - i * dy) by (nonlinear_arith)
                    requires
                        err0 == dx - dy + j0 * dx - i0 * dy,
                        err == err0 - di * dy + dj * dx,
                        di == i - i0,
                        dj == j - j0;
                let last = tr.last();
                assert(!(last.0 == b && last.1 == d));
                assert(line_step(last, dx as int, dy as int, sx as int, sy as int) == (x as int, y as int, err as int));
                let old_tr = tr;
                lemma_extend_path(old_tr, (x as int, y as int, err as int), b, d, dx as int, dy as int, sx as int, sy as int);
                tr = tr.push((x as int, y as int, err as int));
                assert(tr.drop_last() =~= old_tr);
            }
        }
        proof {
            assert(line_path(tr, a, c, b, d));
        }
    }

    /// Draws the `width` by `height` rectangle at (`x`, `y`): every pixel,
    /// row by row, when `filled`; otherwise its four edges as lines (top,
    /// bottom, left, right).
    pub fn draw_rect(&mut self, x: usize, y: usize, width: usize, height: usize, color: u32, filled: bool)
        requires
            old(self).wf(),
            frame_sane(old(self)@),
            filled && width > 0 && height > 0 ==> x + width - 1 <= usize::MAX && y + height - 1 <= usize::MAX,
            !filled ==> width >= 1 && height >= 1 && x + width <= usize::MAX && y + height <= usize::MAX,
            !filled ==> line_ok(old(self)@, x, y, (x + width - 1) as usize, y)
                && line_ok(old(self)@, x, (y + height - 1) as usize, (x + width - 1) as usize, (y + height - 1) as usize)
                && line_ok(old(self)@, x, y, x, (y + height - 1) as usize)
                && line_ok(old(self)@, (x + width - 1) as usize, y, (x + width - 1) as usize, (y + height - 1) as usize),
        ensures
            final(self).wf(),
            filled ==> final(self)@ == fill_effect(old(self)@, x, y, width as nat, height as nat, color),
            !filled ==> ({
                let r = (x + width - 1) as usize;
                let bt = (y + height - 1) as usize;
                exists|t1: Seq<(int, int, int)>, t2: Seq<(int, int, int)>, t3: Seq<(int, int, int)>, t4: Seq<(int, int, int)>|
                    #![trigger line_path(t1, line_ends(x, y, r, y).0, line_ends(x, y, r, y).1, line_ends(x, y, r, y).2, line_ends(x, y, r, y).3),
                        line_path(t2, line_ends(x, bt, r, bt).0, line_ends(x, bt, r, bt).1, line_ends(x, bt, r, bt).2, line_ends(x, bt, r, bt).3),
                        line_path(t3, line_ends(x, y, x, bt).0, line_ends(x, y, x, bt).1, line_ends(x, y, x, bt).2, line_ends(x, y, x, bt).3),
                        line_path(t4, line_ends(r, y, r, bt).0, line_ends(r, y, r, bt).1, line_ends(r, y, r, bt).2, line_ends(r, y, r, bt).3)]
                    line_path(t1, line_ends(x, y, r, y).0, line_ends(x, y, r, y).1, line_ends(x, y, r, y).2, line_ends(x, y, r, y).3)
                    && line_path(t2, line_ends(x, bt, r, bt).0, line_ends(x, bt, r, bt).1, line_ends(x, bt, r, bt).2, line_ends(x, bt, r, bt).3)
                    && line_path(t3, line_ends(x, y, x, bt).0, line_ends(x, y, x, bt).1, line_ends(x, y, x, bt).2, line_ends(x, y, x, bt).3)
                    && line_path(t4, line_ends(r, y, r, bt).0, line_ends(r, y, r, bt).1, line_ends(r, y, r, bt).2, line_ends(r, y, r, bt).3)
                    && final(self)@ == draw_points(draw_points(draw_points(draw_points(old(self)@, t1, color), t2, color), t3, color), t4, color)
            }),
    {
        if filled {
            let mut dy: usize = 0;
            while dy < height
                invariant
                    dy <= height,
                    self.wf(),
                    same_geometry(old(self)@, self@),
                    frame_sane(old(self)@),
                    width > 0 && height > 0 ==> x + width - 1 <= usize::MAX && y + height - 1 <= usize::MAX,
                    self@ == fill_effect(old(self)@, x, y, width as nat, dy as nat, color),
                decreases height - dy,
            {
                let ghost before = self@;
                let mut dx: usize = 0;
                while dx < width
                    invariant
                        dx <= width,
                        dy < height,
                        self.wf(),
                        same_geometry(old(self)@, self@),
                        frame_sane(old(self)@),
                        width > 0 && height > 0 ==> x + width - 1 <= usize::MAX && y + height - 1 <= usize::MAX,
                        self@ == row_effect(before, x, (y + dy) as usize, dx as nat, color),
                    decreases width - dx,
                {
                    proof {
                        assert(pixel_ok(old(self)@, (x + dx) as usize, (y + dy) as usize));
                        assert(pixel_ok(self@, (x + dx) as usize, (y + dy) as usize));
                    }
                    self.draw_pixel(x + dx, y + dy, color);
                    dx = dx + 1;
                }
                dy = dy + 1;
            }
        } else {
            let r = x + width - 1;
            let bt = y + height - 1;
            let ghost v0 = self@;
            self.draw_line(x, y, r, y, color);
            let ghost v1 = self@;
            proof {
                lemma_line_ok_kept(v0, v1, x, bt, r, bt);
                lemma_line_ok_kept(v0, v1, x, y, x, bt);
                lemma_line_ok_kept(v0, v1, r, y, r, bt);
            }
            self.draw_line(x, bt, r, bt, color);
            let ghost v2 = self@;
            proof {
                lemma_line_ok_kept(v0, v2, x, y, x, bt);
                lemma_line_ok_kept(v0, v2, r, y, r, bt);
            }
            self.draw_line(x, y, x, bt, color);
            let ghost v3 = self@;
            proof {
                lemma_line_ok_kept(v0, v3, r, y, r, bt);
            }
            self.draw_line(r, y, r, bt, color);
            proof {
                let (a1, c1, b1, d1) = line_ends(x, y, r, y);
                let (a2, c2, b2, d2) = line_ends(x, bt, r, bt);
                let (a3, c3, b3, d3) = line_ends(x, y, x, bt);
                let (a4, c4, b4, d4) = line_ends(r, y, r, bt);
                let t1 = choose|t: Seq<(int, int, int)>| line_path(t, a1, c1, b1, d1) && v1 == draw_points(v0, t, color);
                let t2 = choose|t: Seq<(int, int, int)>| line_path(t, a2, c2, b2, d2) && v2 == draw_points(v1, t, color);
                let t3 = choose|t: Seq<(int, int, int)>| line_path(t, a3, c3, b3, d3) && v3 == draw_points(v2, t, color);
                let t4 = choose|t: Seq<(int, int, int)>| line_path(t, a4, c4, b4, d4) && self@ == draw_points(v3, t, color);
                assert(line_path(t1, a1, c1, b1, d1) && line_path(t2, a2, c2, b2, d2)
                    && line_path(t3, a3, c3, b3, d3) && line_path(t4, a4, c4, b4, d4));
            }
        }
    }
}

} // verus!
