use vstd::prelude::*;
use vstd::arithmetic::mul::lemma_mul_inequality;

verus! {

/// First code point of the Unicode braille block (the blank pattern).
pub const BRAILLE_BASE: u32 = 0x2800;

/// One terminal cell of braille output.
///
/// `escaped_pixels` lists, in dot order, the indices of the sub-pixels of
/// the cell that escaped; the front end averages their smooth values.
pub struct BrailleCell {
    pub ch: char,
    pub has_escaped: bool,
    pub escaped_pixels: Vec<usize>,
}

/// Offsets of the eight braille dots of a cell and the pattern bit each one
/// sets: dot `k` sits at column `dx`, row `dy` of the 2x4 block and sets
/// bit `k` (so the bit is `2^k`).
pub open spec fn dot_dx(k: int) -> int {
    if k == 3 || k == 4 || k == 5 || k == 7 { 1 } else { 0 }
}

pub open spec fn dot_dy(k: int) -> int {
    if k == 0 || k == 3 {
        0
    } else if k == 1 || k == 4 {
        1
    } else if k == 2 || k == 5 {
        2
    } else {
        3
    }
}

pub open spec fn dot_bit(k: int) -> int {
    if k == 0 {
        1
    } else if k == 1 {
        2
    } else if k == 2 {
        4
    } else if k == 3 {
        8
    } else if k == 4 {
        16
    } else if k == 5 {
        32
    } else if k == 6 {
        64
    } else if k == 7 {
        128
    } else {
        256
    }
}

/// The sub-pixel column and row of dot `k` of cell (`row`, `col`).
pub open spec fn dot_px(col: int, k: int) -> int {
    2 * col + dot_dx(k)
}

pub open spec fn dot_py(row: int, k: int) -> int {
    4 * row + dot_dy(k)
}

/// Dot `k` of cell (`row`, `col`) is raised when its sub-pixel lies in the
/// `w` x `h` grid and escaped.
pub open spec fn dot_lit(esc: Seq<bool>, w: int, h: int, row: int, col: int, k: int) -> bool {
    let px = dot_px(col, k);
    let py = dot_py(row, k);
    px < w && py < h && esc[py * w + px]
}

/// Pattern formed by the raised dots among the first `n`.
pub open spec fn cell_pattern(esc: Seq<bool>, w: int, h: int, row: int, col: int, n: nat) -> int
    decreases n,
{
    if n == 0 {
        0
    } else {
        let k = n - 1;
        cell_pattern(esc, w, h, row, col, (n - 1) as nat) + if dot_lit(esc, w, h, row, col, k) {
            dot_bit(k)
        } else {
            0
        }
    }
}

/// Pixel indices of the raised dots among the first `n`, in dot order.
pub open spec fn cell_pixels(esc: Seq<bool>, w: int, h: int, row: int, col: int, n: nat) -> Seq<usize>
    decreases n,
{
    if n == 0 {
        Seq::empty()
    } else {
        let k = n - 1;
        let prev = cell_pixels(esc, w, h, row, col, (n - 1) as nat);
        if dot_lit(esc, w, h, row, col, k) {
            prev.push((dot_py(row, k) * w + dot_px(col, k)) as usize)
        } else {
            prev
        }
    }
}

/// The braille character for a dot pattern.
pub open spec fn braille_char(pattern: int) -> char {
    (BRAILLE_BASE + pattern) as char
}

/// `c` is the cell (`row`, `col`) rendered from the escape flags `esc` of a
/// `w` x `h` sub-pixel grid.
pub open spec fn cell_rendered(c: BrailleCell, esc: Seq<bool>, w: int, h: int, row: int, col: int) -> bool {
    &&& c.ch == braille_char(cell_pattern(esc, w, h, row, col, 8))
    &&& c.escaped_pixels@ == cell_pixels(esc, w, h, row, col, 8)
    &&& c.has_escaped == (c.escaped_pixels@.len() > 0)
}

/// The highest sub-pixel index any cell of a `w` x `h` grid reads, plus one
/// (zero when the grid has no whole cell).
pub open spec fn pixels_read(w: int, h: int) -> int {
    if h / 4 == 0 || w / 2 == 0 {
        0
    } else {
        (4 * (h / 4) - 1) * w + 2 * (w / 2)
    }
}

fn dot(k: usize) -> (r: (usize, usize, u8))
    requires
        k < 8,
    ensures
        r.0 == dot_dx(k as int),
        r.1 == dot_dy(k as int),
        r.2 == dot_bit(k as int),
{
    match k {
        0 => (0, 0, 0x01),
        1 => (0, 1, 0x02),
        2 => (0, 2, 0x04),
        3 => (1, 0, 0x08),
        4 => (1, 1, 0x10),
        5 => (1, 2, 0x20),
        6 => (0, 3, 0x40),
        _ => (1, 3, 0x80),
    }
}

/// Wraps `char::from_u32`, which std documents as returning the `char` whose
/// scalar value is `n` when `n` is a Unicode scalar value (at most 0x10FFFF
/// and outside the surrogates 0xD800..=0xDFFF) and `None` otherwise.
#[verifier::external_body]
fn char_from_u32(n: u32) -> (r: Option<char>)
    ensures
        (n <= 0xD7FF || (0xE000 <= n && n <= 0x10FFFF)) ==> r == Some(n as char),
        !(n <= 0xD7FF || (0xE000 <= n && n <= 0x10FFFF)) ==> r is None,
{
    char::from_u32(n)
}

proof fn lemma_or_disjoint(p: u8, b: u8)
    by (bit_vector)
    requires
        p < b,
        b == 1u8 || b == 2u8 || b == 4u8 || b == 8u8 || b == 16u8 || b == 32u8 || b == 64u8
            || b == 128u8,
    ensures
        p | b == p + b,
{
}

proof fn lemma_pattern_bound(esc: Seq<bool>, w: int, h: int, row: int, col: int, n: nat)
    requires
        n <= 8,
    ensures
        0 <= cell_pattern(esc, w, h, row, col, n) < dot_bit(n as int),
    decreases n,
{
    if n > 0 {
        lemma_pattern_bound(esc, w, h, row, col, (n - 1) as nat);
    }
}


proof fn lemma_pixels_iff_pattern(esc: Seq<bool>, w: int, h: int, row: int, col: int, n: nat)
    requires
        n <= 8,
    ensures
        (cell_pixels(esc, w, h, row, col, n).len() > 0) == (cell_pattern(esc, w, h, row, col, n)
            != 0),
    decreases n,
{
    if n > 0 {
        lemma_pixels_iff_pattern(esc, w, h, row, col, (n - 1) as nat);
        lemma_pattern_bound(esc, w, h, row, col, (n - 1) as nat);
    }
}

proof fn lemma_or_bits(p: u8, b: u8, c: u8)
    by (bit_vector)
    requires
        p < b,
        b == 1u8 || b == 2u8 || b == 4u8 || b == 8u8 || b == 16u8 || b == 32u8 || b == 64u8
            || b == 128u8,
        c == 1u8 || c == 2u8 || c == 4u8 || c == 8u8 || c == 16u8 || c == 32u8 || c == 64u8
            || c == 128u8,
    ensures
        c < b ==> (p | b) & c == p & c,
        c == b ==> (p | b) & c != 0,
        c > b ==> (p | b) & c == 0 && p & c == 0,
{
}

proof fn lemma_pattern_bits(esc: Seq<bool>, w: int, h: int, row: int, col: int, n: nat, k: int)
    requires
        n <= 8,
        0 <= k < 8,
    ensures
        k < n ==> (((cell_pattern(esc, w, h, row, col, n) as u8) & (dot_bit(k) as u8) != 0)
            == dot_lit(esc, w, h, row, col, k)),
        k >= n ==> (cell_pattern(esc, w, h, row, col, n) as u8) & (dot_bit(k) as u8) == 0,
    decreases n,
{
    lemma_pattern_bound(esc, w, h, row, col, n);
    if n > 0 {
        let m = (n - 1) as nat;
        lemma_pattern_bits(esc, w, h, row, col, m, k);
        lemma_pattern_bound(esc, w, h, row, col, m);
        let p = cell_pattern(esc, w, h, row, col, m) as u8;
        let b = dot_bit(m as int) as u8;
        let c = dot_bit(k) as u8;
        lemma_or_bits(p, b, c);
        lemma_or_disjoint(p, b);
        if k < m {
            assert(c < b);
        } else if k > m {
            assert(c > b);
        }
    } else {
        let c = dot_bit(k) as u8;
        assert(0u8 & c == 0) by (bit_vector);
    }
}

/// The braille bit layout: bit `k` of a cell's pattern is set exactly when
/// dot `k` (at column `dot_dx(k)`, row `dot_dy(k)` of the cell's 2x4 block)
/// covers a sub-pixel that escaped.
pub proof fn lemma_cell_bits(esc: Seq<bool>, w: int, h: int, row: int, col: int, k: int)
    requires
        0 <= k < 8,
    ensures
        ((cell_pattern(esc, w, h, row, col, 8) as u8) & (dot_bit(k) as u8) != 0) == dot_lit(
            esc,
            w,
            h,
            row,
            col,
            k,
        ),
{
    lemma_pattern_bits(esc, w, h, row, col, 8, k);
}

/// A rendered cell is marked as escaped exactly when its character is not
/// the blank braille pattern, and every character lies in the braille block.
pub proof fn lemma_cell_escaped_iff_not_blank(
    c: BrailleCell,
    esc: Seq<bool>,
    w: int,
    h: int,
    row: int,
    col: int,
)
    requires
        cell_rendered(c, esc, w, h, row, col),
    ensures
        c.has_escaped == (c.ch != braille_char(0)),
        0x2800 <= c.ch as int <= 0x28FF,
{
    lemma_pixels_iff_pattern(esc, w, h, row, col, 8);
    lemma_pattern_bound(esc, w, h, row, col, 8);
}


/// The bit of a braille pattern for the dot in column `dx` and row `dy` of
/// the 2x4 block, as Unicode lays the braille block out: dots 1-3 down the
/// left column are bits 0-2, dots 4-6 down the right column bits 3-5, and
/// the bottom row's dots 7 and 8 bits 6 and 7.
pub open spec fn unicode_dot_bit(dx: int, dy: int) -> u8 {
    if dy < 3 {
        1u8 << ((3 * dx + dy) as u8)
    } else {
        1u8 << ((6 + dx) as u8)
    }
}

/// Index of the sub-pixel in column `dx`, row `dy` of cell (`row`, `col`).
pub open spec fn block_pixel(w: int, row: int, col: int, dx: int, dy: int) -> int {
    (4 * row + dy) * w + (2 * col + dx)
}

/// `x` is the index of one of the first `n` dots of the cell that escaped.
spec fn lit_dot_pixel(esc: Seq<bool>, w: int, h: int, row: int, col: int, n: nat, x: usize) -> bool {
    exists|k: int|
        0 <= k < n && #[trigger] dot_lit(esc, w, h, row, col, k) && x == (dot_py(row, k) * w
            + dot_px(col, k)) as usize
}

proof fn lemma_cell_pixels_members(esc: Seq<bool>, w: int, h: int, row: int, col: int, n: nat)
    requires
        n <= 8,
    ensures
        forall|i: int|
            0 <= i < cell_pixels(esc, w, h, row, col, n).len() ==> lit_dot_pixel(
                esc,
                w,
                h,
                row,
                col,
                n,
                #[trigger] cell_pixels(esc, w, h, row, col, n)[i],
            ),
        forall|k: int|
            0 <= k < n && #[trigger] dot_lit(esc, w, h, row, col, k) ==> cell_pixels(
                esc,
                w,
                h,
                row,
                col,
                n,
            ).contains((dot_py(row, k) * w + dot_px(col, k)) as usize),
    decreases n,
{
    if n > 0 {
        let m = (n - 1) as nat;
        lemma_cell_pixels_members(esc, w, h, row, col, m);
        let prev = cell_pixels(esc, w, h, row, col, m);
        let cur = cell_pixels(esc, w, h, row, col, n);
        let k0 = m as int;
        assert forall|i: int| 0 <= i < cur.len() implies lit_dot_pixel(
            esc,
            w,
            h,
            row,
            col,
            n,
            #[trigger] cur[i],
        ) by {
            if i < prev.len() {
                assert(cur[i] == prev[i]);
                assert(lit_dot_pixel(esc, w, h, row, col, m, prev[i]));
                let k = choose|k: int|
                    0 <= k < m && #[trigger] dot_lit(esc, w, h, row, col, k) && prev[i] == (dot_py(
                        row,
                        k,
                    ) * w + dot_px(col, k)) as usize;
                assert(dot_lit(esc, w, h, row, col, k));
            } else {
                assert(dot_lit(esc, w, h, row, col, k0));
                assert(cur[i] == (dot_py(row, k0) * w + dot_px(col, k0)) as usize);
            }
        }
        assert forall|k: int|
            0 <= k < n && #[trigger] dot_lit(esc, w, h, row, col, k) implies cur.contains(
                (dot_py(row, k) * w + dot_px(col, k)) as usize,
            ) by {
            if k < m {
                let t = choose|t: int|
                    0 <= t < prev.len() && prev[t] == (dot_py(row, k) * w + dot_px(col, k)) as usize;
                assert(cur[t] == prev[t]);
            } else {
                assert(cur[cur.len() - 1] == (dot_py(row, k) * w + dot_px(col, k)) as usize);
            }
        }
    }
}

/// The dot of a cell's 2x4 block in column `dx`, row `dy`, as an index
/// into the dot order.
spec fn dot_of(dx: int, dy: int) -> int {
    if dy < 3 {
        3 * dx + dy
    } else {
        6 + dx
    }
}

proof fn lemma_dot_of(dx: int, dy: int)
    requires
        0 <= dx < 2,
        0 <= dy < 4,
    ensures
        0 <= dot_of(dx, dy) < 8,
        dot_dx(dot_of(dx, dy)) == dx,
        dot_dy(dot_of(dx, dy)) == dy,
        dot_bit(dot_of(dx, dy)) == unicode_dot_bit(dx, dy) as int,
{
    assert(1u8 << 0u8 == 1u8) by (bit_vector);
    assert(1u8 << 1u8 == 2u8) by (bit_vector);
    assert(1u8 << 2u8 == 4u8) by (bit_vector);
    assert(1u8 << 3u8 == 8u8) by (bit_vector);
    assert(1u8 << 4u8 == 16u8) by (bit_vector);
    assert(1u8 << 5u8 == 32u8) by (bit_vector);
    assert(1u8 << 6u8 == 64u8) by (bit_vector);
    assert(1u8 << 7u8 == 128u8) by (bit_vector);
}

/// How a rendered cell encodes its 2x4 block, in Unicode's braille layout:
/// its character lies in the braille block U+2800..U+28FF, and the pattern
/// bit of the dot in column `dx`, row `dy` is set exactly when the sub-pixel
/// under that dot escaped. The cell's escaped-pixel list holds the index of
/// every escaped sub-pixel of the block and nothing else.
pub proof fn lemma_braille_layout(
    c: BrailleCell,
    esc: Seq<bool>,
    w: int,
    h: int,
    row: int,
    col: int,
    dx: int,
    dy: int,
)
    requires
        cell_rendered(c, esc, w, h, row, col),
        0 <= row < h / 4,
        0 <= col < w / 2,
        0 <= dx < 2,
        0 <= dy < 4,
    ensures
        0x2800 <= c.ch as u32 <= 0x28FF,
        ((((c.ch as u32) - 0x2800) as u8) & unicode_dot_bit(dx, dy) != 0) == esc[block_pixel(
            w,
            row,
            col,
            dx,
            dy,
        )],
        esc[block_pixel(w, row, col, dx, dy)] ==> c.escaped_pixels@.contains(
            block_pixel(w, row, col, dx, dy) as usize,
        ),
        forall|i: int|
            #![trigger c.escaped_pixels@[i]]
            0 <= i < c.escaped_pixels@.len() ==> exists|ex: int, ey: int|
                0 <= ex < 2 && 0 <= ey < 4 && esc[#[trigger] block_pixel(w, row, col, ex, ey)]
                    && c.escaped_pixels@[i] == block_pixel(w, row, col, ex, ey) as usize,
{
    lemma_pattern_bound(esc, w, h, row, col, 8);
    lemma_dot_of(dx, dy);
    let k = dot_of(dx, dy);
    lemma_cell_bits(esc, w, h, row, col, k);
    lemma_cell_pixels_members(esc, w, h, row, col, 8);
    let p = cell_pattern(esc, w, h, row, col, 8);
    assert((c.ch as u32) - 0x2800 == p);
    assert forall|i: int|
        #![trigger c.escaped_pixels@[i]]
        0 <= i < c.escaped_pixels@.len() implies exists|ex: int, ey: int|
            0 <= ex < 2 && 0 <= ey < 4 && esc[#[trigger] block_pixel(w, row, col, ex, ey)]
                && c.escaped_pixels@[i] == block_pixel(w, row, col, ex, ey) as usize by {
        assert(lit_dot_pixel(esc, w, h, row, col, 8, c.escaped_pixels@[i]));
        let j = choose|j: int|
            0 <= j < 8 && #[trigger] dot_lit(esc, w, h, row, col, j) && c.escaped_pixels@[i] == (
            dot_py(row, j) * w + dot_px(col, j)) as usize;
        assert(block_pixel(w, row, col, dot_dx(j), dot_dy(j)) == dot_py(row, j) * w + dot_px(col, j));
    }
}

/// Render one cell.
fn render_cell(escaped: &[bool], pixel_w: usize, pixel_h: usize, row: usize, col: usize) -> (c:
    BrailleCell)
    requires
        row < pixel_h / 4,
        col < pixel_w / 2,
        pixels_read(pixel_w as int, pixel_h as int) <= escaped@.len(),
    ensures
        cell_rendered(c, escaped@, pixel_w as int, pixel_h as int, row as int, col as int),
{
    let ghost esc = escaped@;
    let ghost w = pixel_w as int;
    let ghost h = pixel_h as int;
    let base_px = col * 2;
    let base_py = row * 4;

    let mut pattern: u8 = 0;
    let mut pixels: Vec<usize> = Vec::new();
    let mut k: usize = 0;
    while k < 8
        invariant
            k <= 8,
            row < pixel_h / 4,
            col < pixel_w / 2,
            base_px == 2 * col,
            base_py == 4 * row,
            esc == escaped@,
            w == pixel_w,
            h == pixel_h,
            pixels_read(w, h) <= esc.len(),
            pattern as int == cell_pattern(esc, w, h, row as int, col as int, k as nat),
            pixels@ == cell_pixels(esc, w, h, row as int, col as int, k as nat),
        decreases 8 - k,
    {
        let (dx, dy, bit) = dot(k);
        let px = base_px + dx;
        let py = base_py + dy;
        if px < pixel_w && py < pixel_h {
            proof {
                assert(py <= 4 * (pixel_h / 4) - 1);
                lemma_mul_inequality(py as int, 4 * (h / 4) - 1, w);
                assert(px <= 2 * (pixel_w / 2) - 1);
                assert(pixels_read(w, h) == (4 * (h / 4) - 1) * w + 2 * (w / 2));
                assert(py * w + px < pixels_read(w, h));
                assert(esc.len() == escaped.len());
            }
            let idx = py * pixel_w + px;
            if escaped[idx] {
                proof {
                    lemma_pattern_bound(esc, w, h, row as int, col as int, k as nat);
                    lemma_or_disjoint(pattern, bit);
                }
                pattern = pattern | bit;
                pixels.push(idx);
            }
        }
        k += 1;
    }
    proof {
        lemma_pattern_bound(esc, w, h, row as int, col as int, 8);
    }
    let code = BRAILLE_BASE + pattern as u32;
    let ch = match char_from_u32(code) {
        Some(c) => c,
        None => ' ',
    };
    let has_escaped = pixels.len() > 0;
    BrailleCell { ch, has_escaped, escaped_pixels: pixels }
}

/// Convert the escape flags of a `pixel_w` x `pixel_h` grid of braille
/// sub-pixels (row-major) into terminal cells: `pixel_h / 4` rows of
/// `pixel_w / 2` cells, each encoding its 2x4 block as a braille character.
pub fn render_braille(escaped: &[bool], pixel_w: usize, pixel_h: usize) -> (grid: Vec<Vec<BrailleCell>>)
    requires
        pixels_read(pixel_w as int, pixel_h as int) <= escaped@.len(),
    ensures
        grid@.len() == pixel_h / 4,
        forall|row: int| 0 <= row < grid@.len() ==> #[trigger] grid@[row]@.len() == pixel_w / 2,
        forall|row: int, col: int|
            0 <= row < grid@.len() && 0 <= col < pixel_w / 2 ==> cell_rendered(
                #[trigger] grid@[row]@[col],
                escaped@,
                pixel_w as int,
                pixel_h as int,
                row,
                col,
            ),
{
    let cols = pixel_w / 2;
    let rows = pixel_h / 4;

    let mut grid: Vec<Vec<BrailleCell>> = Vec::with_capacity(rows);
    let mut row: usize = 0;
    while row < rows
        invariant
            row <= rows,
            rows == pixel_h / 4,
            cols == pixel_w / 2,
            pixels_read(pixel_w as int, pixel_h as int) <= escaped@.len(),
            grid@.len() == row,
            forall|r: int| 0 <= r < row ==> #[trigger] grid@[r]@.len() == cols,
            forall|r: int, c: int|
                0 <= r < row && 0 <= c < cols ==> cell_rendered(
                    #[trigger] grid@[r]@[c],
                    escaped@,
                    pixel_w as int,
                    pixel_h as int,
                    r,
                    c,
                ),
        decreases rows - row,
    {
        let mut line: Vec<BrailleCell> = Vec::with_capacity(cols);
        let mut col: usize = 0;
        while col < cols
            invariant
                col <= cols,
                row < rows,
                rows == pixel_h / 4,
                cols == pixel_w / 2,
                pixels_read(pixel_w as int, pixel_h as int) <= escaped@.len(),
                line@.len() == col,
                forall|c: int|
                    0 <= c < col ==> cell_rendered(
                        #[trigger] line@[c],
                        escaped@,
                        pixel_w as int,
                        pixel_h as int,
                        row as int,
                        c,
                    ),
            decreases cols - col,
        {
            let cell = render_cell(escaped, pixel_w, pixel_h, row, col);
            line.push(cell);
            col += 1;
        }
        grid.push(line);
        row += 1;
    }
    grid
}

} // verus!
