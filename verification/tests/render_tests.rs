use fractals_tui::render::braille::{render_braille, BrailleCell};
use fractals_tui::render::color::{Anchor, Palette};
use fractals_tui::fractal::BurningShip;

fn grid_of(escaped: &[bool], w: usize, h: usize) -> Vec<Vec<BrailleCell>> {
    render_braille(escaped, w, h)
}

#[test]
fn palette_names() {
    assert_eq!(Palette::Classic.name(), "Classic");
    assert_eq!(Palette::Fire.name(), "Fire");
    assert_eq!(Palette::Ocean.name(), "Ocean");
    assert_eq!(Palette::Neon.name(), "Neon");
    assert_eq!(Palette::Grayscale.name(), "Grayscale");
}

#[test]
fn palette_next_visits_all_and_wraps() {
    let mut p = Palette::Classic;
    let mut seen = Vec::new();
    for _ in 0..5 {
        seen.push(p);
        p = p.next();
    }
    assert_eq!(p, Palette::Classic);
    assert_eq!(
        seen,
        vec![Palette::Classic, Palette::Fire, Palette::Ocean, Palette::Neon, Palette::Grayscale]
    );
    assert_eq!(Palette::Grayscale.next(), Palette::Classic);
}

#[test]
fn palette_anchor_tables_are_sorted_unit_gradients() {
    for p in [Palette::Classic, Palette::Fire, Palette::Ocean, Palette::Neon, Palette::Grayscale] {
        let a = p.anchors();
        assert!(a.len() >= 2);
        assert_eq!(a[0].pos, 0);
        assert_eq!(a[a.len() - 1].pos, 10000);
        for w in a.windows(2) {
            assert!(w[0].pos < w[1].pos);
        }
    }
}

#[test]
fn classic_anchor_values() {
    let a = Palette::Classic.anchors();
    assert_eq!(a.len(), 6);
    assert_eq!(a[3], Anchor { pos: 6425, r: 255, g: 170, b: 0 });
    assert_eq!(a[5], Anchor { pos: 10000, r: 0, g: 7, b: 100 });
    let g = Palette::Grayscale.anchors();
    assert_eq!(g[1], Anchor { pos: 5000, r: 180, g: 180, b: 180 });
    // Positions stand for the fractions 0.6425 etc. exactly.
    assert_eq!(a[3].pos as f64 / 10000.0, 0.6425);
    assert_eq!(a[4].pos as f64 / 10000.0, 0.8575);
}

#[test]
fn braille_empty_cell_is_blank() {
    let esc = vec![false; 8];
    let g = grid_of(&esc, 2, 4);
    assert_eq!(g.len(), 1);
    assert_eq!(g[0].len(), 1);
    assert_eq!(g[0][0].ch, '\u{2800}');
    assert!(!g[0][0].has_escaped);
    assert!(g[0][0].escaped_pixels.is_empty());
}

#[test]
fn braille_full_cell() {
    let esc = vec![true; 8];
    let g = grid_of(&esc, 2, 4);
    assert_eq!(g[0][0].ch, '\u{28FF}');
    assert!(g[0][0].has_escaped);
    // Dot order: (0,0) (0,1) (0,2) (1,0) (1,1) (1,2) (0,3) (1,3).
    assert_eq!(g[0][0].escaped_pixels, vec![0, 2, 4, 1, 3, 5, 6, 7]);
}

#[test]
fn braille_bit_layout() {
    // (dx, dy) -> bit, as the braille standard lays the dots out.
    let layout = [
        (0, 0, 0x01u32),
        (0, 1, 0x02),
        (0, 2, 0x04),
        (1, 0, 0x08),
        (1, 1, 0x10),
        (1, 2, 0x20),
        (0, 3, 0x40),
        (1, 3, 0x80),
    ];
    for (dx, dy, bit) in layout {
        let mut esc = vec![false; 8];
        esc[dy * 2 + dx] = true;
        let g = grid_of(&esc, 2, 4);
        assert_eq!(g[0][0].ch as u32, 0x2800 + bit);
        assert_eq!(g[0][0].escaped_pixels, vec![dy * 2 + dx]);
    }
}

#[test]
fn braille_grid_shape_drops_partial_cells() {
    // 5 x 9 sub-pixels: two whole cells across, two down.
    let esc = vec![false; 45];
    let g = grid_of(&esc, 5, 9);
    assert_eq!(g.len(), 2);
    assert!(g.iter().all(|row| row.len() == 2));
    let g = grid_of(&[], 1, 3);
    assert!(g.is_empty());
}

#[test]
fn braille_second_cell_indices() {
    // 4 x 8 grid, mark sub-pixel (3, 5): cell row 1, col 1, dot (1, 1).
    let mut esc = vec![false; 32];
    esc[5 * 4 + 3] = true;
    let g = grid_of(&esc, 4, 8);
    assert_eq!(g[1][1].ch, '\u{2810}');
    assert_eq!(g[1][1].escaped_pixels, vec![23]);
    assert!(g[1][1].has_escaped);
    assert!(!g[0][0].has_escaped && !g[0][1].has_escaped && !g[1][0].has_escaped);
}

#[test]
fn braille_escaped_iff_not_blank() {
    let esc: Vec<bool> = (0..64).map(|i| (i * 7) % 3 == 0).collect();
    let g = grid_of(&esc, 8, 8);
    for row in &g {
        for cell in row {
            assert_eq!(cell.has_escaped, cell.ch != '\u{2800}');
            assert!((0x2800..=0x28FF).contains(&(cell.ch as u32)));
        }
    }
}

#[test]
fn burning_ship_name() {
    assert_eq!(BurningShip.name(), "Burning Ship");
}
