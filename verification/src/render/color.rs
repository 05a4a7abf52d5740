use vstd::prelude::*;

verus! {

/// The colour palettes, in the order in which `next` cycles through them.
#[derive(Clone, Copy, Debug, PartialEq, Eq, Structural)]
pub enum Palette {
    Classic,
    Fire,
    Ocean,
    Neon,
    Grayscale,
}

/// One stop of a gradient: its position in ten-thousandths of the unit
/// interval (so `pos == 6425` stands for 0.6425) and its colour.
#[derive(Clone, Copy, Debug, PartialEq, Eq, Structural)]
pub struct Anchor {
    pub pos: u16,
    pub r: u8,
    pub g: u8,
    pub b: u8,
}

/// The number of palettes.
pub open spec fn palette_count() -> nat {
    5
}

/// All palettes in cycling order.
pub open spec fn all_palettes() -> Seq<Palette> {
    seq![Palette::Classic, Palette::Fire, Palette::Ocean, Palette::Neon, Palette::Grayscale]
}

/// The palette reached from `p` after `k` applications of `next`.
pub open spec fn next_n(p: Palette, k: nat) -> Palette
    decreases k,
{
    if k == 0 {
        p
    } else {
        next_n(p, (k - 1) as nat).spec_next()
    }
}

/// A gradient is well formed when it has at least two stops, starts at 0,
/// ends at 1 (10000 ten-thousandths) and its positions strictly increase.
pub open spec fn anchors_well_formed(a: Seq<Anchor>) -> bool {
    &&& a.len() >= 2
    &&& a[0].pos == 0
    &&& a[a.len() - 1].pos == 10000
    &&& forall|i: int, j: int| 0 <= i < j < a.len() ==> a[i].pos < a[j].pos
}

pub open spec fn anchor(pos: u16, r: u8, g: u8, b: u8) -> Anchor {
    Anchor { pos, r, g, b }
}

impl Palette {
    /// The position of the palette in the cycling order.
    pub open spec fn index(self) -> nat {
        match self {
            Palette::Classic => 0,
            Palette::Fire => 1,
            Palette::Ocean => 2,
            Palette::Neon => 3,
            Palette::Grayscale => 4,
        }
    }

    /// The palette's display name.
    pub open spec fn spec_name(self) -> Seq<char> {
        match self {
            Palette::Classic => "Classic"@,
            Palette::Fire => "Fire"@,
            Palette::Ocean => "Ocean"@,
            Palette::Neon => "Neon"@,
            Palette::Grayscale => "Grayscale"@,
        }
    }

    /// The gradient stops of the palette.
    pub open spec fn spec_anchors(self) -> Seq<Anchor> {
        match self {
            Palette::Classic => seq![
                anchor(0, 0, 7, 100),
                anchor(1600, 32, 107, 203),
                anchor(4200, 237, 255, 255),
                anchor(6425, 255, 170, 0),
                anchor(8575, 0, 2, 0),
                anchor(10000, 0, 7, 100),
            ],
            Palette::Fire => seq![
                anchor(0, 0, 0, 0),
                anchor(2500, 128, 0, 0),
                anchor(5000, 255, 128, 0),
                anchor(7500, 255, 255, 0),
                anchor(10000, 255, 255, 255),
            ],
            Palette::Ocean => seq![
                anchor(0, 0, 0, 32),
                anchor(2500, 0, 64, 128),
                anchor(5000, 0, 180, 220),
                anchor(7500, 100, 220, 255),
                anchor(10000, 200, 255, 255),
            ],
            Palette::Neon => seq![
                anchor(0, 0, 0, 0),
                anchor(2000, 255, 0, 128),
                anchor(4000, 0, 255, 255),
                anchor(6000, 255, 255, 0),
                anchor(8000, 128, 0, 255),
                anchor(10000, 0, 0, 0),
            ],
            Palette::Grayscale => seq![
                anchor(0, 0, 0, 0),
                anchor(5000, 180, 180, 180),
                anchor(10000, 255, 255, 255),
            ],
        }
    }

    /// The palette that follows this one in the cycling order.
    pub open spec fn spec_next(self) -> Palette {
        all_palettes()[((self.index() + 1) % palette_count()) as int]
    }

    /// The palette's display name.
    pub fn name(&self) -> (r: &'static str)
        ensures
            r@ == self.spec_name(),
    {
        match self {
            Palette::Classic => "Classic",
            Palette::Fire => "Fire",
            Palette::Ocean => "Ocean",
            Palette::Neon => "Neon",
            Palette::Grayscale => "Grayscale",
        }
    }

    /// The palette that follows this one in the cycling order, wrapping
    /// from the last back to the first.
    pub fn next(&self) -> (r: Palette)
        ensures
            r.index() == (self.index() + 1) % palette_count(),
            r == self.spec_next(),
    {
        match self {
            Palette::Classic => Palette::Fire,
            Palette::Fire => Palette::Ocean,
            Palette::Ocean => Palette::Neon,
            Palette::Neon => Palette::Grayscale,
            Palette::Grayscale => Palette::Classic,
        }
    }

    /// The gradient stops of the palette, in increasing position.
    pub fn anchors(&self) -> (r: Vec<Anchor>)
        ensures
            r@ == self.spec_anchors(),
            anchors_well_formed(r@),
    {
        proof {
            lemma_anchors_well_formed(*self);
        }
        match self {
            Palette::Classic => vec![
                Anchor { pos: 0, r: 0, g: 7, b: 100 },
                Anchor { pos: 1600, r: 32, g: 107, b: 203 },
                Anchor { pos: 4200, r: 237, g: 255, b: 255 },
                Anchor { pos: 6425, r: 255, g: 170, b: 0 },
                Anchor { pos: 8575, r: 0, g: 2, b: 0 },
                Anchor { pos: 10000, r: 0, g: 7, b: 100 },
            ],
            Palette::Fire => vec![
                Anchor { pos: 0, r: 0, g: 0, b: 0 },
                Anchor { pos: 2500, r: 128, g: 0, b: 0 },
                Anchor { pos: 5000, r: 255, g: 128, b: 0 },
                Anchor { pos: 7500, r: 255, g: 255, b: 0 },
                Anchor { pos: 10000, r: 255, g: 255, b: 255 },
            ],
            Palette::Ocean => vec![
                Anchor { pos: 0, r: 0, g: 0, b: 32 },
                Anchor { pos: 2500, r: 0, g: 64, b: 128 },
                Anchor { pos: 5000, r: 0, g: 180, b: 220 },
                Anchor { pos: 7500, r: 100, g: 220, b: 255 },
                Anchor { pos: 10000, r: 200, g: 255, b: 255 },
            ],
            Palette::Neon => vec![
                Anchor { pos: 0, r: 0, g: 0, b: 0 },
                Anchor { pos: 2000, r: 255, g: 0, b: 128 },
                Anchor { pos: 4000, r: 0, g: 255, b: 255 },
                Anchor { pos: 6000, r: 255, g: 255, b: 0 },
                Anchor { pos: 8000, r: 128, g: 0, b: 255 },
                Anchor { pos: 10000, r: 0, g: 0, b: 0 },
            ],
            Palette::Grayscale => vec![
                Anchor { pos: 0, r: 0, g: 0, b: 0 },
                Anchor { pos: 5000, r: 180, g: 180, b: 180 },
                Anchor { pos: 10000, r: 255, g: 255, b: 255 },
            ],
        }
    }
}

/// Every palette's gradient starts at 0, ends at 1 and has strictly
/// increasing stop positions, so the stop search in colouring always finds
/// a segment and never divides by a zero-width one.
pub proof fn lemma_anchors_well_formed(p: Palette)
    ensures
        anchors_well_formed(p.spec_anchors()),
{
    let a = p.spec_anchors();
    assert forall|i: int, j: int| 0 <= i < j < a.len() implies a[i].pos < a[j].pos by {
        assert forall|k: int| 0 <= k < a.len() - 1 implies a[k].pos < #[trigger] a[k + 1].pos by {}
        lemma_strictly_increasing(a, i, j);
    }
}

proof fn lemma_strictly_increasing(a: Seq<Anchor>, i: int, j: int)
    requires
        0 <= i < j < a.len(),
        forall|k: int| 0 <= k < a.len() - 1 ==> a[k].pos < #[trigger] a[k + 1].pos,
    ensures
        a[i].pos < a[j].pos,
    decreases j - i,
{
    if j > i + 1 {
        lemma_strictly_increasing(a, i, j - 1);
        assert(a[(j - 1) + 1].pos > a[j - 1].pos);
    } else {
        assert(a[i].pos < a[i + 1].pos);
    }
}

/// Cycling with `next` steps through the palettes in order, visiting every
/// one, and returns to the start after exactly as many steps as there are
/// palettes.
pub proof fn lemma_next_cycles(p: Palette)
    ensures
        next_n(p, palette_count()) == p,
        forall|k: nat| 0 < k < palette_count() ==> #[trigger] next_n(p, k) != p,
        forall|k: nat| #[trigger] next_n(p, k).index() == (p.index() + k) % palette_count(),
{
    assert forall|k: nat| #[trigger] next_n(p, k).index() == (p.index() + k) % palette_count() by {
        lemma_next_n_index(p, k);
    }
    assert forall|k: nat| 0 < k < palette_count() implies #[trigger] next_n(p, k) != p by {
        lemma_next_n_index(p, k);
    }
    lemma_next_n_index(p, palette_count());
    lemma_index_injective(next_n(p, palette_count()), p);
}

/// Palettes with the same position in the cycling order are the same.
proof fn lemma_index_injective(p: Palette, q: Palette)
    requires
        p.index() == q.index(),
    ensures
        p == q,
{
}

proof fn lemma_next_n_index(p: Palette, k: nat)
    ensures
        next_n(p, k).index() == (p.index() + k) % palette_count(),
    decreases k,
{
    if k > 0 {
        lemma_next_n_index(p, (k - 1) as nat);
    }
}


/// Distinct palettes have distinct display names, none of them empty.
pub proof fn lemma_names_distinct(p: Palette, q: Palette)
    ensures
        p.spec_name().len() > 0,
        p != q ==> p.spec_name() != q.spec_name(),
{
    reveal_strlit("Classic");
    reveal_strlit("Fire");
    reveal_strlit("Ocean");
    reveal_strlit("Neon");
    reveal_strlit("Grayscale");
    if p != q {
        assert(p.spec_name().len() != q.spec_name().len() || p.spec_name()[0] != q.spec_name()[0]);
    }
}

/// `next` is injective: distinct palettes have distinct successors.
pub proof fn lemma_next_injective(p: Palette, q: Palette)
    requires
        p != q,
    ensures
        p.spec_next() != q.spec_next(),
{
}

} // verus!
