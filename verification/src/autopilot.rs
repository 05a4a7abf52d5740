use vstd::prelude::*;

verus! {

/// The autopilot's decision state. The target point it drifts toward is
/// complex-plane geometry and is kept by the front end.
pub struct Autopilot {
    pub active: bool,
    pub needs_target: bool,
}

/// What the front end does for one autopilot frame.
#[derive(Clone, Copy, Debug, PartialEq, Eq, Structural)]
pub enum AutopilotStep {
    /// The autopilot is off: nothing moves.
    Idle,
    /// Drift the view toward the target and zoom in; when `pick_first`,
    /// choose a fresh target from the current frame before drifting.
    Drift { pick_first: bool },
}

impl Autopilot {
    pub fn new() -> (r: Self)
        ensures
            !r.active,
            r.needs_target,
    {
        Autopilot { active: false, needs_target: true }
    }

    /// Switch the autopilot on or off; switching it on asks for a new target.
    pub fn toggle(&mut self)
        ensures
            final(self).active == !old(self).active,
            final(self).needs_target == (final(self).active || old(self).needs_target),
    {
        self.active = !self.active;
        if self.active {
            self.needs_target = true;
        }
    }

    /// Advance one frame: an active autopilot drifts, picking a target
    /// first when it has none, after which it no longer needs one.
    pub fn tick(&mut self) -> (step: AutopilotStep)
        ensures
            !old(self).active ==> step == AutopilotStep::Idle && *final(self) == *old(self),
            old(self).active ==> step == (AutopilotStep::Drift { pick_first: old(self).needs_target })
                && final(self).active && !final(self).needs_target,
    {
        if !self.active {
            return AutopilotStep::Idle;
        }
        let pick_first = self.needs_target;
        if self.needs_target {
            self.needs_target = false;
        }
        AutopilotStep::Drift { pick_first }
    }
}

/// Toggling the autopilot twice leaves it as active as it was.
pub proof fn lemma_toggle_twice(a: Autopilot, b: Autopilot, c: Autopilot)
    requires
        b.active == !a.active,
        b.needs_target == (b.active || a.needs_target),
        c.active == !b.active,
        c.needs_target == (c.active || b.needs_target),
    ensures
        c.active == a.active,
        c.active ==> c.needs_target,
{
}

/// Spacing, in sub-pixels, of the grid of points the autopilot scores, and
/// the distance to each scored point's neighbours.
pub const SAMPLE_STEP: usize = 4;

/// How many sample positions `4, 8, 12, ...` lie below `extent - 4`.
pub open spec fn sample_count(extent: int) -> int {
    let limit = if extent >= 4 { extent - 4 } else { 0 };
    if limit > 4 { (limit - 1) / 4 } else { 0 }
}

/// The `i`-th sample position along an axis.
pub open spec fn sample_pos(i: int) -> int {
    4 + 4 * i
}

/// Sample points of row `py` among its first `n` columns whose pixel index
/// falls inside the results (`< len`), as (column, row) pairs.
pub open spec fn row_samples(w: int, len: int, py: int, n: nat) -> Seq<(int, int)>
    decreases n,
{
    if n == 0 {
        Seq::empty()
    } else {
        let prev = row_samples(w, len, py, (n - 1) as nat);
        let px = sample_pos(n - 1);
        if py * w + px < len {
            prev.push((px, py))
        } else {
            prev
        }
    }
}

/// Sample points of the first `m` sample rows, in row-major order.
pub open spec fn grid_samples(w: int, len: int, m: nat) -> Seq<(int, int)>
    decreases m,
{
    if m == 0 {
        Seq::empty()
    } else {
        grid_samples(w, len, (m - 1) as nat) + row_samples(w, len, sample_pos(m - 1), sample_count(w) as nat)
    }
}

/// All points the autopilot scores on a `w` x `h` frame of `len` results.
pub open spec fn samples(w: int, h: int, len: int) -> Seq<(int, int)> {
    grid_samples(w, len, sample_count(h) as nat)
}

/// Offsets of the `j`-th of the nine neighbourhood points (the point itself
/// included), rows of offsets `-4, 0, 4` outermost.
pub open spec fn neighbor_dx(j: int) -> int {
    4 * (j % 3) - 4
}

pub open spec fn neighbor_dy(j: int) -> int {
    4 * (j / 3) - 4
}

/// Indices of those of the first `n` neighbourhood points of (`px`, `py`)
/// that lie in the `w` x `h` frame and inside the results.
pub open spec fn neighbors(w: int, h: int, len: int, px: int, py: int, n: nat) -> Seq<usize>
    decreases n,
{
    if n == 0 {
        Seq::empty()
    } else {
        let prev = neighbors(w, h, len, px, py, (n - 1) as nat);
        let nx = px + neighbor_dx(n - 1);
        let ny = py + neighbor_dy(n - 1);
        if 0 <= nx < w && 0 <= ny < h && ny * w + nx < len {
            prev.push((ny * w + nx) as usize)
        } else {
            prev
        }
    }
}


/// A scored point sits at least one sample step inside every edge of the
/// frame, and its index falls inside the results.
pub open spec fn sample_inside(p: (int, int), w: int, h: int, len: int) -> bool {
    &&& 4 <= p.0
    &&& p.0 + 4 < w
    &&& 4 <= p.1
    &&& p.1 + 4 < h
    &&& p.1 * w + p.0 < len
}

proof fn lemma_row_samples_inside(w: int, h: int, len: int, py: int, n: nat)
    requires
        n <= sample_count(w),
        4 <= py,
        py + 4 < h,
    ensures
        forall|i: int|
            0 <= i < row_samples(w, len, py, n).len() ==> sample_inside(
                #[trigger] row_samples(w, len, py, n)[i],
                w,
                h,
                len,
            ),
    decreases n,
{
    if n > 0 {
        let prev = row_samples(w, len, py, (n - 1) as nat);
        lemma_row_samples_inside(w, h, len, py, (n - 1) as nat);
        lemma_sample_pos_bound(w, n - 1);
        let cur = row_samples(w, len, py, n);
        assert forall|i: int| 0 <= i < cur.len() implies sample_inside(#[trigger] cur[i], w, h, len) by {
            if i < prev.len() {
                assert(cur[i] == prev[i]);
            }
        }
    }
}

proof fn lemma_grid_samples_inside(w: int, h: int, len: int, m: nat)
    requires
        m <= sample_count(h),
    ensures
        forall|i: int|
            0 <= i < grid_samples(w, len, m).len() ==> sample_inside(
                #[trigger] grid_samples(w, len, m)[i],
                w,
                h,
                len,
            ),
    decreases m,
{
    if m > 0 {
        let prev = grid_samples(w, len, (m - 1) as nat);
        let row = row_samples(w, len, sample_pos(m - 1), sample_count(w) as nat);
        lemma_grid_samples_inside(w, h, len, (m - 1) as nat);
        lemma_sample_pos_bound(h, m - 1);
        lemma_row_samples_inside(w, h, len, sample_pos(m - 1), sample_count(w) as nat);
        assert forall|i: int| 0 <= i < (prev + row).len() implies sample_inside(
            #[trigger] (prev + row)[i],
            w,
            h,
            len,
        ) by {
            if i >= prev.len() {
                assert((prev + row)[i] == row[i - prev.len()]);
            }
        }
    }
}

/// Every point the autopilot scores lies at least one sample step inside
/// each edge of the frame and inside the results, and its whole
/// neighbourhood lies inside the frame.
pub proof fn lemma_samples_inside(w: int, h: int, len: int)
    ensures
        forall|i: int|
            0 <= i < samples(w, h, len).len() ==> sample_inside(
                #[trigger] samples(w, h, len)[i],
                w,
                h,
                len,
            ),
        forall|px: int, py: int, j: int|
            #![trigger sample_inside((px, py), w, h, len), neighbor_dx(j)]
            sample_inside((px, py), w, h, len) && 0 <= j < 9 ==> 0 <= px + neighbor_dx(j) < w && 0
                <= py + neighbor_dy(j) < h,
{
    lemma_grid_samples_inside(w, h, len, sample_count(h) as nat);
}


/// Index in a `w`-wide frame of the point offset by (`dx`, `dy`) from `p`.
pub open spec fn offset_index(p: (int, int), w: int, dx: int, dy: int) -> int {
    (p.1 + dy) * w + (p.0 + dx)
}

/// One of the three offsets `-4, 0, 4` of a neighbourhood.
pub open spec fn is_step_offset(d: int) -> bool {
    d == -4 || d == 0 || d == 4
}

proof fn lemma_neighbor_index_increasing(w: int, px: int, py: int, j1: int, j2: int)
    requires
        4 <= px,
        px + 4 < w,
        4 <= py,
        0 <= j1 < j2 < 9,
    ensures
        offset_index((px, py), w, neighbor_dx(j1), neighbor_dy(j1)) < offset_index(
            (px, py),
            w,
            neighbor_dx(j2),
            neighbor_dy(j2),
        ),
{
    let dy1 = neighbor_dy(j1);
    let dy2 = neighbor_dy(j2);
    let dx1 = neighbor_dx(j1);
    let dx2 = neighbor_dx(j2);
    assert(j1 / 3 <= j2 / 3);
    if dy1 == dy2 {
        assert(dx1 < dx2);
    } else {
        assert(dy2 >= dy1 + 4);
        assert((py + dy2) * w - (py + dy1) * w == (dy2 - dy1) * w) by (nonlinear_arith);
        assert((dy2 - dy1) * w >= 4 * w) by (nonlinear_arith)
            requires
                dy2 - dy1 >= 4,
                w >= 0,
        ;
    }
}

proof fn lemma_neighbors_shape(w: int, h: int, len: int, px: int, py: int, n: nat)
    requires
        4 <= px,
        px + 4 < w,
        4 <= py,
        py + 4 < h,
        n <= 9,
        w * h <= usize::MAX,
    ensures
        forall|i: int|
            #![trigger neighbors(w, h, len, px, py, n)[i]]
            0 <= i < neighbors(w, h, len, px, py, n).len() ==> exists|j: int|
                0 <= j < n && #[trigger] offset_index((px, py), w, neighbor_dx(j), neighbor_dy(j))
                    == neighbors(w, h, len, px, py, n)[i] && offset_index(
                    (px, py),
                    w,
                    neighbor_dx(j),
                    neighbor_dy(j),
                ) < len,
        forall|j: int|
            0 <= j < n && #[trigger] offset_index((px, py), w, neighbor_dx(j), neighbor_dy(j)) < len
                ==> neighbors(w, h, len, px, py, n).contains(
                offset_index((px, py), w, neighbor_dx(j), neighbor_dy(j)) as usize,
            ),
        forall|a: int, b: int|
            0 <= a < b < neighbors(w, h, len, px, py, n).len() ==> neighbors(w, h, len, px, py, n)[a]
                < neighbors(w, h, len, px, py, n)[b],
        forall|i: int|
            0 <= i < neighbors(w, h, len, px, py, n).len() && n < 9 ==> neighbors(
                w,
                h,
                len,
                px,
                py,
                n,
            )[i] < offset_index((px, py), w, neighbor_dx(n as int), neighbor_dy(n as int)),
        (forall|j: int|
            0 <= j < n ==> #[trigger] offset_index((px, py), w, neighbor_dx(j), neighbor_dy(j)) < len)
            ==> neighbors(w, h, len, px, py, n).len() == n,
    decreases n,
{
    if n > 0 {
        let m = (n - 1) as nat;
        lemma_neighbors_shape(w, h, len, px, py, m);
        let prev = neighbors(w, h, len, px, py, m);
        let cur = neighbors(w, h, len, px, py, n);
        let k = m as int;
        let x = offset_index((px, py), w, neighbor_dx(k), neighbor_dy(k));
        assert(px + neighbor_dx(k) == px + neighbor_dx(k));
        assert(0 <= px + neighbor_dx(k) < w);
        assert(0 <= py + neighbor_dy(k) < h);
        assert(0 <= x < w * h) by (nonlinear_arith)
            requires
                x == (py + neighbor_dy(k)) * w + (px + neighbor_dx(k)),
                0 <= py + neighbor_dy(k) < h,
                0 <= px + neighbor_dx(k) < w,
        ;
        assert(x as usize as int == x);
        if n < 9 {
            lemma_neighbor_index_increasing(w, px, py, k, n as int);
        }
        assert forall|i: int|
            #![trigger cur[i]]
            0 <= i < cur.len() implies exists|j: int|
            0 <= j < n && #[trigger] offset_index((px, py), w, neighbor_dx(j), neighbor_dy(j)) == cur[i]
                && offset_index((px, py), w, neighbor_dx(j), neighbor_dy(j)) < len by {
            if i < prev.len() {
                assert(cur[i] == prev[i]);
            } else {
                assert(cur[i] == x as usize);
                assert(offset_index((px, py), w, neighbor_dx(k), neighbor_dy(k)) == cur[i]);
            }
        }
        assert forall|j: int|
            0 <= j < n && #[trigger] offset_index((px, py), w, neighbor_dx(j), neighbor_dy(j)) < len
                implies cur.contains(offset_index((px, py), w, neighbor_dx(j), neighbor_dy(j)) as usize) by {
            if j < m {
                let t = choose|t: int| 0 <= t < prev.len() && prev[t] == offset_index(
                    (px, py),
                    w,
                    neighbor_dx(j),
                    neighbor_dy(j),
                ) as usize;
                assert(cur[t] == prev[t]);
            } else {
                assert(cur[cur.len() - 1] == x as usize);
            }
        }
        assert forall|i: int| 0 <= i < prev.len() implies prev[i] < x by {
            let j = choose|j: int|
                0 <= j < m && #[trigger] offset_index((px, py), w, neighbor_dx(j), neighbor_dy(j))
                    == prev[i] && offset_index((px, py), w, neighbor_dx(j), neighbor_dy(j)) < len;
            lemma_neighbor_index_increasing(w, px, py, j, k);
        }
        assert forall|i: int| 0 <= i < cur.len() && n < 9 implies cur[i] < offset_index(
            (px, py),
            w,
            neighbor_dx(n as int),
            neighbor_dy(n as int),
        ) by {
            let j = choose|j: int|
                0 <= j < n && #[trigger] offset_index((px, py), w, neighbor_dx(j), neighbor_dy(j))
                    == cur[i] && offset_index((px, py), w, neighbor_dx(j), neighbor_dy(j)) < len;
            lemma_neighbor_index_increasing(w, px, py, j, n as int);
        }
        assert forall|a: int, b: int| 0 <= a < b < cur.len() implies cur[a] < cur[b] by {
            if b < prev.len() {
                assert(cur[a] == prev[a] && cur[b] == prev[b]);
            } else {
                assert(cur[a] == prev[a]);
                assert(cur[b] == x as usize);
            }
        }
        if forall|j: int|
            0 <= j < n ==> #[trigger] offset_index((px, py), w, neighbor_dx(j), neighbor_dy(j)) < len {
            assert(offset_index((px, py), w, neighbor_dx(k), neighbor_dy(k)) < len);
        }
    }
}

/// The neighbourhood of a scored point, for a point at least one step
/// inside the frame: it holds the index of each of the nine points offset by
/// `-4`, `0` or `4` in each direction that falls inside the results, nothing
/// else, in increasing index order (rows of offsets top to bottom, each left
/// to right); when the results cover the frame it holds all nine.
pub proof fn lemma_neighborhood_exact(s: SamplePoint, p: (int, int), w: int, h: int, len: int)
    requires
        sample_matches(s, p, w, h, len),
        4 <= p.0,
        p.0 + 4 < w,
        4 <= p.1,
        p.1 + 4 < h,
        w * h <= usize::MAX,
    ensures
        forall|dx: int, dy: int|
            is_step_offset(dx) && is_step_offset(dy) && #[trigger] offset_index(p, w, dx, dy) < len
                ==> s.neighbors@.contains(offset_index(p, w, dx, dy) as usize),
        forall|i: int|
            #![trigger s.neighbors@[i]]
            0 <= i < s.neighbors@.len() ==> s.neighbors@[i] < len && exists|dx: int, dy: int|
                is_step_offset(dx) && is_step_offset(dy) && #[trigger] offset_index(p, w, dx, dy)
                    == s.neighbors@[i],
        forall|a: int, b: int| 0 <= a < b < s.neighbors@.len() ==> s.neighbors@[a] < s.neighbors@[b],
        len >= w * h ==> s.neighbors@.len() == 9,
{
    let (px, py) = p;
    lemma_neighbors_shape(w, h, len, px, py, 9);
    assert forall|dx: int, dy: int|
        is_step_offset(dx) && is_step_offset(dy) && #[trigger] offset_index(p, w, dx, dy) < len
            implies s.neighbors@.contains(offset_index(p, w, dx, dy) as usize) by {
        let j = 3 * ((dy + 4) / 4) + (dx + 4) / 4;
        assert(neighbor_dx(j) == dx && neighbor_dy(j) == dy);
        assert(offset_index((px, py), w, neighbor_dx(j), neighbor_dy(j)) < len);
    }
    assert forall|i: int|
        #![trigger s.neighbors@[i]]
        0 <= i < s.neighbors@.len() implies s.neighbors@[i] < len && exists|
        dx: int,
        dy: int,
    | is_step_offset(dx) && is_step_offset(dy) && #[trigger] offset_index(p, w, dx, dy)
        == s.neighbors@[i] by {
        let j = choose|j: int|
            0 <= j < 9 && #[trigger] offset_index((px, py), w, neighbor_dx(j), neighbor_dy(j))
                == neighbors(w, h, len, px, py, 9)[i] && offset_index(
                (px, py),
                w,
                neighbor_dx(j),
                neighbor_dy(j),
            ) < len;
        assert(is_step_offset(neighbor_dx(j)) && is_step_offset(neighbor_dy(j)));
    }
    if len >= w * h {
        assert forall|j: int| 0 <= j < 9 implies #[trigger] offset_index(
            (px, py),
            w,
            neighbor_dx(j),
            neighbor_dy(j),
        ) < len by {
            let dy = neighbor_dy(j);
            let dx = neighbor_dx(j);
            assert(py + dy <= h - 1);
            assert((py + dy) * w <= (h - 1) * w) by (nonlinear_arith)
                requires
                    py + dy <= h - 1,
                    w >= 0,
            ;
            assert((h - 1) * w + w == w * h) by (nonlinear_arith);
        }
    }
}


proof fn lemma_row_samples_props(w: int, len: int, py: int, n: nat)
    ensures
        forall|i: int|
            0 <= i < row_samples(w, len, py, n).len() ==> {
                let q = #[trigger] row_samples(w, len, py, n)[i];
                &&& q.1 == py
                &&& q.0 % 4 == 0
                &&& 4 <= q.0 < sample_pos(n as int)
                &&& py * w + q.0 < len
            },
        forall|a: int, b: int|
            0 <= a < b < row_samples(w, len, py, n).len() ==> #[trigger] row_samples(w, len, py, n)[a].0
                < #[trigger] row_samples(w, len, py, n)[b].0,
        forall|k: int|
            0 <= k < n && py * w + #[trigger] sample_pos(k) < len ==> row_samples(w, len, py, n).contains(
                (sample_pos(k), py),
            ),
    decreases n,
{
    if n > 0 {
        let m = (n - 1) as nat;
        lemma_row_samples_props(w, len, py, m);
        let prev = row_samples(w, len, py, m);
        let cur = row_samples(w, len, py, n);
        assert forall|i: int| 0 <= i < cur.len() implies {
            let q = #[trigger] cur[i];
            &&& q.1 == py
            &&& q.0 % 4 == 0
            &&& 4 <= q.0 < sample_pos(n as int)
            &&& py * w + q.0 < len
        } by {
            if i < prev.len() {
                assert(cur[i] == prev[i]);
            }
        }
        assert forall|a: int, b: int| 0 <= a < b < cur.len() implies #[trigger] cur[a].0 < #[trigger] cur[b].0 by {
            assert(cur[a] == prev[a]);
            if b < prev.len() {
                assert(cur[b] == prev[b]);
            }
        }
        assert forall|k: int| 0 <= k < n && py * w + #[trigger] sample_pos(k) < len implies cur.contains(
            (sample_pos(k), py),
        ) by {
            if k < m {
                let t = choose|t: int| 0 <= t < prev.len() && prev[t] == (sample_pos(k), py);
                assert(cur[t] == prev[t]);
            } else {
                assert(cur[cur.len() - 1] == (sample_pos(k), py));
            }
        }
    }
}

proof fn lemma_grid_samples_props(w: int, len: int, m: nat)
    ensures
        forall|i: int|
            0 <= i < grid_samples(w, len, m).len() ==> {
                let q = #[trigger] grid_samples(w, len, m)[i];
                &&& q.0 % 4 == 0
                &&& q.1 % 4 == 0
                &&& 4 <= q.1 < sample_pos(m as int)
                &&& 4 <= q.0 < sample_pos(sample_count(w))
                &&& q.1 * w + q.0 < len
            },
        forall|a: int, b: int|
            0 <= a < b < grid_samples(w, len, m).len() ==> {
                let qa = #[trigger] grid_samples(w, len, m)[a];
                let qb = #[trigger] grid_samples(w, len, m)[b];
                qa.1 < qb.1 || (qa.1 == qb.1 && qa.0 < qb.0)
            },
        forall|j: int, k: int|
            0 <= j < m && 0 <= k < sample_count(w) && #[trigger] sample_pos(j) * w + #[trigger] sample_pos(
                k,
            ) < len ==> grid_samples(w, len, m).contains((sample_pos(k), sample_pos(j))),
    decreases m,
{
    if m > 0 {
        let mm = (m - 1) as nat;
        lemma_grid_samples_props(w, len, mm);
        let py = sample_pos(mm as int);
        lemma_row_samples_props(w, len, py, sample_count(w) as nat);
        let prev = grid_samples(w, len, mm);
        let row = row_samples(w, len, py, sample_count(w) as nat);
        let cur = grid_samples(w, len, m);
        assert(cur == prev + row);
        assert forall|i: int| 0 <= i < cur.len() implies {
            let q = #[trigger] cur[i];
            &&& q.0 % 4 == 0
            &&& q.1 % 4 == 0
            &&& 4 <= q.1 < sample_pos(m as int)
            &&& 4 <= q.0 < sample_pos(sample_count(w))
            &&& q.1 * w + q.0 < len
        } by {
            if i < prev.len() {
                assert(cur[i] == prev[i]);
            } else {
                assert(cur[i] == row[i - prev.len()]);
            }
        }
        assert forall|a: int, b: int| 0 <= a < b < cur.len() implies {
            let qa = #[trigger] cur[a];
            let qb = #[trigger] cur[b];
            qa.1 < qb.1 || (qa.1 == qb.1 && qa.0 < qb.0)
        } by {
            if b < prev.len() {
                assert(cur[a] == prev[a] && cur[b] == prev[b]);
            } else if a < prev.len() {
                assert(cur[a] == prev[a]);
                assert(cur[b] == row[b - prev.len()]);
            } else {
                assert(cur[a] == row[a - prev.len()]);
                assert(cur[b] == row[b - prev.len()]);
            }
        }
        assert forall|j: int, k: int|
            0 <= j < m && 0 <= k < sample_count(w) && #[trigger] sample_pos(j) * w + #[trigger] sample_pos(k)
                < len implies cur.contains((sample_pos(k), sample_pos(j))) by {
            if j < mm {
                let t = choose|t: int| 0 <= t < prev.len() && prev[t] == (sample_pos(k), sample_pos(j));
                assert(cur[t] == prev[t]);
            } else {
                let t = choose|t: int| 0 <= t < row.len() && row[t] == (sample_pos(k), sample_pos(j));
                assert(cur[prev.len() + t] == row[t]);
            }
        }
    }
}

/// The points the autopilot scores are exactly the sub-pixels whose column
/// and row are multiples of four, at least four in from the near edges and
/// more than four short of the far edges, whose index falls inside the
/// results; they come in row-major order (top row first, each row left to
/// right).
pub proof fn lemma_sample_grid_exact(w: int, h: int, len: int)
    requires
        w >= 0,
        h >= 0,
    ensures
        forall|i: int|
            0 <= i < samples(w, h, len).len() ==> {
                let q = #[trigger] samples(w, h, len)[i];
                &&& q.0 % 4 == 0
                &&& q.1 % 4 == 0
                &&& 4 <= q.0
                &&& q.0 + 4 < w
                &&& 4 <= q.1
                &&& q.1 + 4 < h
                &&& q.1 * w + q.0 < len
            },
        forall|px: int, py: int|
            px % 4 == 0 && py % 4 == 0 && 4 <= px && px + 4 < w && 4 <= py && py + 4 < h && py * w + px
                < len ==> #[trigger] samples(w, h, len).contains((px, py)),
        forall|a: int, b: int|
            0 <= a < b < samples(w, h, len).len() ==> {
                let qa = #[trigger] samples(w, h, len)[a];
                let qb = #[trigger] samples(w, h, len)[b];
                qa.1 < qb.1 || (qa.1 == qb.1 && qa.0 < qb.0)
            },
{
    lemma_grid_samples_props(w, len, sample_count(h) as nat);
    assert forall|px: int, py: int|
        px % 4 == 0 && py % 4 == 0 && 4 <= px && px + 4 < w && 4 <= py && py + 4 < h && py * w + px < len
            implies #[trigger] samples(w, h, len).contains((px, py)) by {
        let k = (px - 4) / 4;
        let j = (py - 4) / 4;
        assert(sample_pos(k) == px);
        assert(sample_pos(j) == py);
        assert(k < sample_count(w));
        assert(j < sample_count(h));
    }
}

/// A point the autopilot scores: its sub-pixel position, its index in the
/// results and the indices of its in-frame neighbourhood (itself included).
pub struct SamplePoint {
    pub px: usize,
    pub py: usize,
    pub idx: usize,
    pub neighbors: Vec<usize>,
}

/// `s` is the sample point at (`p.0`, `p.1`) of a `w` x `h` frame of `len`
/// results.
pub open spec fn sample_matches(s: SamplePoint, p: (int, int), w: int, h: int, len: int) -> bool {
    &&& s.px == p.0
    &&& s.py == p.1
    &&& s.idx == p.1 * w + p.0
    &&& s.neighbors@ == neighbors(w, h, len, p.0, p.1, 9)
}

fn neighbor_offset(j: usize) -> (r: (i32, i32))
    requires
        j < 9,
    ensures
        r.0 == neighbor_dx(j as int),
        r.1 == neighbor_dy(j as int),
{
    match j {
        0 => (-4, -4),
        1 => (0, -4),
        2 => (4, -4),
        3 => (-4, 0),
        4 => (0, 0),
        5 => (4, 0),
        6 => (-4, 4),
        7 => (0, 4),
        _ => (4, 4),
    }
}

fn neighborhood(len: usize, pixel_w: usize, pixel_h: usize, px: usize, py: usize) -> (r: Vec<usize>)
    requires
        pixel_w <= i32::MAX,
        pixel_h <= i32::MAX,
        4 <= px,
        px + 4 < pixel_w,
        4 <= py,
        py + 4 < pixel_h,
        pixel_w * pixel_h <= usize::MAX,
    ensures
        r@ == neighbors(pixel_w as int, pixel_h as int, len as int, px as int, py as int, 9),
{
    let ghost w = pixel_w as int;
    let ghost h = pixel_h as int;
    let mut r: Vec<usize> = Vec::new();
    let mut j: usize = 0;
    while j < 9
        invariant
            j <= 9,
            w == pixel_w,
            h == pixel_h,
            pixel_w <= i32::MAX,
            pixel_h <= i32::MAX,
            4 <= px,
            px + 4 < pixel_w,
            4 <= py,
            py + 4 < pixel_h,
            pixel_w * pixel_h <= usize::MAX,
            r@ == neighbors(w, h, len as int, px as int, py as int, j as nat),
        decreases 9 - j,
    {
        let (dx, dy) = neighbor_offset(j);
        let npx = px as i32 + dx;
        let npy = py as i32 + dy;
        if npx >= 0 && npx < pixel_w as i32 && npy >= 0 && npy < pixel_h as i32 {
            proof {
                vstd::arithmetic::mul::lemma_mul_inequality(npy as int, h - 1, w);
                assert((h - 1) * w + w == h * w) by (nonlinear_arith);
                assert(h * w == pixel_w * pixel_h) by (nonlinear_arith)
                    requires h == pixel_h, w == pixel_w;
            }
            let nidx = npy as usize * pixel_w + npx as usize;
            if nidx < len {
                r.push(nidx);
            }
        }
        j += 1;
    }
    r
}

proof fn lemma_sample_pos_bound(extent: int, i: int)
    requires
        0 <= i < sample_count(extent),
    ensures
        4 <= sample_pos(i),
        sample_pos(i) + 4 < extent,
{
}

/// The points the autopilot scores on a `pixel_w` x `pixel_h` frame of `len`
/// results: every fourth sub-pixel in both directions, starting four in and
/// stopping four short of the far edges, in row-major order, leaving out
/// those past the end of the results. Each comes with its neighbourhood.
pub fn sample_points(len: usize, pixel_w: usize, pixel_h: usize) -> (r: Vec<SamplePoint>)
    requires
        pixel_w <= i32::MAX,
        pixel_h <= i32::MAX,
        pixel_w * pixel_h <= usize::MAX,
    ensures
        r@.len() == samples(pixel_w as int, pixel_h as int, len as int).len(),
        forall|i: int|
            0 <= i < r@.len() ==> sample_matches(
                #[trigger] r@[i],
                samples(pixel_w as int, pixel_h as int, len as int)[i],
                pixel_w as int,
                pixel_h as int,
                len as int,
            ),
{
    let ghost w = pixel_w as int;
    let ghost h = pixel_h as int;
    let step = SAMPLE_STEP;
    let end_y = pixel_h.saturating_sub(step);
    let end_x = pixel_w.saturating_sub(step);
    let mut r: Vec<SamplePoint> = Vec::new();
    let mut py = step;
    let ghost mut yi: int = 0;
    while py < end_y
        invariant
            w == pixel_w,
            h == pixel_h,
            pixel_w <= i32::MAX,
            pixel_h <= i32::MAX,
            pixel_w * pixel_h <= usize::MAX,
            step == 4,
            end_y == if pixel_h >= 4 { pixel_h - 4 } else { 0 },
            end_x == if pixel_w >= 4 { pixel_w - 4 } else { 0 },
            0 <= yi,
            py == sample_pos(yi),
            yi <= sample_count(h),
            (py < end_y) == (yi < sample_count(h)),
            r@.len() == grid_samples(w, len as int, yi as nat).len(),
            forall|i: int|
                0 <= i < r@.len() ==> sample_matches(
                    #[trigger] r@[i],
                    grid_samples(w, len as int, yi as nat)[i],
                    w,
                    h,
                    len as int,
                ),
        decreases h - py,
    {
        let ghost r_before = r@;
        let mut px = step;
        let ghost mut xi: int = 0;
        proof {
            lemma_sample_pos_bound(h, yi);
        }
        while px < end_x
            invariant
                w == pixel_w,
                h == pixel_h,
                pixel_w <= i32::MAX,
                pixel_h <= i32::MAX,
                pixel_w * pixel_h <= usize::MAX,
                step == 4,
                end_x == if pixel_w >= 4 { pixel_w - 4 } else { 0 },
                4 <= py,
                py + 4 < pixel_h,
                0 <= xi,
                px == sample_pos(xi),
                xi <= sample_count(w),
                (px < end_x) == (xi < sample_count(w)),
                r@.len() == r_before.len() + row_samples(w, len as int, py as int, xi as nat).len(),
                forall|i: int|
                    0 <= i < r_before.len() ==> #[trigger] r@[i] == r_before[i],
                forall|i: int|
                    0 <= i < row_samples(w, len as int, py as int, xi as nat).len() ==> sample_matches(
                        #[trigger] r@[r_before.len() + i],
                        row_samples(w, len as int, py as int, xi as nat)[i],
                        w,
                        h,
                        len as int,
                    ),
            decreases w - px,
        {
            proof {
                lemma_sample_pos_bound(w, xi);
                vstd::arithmetic::mul::lemma_mul_inequality(py as int, h - 1, w);
                assert((h - 1) * w + w == h * w) by (nonlinear_arith);
                assert(h * w == pixel_w * pixel_h) by (nonlinear_arith)
                    requires h == pixel_h, w == pixel_w;
            }
            let idx = py * pixel_w + px;
            if idx < len {
                let neighbors = neighborhood(len, pixel_w, pixel_h, px, py);
                r.push(SamplePoint { px, py, idx, neighbors });
            }
            px = px + step;
            proof {
                xi = xi + 1;
            }
        }
        proof {
            let g0 = grid_samples(w, len as int, yi as nat);
            let row = row_samples(w, len as int, py as int, sample_count(w) as nat);
            assert(xi == sample_count(w));
            assert forall|i: int| 0 <= i < r@.len() implies sample_matches(
                #[trigger] r@[i],
                (g0 + row)[i],
                w,
                h,
                len as int,
            ) by {
                if i >= r_before.len() {
                    let k = i - r_before.len();
                    assert(r@[r_before.len() + k] == r@[i]);
                }
            }
        }
        py = py + step;
        proof {
            assert(grid_samples(w, len as int, (yi + 1) as nat) == grid_samples(w, len as int, yi as nat)
                + row_samples(w, len as int, sample_pos(yi), sample_count(w) as nat));
            yi = yi + 1;
        }
    }
    r
}

} // verus!
