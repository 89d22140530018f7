use vstd::prelude::*;

use crate::chance::{choose_one, random_below};

verus! {

/// Mirror part of a whole-grid transform.
#[derive(Clone, Copy, Debug, PartialEq, Eq, Structural)]
pub enum Mirror {
    Plain,
    /// Half turn about the vertical axis.
    FlipY,
    /// Half turn about the horizontal axis.
    FlipX,
}

/// Orientation of the whole keypad: `quarter_turns` planar quarter turns,
/// followed by a mirror. Its counter-transform undoes the mirror, then turns
/// back by the same quarter turns.
#[derive(Clone, Copy, Debug, PartialEq, Eq, Structural)]
pub struct GridTransform {
    pub quarter_turns: u8,
    pub mirror: Mirror,
}

/// One elementary CSS-style rotation, in degrees: planar, or about the
/// horizontal (`X`) or vertical (`Y`) axis.
#[derive(Clone, Copy, Debug, PartialEq, Eq, Structural)]
pub enum Step {
    Planar(i16),
    AboutX(i16),
    AboutY(i16),
}

/// The same rotation with the opposite angle.
pub open spec fn negated(s: Step) -> Step {
    match s {
        Step::Planar(a) => Step::Planar((-a) as i16),
        Step::AboutX(a) => Step::AboutX((-a) as i16),
        Step::AboutY(a) => Step::AboutY((-a) as i16),
    }
}

/// The rotations that undo `steps`: the same ones, last first, each with
/// the opposite angle.
pub open spec fn inverse_steps(steps: Seq<Step>) -> Seq<Step> {
    Seq::new(steps.len(), |i: int| negated(steps[steps.len() - 1 - i]))
}

/// The mirror as a rotation, if there is one.
pub open spec fn mirror_steps(m: Mirror) -> Seq<Step> {
    match m {
        Mirror::Plain => Seq::empty(),
        Mirror::FlipY => seq![Step::AboutY(180)],
        Mirror::FlipX => seq![Step::AboutX(180)],
    }
}

/// `t` as rotations, applied left to right: the planar quarter turns, if
/// any, then the mirror.
pub open spec fn grid_steps(t: GridTransform) -> Seq<Step> {
    if t.quarter_turns == 0 {
        mirror_steps(t.mirror)
    } else {
        seq![Step::Planar((90 * t.quarter_turns) as i16)] + mirror_steps(t.mirror)
    }
}

impl GridTransform {
    /// The transform as rotations.
    pub fn steps(&self) -> (r: Vec<Step>)
        requires
            self.quarter_turns <= 3,
        ensures
            r@ == grid_steps(*self),
    {
        let q: i16 = self.quarter_turns as i16;
        let mut out: Vec<Step> = Vec::new();
        if q > 0 {
            out.push(Step::Planar(90 * q));
        }
        match self.mirror {
            Mirror::Plain => {},
            Mirror::FlipY => out.push(Step::AboutY(180)),
            Mirror::FlipX => out.push(Step::AboutX(180)),
        }
        assert(out@ =~= grid_steps(*self));
        out
    }

    /// The counter-transform that keeps digits upright on a grid under `self`.
    pub fn counter_steps(&self) -> (r: Vec<Step>)
        requires
            self.quarter_turns <= 3,
        ensures
            r@ == inverse_steps(grid_steps(*self)),
    {
        let mut out: Vec<Step> = Vec::new();
        match self.mirror {
            Mirror::Plain => {},
            Mirror::FlipY => out.push(Step::AboutY(-180)),
            Mirror::FlipX => out.push(Step::AboutX(-180)),
        }
        let q: i16 = self.quarter_turns as i16;
        if q > 0 {
            let deg: i16 = q * 90;
            out.push(Step::Planar(-deg));
        }
        let ghost g = grid_steps(*self);
        assert(out@.len() == g.len());
        assert forall|i: int| 0 <= i < g.len() implies out@[i] == negated(g[g.len() - 1 - i]) by {
            if self.quarter_turns > 0 {
                assert(g[0] == Step::Planar((90 * self.quarter_turns) as i16));
            }
        }
        assert(out@ =~= inverse_steps(g));
        out
    }
}

/// Number of whole-grid transforms in the catalogue.
pub const WHOLE_COUNT: usize = 8;

/// The whole-grid catalogue: identity, three planar turns, two flips, and a
/// quarter turn with either flip.
pub open spec fn whole_entry(i: int) -> GridTransform {
    if i == 0 {
        GridTransform { quarter_turns: 0, mirror: Mirror::Plain }
    } else if i == 1 {
        GridTransform { quarter_turns: 1, mirror: Mirror::Plain }
    } else if i == 2 {
        GridTransform { quarter_turns: 2, mirror: Mirror::Plain }
    } else if i == 3 {
        GridTransform { quarter_turns: 3, mirror: Mirror::Plain }
    } else if i == 4 {
        GridTransform { quarter_turns: 0, mirror: Mirror::FlipY }
    } else if i == 5 {
        GridTransform { quarter_turns: 0, mirror: Mirror::FlipX }
    } else if i == 6 {
        GridTransform { quarter_turns: 1, mirror: Mirror::FlipY }
    } else {
        GridTransform { quarter_turns: 1, mirror: Mirror::FlipX }
    }
}

pub open spec fn in_whole_catalogue(t: GridTransform) -> bool {
    exists|i: int| 0 <= i < WHOLE_COUNT && whole_entry(i) == t
}

/// Entry `i` of the whole-grid catalogue.
pub fn whole_transform(i: usize) -> (r: GridTransform)
    requires
        i < WHOLE_COUNT,
    ensures
        r == whole_entry(i as int),
{
    match i {
        0 => GridTransform { quarter_turns: 0, mirror: Mirror::Plain },
        1 => GridTransform { quarter_turns: 1, mirror: Mirror::Plain },
        2 => GridTransform { quarter_turns: 2, mirror: Mirror::Plain },
        3 => GridTransform { quarter_turns: 3, mirror: Mirror::Plain },
        4 => GridTransform { quarter_turns: 0, mirror: Mirror::FlipY },
        5 => GridTransform { quarter_turns: 0, mirror: Mirror::FlipX },
        6 => GridTransform { quarter_turns: 1, mirror: Mirror::FlipY },
        _ => GridTransform { quarter_turns: 1, mirror: Mirror::FlipX },
    }
}

/// The catalogue entries other than `current`, in catalogue order.
pub fn whole_candidates(current: GridTransform) -> (r: Vec<GridTransform>)
    ensures
        forall|t: GridTransform| #[trigger] r@.contains(t) <==> in_whole_catalogue(t) && t != current,
        r@.len() >= WHOLE_COUNT - 1,
{
    let mut out: Vec<GridTransform> = Vec::new();
    let mut i: usize = 0;
    while i < WHOLE_COUNT
        invariant
            0 <= i <= WHOLE_COUNT,
            forall|t: GridTransform|
                out@.contains(t) <==> (exists|j: int| 0 <= j < i && whole_entry(j) == t)
                    && t != current,
            out@.len() + 1 >= i,
            (exists|j: int| 0 <= j < i && whole_entry(j) == current) ==> out@.len() + 1 == i,
            !(exists|j: int| 0 <= j < i && whole_entry(j) == current) ==> out@.len() == i,
        decreases WHOLE_COUNT - i,
    {
        let t = whole_transform(i);
        let ghost before = out@;
        if t != current {
            out.push(t);
        }
        proof {
            assert forall|u: GridTransform|
                out@.contains(u) <==> (exists|j: int| 0 <= j < i + 1 && whole_entry(j) == u)
                    && u != current by {
                if out@.contains(u) {
                    if before.contains(u) {
                        let j = choose|j: int| 0 <= j < i && whole_entry(j) == u;
                        assert(0 <= j < i + 1 && whole_entry(j) == u);
                    } else {
                        let k = choose|k: int| 0 <= k < out@.len() && out@[k] == u;
                        assert(k == before.len());
                        assert(whole_entry(i as int) == u);
                    }
                }
                if (exists|j: int| 0 <= j < i + 1 && whole_entry(j) == u) && u != current {
                    let j = choose|j: int| 0 <= j < i + 1 && whole_entry(j) == u;
                    if j < i {
                        assert(before.contains(u));
                        let k = choose|k: int| 0 <= k < before.len() && before[k] == u;
                        assert(out@[k] == u);
                    } else {
                        assert(out@[out@.len() - 1] == u);
                    }
                }
            }
            // at most one catalogue entry equals `current`: entries are distinct
            assert forall|a: int, b: int|
                0 <= a < WHOLE_COUNT && 0 <= b < WHOLE_COUNT && a != b implies whole_entry(a)
                != whole_entry(b) by {}
            if exists|j: int| 0 <= j < i + 1 && whole_entry(j) == current {
                if t == current {
                    assert(!(exists|j: int| 0 <= j < i && whole_entry(j) == current));
                }
            } else {
                assert(!(exists|j: int| 0 <= j < i && whole_entry(j) == current));
            }
        }
        i = i + 1;
    }
    out
}

/// A whole-grid transform drawn at random among the catalogue entries other
/// than `current`.
/// Returns the transform with its counter-transform.
pub fn spin_whole(current: GridTransform) -> (r: (GridTransform, Vec<Step>))
    ensures
        in_whole_catalogue(r.0),
        r.0 != current,
        r.0.quarter_turns <= 3,
        r.1@ == inverse_steps(grid_steps(r.0)),
{
    let candidates = whole_candidates(current);
    let t = choose_one(&candidates);
    assert(candidates@.contains(t));
    assert(t.quarter_turns <= 3);
    let counter = t.counter_steps();
    (t, counter)
}

/// Orientation of one keypad cell: flat, or turned about the horizontal (`X`)
/// or vertical (`Y`) axis by the given degrees.
#[derive(Clone, Copy, Debug, PartialEq, Eq, Structural)]
pub enum Turn {
    Flat,
    AboutX(i16),
    AboutY(i16),
}

/// A turn that can be negated without leaving `i16`.
pub open spec fn turn_ok(t: Turn) -> bool {
    match t {
        Turn::Flat => true,
        Turn::AboutX(a) => a != i16::MIN,
        Turn::AboutY(a) => a != i16::MIN,
    }
}

/// The angular inverse: the same axis, the opposite angle.
pub open spec fn inverse(t: Turn) -> Turn {
    match t {
        Turn::Flat => Turn::Flat,
        Turn::AboutX(a) => Turn::AboutX((-a) as i16),
        Turn::AboutY(a) => Turn::AboutY((-a) as i16),
    }
}

impl Turn {
    pub fn inverse(self) -> (r: Turn)
        requires
            turn_ok(self),
        ensures
            r == inverse(self),
    {
        match self {
            Turn::Flat => Turn::Flat,
            Turn::AboutX(a) => Turn::AboutX(-a),
            Turn::AboutY(a) => Turn::AboutY(-a),
        }
    }
}

/// A cell's turn and the counter-turn that keeps its digit upright.
#[derive(Clone, Copy, Debug, PartialEq, Eq, Structural)]
pub struct CellTransform {
    pub turn: Turn,
    pub counter: Turn,
}

pub open spec fn cell_of(t: Turn) -> CellTransform {
    CellTransform { turn: t, counter: inverse(t) }
}

/// Number of entries in each line catalogue.
pub const LINE_COUNT: usize = 4;

/// The line catalogues: flat, then half, full and reverse half turns, about
/// the horizontal axis for a row and the vertical axis for a column.
pub open spec fn line_entry(is_row: bool, i: int) -> Turn {
    if i == 0 {
        Turn::Flat
    } else {
        let deg: i16 = if i == 1 {
            180i16
        } else if i == 2 {
            360i16
        } else {
            -180i16
        };
        if is_row {
            Turn::AboutX(deg)
        } else {
            Turn::AboutY(deg)
        }
    }
}

pub open spec fn in_line_catalogue(is_row: bool, t: Turn) -> bool {
    exists|i: int| 0 <= i < LINE_COUNT && line_entry(is_row, i) == t
}

/// Cell `k` of the row-major 3x3 grid lies on row or column `line`.
pub open spec fn in_line(is_row: bool, line: int, k: int) -> bool {
    if is_row {
        k / 3 == line
    } else {
        k % 3 == line
    }
}

/// First cell of row or column `line`.
pub open spec fn first_cell(is_row: bool, line: int) -> int {
    if is_row {
        line * 3
    } else {
        line
    }
}

/// `cells` with every cell of the line set to turn `t` and its inverse.
pub open spec fn with_line(cells: Seq<CellTransform>, is_row: bool, line: int, t: Turn) -> Seq<
    CellTransform,
> {
    Seq::new(cells.len(), |k: int| if in_line(is_row, line, k) { cell_of(t) } else { cells[k] })
}

/// The grid of flat cells.
pub fn flat_cells() -> (r: Vec<CellTransform>)
    ensures
        r@.len() == 9,
        forall|k: int| 0 <= k < 9 ==> r@[k] == cell_of(Turn::Flat),
{
    let mut out: Vec<CellTransform> = Vec::new();
    let mut k: usize = 0;
    while k < 9
        invariant
            0 <= k <= 9,
            out@.len() == k,
            forall|j: int| 0 <= j < k ==> out@[j] == cell_of(Turn::Flat),
        decreases 9 - k,
    {
        out.push(CellTransform { turn: Turn::Flat, counter: Turn::Flat });
        k = k + 1;
    }
    out
}

/// Entry `i` of the row or column catalogue.
pub fn line_turn(is_row: bool, i: usize) -> (r: Turn)
    requires
        i < LINE_COUNT,
    ensures
        r == line_entry(is_row, i as int),
        turn_ok(r),
{
    let deg: i16 = if i == 1 {
        180
    } else if i == 2 {
        360
    } else {
        -180
    };
    if i == 0 {
        Turn::Flat
    } else if is_row {
        Turn::AboutX(deg)
    } else {
        Turn::AboutY(deg)
    }
}

/// The entries of a line catalogue other than `current`, in catalogue order.
pub fn line_candidates(is_row: bool, current: Turn) -> (r: Vec<Turn>)
    ensures
        forall|t: Turn| #[trigger] r@.contains(t) <==> in_line_catalogue(is_row, t) && t != current,
        r@.len() >= LINE_COUNT - 1,
{
    let mut out: Vec<Turn> = Vec::new();
    let mut i: usize = 0;
    while i < LINE_COUNT
        invariant
            0 <= i <= LINE_COUNT,
            forall|t: Turn|
                out@.contains(t) <==> (exists|j: int| 0 <= j < i && line_entry(is_row, j) == t)
                    && t != current,
            (exists|j: int| 0 <= j < i && line_entry(is_row, j) == current) ==> out@.len() + 1
                == i,
            !(exists|j: int| 0 <= j < i && line_entry(is_row, j) == current) ==> out@.len() == i,
        decreases LINE_COUNT - i,
    {
        let t = line_turn(is_row, i);
        let ghost before = out@;
        if t != current {
            out.push(t);
        }
        proof {
            assert forall|u: Turn|
                out@.contains(u) <==> (exists|j: int| 0 <= j < i + 1 && line_entry(is_row, j) == u)
                    && u != current by {
                if out@.contains(u) {
                    if before.contains(u) {
                        let j = choose|j: int| 0 <= j < i && line_entry(is_row, j) == u;
                        assert(0 <= j < i + 1 && line_entry(is_row, j) == u);
                    } else {
                        let k = choose|k: int| 0 <= k < out@.len() && out@[k] == u;
                        assert(k == before.len());
                        assert(line_entry(is_row, i as int) == u);
                    }
                }
                if (exists|j: int| 0 <= j < i + 1 && line_entry(is_row, j) == u) && u != current {
                    let j = choose|j: int| 0 <= j < i + 1 && line_entry(is_row, j) == u;
                    if j < i {
                        assert(before.contains(u));
                        let k = choose|k: int| 0 <= k < before.len() && before[k] == u;
                        assert(out@[k] == u);
                    } else {
                        assert(out@[out@.len() - 1] == u);
                    }
                }
            }
            assert forall|a: int, b: int|
                0 <= a < LINE_COUNT && 0 <= b < LINE_COUNT && a != b implies line_entry(is_row, a)
                != line_entry(is_row, b) by {}
            if exists|j: int| 0 <= j < i + 1 && line_entry(is_row, j) == current {
                if t == current {
                    assert(!(exists|j: int| 0 <= j < i && line_entry(is_row, j) == current));
                }
            } else {
                assert(!(exists|j: int| 0 <= j < i && line_entry(is_row, j) == current));
            }
        }
        i = i + 1;
    }
    out
}

/// Sets every cell of row or column `line` to turn `t`, with its inverse as
/// counter-turn; other cells keep theirs.
pub fn apply_line(cells: &Vec<CellTransform>, is_row: bool, line: usize, t: Turn) -> (r: Vec<
    CellTransform,
>)
    requires
        cells@.len() == 9,
        line < 3,
        turn_ok(t),
    ensures
        r@ == with_line(cells@, is_row, line as int, t),
{
    let counter = t.inverse();
    let mut out: Vec<CellTransform> = Vec::new();
    let mut k: usize = 0;
    while k < 9
        invariant
            cells@.len() == 9,
            counter == inverse(t),
            0 <= k <= 9,
            out@.len() == k,
            forall|j: int|
                0 <= j < k ==> out@[j] == if in_line(is_row, line as int, j) {
                    cell_of(t)
                } else {
                    cells@[j]
                },
        decreases 9 - k,
    {
        let on_line = if is_row {
            k / 3 == line
        } else {
            k % 3 == line
        };
        if on_line {
            out.push(CellTransform { turn: t, counter });
        } else {
            out.push(cells[k]);
        }
        k = k + 1;
    }
    assert(out@ =~= with_line(cells@, is_row, line as int, t));
    out
}

/// Turns one row or column, drawn at random, to a turn of its axis's
/// catalogue other than the one its first cell has now.
pub fn spin_line(cells: &Vec<CellTransform>) -> (r: Vec<CellTransform>)
    requires
        cells@.len() == 9,
    ensures
        exists|is_row: bool, line: int, t: Turn|
            0 <= line < 3 && in_line_catalogue(is_row, t) && t != cells@[first_cell(
                is_row,
                line,
            )].turn && r@ == with_line(cells@, is_row, line, t),
{
    let is_row = random_below(2) == 0;
    let line = random_below(3);
    let first = if is_row {
        line * 3
    } else {
        line
    };
    let current = cells[first].turn;
    let candidates = line_candidates(is_row, current);
    let t = choose_one(&candidates);
    assert(candidates@.contains(t));
    assert(in_line_catalogue(is_row, t) && t != current);
    proof {
        let i = choose|i: int| 0 <= i < LINE_COUNT && line_entry(is_row, i) == t;
        assert(turn_ok(line_entry(is_row, i)));
    }
    let r = apply_line(cells, is_row, line, t);
    assert(first_cell(is_row, line as int) == first as int);
    assert(0 <= line < 3 && in_line_catalogue(is_row, t) && t != cells@[first_cell(
        is_row,
        line as int,
    )].turn && r@ == with_line(cells@, is_row, line as int, t));
    r
}

/// Direction of a discrete rotation of the digits.
#[derive(Clone, Copy, Debug, PartialEq, Eq, Structural)]
pub enum Direction {
    /// Each row shifts one cell to the right, the last cell wrapping round.
    RowRight,
    /// Each column shifts one cell down, the last cell wrapping round.
    ColDown,
}

/// The cell whose digit moves into cell `k`.
pub open spec fn source_cell(dir: Direction, k: int) -> int {
    match dir {
        Direction::RowRight => (k / 3) * 3 + (k % 3 + 2) % 3,
        Direction::ColDown => ((k / 3 + 2) % 3) * 3 + k % 3,
    }
}

/// The grid after a rotation: `[a, b, c]` becomes `[c, a, b]` on each row or
/// each column.
pub open spec fn rotated(grid: Seq<u8>, dir: Direction) -> Seq<u8> {
    Seq::new(9, |k: int| grid[source_cell(dir, k)])
}

pub fn rotate_grid(grid: &Vec<u8>, dir: Direction) -> (r: Vec<u8>)
    requires
        grid@.len() == 9,
    ensures
        r@ == rotated(grid@, dir),
{
    let mut out: Vec<u8> = Vec::new();
    let mut k: usize = 0;
    while k < 9
        invariant
            grid@.len() == 9,
            0 <= k <= 9,
            out@.len() == k,
            forall|j: int| 0 <= j < k ==> out@[j] == grid@[source_cell(dir, j)],
        decreases 9 - k,
    {
        let src = match dir {
            Direction::RowRight => (k / 3) * 3 + (k % 3 + 2) % 3,
            Direction::ColDown => ((k / 3 + 2) % 3) * 3 + k % 3,
        };
        out.push(grid[src]);
        k = k + 1;
    }
    assert(out@ =~= rotated(grid@, dir));
    out
}

/// What a spin of the keypad did.
#[derive(Clone, Copy, Debug, PartialEq, Eq, Structural)]
pub enum SpinAction {
    /// A rotation is still under way: nothing happened.
    Ignored,
    /// The whole grid takes this transform.
    Whole(GridTransform),
    /// The digits rotate this way once the animation delay has passed.
    Rotate(Direction),
}

/// The animation lock of discrete rotations: while a rotation is pending no
/// other spin starts.
pub struct Spinner {
    pending: Option<Direction>,
}

impl Spinner {
    /// The rotation under way, if any; it doubles as the animation cue.
    pub closed spec fn cue(&self) -> Option<Direction> {
        self.pending
    }

    pub open spec fn is_animating(&self) -> bool {
        self.cue().is_some()
    }

    pub fn new() -> (r: Spinner)
        ensures
            r.cue() == None::<Direction>,
    {
        Spinner { pending: None }
    }

    pub fn animating(&self) -> (r: bool)
        ensures
            r == self.is_animating(),
    {
        self.pending.is_some()
    }

    pub fn pending(&self) -> (r: Option<Direction>)
        ensures
            r == self.cue(),
    {
        self.pending
    }

    /// Starts rotation `dir` unless one is under way; tells whether it started.
    pub fn begin(&mut self, dir: Direction) -> (r: bool)
        ensures
            r == !old(self).is_animating(),
            r ==> final(self).cue() == Some(dir),
            !r ==> final(self).cue() == old(self).cue(),
    {
        if self.pending.is_some() {
            false
        } else {
            self.pending = Some(dir);
            true
        }
    }

    /// The decision of a spin once its draws are made: ignored while a
    /// rotation is under way; otherwise the whole grid takes `next` when
    /// `rotate` is false, and rotation `dir` starts the lock when it is true.
    pub fn spin_with(&mut self, rotate: bool, dir: Direction, next: GridTransform) -> (r:
        SpinAction)
        ensures
            old(self).is_animating() ==> r == SpinAction::Ignored,
            old(self).is_animating() ==> final(self).cue() == old(self).cue(),
            !old(self).is_animating() && !rotate ==> r == SpinAction::Whole(next),
            !old(self).is_animating() && !rotate ==> final(self).cue() == old(self).cue(),
            !old(self).is_animating() && rotate ==> r == SpinAction::Rotate(dir),
            !old(self).is_animating() && rotate ==> final(self).cue() == Some(dir),
    {
        if self.pending.is_some() {
            SpinAction::Ignored
        } else if rotate {
            self.pending = Some(dir);
            SpinAction::Rotate(dir)
        } else {
            SpinAction::Whole(next)
        }
    }

    /// A spin: ignored while a rotation is under way; otherwise, by a fair
    /// coin, either a new whole-grid transform other than `current`, or a
    /// rotation in a random direction, which starts the lock.
    pub fn spin(&mut self, current: GridTransform) -> (r: SpinAction)
        ensures
            old(self).is_animating() ==> r == SpinAction::Ignored,
            old(self).is_animating() ==> final(self).cue() == old(self).cue(),
            !old(self).is_animating() ==> r != SpinAction::Ignored,
            r matches SpinAction::Whole(t) ==> in_whole_catalogue(t) && t != current,
            r matches SpinAction::Whole(_) ==> final(self).cue() == old(self).cue(),
            r matches SpinAction::Rotate(d) ==> final(self).cue() == Some(d),
    {
        let rotate = random_below(2) == 1;
        let dir = if random_below(2) == 0 {
            Direction::RowRight
        } else {
            Direction::ColDown
        };
        let next = spin_whole(current).0;
        self.spin_with(rotate, dir, next)
    }

    /// The delayed end of a rotation: the digits move as it says and the lock
    /// is released. Without a rotation under way the grid stays as it is.
    pub fn commit(&mut self, grid: &Vec<u8>) -> (r: Vec<u8>)
        requires
            grid@.len() == 9,
        ensures
            final(self).cue() == None::<Direction>,
            r@ == match old(self).cue() {
                Some(d) => rotated(grid@, d),
                None => grid@,
            },
    {
        let r = match self.pending {
            Some(d) => rotate_grid(grid, d),
            None => grid.clone(),
        };
        self.pending = None;
        r
    }
}

} // verus!
