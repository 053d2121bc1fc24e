//! The grid allocator: cutting a screen area into rows and columns of cells.

use ratatui::layout::Layout;
use vstd::prelude::*;

verus! {

/// A rectangle of terminal cells.
#[derive(Clone, Copy, Debug, Default, PartialEq, Eq, Hash)]
pub struct Rect {
    pub x: u16,
    pub y: u16,
    pub width: u16,
    pub height: u16,
}

/// The axis along which an area is cut.
#[derive(Clone, Copy, Debug, PartialEq, Eq)]
pub enum Direction {
    /// Side by side: the parts differ in `x`.
    Horizontal,
    /// One above the other: the parts differ in `y`.
    Vertical,
}

impl Direction {
    pub open spec fn other(self) -> Direction {
        match self {
            Direction::Horizontal => Direction::Vertical,
            Direction::Vertical => Direction::Horizontal,
        }
    }
}

impl Rect {
    /// The far edges lie within the coordinate range.
    pub open spec fn wf(self) -> bool {
        self.x + self.width <= u16::MAX && self.y + self.height <= u16::MAX
    }

    /// The cell at `column`, `row` lies in the rectangle.
    pub open spec fn contains(self, column: int, row: int) -> bool {
        self.x <= column < self.x + self.width && self.y <= row < self.y + self.height
    }

    /// Where the rectangle begins along `direction`.
    pub open spec fn start(self, direction: Direction) -> int {
        match direction {
            Direction::Horizontal => self.x as int,
            Direction::Vertical => self.y as int,
        }
    }

    /// How far the rectangle reaches along `direction`.
    pub open spec fn size(self, direction: Direction) -> int {
        match direction {
            Direction::Horizontal => self.width as int,
            Direction::Vertical => self.height as int,
        }
    }

    /// Where the rectangle ends along `direction`.
    pub open spec fn end(self, direction: Direction) -> int {
        self.start(direction) + self.size(direction)
    }

    /// A rectangle at `x`, `y`, as wide and high as asked so far as the
    /// coordinate range allows.
    pub fn new(x: u16, y: u16, width: u16, height: u16) -> (rect: Self)
        ensures
            rect.wf(),
            rect.x == x,
            rect.y == y,
            rect.width == if x + width <= u16::MAX {
                width as int
            } else {
                u16::MAX - x
            },
            rect.height == if y + height <= u16::MAX {
                height as int
            } else {
                u16::MAX - y
            },
    {
        let max_width = u16::MAX - x;
        let max_height = u16::MAX - y;
        Rect {
            x,
            y,
            width: if width > max_width {
                max_width
            } else {
                width
            },
            height: if height > max_height {
                max_height
            } else {
                height
            },
        }
    }

    fn span(self, direction: Direction) -> (span: (u16, u16))
        ensures
            span.0 == self.start(direction),
            span.1 == self.size(direction),
    {
        match direction {
            Direction::Horizontal => (self.x, self.width),
            Direction::Vertical => (self.y, self.height),
        }
    }

    /// The part of `self` that begins at `start` and reaches `size` along
    /// `direction`, and spans `self` in the other.
    fn part(self, direction: Direction, start: u16, size: u16) -> (part: Self)
        ensures
            part.start(direction) == start,
            part.size(direction) == size,
            part.start(direction.other()) == self.start(direction.other()),
            part.size(direction.other()) == self.size(direction.other()),
    {
        match direction {
            Direction::Horizontal => Rect { x: start, y: self.y, width: size, height: self.height },
            Direction::Vertical => Rect { x: self.x, y: start, width: self.width, height: size },
        }
    }
}

/// Part `i` of `parts` is in its place in a cut of `area` into `n`: it
/// spans the area in the other direction, begins where the area begins or
/// the part before it ends, and is as long as an even share of the area,
/// rounded down or up.
pub open spec fn is_part(area: Rect, n: int, direction: Direction, parts: Seq<Rect>, i: int) -> bool {
    &&& parts[i].start(direction.other()) == area.start(direction.other())
    &&& parts[i].size(direction.other()) == area.size(direction.other())
    &&& parts[i].start(direction) == if i == 0 {
        area.start(direction)
    } else {
        parts[i - 1].end(direction)
    }
    &&& area.size(direction) / n <= parts[i].size(direction) <= (area.size(direction) + n - 1) / n
}

/// `parts` cut `area` along `direction` into `n` parts as even as whole
/// cells allow: they follow one another without gap or overlap from one
/// edge of the area to the other, each spans the area in the other
/// direction, and no part is more than a cell longer than another.
pub open spec fn is_split(area: Rect, n: int, direction: Direction, parts: Seq<Rect>) -> bool {
    &&& parts.len() == n
    &&& forall|i: int| 0 <= i < n ==> #[trigger] is_part(area, n, direction, parts, i)
    &&& n > 0 ==> parts[n - 1].end(direction) == area.end(direction)
}

/// The bands that the rows of `cells` lie in, where each row holds `columns`
/// cells: each as wide as `area`, and placed and as high as the row's first
/// cell.
pub open spec fn bands_of(area: Rect, rows: int, columns: int, cells: Seq<Rect>) -> Seq<Rect> {
    Seq::new(
        rows as nat,
        |r: int|
            Rect {
                x: area.x,
                y: cells[r * columns].y,
                width: area.width,
                height: cells[r * columns].height,
            },
    )
}

/// `cells` lay `area` out as a grid, row by row: the area is cut evenly
/// into `rows` bands, one above the other, and each band evenly into
/// `columns` cells, side by side.
pub open spec fn is_grid(area: Rect, rows: int, columns: int, cells: Seq<Rect>) -> bool {
    &&& cells.len() == rows * columns
    &&& columns > 0 ==> {
        let bands = bands_of(area, rows, columns, cells);
        &&& is_split(area, rows, Direction::Vertical, bands)
        &&& forall|r: int|
            0 <= r < rows ==> is_split(
                #[trigger] bands[r],
                columns,
                Direction::Horizontal,
                cells.subrange(r * columns, (r + 1) * columns),
            )
    }
}

/// The parts of a cut follow one another: each ends no later than any
/// later one begins, and none begins before the area or ends after it.
pub proof fn lemma_split_is_ordered(area: Rect, n: int, direction: Direction, parts: Seq<Rect>)
    requires
        is_split(area, n, direction, parts),
    ensures
        forall|i: int, j: int|
            0 <= i < j < n ==> (#[trigger] parts[i]).end(direction) <= (#[trigger] parts[j]).start(
                direction,
            ),
        forall|i: int|
            0 <= i < n ==> area.start(direction) <= (#[trigger] parts[i]).start(direction)
                && parts[i].end(direction) <= area.end(direction),
{
    assert forall|i: int, j: int| 0 <= i < j < n implies (#[trigger] parts[i]).end(direction) <= (
    #[trigger] parts[j]).start(direction) by {
        lemma_split_steps(area, n, direction, parts, i, j);
    }
    assert forall|i: int| 0 <= i < n implies area.start(direction) <= (#[trigger] parts[i]).start(
        direction,
    ) && parts[i].end(direction) <= area.end(direction) by {
        assert(is_part(area, n, direction, parts, 0));
        if i > 0 {
            lemma_split_steps(area, n, direction, parts, 0, i);
        }
        if i < n - 1 {
            lemma_split_steps(area, n, direction, parts, i, n - 1);
        }
    }
}

proof fn lemma_split_steps(
    area: Rect,
    n: int,
    direction: Direction,
    parts: Seq<Rect>,
    i: int,
    j: int,
)
    requires
        is_split(area, n, direction, parts),
        0 <= i < j < n,
    ensures
        parts[i].end(direction) <= parts[j].start(direction),
    decreases j - i,
{
    if j > i + 1 {
        lemma_split_steps(area, n, direction, parts, i, j - 1);
    }
    assert(is_part(area, n, direction, parts, j));
}

/// Every position of the area along the cut lies in one part.
proof fn lemma_split_finds(
    area: Rect,
    n: int,
    direction: Direction,
    parts: Seq<Rect>,
    at: int,
    upto: int,
) -> (i: int)
    requires
        is_split(area, n, direction, parts),
        0 <= upto < n,
        area.start(direction) <= at < parts[upto].end(direction),
    ensures
        0 <= i <= upto,
        parts[i].start(direction) <= at < parts[i].end(direction),
    decreases upto,
{
    if parts[upto].start(direction) <= at {
        upto
    } else {
        assert(is_part(area, n, direction, parts, upto));
        lemma_split_finds(area, n, direction, parts, at, upto - 1)
    }
}

/// The parts of a cut cover the area exactly and share no cell.
pub proof fn lemma_split_covers(area: Rect, n: int, direction: Direction, parts: Seq<Rect>)
    requires
        n >= 1,
        is_split(area, n, direction, parts),
    ensures
        forall|column: int, row: int|
            area.contains(column, row) <==> exists|i: int|
                0 <= i < n && #[trigger] parts[i].contains(column, row),
        forall|i: int, j: int, column: int, row: int|
            0 <= i < j < n && #[trigger] parts[i].contains(column, row) ==> !#[trigger] parts[j].contains(
                column,
                row,
            ),
{
    lemma_split_is_ordered(area, n, direction, parts);
    assert forall|column: int, row: int| area.contains(column, row) implies exists|i: int|
        0 <= i < n && #[trigger] parts[i].contains(column, row) by {
        let at = match direction {
            Direction::Horizontal => column,
            Direction::Vertical => row,
        };
        let i = lemma_split_finds(area, n, direction, parts, at, n - 1);
        assert(is_part(area, n, direction, parts, i));
        assert(parts[i].contains(column, row));
    }
    assert forall|column: int, row: int|
        (exists|i: int| 0 <= i < n && #[trigger] parts[i].contains(column, row))
            implies area.contains(column, row) by {
        let i = choose|i: int| 0 <= i < n && #[trigger] parts[i].contains(column, row);
        assert(is_part(area, n, direction, parts, i));
    }
}

/// Cutting a length of `size` at the `i`-th and the next of `n` even marks
/// gives a piece that lies within the length and is an even share of it,
/// rounded down or up.
proof fn lemma_even_marks(size: int, n: int, i: int)
    requires
        0 <= size,
        0 <= i < n,
    ensures
        0 <= (i * size) / n <= ((i + 1) * size) / n <= size,
        size / n <= ((i + 1) * size) / n - (i * size) / n <= (size + n - 1) / n,
        i == 0 ==> (i * size) / n == 0,
        i + 1 == n ==> ((i + 1) * size) / n == size,
{
    let a = i * size;
    assert(0 <= a && (i + 1) * size == a + size && a + size <= n * size) by (nonlinear_arith)
        requires
            a == i * size,
            0 <= size,
            0 <= i < n,
    ;
    vstd::arithmetic::div_mod::lemma_fundamental_div_mod(a, n);
    vstd::arithmetic::div_mod::lemma_fundamental_div_mod(size, n);
    vstd::arithmetic::div_mod::lemma_fundamental_div_mod(a + size, n);
    vstd::arithmetic::div_mod::lemma_fundamental_div_mod(size + n - 1, n);
    vstd::arithmetic::div_mod::lemma_div_multiples_vanish(size, n);
    let (qa, ra) = (a / n, a % n);
    let (qs, rs) = (size / n, size % n);
    let (qb, rb) = ((a + size) / n, (a + size) % n);
    let (qc, rc) = ((size + n - 1) / n, (size + n - 1) % n);
    assert(qb == qa + qs || qb == qa + qs + 1) by (nonlinear_arith)
        requires
            a == n * qa + ra,
            size == n * qs + rs,
            a + size == n * qb + rb,
            0 <= ra < n,
            0 <= rs < n,
            0 <= rb < n,
    ;
    assert(rs == 0 ==> qb == qa + qs) by (nonlinear_arith)
        requires
            a == n * qa + ra,
            size == n * qs + rs,
            a + size == n * qb + rb,
            0 <= ra < n,
            0 <= rs < n,
            0 <= rb < n,
    ;
    assert(rs > 0 ==> qc >= qs + 1) by (nonlinear_arith)
        requires
            size == n * qs + rs,
            size + n - 1 == n * qc + rc,
            0 <= rs < n,
            0 <= rc < n,
    ;
    assert(qc >= qs) by (nonlinear_arith)
        requires
            size == n * qs + rs,
            size + n - 1 == n * qc + rc,
            0 <= rs < n,
            0 <= rc < n,
    ;
    assert(0 <= qa && qb <= size) by (nonlinear_arith)
        requires
            a == n * qa + ra,
            a + size == n * qb + rb,
            0 <= a,
            a + size <= n * size,
            0 <= ra < n,
            0 <= rb < n,
            0 < n,
    ;
    if i == 0 {
        assert(a == 0) by (nonlinear_arith)
            requires
                a == i * size,
                i == 0,
        ;
    }
    if i + 1 == n {
        assert((i + 1) * size == size * n) by (nonlinear_arith)
            requires
                i + 1 == n,
        ;
    }
}

/// Cuts `area` into `n` parts at even marks, each mark rounded down to a
/// whole cell.
fn cut_evenly(area: Rect, n: u16, direction: Direction) -> (parts: Vec<Rect>)
    requires
        area.wf(),
    ensures
        is_split(area, n as int, direction, parts@),
{
    let (start, size) = area.span(direction);
    let mut parts: Vec<Rect> = Vec::new();
    let mut i: u16 = 0;
    while i < n
        invariant
            i <= n,
            area.wf(),
            start == area.start(direction),
            size == area.size(direction),
            parts@.len() == i,
            forall|k: int| 0 <= k < i ==> #[trigger] is_part(area, n as int, direction, parts@, k),
            i > 0 ==> parts@[i - 1].end(direction) == start + (i * size) / (n as int),
        decreases n - i,
    {
        proof {
            lemma_even_marks(size as int, n as int, i as int);
            assert(i as u32 * size as u32 <= 0xffff * 0xffff && (i as u32 + 1) * size as u32 <= 0xffff
                * 0xffff) by (nonlinear_arith)
                requires
                    i < 0xffff,
                    size <= 0xffff,
            ;
        }
        let low = (i as u32 * size as u32 / n as u32) as u16;
        let high = ((i as u32 + 1) * size as u32 / n as u32) as u16;
        let ghost before = parts@;
        parts.push(area.part(direction, start + low, high - low));
        proof {
            assert forall|k: int| 0 <= k < i + 1 implies #[trigger] is_part(
                area,
                n as int,
                direction,
                parts@,
                k,
            ) by {
                if k < i {
                    assert(is_part(area, n as int, direction, before, k));
                }
            }
        }
        i += 1;
    }
    proof {
        if n > 0 {
            lemma_even_marks(size as int, n as int, n - 1);
        }
    }
    parts
}

/// Decides whether `parts` cut `area` evenly into `n`.
fn accepts(area: Rect, n: u16, direction: Direction, parts: &Vec<Rect>) -> (ok: bool)
    ensures
        ok == is_split(area, n as int, direction, parts@),
{
    if parts.len() != n as usize {
        return false;
    }
    if n == 0 {
        return true;
    }
    let (start, size) = area.span(direction);
    let (cross_start, cross_size) = match direction {
        Direction::Horizontal => area.span(Direction::Vertical),
        Direction::Vertical => area.span(Direction::Horizontal),
    };
    let least = size / n;
    let most: u32 = (size as u32 + n as u32 - 1) / n as u32;
    let mut next: u32 = start as u32;
    let mut i: usize = 0;
    while i < parts.len()
        invariant
            i <= parts@.len(),
            parts@.len() == n,
            n > 0,
            start == area.start(direction),
            size == area.size(direction),
            cross_start == area.start(direction.other()),
            cross_size == area.size(direction.other()),
            least == size as int / n as int,
            most == (size + n - 1) / n as int,
            next == if i == 0 {
                start as int
            } else {
                parts@[i - 1].end(direction)
            },
            forall|k: int| 0 <= k < i ==> #[trigger] is_part(area, n as int, direction, parts@, k),
        decreases parts@.len() - i,
    {
        let (part_start, part_size) = parts[i].span(direction);
        let (part_cross_start, part_cross_size) = match direction {
            Direction::Horizontal => parts[i].span(Direction::Vertical),
            Direction::Vertical => parts[i].span(Direction::Horizontal),
        };
        if part_cross_start != cross_start || part_cross_size != cross_size || part_start as u32
            != next || part_size < least || part_size as u32 > most {
            assert(!is_part(area, n as int, direction, parts@, i as int));
            return false;
        }
        next = part_start as u32 + part_size as u32;
        i += 1;
    }
    next == start as u32 + size as u32
}

/// What is asked of one part of a cut.
#[derive(Clone, Copy, Debug, PartialEq, Eq)]
pub enum Constraint {
    /// The part is this many cells long.
    Length(u16),
    /// The part is at least this many cells long.
    Min(u16),
    /// The part is this share of the area: the first number over the second.
    Ratio(u32, u32),
}

/// Asks the terminal toolkit to cut `area` along `direction`, one part for
/// each of `constraints`: `ratatui::layout::Layout::split`, on a layout
/// made by `Layout::new`. Its answer comes from a constraint solver that
/// settles ties by the order in which it walks its hash maps, so nothing
/// is claimed of it here: callers inspect what comes back.
#[verifier::external_body]
pub(crate) fn solve(area: Rect, direction: Direction, constraints: Vec<Constraint>) -> (parts: Vec<
    Rect,
>) {
    let direction = match direction {
        Direction::Horizontal => ratatui::layout::Direction::Horizontal,
        Direction::Vertical => ratatui::layout::Direction::Vertical,
    };
    let constraints = constraints.into_iter().map(|c| match c {
        Constraint::Length(n) => ratatui::layout::Constraint::Length(n),
        Constraint::Min(n) => ratatui::layout::Constraint::Min(n),
        Constraint::Ratio(n, d) => ratatui::layout::Constraint::Ratio(n, d),
    });
    let area = ratatui::layout::Rect { x: area.x, y: area.y, width: area.width, height: area.height };
    Layout::new(direction, constraints).split(area).iter().map(
        |r| Rect { x: r.x, y: r.y, width: r.width, height: r.height },
    ).collect()
}

/// Cuts `area` along `direction` into `n` parts as even as whole cells
/// allow. The parts are the toolkit's where it cuts the area evenly, and
/// cut at even marks otherwise.
pub fn split(area: Rect, n: u16, direction: Direction) -> (parts: Vec<Rect>)
    requires
        area.wf(),
    ensures
        is_split(area, n as int, direction, parts@),
{
    if n == 0 {
        return Vec::new();
    }
    let mut shares: Vec<Constraint> = Vec::new();
    let mut i: u16 = 0;
    while i < n
        invariant
            i <= n,
        decreases n - i,
    {
        shares.push(Constraint::Ratio(1, n as u32));
        i += 1;
    }
    let parts = solve(area, direction, shares);
    if accepts(area, n, direction, &parts) {
        parts
    } else {
        cut_evenly(area, n, direction)
    }
}

/// Row `r` of a grid of `columns` columns begins where row `r - 1` ends and
/// lies wholly before row `rows`.
proof fn lemma_row_range(r: int, rows: int, columns: int)
    requires
        0 <= r < rows,
        0 <= columns,
    ensures
        0 <= r * columns,
        (r + 1) * columns == r * columns + columns,
        (r + 1) * columns <= rows * columns,
{
    assert(0 <= r * columns && (r + 1) * columns == r * columns + columns && (r + 1) * columns
        <= rows * columns) by (nonlinear_arith)
        requires
            0 <= r < rows,
            0 <= columns,
    ;
}

/// Lays `area` out as a grid of `rows` rows and `columns` columns and
/// returns the cells row by row.
pub fn grid(area: Rect, rows: u16, columns: u16) -> (cells: Vec<Rect>)
    requires
        area.wf(),
    ensures
        is_grid(area, rows as int, columns as int, cells@),
        cells@.len() == rows * columns,
        rows >= 1 && columns >= 1 ==> tiles(area, cells@),
{
    let bands = split(area, rows, Direction::Vertical);
    let mut cells: Vec<Rect> = Vec::new();
    let ghost mut laid: Seq<Seq<Rect>> = Seq::empty();
    let mut r: usize = 0;
    proof {
        lemma_split_is_ordered(area, rows as int, Direction::Vertical, bands@);
        assert(0 * (columns as int) == 0);
    }
    while r < bands.len()
        invariant
            r <= bands@.len(),
            bands@.len() == rows,
            area.wf(),
            is_split(area, rows as int, Direction::Vertical, bands@),
            forall|b: int|
                0 <= b < rows ==> area.y <= (#[trigger] bands@[b]).y && bands@[b].y + bands@[b].height
                    <= area.y + area.height,
            cells@.len() == r * columns,
            laid.len() == r,
            forall|b: int|
                0 <= b < r ==> is_split(
                    bands@[b],
                    columns as int,
                    Direction::Horizontal,
                    #[trigger] laid[b],
                ),
            forall|b: int|
                0 <= b < r ==> cells@.subrange(b * columns, (b + 1) * columns) == #[trigger] laid[b],
        decreases bands@.len() - r,
    {
        let band = bands[r];
        proof {
            assert(is_part(area, rows as int, Direction::Vertical, bands@, r as int));
        }
        let mut row = split(band, columns, Direction::Horizontal);
        let ghost before = cells@;
        let ghost this = row@;
        cells.append(&mut row);
        proof {
            lemma_row_range(r as int, r + 1, columns as int);
            assert forall|b: int| 0 <= b < r + 1 implies cells@.subrange(
                b * columns,
                (b + 1) * columns,
            ) == #[trigger] laid.push(this)[b] by {
                lemma_row_range(b, r + 1, columns as int);
                if b < r {
                    lemma_row_range(b, r as int, columns as int);
                    assert(cells@.subrange(b * columns, (b + 1) * columns) =~= before.subrange(
                        b * columns,
                        (b + 1) * columns,
                    ));
                    assert(laid.push(this)[b] == laid[b]);
                } else {
                    assert(cells@.subrange(b * columns, (b + 1) * columns) =~= this);
                }
            }
            assert forall|b: int| 0 <= b < r + 1 implies is_split(
                bands@[b],
                columns as int,
                Direction::Horizontal,
                #[trigger] laid.push(this)[b],
            ) by {
                if b < r {
                    assert(laid.push(this)[b] == laid[b]);
                }
            }
            laid = laid.push(this);
        }
        r += 1;
    }
    proof {
        if columns > 0 {
            let found = bands_of(area, rows as int, columns as int, cells@);
            assert forall|b: int| 0 <= b < rows implies found[b] == bands@[b] by {
                lemma_row_range(b, rows as int, columns as int);
                assert(is_part(area, rows as int, Direction::Vertical, bands@, b));
                assert(is_part(bands@[b], columns as int, Direction::Horizontal, laid[b], 0));
                assert(laid[b][0] == cells@.subrange(b * columns, (b + 1) * columns)[0]);
            }
            assert(found =~= bands@);
            assert forall|b: int| 0 <= b < rows implies is_split(
                #[trigger] found[b],
                columns as int,
                Direction::Horizontal,
                cells@.subrange(b * columns, (b + 1) * columns),
            ) by {
                assert(cells@.subrange(b * columns, (b + 1) * columns) == laid[b]);
            }
        }
        if rows >= 1 && columns >= 1 {
            lemma_grid_tiles(area, rows as int, columns as int, cells@);
        }
    }
    cells
}

/// `cells` cover `area` exactly and no two of them overlap: every cell of
/// the screen that lies in the area lies in one of them, none lies in two,
/// and none of them reaches outside the area.
pub open spec fn tiles(area: Rect, cells: Seq<Rect>) -> bool {
    &&& forall|column: int, row: int|
        area.contains(column, row) <==> exists|i: int|
            0 <= i < cells.len() && #[trigger] cells[i].contains(column, row)
    &&& forall|i: int, j: int, column: int, row: int|
        0 <= i < j < cells.len() && #[trigger] cells[i].contains(column, row)
            ==> !#[trigger] cells[j].contains(column, row)
}

/// A grid of at least one row and one column has a cell for each place,
/// and its cells cover the area exactly and share no cell of the screen.
pub proof fn lemma_grid_tiles(area: Rect, rows: int, columns: int, cells: Seq<Rect>)
    requires
        rows >= 1,
        columns >= 1,
        is_grid(area, rows, columns, cells),
    ensures
        cells.len() == rows * columns,
        tiles(area, cells),
{
    let bands = bands_of(area, rows, columns, cells);
    lemma_split_covers(area, rows, Direction::Vertical, bands);
    assert forall|b: int| 0 <= b < rows implies {
        let line = cells.subrange(b * columns, (b + 1) * columns);
        &&& 0 <= b * columns
        &&& (b + 1) * columns == b * columns + columns
        &&& (b + 1) * columns <= cells.len()
        &&& forall|column: int, row: int|
            (#[trigger] bands[b]).contains(column, row) <==> exists|k: int|
                0 <= k < columns && #[trigger] line[k].contains(column, row)
        &&& forall|k: int, m: int, column: int, row: int|
            0 <= k < m < columns && #[trigger] line[k].contains(column, row)
                ==> !#[trigger] line[m].contains(column, row)
    } by {
        lemma_row_range(b, rows, columns);
        lemma_split_covers(
            bands[b],
            columns,
            Direction::Horizontal,
            cells.subrange(b * columns, (b + 1) * columns),
        );
    }
    assert forall|column: int, row: int| area.contains(column, row) implies exists|i: int|
        0 <= i < cells.len() && #[trigger] cells[i].contains(column, row) by {
        let b = choose|b: int| 0 <= b < rows && #[trigger] bands[b].contains(column, row);
        let line = cells.subrange(b * columns, (b + 1) * columns);
        let k = choose|k: int| 0 <= k < columns && #[trigger] line[k].contains(column, row);
        assert(line[k] == cells[b * columns + k]);
        assert(cells[b * columns + k].contains(column, row));
    }
    assert forall|i: int, column: int, row: int|
        0 <= i < cells.len() && #[trigger] cells[i].contains(column, row) implies {
        let b = i / columns;
        let k = i % columns;
        let line = cells.subrange(b * columns, (b + 1) * columns);
        &&& 0 <= b < rows
        &&& 0 <= k < columns
        &&& i == b * columns + k
        &&& line[k] == cells[i]
        &&& bands[b].contains(column, row)
    } by {
        let b = i / columns;
        let k = i % columns;
        vstd::arithmetic::div_mod::lemma_fundamental_div_mod(i, columns);
        assert(0 <= b < rows && i == b * columns + k) by (nonlinear_arith)
            requires
                i == columns * b + k,
                0 <= k < columns,
                0 <= i < rows * columns,
        ;
        lemma_row_range(b, rows, columns);
        let line = cells.subrange(b * columns, (b + 1) * columns);
        assert(line[k] == cells[b * columns + k]);
        assert(line[k].contains(column, row));
    }
    assert forall|column: int, row: int|
        (exists|i: int| 0 <= i < cells.len() && #[trigger] cells[i].contains(column, row))
            implies area.contains(column, row) by {
        let i = choose|i: int| 0 <= i < cells.len() && #[trigger] cells[i].contains(column, row);
        assert(bands[i / columns].contains(column, row));
    }
    assert forall|i: int, j: int, column: int, row: int|
        0 <= i < j < cells.len() && #[trigger] cells[i].contains(column, row)
            implies !#[trigger] cells[j].contains(column, row) by {
        if cells[j].contains(column, row) {
            let (b, k) = (i / columns, i % columns);
            let (c, m) = (j / columns, j % columns);
            assert(bands[b].contains(column, row) && bands[c].contains(column, row));
            let line = cells.subrange(b * columns, (b + 1) * columns);
            if b == c {
                assert(line[k].contains(column, row) && line[m].contains(column, row));
                assert(k < m);
            } else {
                assert(b < c) by (nonlinear_arith)
                    requires
                        i == b * columns + k,
                        j == c * columns + m,
                        0 <= k < columns,
                        0 <= m < columns,
                        i < j,
                        b != c,
                ;
            }
        }
    }
}

} // verus!
