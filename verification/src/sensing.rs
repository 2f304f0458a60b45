use vstd::prelude::*;
use vstd::arithmetic::div_mod::lemma_fundamental_div_mod_converse;
use crate::entity::{EntityRef, EntityType};

verus! {

/// The cells of a grid, row by row.
pub open spec fn grid_view(grid: &Vec<Vec<EntityRef>>) -> Seq<Seq<EntityRef>> {
    grid@.map_values(|row: Vec<EntityRef>| row@)
}

/// Every row of the grid is at least as long as the first one, which sets
/// the grid's width.
pub open spec fn rows_cover_width(g: Seq<Seq<EntityRef>>) -> bool {
    forall|y: int| 0 <= y < g.len() ==> #[trigger] g[y].len() >= g[0].len()
}

/// The width of a grid: the length of its first row, or 0 if it has none.
pub open spec fn grid_width(g: Seq<Seq<EntityRef>>) -> int {
    if g.len() > 0 { g[0].len() as int } else { 0 }
}

/// Whether the cell `(x, y)` lies on the grid.
pub open spec fn on_grid(g: Seq<Seq<EntityRef>>, x: int, y: int) -> bool {
    0 <= x && 0 <= y && y < g.len() && x < grid_width(g)
}

/// What one cell contributes to a sensing vector of the given kind: off the
/// grid only the walls (`EntityType::Empty`) are seen; on the grid a cell is
/// seen when it holds an entity of the requested kind.
pub open spec fn cell_senses(g: Seq<Seq<EntityRef>>, input_type: EntityType, x: int, y: int) -> bool {
    if !on_grid(g, x, y) {
        input_type == EntityType::Empty
    } else {
        match input_type {
            EntityType::Herbivore => g[y][x] is Herbivore,
            EntityType::Carnivore => g[y][x] is Carnivore,
            EntityType::Grass => g[y][x] is Grass,
            EntityType::Empty => false,
        }
    }
}

/// The first `k` cells of row `y` of the square of radius `r` around
/// `(xc, yc)`, left to right; in the centre row the centre is left out.
pub open spec fn row_prefix(
    g: Seq<Seq<EntityRef>>,
    t: EntityType,
    xc: int,
    yc: int,
    r: int,
    y: int,
    k: int,
) -> Seq<bool> {
    let cells = Seq::new(k as nat, |i: int| cell_senses(g, t, xc - r + i, y));
    if y == yc && k > r {
        cells.remove(r)
    } else {
        cells
    }
}

/// The first `n` rows of the square of radius `r` around `(xc, yc)`, top
/// to bottom, each read left to right, without the centre.
pub open spec fn square_rows(
    g: Seq<Seq<EntityRef>>,
    t: EntityType,
    xc: int,
    yc: int,
    r: int,
    n: nat,
) -> Seq<bool>
    decreases n,
{
    if n == 0 {
        Seq::empty()
    } else {
        square_rows(g, t, xc, yc, r, (n - 1) as nat) + row_prefix(g, t, xc, yc, r, yc - r + n - 1, 2 * r + 1)
    }
}

/// What an animal at `(xc, yc)` with sensing radius `r` perceives of one kind.
pub open spec fn partial_input_spec(
    g: Seq<Seq<EntityRef>>,
    r: int,
    xc: int,
    yc: int,
    t: EntityType,
) -> Seq<bool> {
    square_rows(g, t, xc, yc, r, (2 * r + 1) as nat)
}

/// The full sensing vector: walls, then carnivores, then herbivores, then grass.
pub open spec fn input_spec(g: Seq<Seq<EntityRef>>, r: int, xc: int, yc: int) -> Seq<bool> {
    partial_input_spec(g, r, xc, yc, EntityType::Empty)
        + partial_input_spec(g, r, xc, yc, EntityType::Carnivore)
        + partial_input_spec(g, r, xc, yc, EntityType::Herbivore)
        + partial_input_spec(g, r, xc, yc, EntityType::Grass)
}

/// The arguments for which sensing computes every coordinate without overflow.
pub open spec fn sensing_args_ok(g: Seq<Seq<EntityRef>>, sense_radius: usize, x_center: i32, y_center: i32) -> bool {
    &&& rows_cover_width(g)
    &&& g.len() <= i32::MAX
    &&& grid_width(g) <= i32::MAX
    &&& sense_radius <= i32::MAX
    &&& i32::MIN <= x_center - sense_radius
    &&& x_center + 1 + sense_radius <= i32::MAX
    &&& i32::MIN <= y_center - sense_radius
    &&& y_center + 1 + sense_radius <= i32::MAX
    &&& (sense_radius * 2 + 1) * (sense_radius * 2 + 1) <= usize::MAX
}

proof fn lemma_row_prefix_step(g: Seq<Seq<EntityRef>>, t: EntityType, xc: int, yc: int, r: int, y: int, k: int)
    requires
        0 <= k,
        0 <= r,
        !(y == yc && k == r),
    ensures
        row_prefix(g, t, xc, yc, r, y, k + 1) == row_prefix(g, t, xc, yc, r, y, k).push(
            cell_senses(g, t, xc - r + k, y),
        ),
{
    let a = Seq::new(k as nat, |i: int| cell_senses(g, t, xc - r + i, y));
    let b = Seq::new((k + 1) as nat, |i: int| cell_senses(g, t, xc - r + i, y));
    assert(b =~= a.push(cell_senses(g, t, xc - r + k, y)));
    if y == yc && k > r {
        assert(b.remove(r) =~= a.remove(r).push(cell_senses(g, t, xc - r + k, y)));
    }
}

proof fn lemma_row_prefix_center(g: Seq<Seq<EntityRef>>, t: EntityType, xc: int, yc: int, r: int)
    requires
        0 <= r,
    ensures
        row_prefix(g, t, xc, yc, r, yc, r + 1) == row_prefix(g, t, xc, yc, r, yc, r),
{
    let a = Seq::new(r as nat, |i: int| cell_senses(g, t, xc - r + i, yc));
    let b = Seq::new((r + 1) as nat, |i: int| cell_senses(g, t, xc - r + i, yc));
    assert(b.remove(r) =~= a);
}

/// The length of the first `n` rows of the square.
pub proof fn lemma_square_rows_len(g: Seq<Seq<EntityRef>>, t: EntityType, xc: int, yc: int, r: int, n: nat)
    requires
        0 <= r,
        n <= 2 * r + 1,
    ensures
        square_rows(g, t, xc, yc, r, n).len() == n * (2 * r + 1) - (if n > r { 1int } else { 0int }),
    decreases n,
{
    if n > 0 {
        lemma_square_rows_len(g, t, xc, yc, r, (n - 1) as nat);
        let y = yc - r + n - 1;
        let m = (n - 1) as nat;
        assert(row_prefix(g, t, xc, yc, r, y, 2 * r + 1).len() == if y == yc { 2 * r } else { 2 * r + 1 });
        assert(n * (2 * r + 1) == m * (2 * r + 1) + (2 * r + 1)) by (nonlinear_arith)
            requires
                n == m + 1,
        ;
        assert(square_rows(g, t, xc, yc, r, n) == square_rows(g, t, xc, yc, r, m) + row_prefix(g, t, xc, yc, r, y, 2 * r + 1));
        if n > r + 1 {
            assert(y != yc);
        } else if n == r + 1 {
            assert(y == yc);
        } else {
            assert(y != yc);
        }
    } else {
        assert(n * (2 * r + 1) == 0) by (nonlinear_arith)
            requires
                n == 0,
        ;
    }
}

/// The `k`-th cell of the square of radius `r` around `(xc, yc)` in reading
/// order: rows top to bottom, each left to right, the centre skipped.
pub open spec fn square_cell(xc: int, yc: int, r: int, k: int) -> (int, int) {
    let w = 2 * r + 1;
    let j = if k < r * w + r { k } else { k + 1 };
    (xc - r + j % w, yc - r + j / w)
}

/// Entry `k` of the first `n` rows of the square is the reading of one cell
/// of the square (not the centre), the same cell whatever kind is sensed
/// and whatever grid is read.
pub proof fn lemma_square_rows_cell(g: Seq<Seq<EntityRef>>, xc: int, yc: int, r: int, n: nat, k: int) -> (cell: (int, int))
    requires
        0 <= r,
        n <= 2 * r + 1,
        0 <= k < square_rows(g, EntityType::Empty, xc, yc, r, n).len(),
    ensures
        xc - r <= cell.0 <= xc + r,
        yc - r <= cell.1 <= yc + r,
        cell != (xc, yc),
        cell == square_cell(xc, yc, r, k),
        forall|h: Seq<Seq<EntityRef>>, t: EntityType|
            #![trigger square_rows(h, t, xc, yc, r, n)]
            0 <= k < square_rows(h, t, xc, yc, r, n).len()
                && square_rows(h, t, xc, yc, r, n)[k] == cell_senses(h, t, cell.0, cell.1),
    decreases n,
{
    let m = (n - 1) as nat;
    lemma_square_rows_len(g, EntityType::Empty, xc, yc, r, n);
    lemma_square_rows_len(g, EntityType::Empty, xc, yc, r, m);
    let len_m = square_rows(g, EntityType::Empty, xc, yc, r, m).len() as int;
    let y = yc - r + n - 1;
    if k < len_m {
        let cell = lemma_square_rows_cell(g, xc, yc, r, m, k);
        assert forall|h: Seq<Seq<EntityRef>>, t: EntityType|
            #![trigger square_rows(h, t, xc, yc, r, n)]
            0 <= k < square_rows(h, t, xc, yc, r, n).len()
                && square_rows(h, t, xc, yc, r, n)[k] == cell_senses(h, t, cell.0, cell.1) by {
            lemma_square_rows_len(h, t, xc, yc, r, n);
            assert(square_rows(h, t, xc, yc, r, m).len() > k);
        }
        cell
    } else {
        let j = k - len_m;
        let cell = if y == yc && j >= r { (xc - r + j + 1, y) } else { (xc - r + j, y) };
        let w = 2 * r + 1;
        let jj = if k < r * w + r { k } else { k + 1 };
        let col = cell.0 - (xc - r);
        assert(len_m == m * w - (if m > r { 1int } else { 0int }));
        lemma_square_rows_len(g, EntityType::Empty, xc, yc, r, n);
        assert(k < n * w - (if n > r { 1int } else { 0int }));
        assert(n * w == m * w + w) by (nonlinear_arith)
            requires
                n == m + 1,
        ;
        if m < r {
            assert(m * w + w <= r * w) by (nonlinear_arith)
                requires
                    m < r,
                    w > 0,
            ;
        } else if m > r {
            assert(m * w >= r * w + w) by (nonlinear_arith)
                requires
                    m > r,
                    w > 0,
            ;
        } else {
            assert(m * w == r * w);
        }
        assert(jj == m * w + col && 0 <= col < w);
        lemma_fundamental_div_mod_converse(jj, w, m as int, col);
        assert forall|h: Seq<Seq<EntityRef>>, t: EntityType|
            #![trigger square_rows(h, t, xc, yc, r, n)]
            0 <= k < square_rows(h, t, xc, yc, r, n).len()
                && square_rows(h, t, xc, yc, r, n)[k] == cell_senses(h, t, cell.0, cell.1) by {
            lemma_square_rows_len(h, t, xc, yc, r, n);
            lemma_square_rows_len(h, t, xc, yc, r, m);
            assert(square_rows(h, t, xc, yc, r, n) == square_rows(h, t, xc, yc, r, m)
                + row_prefix(h, t, xc, yc, r, y, 2 * r + 1));
            let cells = Seq::new((2 * r + 1) as nat, |i: int| cell_senses(h, t, xc - r + i, y));
            if y == yc {
                assert(row_prefix(h, t, xc, yc, r, y, 2 * r + 1) == cells.remove(r));
            }
        }
        cell
    }
}

/// What an animal at `(x_center, y_center)` with radius `sense_radius`
/// perceives of the kind `input_type`: one entry per cell of the square
/// around it, row by row and without its own cell; the entry is true when
/// the cell is a wall (kind `Empty`) or holds an entity of that kind.
pub fn generate_partial_input(
    entities: &Vec<Vec<EntityRef>>,
    sense_radius: usize,
    x_center: i32,
    y_center: i32,
    input_type: EntityType,
) -> (ret: Vec<bool>)
    requires
        sensing_args_ok(grid_view(entities), sense_radius, x_center, y_center),
    ensures
        ret@ == partial_input_spec(grid_view(entities), sense_radius as int, x_center as int, y_center as int, input_type),
        ret@.len() == (2 * sense_radius + 1) * (2 * sense_radius + 1) - 1,
{
    let ghost g = grid_view(entities);
    let ghost r = sense_radius as int;
    let side: usize = sense_radius * 2 + 1;
    assert(side * side >= 1) by (nonlinear_arith)
        requires
            side >= 1,
    ;
    let mut ret: Vec<bool> = Vec::with_capacity(side * side - 1);
    let radius: i32 = sense_radius as i32;
    let y_start: i32 = y_center - radius;
    let y_end: i32 = y_center + 1 + radius;
    let x_start: i32 = x_center - radius;
    let x_end: i32 = x_center + 1 + radius;
    let mut y: i32 = y_start;
    while y < y_end
        invariant
            g == grid_view(entities),
            r == sense_radius as int,
            radius == r,
            sensing_args_ok(g, sense_radius, x_center, y_center),
            y_start == y_center - r,
            y_end == y_center + 1 + r,
            x_start == x_center - r,
            x_end == x_center + 1 + r,
            y_start <= y <= y_end,
            ret@ == square_rows(g, input_type, x_center as int, y_center as int, r, (y - y_start) as nat),
        decreases y_end - y,
    {
        let ghost before = ret@;
        let mut x: i32 = x_start;
        while x < x_end
            invariant
                g == grid_view(entities),
                r == sense_radius as int,
                sensing_args_ok(g, sense_radius, x_center, y_center),
                y_start == y_center - r,
                x_start == x_center - r,
                x_end == x_center + 1 + r,
                y_start <= y < y_end,
                x_start <= x <= x_end,
                ret@ == before + row_prefix(g, input_type, x_center as int, y_center as int, r, y as int, (x - x_start) as int),
            decreases x_end - x,
        {
            if x == x_center && y == y_center {
                proof {
                    lemma_row_prefix_center(g, input_type, x_center as int, y_center as int, r);
                }
                x = x + 1;
                continue;
            }
            let mut input_val: bool = false;
            if x < 0 || y < 0 || y >= entities.len() as i32 || x >= entities[0].len() as i32 {
                if input_type == EntityType::Empty {
                    input_val = true;
                }
            } else {
                assert(g[y as int].len() >= g[0].len());
                let cell = entities[y as usize][x as usize];
                match input_type {
                    EntityType::Herbivore => {
                        if let EntityRef::Herbivore(_) = cell {
                            input_val = true;
                        }
                    },
                    EntityType::Carnivore => {
                        if let EntityRef::Carnivore(_) = cell {
                            input_val = true;
                        }
                    },
                    EntityType::Grass => {
                        if let EntityRef::Grass = cell {
                            input_val = true;
                        }
                    },
                    EntityType::Empty => {},
                }
            }
            proof {
                assert(input_val == cell_senses(g, input_type, x as int, y as int));
                lemma_row_prefix_step(g, input_type, x_center as int, y_center as int, r, y as int, (x - x_start) as int);
            }
            ret.push(input_val);
            x = x + 1;
        }
        y = y + 1;
    }
    proof {
        lemma_square_rows_len(g, input_type, x_center as int, y_center as int, r, (2 * r + 1) as nat);
    }
    ret
}

/// The full sensing vector of an animal at `(x_center, y_center)`: what it
/// perceives of walls, of carnivores, of herbivores and of grass, in that
/// order. The radius must be at least 1 (a radius of 0 leaves nothing to
/// perceive, and the vector's reserved size would underflow).
pub fn generate_input(entities: &Vec<Vec<EntityRef>>, sense_radius: usize, x_center: i32, y_center: i32) -> (ret: Vec<bool>)
    requires
        sensing_args_ok(grid_view(entities), sense_radius, x_center, y_center),
        sense_radius >= 1,
        ((sense_radius * 2 + 1) * (sense_radius * 2 + 1) - 1) * 4 <= usize::MAX,
    ensures
        ret@ == input_spec(grid_view(entities), sense_radius as int, x_center as int, y_center as int),
        ret@.len() == 4 * ((2 * sense_radius + 1) * (2 * sense_radius + 1) - 1),
{
    let side: usize = sense_radius * 2 + 1;
    assert(side * side >= 9) by (nonlinear_arith)
        requires
            side >= 3,
    ;
    let mut ret: Vec<bool> = Vec::with_capacity((side * side - 1) * 4 - 4);
    let mut walls = generate_partial_input(entities, sense_radius, x_center, y_center, EntityType::Empty);
    let mut carnivores = generate_partial_input(entities, sense_radius, x_center, y_center, EntityType::Carnivore);
    let mut herbivores = generate_partial_input(entities, sense_radius, x_center, y_center, EntityType::Herbivore);
    let mut grass = generate_partial_input(entities, sense_radius, x_center, y_center, EntityType::Grass);
    ret.append(&mut walls);
    ret.append(&mut carnivores);
    ret.append(&mut herbivores);
    ret.append(&mut grass);
    ret
}

} // verus!
