use vstd::prelude::*;
use crate::entity::{Action, EntityRef, EntityType};
use crate::animal::energy_after;
use crate::map::{WorldView, row_text, grid_text, promote};
use crate::counting::{count_some, lemma_count_some_update, lemma_count_some_positive};
use crate::carnivore::Carnivore;
use crate::herbivore::Herbivore;
use crate::record::{RecordingView, carnivore_record, herbivore_record, grass_in_row, grass_positions};
use crate::sensing::{cell_senses, on_grid, partial_input_spec, lemma_square_rows_cell, lemma_square_rows_len, square_cell};
use crate::counting::{count_grass, count_grass_row};

verus! {

/// An animal's energy never drops below 0, and changes by exactly the
/// amount added as long as it stays at or above 0.
pub proof fn law_energy_never_negative(energy: i32, delta: int)
    requires
        energy + delta <= i32::MAX,
    ensures
        energy_after(energy, delta) >= 0,
        energy + delta >= 0 ==> energy_after(energy, delta) == energy + delta,
{
}

/// A walk that succeeds puts the animal on the target cell with its position
/// updated, frees the source cell, and keeps every population count.
pub proof fn law_move_relocates(v: WorldView, fx: int, fy: int, tx: int, ty: int)
    requires
        v.wf(),
        v.in_grid(fx, fy),
        v.can_move(fx, fy, tx, ty),
    ensures
        ({
            let w = v.after_move(fx, fy, tx, ty);
            &&& w.animals[ty][tx] == v.animals[fy][fx]
            &&& w.animals[fy][fx] == EntityRef::Empty
            &&& w.carnivore_count == v.carnivore_count
            &&& w.herbivore_count == v.herbivore_count
            &&& w.grass_count == v.grass_count
            &&& w.plants == v.plants
            &&& match v.animals[fy][fx] {
                EntityRef::Carnivore(id) => w.carnivore_at(id as int, tx, ty),
                EntityRef::Herbivore(id) => w.herbivore_at(id as int, tx, ty),
                _ => false,
            }
        }),
{
    assert(v.animal_cell_ok(fx, fy));
}

/// Walking back undoes a walk: moving an animal from `f` to `t` and then from
/// `t` back to `f` gives the map it started from.
pub proof fn law_move_back_undoes(v: WorldView, fx: int, fy: int, tx: int, ty: int)
    requires
        v.wf(),
        v.in_grid(fx, fy),
        v.can_move(fx, fy, tx, ty),
    ensures
        v.after_move(fx, fy, tx, ty).can_move(tx, ty, fx, fy),
        v.after_move(fx, fy, tx, ty).after_move(tx, ty, fx, fy) == v,
{
    let w = v.after_move(fx, fy, tx, ty);
    let u = w.after_move(tx, ty, fx, fy);
    assert(v.animal_cell_ok(fx, fy));
    assert(u.animals =~= v.animals) by {
        assert(u.animals[fy] =~= v.animals[fy]);
        assert(u.animals[ty] =~= v.animals[ty]);
    }
    match v.animals[fy][fx] {
        EntityRef::Carnivore(id) => {
            assert(u.carnivores =~= v.carnivores);
        },
        EntityRef::Herbivore(id) => {
            assert(u.herbivores =~= v.herbivores);
        },
        _ => {},
    }
}

/// An action other than a walk (resting or eating) never moves anything.
pub proof fn law_non_walk_keeps_map(v: WorldView, x: int, y: int, action: Action)
    requires
        action == Action::Idle || action == Action::Eat,
    ensures
        v.other_action_spec(x, y, action) == (v, false),
{
}

/// A death removes exactly one animal of its kind: it leaves its cell and
/// its list, and its kind's counter drops by one; it joins the best animals
/// exactly when its kind's population was at or below the number kept.
pub proof fn law_kill_removes_one(v: WorldView, x: int, y: int)
    requires
        v.wf(),
        v.in_grid(x, y),
        v.animals[y][x] is Herbivore || v.animals[y][x] is Carnivore,
    ensures
        ({
            let w = v.after_kill(x, y);
            &&& w.animals[y][x] == EntityRef::Empty
            &&& match v.animals[y][x] {
                EntityRef::Herbivore(id) => {
                    &&& w.herbivores[id as int] is None
                    &&& w.herbivore_count == v.herbivore_count - 1
                    &&& count_some(w.herbivores) == count_some(v.herbivores) - 1
                    &&& w.carnivore_count == v.carnivore_count
                    &&& w.best_herbivores == if v.herbivore_count <= v.generation_config.best_herbivore_count {
                        v.best_herbivores.push(v.herbivores[id as int]->0)
                    } else {
                        v.best_herbivores
                    }
                },
                EntityRef::Carnivore(id) => {
                    &&& w.carnivores[id as int] is None
                    &&& w.carnivore_count == v.carnivore_count - 1
                    &&& count_some(w.carnivores) == count_some(v.carnivores) - 1
                    &&& w.herbivore_count == v.herbivore_count
                    &&& w.best_carnivores == if v.carnivore_count <= v.generation_config.best_carnivore_count {
                        v.best_carnivores.push(v.carnivores[id as int]->0)
                    } else {
                        v.best_carnivores
                    }
                },
                _ => false,
            }
        }),
{
    assert(v.animal_cell_ok(x, y));
    match v.animals[y][x] {
        EntityRef::Herbivore(id) => {
            lemma_count_some_positive(v.herbivores, id as int);
            lemma_count_some_update(v.herbivores, id as int, None);
        },
        EntityRef::Carnivore(id) => {
            lemma_count_some_positive(v.carnivores, id as int);
            lemma_count_some_update(v.carnivores, id as int, None);
        },
        _ => {},
    }
}

/// An animal finds food exactly when food of its kind lies within two cells
/// of it (on the grid, not its own cell); it never eats anything else.
pub proof fn law_eats_iff_food_in_reach(v: WorldView, x_in: int, y_in: int, t: EntityType)
    ensures
        v.eat_spec(x_in, y_in, t).1 <==> exists|x: int, y: int| v.eat_candidate(x_in, y_in, t, x, y),
        v.eat_spec(x_in, y_in, t).1 ==> {
            let (x, y) = v.eat_choice(x_in, y_in, t)->0;
            &&& v.eat_candidate(x_in, y_in, t, x, y)
            &&& !(x == x_in && y == y_in)
            &&& x_in - 2 <= x <= x_in + 2
            &&& y_in - 2 <= y <= y_in + 2
        },
{
    if exists|x: int, y: int| v.eat_candidate(x_in, y_in, t, x, y) {
        let (x0, y0) = choose|x: int, y: int| v.eat_candidate(x_in, y_in, t, x, y);
        let (wx, wy) = lemma_first_candidate_exists(v, x_in, y_in, t, x0, y0);
        assert(v.first_candidate(x_in, y_in, t, wx, wy));
    }
    if v.eat_spec(x_in, y_in, t).1 {
        let (x, y) = v.eat_choice(x_in, y_in, t)->0;
        assert(v.first_candidate(x_in, y_in, t, x, y));
    }
}

/// Where a candidate exists, a first one (in row-major order) exists.
proof fn lemma_first_candidate_exists(v: WorldView, x_in: int, y_in: int, t: EntityType, x0: int, y0: int) -> (r: (int, int))
    requires
        v.eat_candidate(x_in, y_in, t, x0, y0),
    ensures
        v.first_candidate(x_in, y_in, t, r.0, r.1),
    decreases y0 - (y_in - 2), x0 - (x_in - 2),
{
    if exists|xx: int, yy: int| (yy < y0 || (yy == y0 && xx < x0)) && #[trigger] v.eat_candidate(x_in, y_in, t, xx, yy) {
        let (x1, y1) = choose|xx: int, yy: int| (yy < y0 || (yy == y0 && xx < x0)) && #[trigger] v.eat_candidate(x_in, y_in, t, xx, yy);
        lemma_first_candidate_exists(v, x_in, y_in, t, x1, y1)
    } else {
        (x0, y0)
    }
}

/// Eating grass removes exactly that grass: one grass cell fewer and no
/// animal touched.
pub proof fn law_grass_eaten_once(v: WorldView, x: int, y: int)
    requires
        v.wf(),
        v.in_grid(x, y),
        v.plants[y][x] == EntityRef::Grass,
    ensures
        ({
            let w = v.after_eating(x, y, EntityType::Grass);
            &&& w.plants[y][x] == EntityRef::Empty
            &&& w.grass_count == v.grass_count - 1
            &&& w.animals == v.animals
            &&& w.carnivores == v.carnivores
            &&& w.herbivores == v.herbivores
        }),
{
    crate::counting::lemma_count_grass_positive(v.plants, x, y);
}

/// Checking for the end of a generation twice is the same as checking once:
/// the end, once reached, stays reached and is counted once.
pub proof fn law_generation_check_idempotent(v: WorldView)
    ensures
        v.after_generation_check().after_generation_check() == v.after_generation_check(),
        v.generation_over ==> v.after_generation_check() == v,
{
}

/// Recording a tick appends exactly one record, the animal's present state,
/// to the list of every living animal, and nothing to the others.
pub proof fn law_record_once_per_living_animal(
    r: RecordingView,
    carnivores: Seq<Option<Carnivore>>,
    herbivores: Seq<Option<Herbivore>>,
    i: int,
)
    requires
        0 <= i < carnivores.len() <= r.carnivore_records.len(),
        0 <= i < herbivores.len() <= r.herbivore_records.len(),
    ensures
        ({
            let w = r.after_tick(carnivores, herbivores);
            &&& w.carnivore_records.len() == r.carnivore_records.len()
            &&& w.herbivore_records.len() == r.herbivore_records.len()
            &&& match carnivores[i] {
                Some(c) => w.carnivore_records[i] == r.carnivore_records[i].push(carnivore_record(c)),
                None => w.carnivore_records[i] == r.carnivore_records[i],
            }
            &&& match herbivores[i] {
                Some(h) => w.herbivore_records[i] == r.herbivore_records[i].push(herbivore_record(h)),
                None => w.herbivore_records[i] == r.herbivore_records[i],
            }
        }),
{
}

/// Off the grid an animal senses walls and nothing else.
pub proof fn law_off_grid_is_wall(g: Seq<Seq<EntityRef>>, t: EntityType, x: int, y: int)
    requires
        !on_grid(g, x, y),
    ensures
        cell_senses(g, t, x, y) <==> t == EntityType::Empty,
{
}

/// Placing never overwrites: on an occupied cell nothing changes, and on a
/// free cell the new entity is the only change to that cell's layer.
pub proof fn law_place_never_overwrites(v: WorldView, t: EntityType, x: int, y: int, parent: Option<usize>)
    requires
        v.wf(),
        v.in_grid(x, y),
    ensures
        !v.cell_free_for(t, x, y) ==> v.place_spec(t, x, y, parent) == (v, false),
        v.cell_free_for(t, x, y) && t == EntityType::Grass ==> v.place_spec(t, x, y, parent).0.plants[y][x] == EntityRef::Grass,
        v.cell_free_for(t, x, y) && t == EntityType::Herbivore
            ==> v.place_spec(t, x, y, parent).0.animals[y][x] == EntityRef::Herbivore(v.herbivores.len() as usize),
        v.cell_free_for(t, x, y) && t == EntityType::Carnivore
            ==> v.place_spec(t, x, y, parent).0.animals[y][x] == EntityRef::Carnivore(v.carnivores.len() as usize),
{
    assert(v.animals[y].len() == v.size_x);
    assert(v.plants[y].len() == v.size_x);
}

/// The four sensing vectors read the same cells: entry `k` of each reads
/// the `k`-th cell of the square of radius `r` around `(xc, yc)` in reading
/// order (rows top to bottom, each left to right, the centre skipped). The
/// wall vector sees it exactly when it is off the grid; the carnivore,
/// herbivore and grass vectors exactly when it is on the grid and holds one
/// of their kind. So at most one vector sees a cell, and one does exactly
/// when it is off the grid or holds an entity.
pub proof fn law_sensing_kinds_exclusive(g: Seq<Seq<EntityRef>>, r: int, xc: int, yc: int, k: int)
    requires
        0 <= r,
        0 <= k < (2 * r + 1) * (2 * r + 1) - 1,
    ensures
        ({
            let (x, y) = square_cell(xc, yc, r, k);
            let on = 0 <= y < g.len() && 0 <= x < g[0].len();
            let w = partial_input_spec(g, r, xc, yc, EntityType::Empty)[k];
            let c = partial_input_spec(g, r, xc, yc, EntityType::Carnivore)[k];
            let h = partial_input_spec(g, r, xc, yc, EntityType::Herbivore)[k];
            let s = partial_input_spec(g, r, xc, yc, EntityType::Grass)[k];
            &&& partial_input_spec(g, r, xc, yc, EntityType::Empty).len() == (2 * r + 1) * (2 * r + 1) - 1
            &&& xc - r <= x <= xc + r
            &&& yc - r <= y <= yc + r
            &&& (x, y) != (xc, yc)
            &&& w == !on
            &&& c == (on && g[y][x] is Carnivore)
            &&& h == (on && g[y][x] is Herbivore)
            &&& s == (on && g[y][x] == EntityRef::Grass)
            &&& !(w && c) && !(w && h) && !(w && s) && !(c && h) && !(c && s) && !(h && s)
            &&& ((w || c || h || s) <==> (!on || g[y][x] != EntityRef::Empty))
        }),
{
    let n = (2 * r + 1) as nat;
    lemma_square_rows_len(g, EntityType::Empty, xc, yc, r, n);
    let (x, y) = lemma_square_rows_cell(g, xc, yc, r, n, k);
    assert(partial_input_spec(g, r, xc, yc, EntityType::Empty)[k] == cell_senses(g, EntityType::Empty, x, y));
    assert(partial_input_spec(g, r, xc, yc, EntityType::Carnivore)[k] == cell_senses(g, EntityType::Carnivore, x, y));
    assert(partial_input_spec(g, r, xc, yc, EntityType::Herbivore)[k] == cell_senses(g, EntityType::Herbivore, x, y));
    assert(partial_input_spec(g, r, xc, yc, EntityType::Grass)[k] == cell_senses(g, EntityType::Grass, x, y));
    if on_grid(g, x, y) {
        assert(g[y][x] != EntityRef::Empty || g[y][x] == EntityRef::Empty);
    }
}

/// Each end of a generation is counted once: whether or not the end was
/// already checked (any number of times), breeding the next generation
/// leaves the counter one above where the running generation started.
pub proof fn law_generation_counted_once(v: WorldView)
    requires
        !v.generation_over,
        v.generation < usize::MAX,
    ensures
        v.generation_after_breeding() == v.generation + 1,
        v.after_generation_check().generation_after_breeding() == v.generation + 1,
        v.after_generation_check().after_generation_check().generation_after_breeding() == v.generation + 1,
{
}

/// On a map of one cell, a freshly spawned carnivore stands on that cell,
/// and freshly spawned grass grows there.
pub proof fn law_single_cell_population(
    v: WorldView,
    best_c: Seq<Carnivore>,
    best_h: Seq<Herbivore>,
    from_best: bool,
)
    requires
        v.wf(),
        v.size_x == 1,
        v.size_y == 1,
        v.freshly_spawned(best_c, best_h, from_best),
    ensures
        v.carnivore_start_count > 0 ==> {
            &&& v.carnivores[0] is Some
            &&& v.carnivores[0]->0.pos_x == 0
            &&& v.carnivores[0]->0.pos_y == 0
            &&& v.animals[0][0] == EntityRef::Carnivore(0)
        },
        v.grass_start_count > 0 ==> v.plants[0][0] == EntityRef::Grass,
{
    if v.carnivore_start_count > 0 {
        assert(v.carnivores[0] is Some);
        assert(v.carnivore_ok(0));
    }
    if v.grass_start_count > 0 {
        let g = v.plants;
        assert(g.drop_last().len() == 0);
        assert(count_grass(g.drop_last()) == 0);
        let row = g[0];
        assert(row.len() == 1);
        assert(count_grass_row(row.drop_last()) == 0);
        assert(count_grass(g) == count_grass_row(row));
    }
}

/// An animal's sensing vector is four parts of one entry per cell of the
/// square of the map's sensing radius around it, read row by row with its
/// own cell skipped: entry `k` of every part reads the `k`-th such cell, and
/// the parts say, in order, whether that cell is off the map, holds a
/// carnivore, holds a herbivore, or grows grass.
pub proof fn law_input_reads_each_cell(v: WorldView, xc: int, yc: int, k: int)
    requires
        v.wf(),
        0 <= k < (2 * v.sense_radius + 1) * (2 * v.sense_radius + 1) - 1,
    ensures
        ({
            let r = v.sense_radius as int;
            let m = (2 * r + 1) * (2 * r + 1) - 1;
            let (x, y) = square_cell(xc, yc, r, k);
            let inp = v.input(xc, yc);
            let on = 0 <= x < v.size_x && 0 <= y < v.size_y;
            &&& inp.len() == 4 * m
            &&& xc - r <= x <= xc + r
            &&& yc - r <= y <= yc + r
            &&& (x, y) != (xc, yc)
            &&& inp[k] == !on
            &&& inp[m + k] == (on && v.animals[y][x] is Carnivore)
            &&& inp[2 * m + k] == (on && v.animals[y][x] is Herbivore)
            &&& inp[3 * m + k] == (on && v.plants[y][x] == EntityRef::Grass)
        }),
{
    let r = v.sense_radius as int;
    let n = (2 * r + 1) as nat;
    let m = (2 * r + 1) * (2 * r + 1) - 1;
    let a = v.animals;
    let p = v.plants;
    lemma_square_rows_len(a, EntityType::Empty, xc, yc, r, n);
    lemma_square_rows_len(a, EntityType::Carnivore, xc, yc, r, n);
    lemma_square_rows_len(a, EntityType::Herbivore, xc, yc, r, n);
    lemma_square_rows_len(p, EntityType::Grass, xc, yc, r, n);
    let (x, y) = lemma_square_rows_cell(a, xc, yc, r, n, k);
    let pw = v.partial_input(xc, yc, EntityType::Empty);
    let pc = v.partial_input(xc, yc, EntityType::Carnivore);
    let ph = v.partial_input(xc, yc, EntityType::Herbivore);
    let pg = v.partial_input(xc, yc, EntityType::Grass);
    assert(pw == partial_input_spec(a, r, xc, yc, EntityType::Empty));
    assert(pg == partial_input_spec(p, r, xc, yc, EntityType::Grass));
    assert(pw.len() == m && pc.len() == m && ph.len() == m && pg.len() == m);
    assert(pw[k] == cell_senses(a, EntityType::Empty, x, y));
    assert(pc[k] == cell_senses(a, EntityType::Carnivore, x, y));
    assert(ph[k] == cell_senses(a, EntityType::Herbivore, x, y));
    assert(pg[k] == cell_senses(p, EntityType::Grass, x, y));
    let on = 0 <= x < v.size_x && 0 <= y < v.size_y;
    if v.size_y > 0 {
        assert(a[0].len() == v.size_x && p[0].len() == v.size_x);
    }
    assert(on_grid(a, x, y) == on);
    assert(on_grid(p, x, y) == on);
    let inp = v.input(xc, yc);
    assert(inp == pw + pc + ph + pg);
    assert(inp[k] == pw[k]);
    assert(inp[m + k] == pc[k]);
    assert(inp[2 * m + k] == ph[k]);
    assert(inp[3 * m + k] == pg[k]);
}

/// Food of kind `t` that an animal at `(x_in, y_in)` can reach at `(x, y)`:
/// a cell of the map at most two cells away in each direction, other than
/// the animal's own, holding a herbivore (for `t` herbivore) or grass (for
/// `t` grass).
pub open spec fn food_within_two(v: WorldView, x_in: int, y_in: int, t: EntityType, x: int, y: int) -> bool {
    &&& 0 <= x < v.size_x
    &&& 0 <= y < v.size_y
    &&& x_in - 2 <= x <= x_in + 2
    &&& y_in - 2 <= y <= y_in + 2
    &&& !(x == x_in && y == y_in)
    &&& {
        ||| t == EntityType::Herbivore && v.animals[y][x] is Herbivore
        ||| t == EntityType::Grass && v.plants[y][x] == EntityRef::Grass
    }
}

/// An animal eats exactly when food of its kind lies on the map within two
/// cells of it. It then eats the first such food in reading order (top row
/// first, left to right): that cell is emptied and the count of its kind
/// drops by one. Finding nothing changes nothing.
pub proof fn law_eats_first_food_within_two(v: WorldView, x_in: int, y_in: int, t: EntityType)
    ensures
        ({
            let (w, ate) = v.eat_spec(x_in, y_in, t);
            &&& ate <==> exists|x: int, y: int| food_within_two(v, x_in, y_in, t, x, y)
            &&& !ate ==> w == v
        }),
        v.eat_spec(x_in, y_in, t).1 ==> {
            let w = v.eat_spec(x_in, y_in, t).0;
            let (x, y) = v.eat_choice(x_in, y_in, t)->0;
            &&& food_within_two(v, x_in, y_in, t, x, y)
            &&& forall|xx: int, yy: int| (yy < y || (yy == y && xx < x))
                ==> !#[trigger] food_within_two(v, x_in, y_in, t, xx, yy)
            &&& v.wf() && t == EntityType::Herbivore ==> {
                &&& w.animals[y][x] == EntityRef::Empty
                &&& w.herbivore_count == v.herbivore_count - 1
                &&& w.carnivores == v.carnivores
            }
            &&& v.wf() && t == EntityType::Grass ==> {
                &&& w.plants[y][x] == EntityRef::Empty
                &&& w.grass_count == v.grass_count - 1
                &&& w.animals == v.animals
                &&& v.record && v.current_record is Some ==> w.current_record == Some(RecordingView {
                    dead_grass: v.current_record->0.dead_grass.push((v.tick, x as usize, y as usize)),
                    ..v.current_record->0
                })
            }
        },
{
    assert forall|x: int, y: int|
        #[trigger] v.eat_candidate(x_in, y_in, t, x, y) == food_within_two(v, x_in, y_in, t, x, y) by {}
    law_eats_iff_food_in_reach(v, x_in, y_in, t);
    if exists|x: int, y: int| food_within_two(v, x_in, y_in, t, x, y) {
        let (x, y) = choose|x: int, y: int| food_within_two(v, x_in, y_in, t, x, y);
        assert(v.eat_candidate(x_in, y_in, t, x, y));
    }
    if exists|x: int, y: int| v.eat_candidate(x_in, y_in, t, x, y) {
        let (x, y) = choose|x: int, y: int| v.eat_candidate(x_in, y_in, t, x, y);
        assert(food_within_two(v, x_in, y_in, t, x, y));
    }
    if v.eat_spec(x_in, y_in, t).1 {
        let (x, y) = v.eat_choice(x_in, y_in, t)->0;
        assert(v.first_candidate(x_in, y_in, t, x, y));
        assert forall|xx: int, yy: int| (yy < y || (yy == y && xx < x))
            implies !#[trigger] food_within_two(v, x_in, y_in, t, xx, yy) by {
            assert(!v.eat_candidate(x_in, y_in, t, xx, yy));
        }
        if v.wf() && t == EntityType::Herbivore {
            law_kill_removes_one(v, x, y);
        }
        if v.wf() && t == EntityType::Grass {
            law_grass_eaten_once(v, x, y);
        }
    }
}

/// When checking ends a generation. With `c`, `h` and `g` meaning that the
/// carnivores, herbivores and grass are at or below their configured
/// thresholds (a negative threshold is never reached), and the tick limit
/// reached when a non-negative limit is and the tick is at or past it:
/// a generation already over stays over; reaching the tick limit ends it;
/// in "all" mode it ends when all of `c`, `h`, `g` hold, in "any" mode when
/// one of them does; and otherwise it goes on. The generation counter
/// advances exactly when a generation that was running ends, and nothing
/// else changes.
pub proof fn law_generation_end_rules(v: WorldView)
    ensures
        ({
            let cfg = v.generation_config;
            let c = cfg.carnivore_count >= 0 && (v.carnivore_count as i32) <= cfg.carnivore_count;
            let h = cfg.herbivore_count >= 0 && (v.herbivore_count as i32) <= cfg.herbivore_count;
            let g = cfg.grass_count >= 0 && (v.grass_count as i32) <= cfg.grass_count;
            let ticks = cfg.max_ticks_per_generation >= 0 && v.tick >= cfg.max_ticks_per_generation;
            let all = cfg.all_entities_must_be_under_min_levels;
            let w = v.after_generation_check();
            &&& v.generation_over ==> w.generation_over
            &&& ticks ==> w.generation_over
            &&& all && c && h && g ==> w.generation_over
            &&& !all && c ==> w.generation_over
            &&& !all && h ==> w.generation_over
            &&& !all && g ==> w.generation_over
            &&& !v.generation_over && !ticks && all && !(c && h && g) ==> !w.generation_over
            &&& !v.generation_over && !ticks && !all && !c && !h && !g ==> !w.generation_over
            &&& w.generation_over == v.generation_ends()
            &&& !v.generation_over && w.generation_over && v.generation < usize::MAX
                ==> w.generation == v.generation + 1
            &&& !(!v.generation_over && w.generation_over) ==> w.generation == v.generation
            &&& w == (WorldView { generation_over: w.generation_over, generation: w.generation, ..v })
        }),
{
}

/// A carnivore's eating step, when it is alive and chose to eat: with a
/// herbivore on the map within two cells of it, one herbivore is eaten (the
/// herbivore count drops by one) and the carnivore gains 100 energy. With
/// none in reach, no herbivore is touched and the carnivore loses 1 energy,
/// dying (leaving its list, its cell and the count) once that leaves it at
/// 0 or below.
pub proof fn law_carnivore_meal(v: WorldView, i: int)
    requires
        v.wf(),
        0 <= i < v.carnivores.len(),
        v.carnivores[i] is Some,
        v.carnivores[i]->0.action == Action::Eat,
        i32::MIN + 1 <= v.carnivores[i]->0.energy <= i32::MAX - 100,
    ensures
        ({
            let c = v.carnivores[i]->0;
            let w = v.carnivore_eat_step(i);
            let near = exists|x: int, y: int|
                food_within_two(v, c.pos_x as int, c.pos_y as int, EntityType::Herbivore, x, y);
            &&& near ==> w.herbivore_count == v.herbivore_count - 1
            &&& near && c.energy + 100 > 0 ==> w.carnivores[i] == Some(Carnivore { energy: (c.energy + 100) as i32, ..c })
            &&& !near ==> w.herbivores == v.herbivores && w.herbivore_count == v.herbivore_count
            &&& !near && c.energy - 1 > 0 ==> w.carnivores[i] == Some(Carnivore { energy: (c.energy - 1) as i32, ..c })
            &&& !near && c.energy - 1 <= 0 ==> {
                &&& w.carnivores[i] is None
                &&& w.carnivore_count == v.carnivore_count - 1
                &&& w.animals[c.pos_y as int][c.pos_x as int] == EntityRef::Empty
            }
        }),
{
    let c = v.carnivores[i]->0;
    let px = c.pos_x as int;
    let py = c.pos_y as int;
    assert(v.carnivore_ok(i));
    law_eats_first_food_within_two(v, px, py, EntityType::Herbivore);
    let (v1, ate) = v.eat_spec(px, py, EntityType::Herbivore);
    let e = energy_after(c.energy, if ate { 100 } else { -1 });
    let v2 = v1.with_carnivore(i, Carnivore { energy: e, ..c });
    if ate {
        let (x, y) = v.eat_choice(px, py, EntityType::Herbivore)->0;
        assert(v.animal_cell_ok(x, y));
        assert(v1 == v.after_kill(x, y));
        assert(v1.animals[py][px] == v.animals[py][px]);
        assert(v2.animals[py][px] == EntityRef::Carnivore(i as usize));
    } else {
        assert(v1 == v);
        if e <= 0 {
            lemma_count_some_positive(v.carnivores, i);
            assert(v2.animals[py][px] == EntityRef::Carnivore(i as usize));
        }
    }
}

/// A herbivore's eating step, when it is alive and chose to eat: with grass
/// on the map within two cells of it, one grass is eaten (the grass count
/// drops by one) and the herbivore gains 100 energy. With none in reach, no
/// plant is touched and the herbivore loses 1 energy, dying (leaving its
/// list, its cell and the count) once that leaves it at 0 or below.
pub proof fn law_herbivore_meal(v: WorldView, i: int)
    requires
        v.wf(),
        0 <= i < v.herbivores.len(),
        v.herbivores[i] is Some,
        v.herbivores[i]->0.action == Action::Eat,
        i32::MIN + 1 <= v.herbivores[i]->0.energy <= i32::MAX - 100,
    ensures
        ({
            let h = v.herbivores[i]->0;
            let w = v.herbivore_eat_step(i);
            let near = exists|x: int, y: int|
                food_within_two(v, h.pos_x as int, h.pos_y as int, EntityType::Grass, x, y);
            &&& near ==> w.grass_count == v.grass_count - 1
            &&& near && h.energy + 100 > 0 ==> w.herbivores[i] == Some(Herbivore { energy: (h.energy + 100) as i32, ..h })
            &&& !near ==> w.plants == v.plants && w.grass_count == v.grass_count
            &&& !near && h.energy - 1 > 0 ==> w.herbivores[i] == Some(Herbivore { energy: (h.energy - 1) as i32, ..h })
            &&& !near && h.energy - 1 <= 0 ==> {
                &&& w.herbivores[i] is None
                &&& w.herbivore_count == v.herbivore_count - 1
                &&& w.animals[h.pos_y as int][h.pos_x as int] == EntityRef::Empty
            }
        }),
{
    let h = v.herbivores[i]->0;
    let px = h.pos_x as int;
    let py = h.pos_y as int;
    assert(v.herbivore_ok(i));
    law_eats_first_food_within_two(v, px, py, EntityType::Grass);
    let (v1, ate) = v.eat_spec(px, py, EntityType::Grass);
    let e = energy_after(h.energy, if ate { 100 } else { -1 });
    let v2 = v1.with_herbivore(i, Herbivore { energy: e, ..h });
    if ate {
        assert(v2.animals[py][px] == EntityRef::Herbivore(i as usize));
    } else {
        assert(v1 == v);
        if e <= 0 {
            lemma_count_some_positive(v.herbivores, i);
            assert(v2.animals[py][px] == EntityRef::Herbivore(i as usize));
        }
    }
}

/// The grass positions listed for row `y` are exactly its grass cells, left
/// to right, one entry per grass cell.
proof fn lemma_grass_in_row(row: Seq<EntityRef>, y: int)
    requires
        0 <= y <= usize::MAX,
        row.len() <= usize::MAX + 1,
    ensures
        grass_in_row(row, y).len() == count_grass_row(row),
        forall|i: int| 0 <= i < grass_in_row(row, y).len() ==> {
            let q = #[trigger] grass_in_row(row, y)[i];
            &&& q.1 == y
            &&& q.0 < row.len()
            &&& row[q.0 as int] == EntityRef::Grass
        },
        forall|i: int, j: int| 0 <= i < j < grass_in_row(row, y).len()
            ==> (#[trigger] grass_in_row(row, y)[i]).0 < (#[trigger] grass_in_row(row, y)[j]).0,
        forall|x: int| 0 <= x < row.len() && #[trigger] row[x] == EntityRef::Grass
            ==> grass_in_row(row, y).contains((x as usize, y as usize)),
    decreases row.len(),
{
    if row.len() > 0 {
        let r0 = row.drop_last();
        lemma_grass_in_row(r0, y);
        let p0 = grass_in_row(r0, y);
        let p = grass_in_row(row, y);
        let last = row.len() - 1;
        let tail = if row.last() == EntityRef::Grass {
            seq![(last as usize, y as usize)]
        } else {
            Seq::<(usize, usize)>::empty()
        };
        assert(p == p0 + tail);
        assert forall|i: int| 0 <= i < p0.len() implies #[trigger] p[i] == p0[i] by {}
        assert forall|x: int| 0 <= x < row.len() && #[trigger] row[x] == EntityRef::Grass
            implies p.contains((x as usize, y as usize)) by {
            if x < last {
                assert(r0[x] == row[x]);
                let i = choose|i: int| 0 <= i < p0.len() && p0[i] == (x as usize, y as usize);
                assert(p[i] == p0[i]);
            } else {
                assert(p[p.len() - 1] == (x as usize, y as usize));
            }
        }
        assert forall|i: int| 0 <= i < p.len() implies {
            let q = #[trigger] p[i];
            &&& q.1 == y
            &&& q.0 < row.len()
            &&& row[q.0 as int] == EntityRef::Grass
        } by {
            if i < p0.len() {
                assert(p[i] == p0[i]);
                assert(r0[p0[i].0 as int] == row[p0[i].0 as int]);
            }
        }
        assert forall|i: int, j: int| 0 <= i < j < p.len()
            implies (#[trigger] p[i]).0 < (#[trigger] p[j]).0 by {
            assert(p[i] == p0[i]);
            if j < p0.len() {
                assert(p[j] == p0[j]);
            }
        }
    }
}

/// The grass positions listed for a grid are exactly its grass cells in
/// reading order (rows top to bottom, each left to right), one entry per
/// grass cell.
proof fn lemma_grass_positions(g: Seq<Seq<EntityRef>>)
    requires
        g.len() <= usize::MAX + 1,
        forall|y: int| 0 <= y < g.len() ==> #[trigger] g[y].len() <= usize::MAX + 1,
    ensures
        grass_positions(g).len() == count_grass(g),
        forall|i: int| 0 <= i < grass_positions(g).len() ==> {
            let q = #[trigger] grass_positions(g)[i];
            &&& q.1 < g.len()
            &&& q.0 < g[q.1 as int].len()
            &&& g[q.1 as int][q.0 as int] == EntityRef::Grass
        },
        forall|i: int, j: int| 0 <= i < j < grass_positions(g).len() ==> {
            let a = #[trigger] grass_positions(g)[i];
            let b = #[trigger] grass_positions(g)[j];
            a.1 < b.1 || (a.1 == b.1 && a.0 < b.0)
        },
        forall|x: int, y: int| 0 <= y < g.len() && 0 <= x < g[y].len() && #[trigger] g[y][x] == EntityRef::Grass
            ==> grass_positions(g).contains((x as usize, y as usize)),
    decreases g.len(),
{
    if g.len() > 0 {
        let g0 = g.drop_last();
        let last = g.len() - 1;
        lemma_grass_positions(g0);
        lemma_grass_in_row(g.last(), last);
        let p0 = grass_positions(g0);
        let rp = grass_in_row(g.last(), last);
        let p = grass_positions(g);
        assert(p == p0 + rp);
        assert forall|i: int| 0 <= i < p0.len() implies #[trigger] p[i] == p0[i] by {}
        assert forall|i: int| 0 <= i < rp.len() implies #[trigger] p[p0.len() + i] == rp[i] by {}
        assert forall|i: int| 0 <= i < p.len() implies {
            let q = #[trigger] p[i];
            &&& q.1 < g.len()
            &&& q.0 < g[q.1 as int].len()
            &&& g[q.1 as int][q.0 as int] == EntityRef::Grass
        } by {
            if i < p0.len() {
                assert(p[i] == p0[i]);
                assert(g0[p0[i].1 as int] == g[p0[i].1 as int]);
            } else {
                assert(p[i] == rp[i - p0.len()]);
            }
        }
        assert forall|i: int, j: int| 0 <= i < j < p.len() implies {
            let a = #[trigger] p[i];
            let b = #[trigger] p[j];
            a.1 < b.1 || (a.1 == b.1 && a.0 < b.0)
        } by {
            if j < p0.len() {
                assert(p[i] == p0[i] && p[j] == p0[j]);
            } else if i < p0.len() {
                assert(p[i] == p0[i]);
                assert(p[j] == rp[j - p0.len()]);
                assert(p0[i].1 < g0.len());
            } else {
                assert(p[i] == rp[i - p0.len()]);
                assert(p[j] == rp[j - p0.len()]);
            }
        }
        assert forall|x: int, y: int| 0 <= y < g.len() && 0 <= x < g[y].len() && #[trigger] g[y][x] == EntityRef::Grass
            implies p.contains((x as usize, y as usize)) by {
            if y < last {
                assert(g0[y][x] == g[y][x]);
                let i = choose|i: int| 0 <= i < p0.len() && p0[i] == (x as usize, y as usize);
                assert(p[i] == p0[i]);
            } else {
                assert(g.last()[x] == EntityRef::Grass);
                let i = choose|i: int| 0 <= i < rp.len() && rp[i] == (x as usize, y as usize);
                assert(p[p0.len() + i] == rp[i]);
            }
        }
    }
}

/// A generation's record starts with the positions of exactly the grass
/// growing on the map, one entry per grass cell (as many as the map's grass
/// count), in reading order (rows top to bottom, each left to right). It
/// also holds the animals as they are, an empty list of records for each,
/// and no eaten grass.
pub proof fn law_recorded_grass_is_the_grass(v: WorldView)
    requires
        v.wf(),
    ensures
        ({
            let r = v.fresh_record();
            &&& r.carnivores_at_start == v.carnivores
            &&& r.herbivores_at_start == v.herbivores
            &&& r.carnivore_records.len() == v.carnivores.len()
            &&& r.herbivore_records.len() == v.herbivores.len()
            &&& forall|i: int| 0 <= i < v.carnivores.len() ==> #[trigger] r.carnivore_records[i].len() == 0
            &&& forall|i: int| 0 <= i < v.herbivores.len() ==> #[trigger] r.herbivore_records[i].len() == 0
            &&& r.dead_grass.len() == 0
        }),
        ({
            let p = v.fresh_record().grass_at_start;
            &&& p.len() == v.grass_count
            &&& forall|x: usize, y: usize| p.contains((x, y))
                <==> (x < v.size_x && y < v.size_y && v.plants[y as int][x as int] == EntityRef::Grass)
            &&& forall|i: int, j: int| 0 <= i < j < p.len() ==> {
                let a = #[trigger] p[i];
                let b = #[trigger] p[j];
                a.1 < b.1 || (a.1 == b.1 && a.0 < b.0)
            }
        }),
{
    let g = v.plants;
    assert forall|y: int| 0 <= y < g.len() implies #[trigger] g[y].len() <= usize::MAX + 1 by {}
    lemma_grass_positions(g);
    let p = grass_positions(g);
    assert forall|x: usize, y: usize| p.contains((x, y))
        <==> (x < v.size_x && y < v.size_y && v.plants[y as int][x as int] == EntityRef::Grass) by {
        if p.contains((x, y)) {
            let i = choose|i: int| 0 <= i < p.len() && p[i] == (x, y);
            assert(p[i] == (x, y));
        }
        if x < v.size_x && y < v.size_y && v.plants[y as int][x as int] == EntityRef::Grass {
            assert(g[y as int][x as int] == EntityRef::Grass);
        }
    }
}

/// A carnivore's moving step, when it is alive: a walk goes one cell (up is
/// `y + 1`, down `y - 1`, right `x + 1`, left `x - 1`); when that cell is on
/// the map and holds no animal, the carnivore moves there and pays 3 energy.
/// Otherwise (resting, eating, or a walk that is blocked or leaves the map)
/// it stays and pays 1. Once its energy is 0 or below it dies, leaving the
/// cell it stands on, its list and the count.
pub proof fn law_carnivore_move_step(v: WorldView, i: int)
    requires
        v.wf(),
        0 <= i < v.carnivores.len(),
        v.carnivores[i] is Some,
        i32::MIN + 3 <= v.carnivores[i]->0.energy,
    ensures
        ({
            let a = v.carnivores[i]->0;
            let w = v.carnivore_other_step(i);
            let px = a.pos_x as int;
            let py = a.pos_y as int;
            let (tx, ty) = match a.action {
                Action::WalkUp => (px, py + 1),
                Action::WalkDown => (px, py - 1),
                Action::WalkRight => (px + 1, py),
                Action::WalkLeft => (px - 1, py),
                _ => (px, py),
            };
            let walks = a.action == Action::WalkUp || a.action == Action::WalkDown
                || a.action == Action::WalkRight || a.action == Action::WalkLeft;
            let free = walks && 0 <= tx < v.size_x && 0 <= ty < v.size_y && v.animals[ty][tx] == EntityRef::Empty;
            &&& free && a.energy - 3 > 0 ==> {
                &&& w.carnivores[i] == Some(Carnivore { energy: (a.energy - 3) as i32, pos_x: tx as usize, pos_y: ty as usize, ..a })
                &&& w.animals[ty][tx] == EntityRef::Carnivore(i as usize)
                &&& w.animals[py][px] == EntityRef::Empty
            }
            &&& !free && a.energy - 1 > 0 ==> {
                &&& w.carnivores[i] == Some(Carnivore { energy: (a.energy - 1) as i32, ..a })
                &&& w.animals == v.animals
            }
            &&& free && a.energy - 3 <= 0 ==> {
                &&& w.carnivores[i] is None
                &&& w.carnivore_count == v.carnivore_count - 1
                &&& w.animals[py][px] == EntityRef::Empty
                &&& w.animals[ty][tx] == EntityRef::Empty
            }
            &&& !free && a.energy - 1 <= 0 ==> {
                &&& w.carnivores[i] is None
                &&& w.carnivore_count == v.carnivore_count - 1
                &&& w.animals[py][px] == EntityRef::Empty
            }
            &&& w.plants == v.plants
        }),
{
    let a = v.carnivores[i]->0;
    let px = a.pos_x as int;
    let py = a.pos_y as int;
    assert(v.carnivore_ok(i));
    lemma_count_some_positive(v.carnivores, i);
    let (v1, moved) = v.other_action_spec(px, py, a.action);
    match WorldView::walk_target(px, py, a.action) {
        Some((tx, ty)) => {
            if v.can_move(px, py, tx, ty) {
                law_move_relocates(v, px, py, tx, ty);
                assert(v1.carnivores[i]->0 == Carnivore { pos_x: tx as usize, pos_y: ty as usize, ..a });
            }
        },
        None => {},
    }
}

/// A herbivore's moving step, when it is alive: a walk goes one cell (up is
/// `y + 1`, down `y - 1`, right `x + 1`, left `x - 1`); when that cell is on
/// the map and holds no animal, the herbivore moves there and pays 3 energy.
/// Otherwise (resting, eating, or a walk that is blocked or leaves the map)
/// it stays and pays 1. Once its energy is 0 or below it dies, leaving the
/// cell it stands on, its list and the count.
pub proof fn law_herbivore_move_step(v: WorldView, i: int)
    requires
        v.wf(),
        0 <= i < v.herbivores.len(),
        v.herbivores[i] is Some,
        i32::MIN + 3 <= v.herbivores[i]->0.energy,
    ensures
        ({
            let a = v.herbivores[i]->0;
            let w = v.herbivore_other_step(i);
            let px = a.pos_x as int;
            let py = a.pos_y as int;
            let (tx, ty) = match a.action {
                Action::WalkUp => (px, py + 1),
                Action::WalkDown => (px, py - 1),
                Action::WalkRight => (px + 1, py),
                Action::WalkLeft => (px - 1, py),
                _ => (px, py),
            };
            let walks = a.action == Action::WalkUp || a.action == Action::WalkDown
                || a.action == Action::WalkRight || a.action == Action::WalkLeft;
            let free = walks && 0 <= tx < v.size_x && 0 <= ty < v.size_y && v.animals[ty][tx] == EntityRef::Empty;
            &&& free && a.energy - 3 > 0 ==> {
                &&& w.herbivores[i] == Some(Herbivore { energy: (a.energy - 3) as i32, pos_x: tx as usize, pos_y: ty as usize, ..a })
                &&& w.animals[ty][tx] == EntityRef::Herbivore(i as usize)
                &&& w.animals[py][px] == EntityRef::Empty
            }
            &&& !free && a.energy - 1 > 0 ==> {
                &&& w.herbivores[i] == Some(Herbivore { energy: (a.energy - 1) as i32, ..a })
                &&& w.animals == v.animals
            }
            &&& free && a.energy - 3 <= 0 ==> {
                &&& w.herbivores[i] is None
                &&& w.herbivore_count == v.herbivore_count - 1
                &&& w.animals[py][px] == EntityRef::Empty
                &&& w.animals[ty][tx] == EntityRef::Empty
            }
            &&& !free && a.energy - 1 <= 0 ==> {
                &&& w.herbivores[i] is None
                &&& w.herbivore_count == v.herbivore_count - 1
                &&& w.animals[py][px] == EntityRef::Empty
            }
            &&& w.plants == v.plants
        }),
{
    let a = v.herbivores[i]->0;
    let px = a.pos_x as int;
    let py = a.pos_y as int;
    assert(v.herbivore_ok(i));
    lemma_count_some_positive(v.herbivores, i);
    let (v1, moved) = v.other_action_spec(px, py, a.action);
    match WorldView::walk_target(px, py, a.action) {
        Some((tx, ty)) => {
            if v.can_move(px, py, tx, ty) {
                law_move_relocates(v, px, py, tx, ty);
                assert(v1.herbivores[i]->0 == Herbivore { pos_x: tx as usize, pos_y: ty as usize, ..a });
            }
        },
        None => {},
    }
}

/// Placing an entity of kind `t` at a cell of the map: grass grows exactly
/// when the cell has no grass, and then the grass count rises by one and
/// nothing else changes; an animal is placed exactly when the cell has no
/// animal, and then it is appended to its list with the next index, full
/// energy, that position, the given parent's index and action (or no parent
/// and rest), and its count rises by one. Nothing is placed for `Empty`.
pub proof fn law_place_entity(v: WorldView, t: EntityType, x: int, y: int, parent: Option<usize>)
    requires
        v.wf(),
        v.in_grid(x, y),
        t == EntityType::Grass ==> v.grass_count < u32::MAX,
        t == EntityType::Carnivore ==> v.carnivores.len() < u32::MAX,
        t == EntityType::Herbivore ==> v.herbivores.len() < u32::MAX,
    ensures
        t == EntityType::Grass ==> {
            let (w, placed) = v.place_spec(t, x, y, parent);
            &&& placed == (v.plants[y][x] == EntityRef::Empty)
            &&& placed ==> {
                &&& w.plants[y][x] == EntityRef::Grass
                &&& w.grass_count == v.grass_count + 1
                &&& w.animals == v.animals
                &&& w.carnivores == v.carnivores
                &&& w.herbivores == v.herbivores
                &&& forall|xx: int, yy: int| (xx, yy) != (x, y) && v.in_grid(xx, yy)
                    ==> #[trigger] w.plants[yy][xx] == v.plants[yy][xx]
            }
        },
        t == EntityType::Carnivore ==> {
            let (w, placed) = v.place_spec(t, x, y, parent);
            &&& placed == (v.animals[y][x] == EntityRef::Empty)
            &&& placed ==> {
                &&& w.carnivores.len() == v.carnivores.len() + 1
                &&& w.carnivores.subrange(0, v.carnivores.len() as int) == v.carnivores
                &&& w.carnivores[v.carnivores.len() as int] is Some
                &&& w.carnivores[v.carnivores.len() as int]->0.pos_x == x
                &&& w.carnivores[v.carnivores.len() as int]->0.pos_y == y
                &&& w.carnivores[v.carnivores.len() as int]->0.id == v.carnivores.len()
                &&& w.carnivores[v.carnivores.len() as int]->0.energy == v.carnivore_max_energy as i32
                &&& w.carnivores[v.carnivores.len() as int]->0.parent == match parent {
                    Some(b) => Some(v.best_carnivores[b as int].id),
                    None => None,
                }
                &&& w.carnivores[v.carnivores.len() as int]->0.action == match parent {
                    Some(b) => v.best_carnivores[b as int].action,
                    None => Action::Idle,
                }
                &&& w.carnivore_count == v.carnivore_count + 1
                &&& w.animals[y][x] == EntityRef::Carnivore(v.carnivores.len() as usize)
                &&& w.plants == v.plants
                &&& w.grass_count == v.grass_count
            }
        },
        t == EntityType::Herbivore ==> {
            let (w, placed) = v.place_spec(t, x, y, parent);
            &&& placed == (v.animals[y][x] == EntityRef::Empty)
            &&& placed ==> {
                &&& w.herbivores.len() == v.herbivores.len() + 1
                &&& w.herbivores.subrange(0, v.herbivores.len() as int) == v.herbivores
                &&& w.herbivores[v.herbivores.len() as int] is Some
                &&& w.herbivores[v.herbivores.len() as int]->0.pos_x == x
                &&& w.herbivores[v.herbivores.len() as int]->0.pos_y == y
                &&& w.herbivores[v.herbivores.len() as int]->0.id == v.herbivores.len()
                &&& w.herbivores[v.herbivores.len() as int]->0.energy == v.herbivore_max_energy as i32
                &&& w.herbivores[v.herbivores.len() as int]->0.parent == match parent {
                    Some(b) => Some(v.best_herbivores[b as int].id),
                    None => None,
                }
                &&& w.herbivores[v.herbivores.len() as int]->0.action == match parent {
                    Some(b) => v.best_herbivores[b as int].action,
                    None => Action::Idle,
                }
                &&& w.herbivore_count == v.herbivore_count + 1
                &&& w.animals[y][x] == EntityRef::Herbivore(v.herbivores.len() as usize)
                &&& w.plants == v.plants
                &&& w.grass_count == v.grass_count
            }
        },
        t == EntityType::Empty ==> v.place_spec(t, x, y, parent) == (v, false),
{
    assert(v.animals[y].len() == v.size_x);
    assert(v.plants[y].len() == v.size_x);
    if v.plants[y][x] == EntityRef::Empty {
        assert(v.plant_cell_ok(x, y));
    }
    let w = v.place_spec(t, x, y, parent).0;
    crate::counting::lemma_count_some_bound(v.carnivores);
    crate::counting::lemma_count_some_bound(v.herbivores);
    if t == EntityType::Carnivore && v.animals[y][x] == EntityRef::Empty {
        assert(w.carnivores.subrange(0, v.carnivores.len() as int) =~= v.carnivores);
    }
    if t == EntityType::Herbivore && v.animals[y][x] == EntityRef::Empty {
        assert(w.herbivores.subrange(0, v.herbivores.len() as int) =~= v.herbivores);
    }
}

/// The character an animal cell is drawn with: `X` for a carnivore, `o` for
/// a herbivore, a space for no animal.
pub open spec fn animal_char(e: EntityRef) -> char {
    match e {
        EntityRef::Carnivore(_) => 'X',
        EntityRef::Herbivore(_) => 'o',
        _ => ' ',
    }
}

/// The first `n` cells of a row are drawn with one character each plus one
/// `.` per grass cell; without grass, character `x` draws cell `x`.
proof fn lemma_row_text(a: Seq<EntityRef>, p: Seq<EntityRef>, n: nat)
    requires
        n <= a.len(),
        n <= p.len(),
        forall|i: int| 0 <= i < n ==> #[trigger] a[i] != EntityRef::Grass,
    ensures
        row_text(a, p, n).len() == n + count_grass_row(p.take(n as int)),
        (forall|i: int| 0 <= i < n ==> #[trigger] p[i] != EntityRef::Grass) ==> {
            &&& count_grass_row(p.take(n as int)) == 0
            &&& forall|x: int| 0 <= x < n ==> #[trigger] row_text(a, p, n)[x] == animal_char(a[x])
        },
    decreases n,
{
    if n > 0 {
        let m = (n - 1) as nat;
        lemma_row_text(a, p, m);
        assert(p.take(n as int).drop_last() =~= p.take(m as int));
        assert(p.take(n as int).last() == p[m as int]);
        assert(a[m as int] != EntityRef::Grass);
        if forall|i: int| 0 <= i < n ==> #[trigger] p[i] != EntityRef::Grass {
            assert(p[m as int] != EntityRef::Grass);
            assert forall|x: int| 0 <= x < n implies #[trigger] row_text(a, p, n)[x] == animal_char(a[x]) by {
                if x < m {
                    assert(row_text(a, p, n)[x] == row_text(a, p, m)[x]);
                }
            }
        }
    } else {
        assert(p.take(0) =~= Seq::<EntityRef>::empty());
    }
}

/// The first `n` rows of a map are drawn as `w` characters and one newline
/// each, plus one `.` per grass cell; without grass, cell `(x, y)` is drawn
/// at `y * (w + 1) + x` and each row's newline at `y * (w + 1) + w`.
proof fn lemma_grid_text(an: Seq<Seq<EntityRef>>, pl: Seq<Seq<EntityRef>>, w: nat, n: nat)
    requires
        n <= an.len(),
        n <= pl.len(),
        forall|y: int| 0 <= y < n ==> #[trigger] an[y].len() == w && pl[y].len() == w,
        forall|y: int, x: int| 0 <= y < n && 0 <= x < w ==> #[trigger] an[y][x] != EntityRef::Grass,
    ensures
        grid_text(an, pl, w, n).len() == n * (w + 1) + count_grass(pl.take(n as int)),
        (forall|y: int, x: int| 0 <= y < n && 0 <= x < w ==> #[trigger] pl[y][x] != EntityRef::Grass) ==> {
            &&& count_grass(pl.take(n as int)) == 0
            &&& forall|y: int, x: int| 0 <= y < n && 0 <= x < w
                ==> #[trigger] grid_text(an, pl, w, n)[y * (w + 1) + x] == animal_char(an[y][x])
            &&& forall|y: int| 0 <= y < n ==> #[trigger] grid_text(an, pl, w, n)[y * (w + 1) + w] == '\n'
        },
    decreases n,
{
    if n > 0 {
        let m = (n - 1) as nat;
        lemma_grid_text(an, pl, w, m);
        let a = an[m as int];
        let p = pl[m as int];
        assert(an[m as int].len() == w);
        assert forall|i: int| 0 <= i < w implies #[trigger] a[i] != EntityRef::Grass by {
            assert(an[m as int][i] != EntityRef::Grass);
        }
        lemma_row_text(a, p, w);
        assert(p.take(w as int) =~= p);
        assert(pl.take(n as int).drop_last() =~= pl.take(m as int));
        assert(pl.take(n as int).last() == p);
        assert(n * (w + 1) == m * (w + 1) + w + 1) by (nonlinear_arith)
            requires
                n == m + 1,
        ;
        let prev = grid_text(an, pl, w, m);
        let row = row_text(a, p, w);
        let t = grid_text(an, pl, w, n);
        assert(t == prev + row + seq!['\n']);
        if forall|y: int, x: int| 0 <= y < n && 0 <= x < w ==> #[trigger] pl[y][x] != EntityRef::Grass {
            assert forall|i: int| 0 <= i < w implies #[trigger] p[i] != EntityRef::Grass by {
                assert(pl[m as int][i] != EntityRef::Grass);
            }
            assert forall|y: int, x: int| 0 <= y < m && 0 <= x < w implies #[trigger] pl[y][x] != EntityRef::Grass by {
                assert(pl[y][x] != EntityRef::Grass);
            }
            assert(count_grass(pl.take(m as int)) == 0);
            assert(count_grass(pl.take(n as int)) == count_grass(pl.take(m as int)) + count_grass_row(p));
            assert(prev.len() == m * (w + 1));
            assert forall|y: int, x: int| 0 <= y < n && 0 <= x < w
                implies #[trigger] t[y * (w + 1) + x] == animal_char(an[y][x]) by {
                if y < m {
                    assert(y * (w + 1) + x < m * (w + 1)) by (nonlinear_arith)
                        requires
                            0 <= y < m,
                            0 <= x < w,
                    ;
                    assert(t[y * (w + 1) + x] == prev[y * (w + 1) + x]);
                } else {
                    assert(y * (w + 1) == m * (w + 1));
                    assert(t[y * (w + 1) + x] == row[x]);
                }
            }
            assert forall|y: int| 0 <= y < n implies #[trigger] t[y * (w + 1) + w] == '\n' by {
                if y < m {
                    assert(y * (w + 1) + w < m * (w + 1)) by (nonlinear_arith)
                        requires
                            0 <= y < m,
                    ;
                    assert(t[y * (w + 1) + w] == prev[y * (w + 1) + w]);
                } else {
                    assert(y * (w + 1) == m * (w + 1));
                }
            }
        }
    } else {
        assert(pl.take(0) =~= Seq::<Seq<EntityRef>>::empty());
    }
}

/// A map's text has one line of `size_x` characters per row plus one `.`
/// per grass cell, so it is `size_y * (size_x + 1) + grass_count` long.
/// Without grass, cell `(x, y)` is drawn at `y * (size_x + 1) + x` as `X`
/// for a carnivore, `o` for a herbivore and a space for no animal, and
/// every row ends in a newline.
pub proof fn law_map_text(v: WorldView)
    requires
        v.wf(),
    ensures
        ({
            let w = v.size_x as int;
            let t = grid_text(v.animals, v.plants, v.size_x as nat, v.size_y as nat);
            &&& t.len() == v.size_y * (w + 1) + v.grass_count
            &&& v.grass_count == 0 ==> {
                &&& forall|x: int, y: int| v.in_grid(x, y) ==> #[trigger] t[y * (w + 1) + x] == animal_char(v.animals[y][x])
                &&& forall|y: int| 0 <= y < v.size_y ==> #[trigger] t[y * (w + 1) + w] == '\n'
            }
        }),
{
    let w = v.size_x as nat;
    let n = v.size_y as nat;
    assert forall|y: int, x: int| 0 <= y < n && 0 <= x < w implies #[trigger] v.animals[y][x] != EntityRef::Grass by {
        assert(v.animal_cell_ok(x, y));
    }
    assert(v.plants.take(n as int) =~= v.plants);
    lemma_grid_text(v.animals, v.plants, w, n);
    if v.grass_count == 0 {
        assert forall|y: int, x: int| 0 <= y < n && 0 <= x < w implies #[trigger] v.plants[y][x] != EntityRef::Grass by {
            if v.plants[y][x] == EntityRef::Grass {
                crate::counting::lemma_count_grass_positive(v.plants, x, y);
            }
        }
    }
}

/// The living animals of a list, in index order.
pub open spec fn living<A>(xs: Seq<Option<A>>) -> Seq<A>
    decreases xs.len(),
{
    if xs.len() == 0 {
        Seq::empty()
    } else {
        (if xs[0] is Some { seq![xs[0]->0] } else { Seq::empty() }) + living(xs.subrange(1, xs.len() as int))
    }
}

/// The smallest of three integers, and never below 0.
pub open spec fn take_count(a: int, b: int, c: int) -> int {
    let m = if a <= b { a } else { b };
    let m = if m <= c { m } else { c };
    if m < 0 { 0 } else { m }
}

/// Promoting from index `id` on keeps the best animals already chosen and
/// appends the first living animals from `id` on, in index order: as many
/// as `count` allows, as fit below `cap`, and as there are.
proof fn lemma_promote_from<A>(best: Seq<A>, count: int, xs: Seq<Option<A>>, cap: int, id: int)
    requires
        0 <= id <= xs.len(),
    ensures
        ({
            let l = living(xs.subrange(id, xs.len() as int));
            promote(best, count, xs, cap, id).0
                == best + l.take(take_count(count, cap - best.len(), l.len() as int))
        }),
    decreases xs.len() - id,
{
    let sub = xs.subrange(id, xs.len() as int);
    let l = living(sub);
    if count > 0 && best.len() < cap && id < xs.len() {
        let sub1 = xs.subrange(id + 1, xs.len() as int);
        assert(sub.subrange(1, sub.len() as int) =~= sub1);
        assert(sub[0] == xs[id]);
        let l1 = living(sub1);
        lemma_promote_from(best, count, xs, cap, id + 1);
        match xs[id] {
            Some(a) => {
                lemma_promote_from(best.push(a), count - 1, xs, cap, id + 1);
                let k1 = take_count(count - 1, cap - best.len() - 1, l1.len() as int);
                assert(l == seq![a] + l1);
                assert(take_count(count, cap - best.len(), l.len() as int) == k1 + 1);
                assert(best + l.take(k1 + 1) =~= best.push(a) + l1.take(k1));
            },
            None => {
                assert(l =~= l1);
            },
        }
    } else {
        assert(take_count(count, cap - best.len(), l.len() as int) == 0) by {
            if id == xs.len() {
                assert(sub.len() == 0);
            }
        }
        assert(best + l.take(0) =~= best);
    }
}

/// Before a new generation is bred, the living animals join the best ones
/// kept so far: the first living ones in index order are appended, as many
/// as fit below the configured number of best animals (and as many as the
/// count of living animals allows).
pub proof fn law_promoted_are_first_living(v: WorldView)
    ensures
        ({
            let lc = living(v.carnivores);
            let lh = living(v.herbivores);
            &&& v.promoted_carnivores() == v.best_carnivores + lc.take(take_count(
                v.carnivore_count as int,
                v.generation_config.best_carnivore_count - v.best_carnivores.len(),
                lc.len() as int,
            ))
            &&& v.promoted_herbivores() == v.best_herbivores + lh.take(take_count(
                v.herbivore_count as int,
                v.generation_config.best_herbivore_count - v.best_herbivores.len(),
                lh.len() as int,
            ))
        }),
{
    lemma_promote_from(v.best_carnivores, v.carnivore_count as int, v.carnivores,
        v.generation_config.best_carnivore_count as int, 0);
    lemma_promote_from(v.best_herbivores, v.herbivore_count as int, v.herbivores,
        v.generation_config.best_herbivore_count as int, 0);
    assert(v.carnivores.subrange(0, v.carnivores.len() as int) =~= v.carnivores);
    assert(v.herbivores.subrange(0, v.herbivores.len() as int) =~= v.herbivores);
}

/// No carnivore among the first `n` chose to eat: their eating steps change
/// nothing.
proof fn lemma_carnivore_eat_steps_idle(v: WorldView, n: nat)
    requires
        n <= v.carnivores.len(),
        forall|j: int| 0 <= j < n && #[trigger] v.carnivores[j] is Some ==> v.carnivores[j]->0.action != Action::Eat,
    ensures
        v.carnivore_eat_steps(n) == v,
    decreases n,
{
    if n > 0 {
        lemma_carnivore_eat_steps_idle(v, (n - 1) as nat);
    }
}

/// No herbivore among the first `n` chose to eat: their eating steps change
/// nothing.
proof fn lemma_herbivore_eat_steps_idle(v: WorldView, n: nat)
    requires
        n <= v.herbivores.len(),
        forall|j: int| 0 <= j < n && #[trigger] v.herbivores[j] is Some ==> v.herbivores[j]->0.action != Action::Eat,
    ensures
        v.herbivore_eat_steps(n) == v,
    decreases n,
{
    if n > 0 {
        lemma_herbivore_eat_steps_idle(v, (n - 1) as nat);
    }
}

/// Herbivore `i`'s eating steps over the first `n` herbivores, when it is
/// the only one that chose to eat: nothing happens before it, and nothing
/// after it.
proof fn lemma_herbivore_eat_steps_single(v: WorldView, i: int, n: nat)
    requires
        v.wf(),
        0 <= i < v.herbivores.len(),
        n <= v.herbivores.len(),
        forall|j: int| 0 <= j < v.herbivores.len() && j != i && #[trigger] v.herbivores[j] is Some
            ==> v.herbivores[j]->0.action != Action::Eat,
    ensures
        v.herbivore_eat_steps(n) == if n <= i { v } else { v.herbivore_eat_step(i) },
    decreases n,
{
    if n > 0 {
        let m = (n - 1) as nat;
        lemma_herbivore_eat_steps_single(v, i, m);
        if m > i {
            let u = v.herbivore_eat_step(i);
            lemma_herbivore_step_keeps_others(v, i);
            assert(u.herbivores[m as int] == v.herbivores[m as int]);
        }
    }
}

/// A herbivore's eating step touches no other herbivore.
proof fn lemma_herbivore_step_keeps_others(v: WorldView, i: int)
    requires
        v.wf(),
        0 <= i < v.herbivores.len(),
    ensures
        v.herbivore_eat_step(i).herbivores.len() == v.herbivores.len(),
        forall|j: int| 0 <= j < v.herbivores.len() && j != i
            ==> #[trigger] v.herbivore_eat_step(i).herbivores[j] == v.herbivores[j],
{
    if v.herbivores[i] is Some {
        assert(v.herbivore_ok(i));
    }
}

/// A carnivore's eating step touches no other carnivore, and no herbivore
/// but the one it eats.
proof fn lemma_carnivore_step_keeps_others(v: WorldView, i: int)
    requires
        v.wf(),
        0 <= i < v.carnivores.len(),
    ensures
        v.carnivore_eat_step(i).carnivores.len() == v.carnivores.len(),
        forall|j: int| 0 <= j < v.carnivores.len() && j != i
            ==> #[trigger] v.carnivore_eat_step(i).carnivores[j] == v.carnivores[j],
        v.carnivore_eat_step(i).herbivores.len() == v.herbivores.len(),
        forall|j: int| 0 <= j < v.herbivores.len() && #[trigger] v.carnivore_eat_step(i).herbivores[j] is Some
            ==> v.carnivore_eat_step(i).herbivores[j] == v.herbivores[j],
{
    if v.carnivores[i] is Some && v.carnivores[i]->0.action == Action::Eat {
        let c = v.carnivores[i]->0;
        let px = c.pos_x as int;
        let py = c.pos_y as int;
        assert(v.carnivore_ok(i));
        law_eats_first_food_within_two(v, px, py, EntityType::Herbivore);
        let (v1, ate) = v.eat_spec(px, py, EntityType::Herbivore);
        if ate {
            let (x, y) = v.eat_choice(px, py, EntityType::Herbivore)->0;
            assert(v.animal_cell_ok(x, y));
            assert(v1 == v.after_kill(x, y));
            assert(v1.animals[py][px] == v.animals[py][px]);
        }
    }
}

/// The eating phase of a tick in which a single herbivore chose to eat (and
/// no carnivore did) is that herbivore's eating step (see
/// [`law_herbivore_meal`]).
pub proof fn law_single_herbivore_eater(v: WorldView, i: int)
    requires
        v.wf(),
        0 <= i < v.herbivores.len(),
        forall|j: int| 0 <= j < v.carnivores.len() && #[trigger] v.carnivores[j] is Some
            ==> v.carnivores[j]->0.action != Action::Eat,
        forall|j: int| 0 <= j < v.herbivores.len() && j != i && #[trigger] v.herbivores[j] is Some
            ==> v.herbivores[j]->0.action != Action::Eat,
    ensures
        v.eat_phase() == v.herbivore_eat_step(i),
{
    lemma_carnivore_eat_steps_idle(v, v.carnivores.len());
    lemma_herbivore_eat_steps_single(v, i, v.herbivores.len());
}

/// The eating phase of a tick in which a single carnivore chose to eat (and
/// no herbivore did) is that carnivore's eating step (see
/// [`law_carnivore_meal`]).
pub proof fn law_single_carnivore_eater(v: WorldView, i: int)
    requires
        v.wf(),
        0 <= i < v.carnivores.len(),
        forall|j: int| 0 <= j < v.carnivores.len() && j != i && #[trigger] v.carnivores[j] is Some
            ==> v.carnivores[j]->0.action != Action::Eat,
        forall|j: int| 0 <= j < v.herbivores.len() && #[trigger] v.herbivores[j] is Some
            ==> v.herbivores[j]->0.action != Action::Eat,
    ensures
        v.eat_phase() == v.carnivore_eat_step(i),
{
    let u = v.carnivore_eat_step(i);
    lemma_carnivore_step_keeps_others(v, i);
    lemma_carnivore_eat_steps_single(v, i, v.carnivores.len());
    assert forall|j: int| 0 <= j < u.herbivores.len() && #[trigger] u.herbivores[j] is Some
        implies u.herbivores[j]->0.action != Action::Eat by {
        assert(u.herbivores[j] == v.herbivores[j]);
    }
    lemma_herbivore_eat_steps_idle(u, u.herbivores.len());
}

/// Carnivore `i`'s eating steps over the first `n` carnivores, when it is
/// the only one that chose to eat.
proof fn lemma_carnivore_eat_steps_single(v: WorldView, i: int, n: nat)
    requires
        v.wf(),
        0 <= i < v.carnivores.len(),
        n <= v.carnivores.len(),
        forall|j: int| 0 <= j < v.carnivores.len() && j != i && #[trigger] v.carnivores[j] is Some
            ==> v.carnivores[j]->0.action != Action::Eat,
    ensures
        v.carnivore_eat_steps(n) == if n <= i { v } else { v.carnivore_eat_step(i) },
    decreases n,
{
    if n > 0 {
        let m = (n - 1) as nat;
        lemma_carnivore_eat_steps_single(v, i, m);
        if m > i {
            lemma_carnivore_step_keeps_others(v, i);
            assert(v.carnivore_eat_step(i).carnivores[m as int] == v.carnivores[m as int]);
        }
    }
}

/// Moving steps of dead animals change nothing.
proof fn lemma_other_steps_of_dead(v: WorldView, n: nat, m: nat)
    requires
        n <= v.carnivores.len(),
        m <= v.herbivores.len(),
        forall|j: int| 0 <= j < n ==> #[trigger] v.carnivores[j] is None,
        forall|j: int| 0 <= j < m ==> #[trigger] v.herbivores[j] is None,
    ensures
        v.carnivore_other_steps(n) == v,
        v.herbivore_other_steps(m) == v,
    decreases n + m,
{
    if n > 0 {
        lemma_other_steps_of_dead(v, (n - 1) as nat, m);
    }
    if m > 0 {
        lemma_other_steps_of_dead(v, n, (m - 1) as nat);
    }
}

/// The moving phase of a tick in which a single animal, carnivore `i`, is
/// alive is that carnivore's moving step (see [`law_carnivore_move_step`]).
pub proof fn law_lone_carnivore_moves(v: WorldView, i: int)
    requires
        v.wf(),
        0 <= i < v.carnivores.len(),
        forall|j: int| 0 <= j < v.carnivores.len() && j != i ==> #[trigger] v.carnivores[j] is None,
        forall|j: int| 0 <= j < v.herbivores.len() ==> #[trigger] v.herbivores[j] is None,
    ensures
        v.other_phase() == v.carnivore_other_step(i),
{
    let u = v.carnivore_other_step(i);
    if v.carnivores[i] is Some {
        assert(v.carnivore_ok(i));
        let c = v.carnivores[i]->0;
        match WorldView::walk_target(c.pos_x as int, c.pos_y as int, c.action) {
            Some((tx, ty)) => {
                if v.can_move(c.pos_x as int, c.pos_y as int, tx, ty) {
                    law_move_relocates(v, c.pos_x as int, c.pos_y as int, tx, ty);
                }
            },
            None => {},
        }
    }
    assert(u.carnivores.len() == v.carnivores.len());
    assert forall|j: int| i < j < u.carnivores.len() implies #[trigger] u.carnivores[j] is None by {
        assert(u.carnivores[j] == v.carnivores[j]);
    }
    assert forall|j: int| 0 <= j < u.herbivores.len() implies #[trigger] u.herbivores[j] is None by {
        assert(u.herbivores[j] == v.herbivores[j]);
    }
    lemma_lone_carnivore_tail(v, i, u, v.carnivores.len());
    lemma_other_steps_of_dead(u, 0, u.herbivores.len());
}

/// The moving steps of the carnivores up to `n` when only carnivore `i` is
/// alive: nothing before it, its own step, nothing after.
proof fn lemma_lone_carnivore_tail(v: WorldView, i: int, u: WorldView, n: nat)
    requires
        0 <= i < v.carnivores.len(),
        n <= v.carnivores.len(),
        u == v.carnivore_other_step(i),
        u.carnivores.len() == v.carnivores.len(),
        forall|j: int| 0 <= j < v.carnivores.len() && j != i ==> #[trigger] v.carnivores[j] is None,
        forall|j: int| i < j < u.carnivores.len() ==> #[trigger] u.carnivores[j] is None,
    ensures
        v.carnivore_other_steps(n) == if n <= i { v } else { u },
    decreases n,
{
    if n > 0 {
        lemma_lone_carnivore_tail(v, i, u, (n - 1) as nat);
        if n - 1 < i {
            assert(v.carnivores[n - 1] is None);
        } else if n - 1 > i {
            assert(u.carnivores[n - 1] is None);
        }
    }
}

/// The moving phase of a tick in which a single animal, herbivore `i`, is
/// alive is that herbivore's moving step (see [`law_herbivore_move_step`]).
pub proof fn law_lone_herbivore_moves(v: WorldView, i: int)
    requires
        v.wf(),
        0 <= i < v.herbivores.len(),
        forall|j: int| 0 <= j < v.herbivores.len() && j != i ==> #[trigger] v.herbivores[j] is None,
        forall|j: int| 0 <= j < v.carnivores.len() ==> #[trigger] v.carnivores[j] is None,
    ensures
        v.other_phase() == v.herbivore_other_step(i),
{
    let u = v.herbivore_other_step(i);
    lemma_other_steps_of_dead(v, v.carnivores.len(), 0);
    if v.herbivores[i] is Some {
        assert(v.herbivore_ok(i));
        let h = v.herbivores[i]->0;
        match WorldView::walk_target(h.pos_x as int, h.pos_y as int, h.action) {
            Some((tx, ty)) => {
                if v.can_move(h.pos_x as int, h.pos_y as int, tx, ty) {
                    law_move_relocates(v, h.pos_x as int, h.pos_y as int, tx, ty);
                }
            },
            None => {},
        }
    }
    assert(u.herbivores.len() == v.herbivores.len());
    assert forall|j: int| i < j < u.herbivores.len() implies #[trigger] u.herbivores[j] is None by {
        assert(u.herbivores[j] == v.herbivores[j]);
    }
    lemma_lone_herbivore_tail(v, i, u, v.herbivores.len());
}

/// The moving steps of the herbivores up to `n` when only herbivore `i` is
/// alive: nothing before it, its own step, nothing after.
proof fn lemma_lone_herbivore_tail(v: WorldView, i: int, u: WorldView, n: nat)
    requires
        0 <= i < v.herbivores.len(),
        n <= v.herbivores.len(),
        u == v.herbivore_other_step(i),
        u.herbivores.len() == v.herbivores.len(),
        forall|j: int| 0 <= j < v.herbivores.len() && j != i ==> #[trigger] v.herbivores[j] is None,
        forall|j: int| i < j < u.herbivores.len() ==> #[trigger] u.herbivores[j] is None,
    ensures
        v.herbivore_other_steps(n) == if n <= i { v } else { u },
    decreases n,
{
    if n > 0 {
        lemma_lone_herbivore_tail(v, i, u, (n - 1) as nat);
        if n - 1 < i {
            assert(v.herbivores[n - 1] is None);
        } else if n - 1 > i {
            assert(u.herbivores[n - 1] is None);
        }
    }
}

} // verus!
