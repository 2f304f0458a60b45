use vstd::prelude::*;
use crate::entity::{Action, EntityRef, EntityType};
use crate::animal::{Animal, energy_after};
use crate::carnivore::Carnivore;
use crate::herbivore::Herbivore;
use crate::config::{GenerationConfig, MapConfig};
use crate::record::{AnimalRecord, GenerationRecording, RecordingView, grass_positions};
use crate::sensing::{grid_view, partial_input_spec, generate_partial_input as sense_partial, sensing_args_ok};
use crate::random::random_index;
use vstd::string::StringExecFns;
use crate::counting::{lemma_count_some_monotone, lemma_count_some_witness, count_some, count_grass, count_grass_row, lemma_count_some_update, lemma_count_some_push, lemma_count_some_bound, lemma_count_some_positive, lemma_count_grass_update, lemma_count_grass_positive};

verus! {

/// The world of one simulation: a grid of animals and a grid of plants, the
/// animals' bodies, the population counters and the generation's record.
pub struct WorldMap {
    animals: Vec<Vec<EntityRef>>,
    plants: Vec<Vec<EntityRef>>,
    carnivores: Vec<Option<Carnivore>>,
    herbivores: Vec<Option<Herbivore>>,
    best_carnivores: Vec<Carnivore>,
    best_herbivores: Vec<Herbivore>,
    carnivore_start_count: u32,
    herbivore_start_count: u32,
    grass_start_count: u32,
    carnivore_count: u32,
    herbivore_count: u32,
    grass_count: u32,
    sense_radius: usize,
    carnivore_max_energy: u32,
    herbivore_max_energy: u32,
    input_count: usize,
    size_x: usize,
    size_y: usize,
    generation: usize,
    tick: usize,
    generation_over: bool,
    record: bool,
    current_generation_record: Option<GenerationRecording>,
    complete_record: Vec<GenerationRecording>,
    generation_config: GenerationConfig,
}

/// The contents of a [`WorldMap`].
pub struct WorldView {
    pub animals: Seq<Seq<EntityRef>>,
    pub plants: Seq<Seq<EntityRef>>,
    pub carnivores: Seq<Option<Carnivore>>,
    pub herbivores: Seq<Option<Herbivore>>,
    pub best_carnivores: Seq<Carnivore>,
    pub best_herbivores: Seq<Herbivore>,
    pub carnivore_start_count: u32,
    pub herbivore_start_count: u32,
    pub grass_start_count: u32,
    pub carnivore_count: u32,
    pub herbivore_count: u32,
    pub grass_count: u32,
    pub sense_radius: usize,
    pub carnivore_max_energy: u32,
    pub herbivore_max_energy: u32,
    pub input_count: usize,
    pub size_x: usize,
    pub size_y: usize,
    pub generation: usize,
    pub tick: usize,
    pub generation_over: bool,
    pub record: bool,
    pub current_record: Option<RecordingView>,
    pub complete_record: Seq<RecordingView>,
    pub generation_config: GenerationConfig,
}

/// A grid of `h` rows of `w` cells.
pub open spec fn grid_shape(g: Seq<Seq<EntityRef>>, w: int, h: int) -> bool {
    &&& g.len() == h
    &&& forall|y: int| 0 <= y < h ==> #[trigger] g[y].len() == w
}

/// A carnivore spawned with index `id`: it has `energy` (read as an `i32`),
/// and was bred from one of `best` (keeping that one's action) or, when not
/// breeding, is new and resting.
pub open spec fn carnivore_spawned_ok(c: Carnivore, id: int, energy: u32, best: Seq<Carnivore>, from_best: bool) -> bool {
    &&& c.energy == energy as i32
    &&& c.id == id
    &&& if from_best {
        exists|b: int| 0 <= b < best.len() && c.parent == Some(#[trigger] best[b].id) && c.action == best[b].action
    } else {
        c.parent is None && c.action == Action::Idle
    }
}

/// A herbivore spawned with index `id`, as for carnivores.
pub open spec fn herbivore_spawned_ok(h: Herbivore, id: int, energy: u32, best: Seq<Herbivore>, from_best: bool) -> bool {
    &&& h.energy == energy as i32
    &&& h.id == id
    &&& if from_best {
        exists|b: int| 0 <= b < best.len() && h.parent == Some(#[trigger] best[b].id) && h.action == best[b].action
    } else {
        h.parent is None && h.action == Action::Idle
    }
}

/// The best animals after the living ones, taken in index order from `id`
/// on, join them: one joins per step while some are alive (`count > 0`) and
/// fewer than `cap` are kept. Returns the best animals and the count left.
pub open spec fn promote<A>(best: Seq<A>, count: int, xs: Seq<Option<A>>, cap: int, id: int) -> (Seq<A>, int)
    decreases xs.len() - id,
{
    if count > 0 && best.len() < cap && 0 <= id < xs.len() {
        match xs[id] {
            Some(a) => promote(best.push(a), count - 1, xs, cap, id + 1),
            None => promote(best, count, xs, cap, id + 1),
        }
    } else {
        (best, count)
    }
}

/// A grid of the given size with every cell empty.
pub open spec fn empty_grid(w: int, h: int) -> Seq<Seq<EntityRef>> {
    Seq::new(h as nat, |y: int| Seq::new(w as nat, |x: int| EntityRef::Empty))
}

/// The text of one cell: `X` for a carnivore, `o` for a herbivore, a space
/// for no animal, then `.` if grass grows there.
pub open spec fn cell_text(animal: EntityRef, plant: EntityRef) -> Seq<char> {
    (match animal {
        EntityRef::Carnivore(_) => seq!['X'],
        EntityRef::Herbivore(_) => seq!['o'],
        EntityRef::Grass => Seq::empty(),
        EntityRef::Empty => seq![' '],
    }) + if plant == EntityRef::Grass { seq!['.'] } else { Seq::empty() }
}

/// The text of the first `n` cells of a row.
pub open spec fn row_text(animals: Seq<EntityRef>, plants: Seq<EntityRef>, n: nat) -> Seq<char>
    decreases n,
{
    if n == 0 {
        Seq::empty()
    } else {
        row_text(animals, plants, (n - 1) as nat) + cell_text(animals[n - 1], plants[n - 1])
    }
}

/// The text of the first `n` rows of a map, each row ending in a newline.
pub open spec fn grid_text(animals: Seq<Seq<EntityRef>>, plants: Seq<Seq<EntityRef>>, w: nat, n: nat) -> Seq<char>
    decreases n,
{
    if n == 0 {
        Seq::empty()
    } else {
        grid_text(animals, plants, w, (n - 1) as nat) + row_text(animals[n - 1], plants[n - 1], w) + seq!['\n']
    }
}

impl WorldView {
    pub open spec fn in_grid(self, x: int, y: int) -> bool {
        0 <= x < self.size_x && 0 <= y < self.size_y
    }

    /// The herbivore with index `id` is alive at `(x, y)`.
    pub open spec fn herbivore_at(self, id: int, x: int, y: int) -> bool {
        &&& 0 <= id < self.herbivores.len()
        &&& self.herbivores[id] is Some
        &&& self.herbivores[id]->0.pos_x == x
        &&& self.herbivores[id]->0.pos_y == y
    }

    /// The carnivore with index `id` is alive at `(x, y)`.
    pub open spec fn carnivore_at(self, id: int, x: int, y: int) -> bool {
        &&& 0 <= id < self.carnivores.len()
        &&& self.carnivores[id] is Some
        &&& self.carnivores[id]->0.pos_x == x
        &&& self.carnivores[id]->0.pos_y == y
    }

    /// An animal cell refers to a living animal standing on it.
    pub open spec fn animal_cell_ok(self, x: int, y: int) -> bool {
        match self.animals[y][x] {
            EntityRef::Herbivore(id) => self.herbivore_at(id as int, x, y),
            EntityRef::Carnivore(id) => self.carnivore_at(id as int, x, y),
            EntityRef::Grass => false,
            EntityRef::Empty => true,
        }
    }

    /// A plant cell holds grass or nothing.
    pub open spec fn plant_cell_ok(self, x: int, y: int) -> bool {
        self.plants[y][x] == EntityRef::Grass || self.plants[y][x] == EntityRef::Empty
    }

    /// A living herbivore knows its index and stands on its own cell.
    pub open spec fn herbivore_ok(self, i: int) -> bool {
        self.herbivores[i] matches Some(h) ==> {
            &&& h.id == i
            &&& h.pos_x < self.size_x
            &&& h.pos_y < self.size_y
            &&& self.animals[h.pos_y as int][h.pos_x as int] == EntityRef::Herbivore(i as usize)
        }
    }

    /// A living carnivore knows its index and stands on its own cell.
    pub open spec fn carnivore_ok(self, i: int) -> bool {
        self.carnivores[i] matches Some(c) ==> {
            &&& c.id == i
            &&& c.pos_x < self.size_x
            &&& c.pos_y < self.size_y
            &&& self.animals[c.pos_y as int][c.pos_x as int] == EntityRef::Carnivore(i as usize)
        }
    }

    /// When recording, a record of the running generation exists.
    pub open spec fn recording_ready(self) -> bool {
        self.record ==> self.current_record is Some
    }

    /// The record of the running generation has one list per animal.
    pub open spec fn recording_ok(self) -> bool {
        &&& self.current_record matches Some(r) ==> {
            &&& r.carnivore_records.len() == self.carnivores.len()
            &&& r.herbivore_records.len() == self.herbivores.len()
        }
    }

    /// Entities can be spawned: the grid has a cell, or nothing is spawned.
    pub open spec fn spawn_ok(self) -> bool {
        (self.size_x > 0 && self.size_y > 0)
            || (self.carnivore_start_count == 0 && self.herbivore_start_count == 0 && self.grass_start_count == 0)
    }

    /// The map's fixed settings allow it to work: positions fit the eating
    /// window's arithmetic, entities can be spawned, and the size of an
    /// animal's sensing vector is known.
    pub open spec fn settings_ok(self) -> bool {
        &&& self.size_x <= i32::MAX - 2
        &&& self.size_y <= i32::MAX - 2
        &&& self.spawn_ok()
        &&& self.input_count == ((2 * self.sense_radius + 1) * (2 * self.sense_radius + 1) - 1) * 4
    }

    /// The map's invariant: the grids have the map's size, the animal grid and
    /// the animal lists agree cell by cell, and the counters count what is
    /// alive or growing.
    pub open spec fn wf(self) -> bool {
        &&& grid_shape(self.animals, self.size_x as int, self.size_y as int)
        &&& grid_shape(self.plants, self.size_x as int, self.size_y as int)
        &&& self.size_x <= i32::MAX - 2
        &&& self.size_y <= i32::MAX - 2
        &&& forall|x: int, y: int| self.in_grid(x, y) ==> #[trigger] self.animal_cell_ok(x, y)
        &&& forall|x: int, y: int| self.in_grid(x, y) ==> #[trigger] self.plant_cell_ok(x, y)
        &&& forall|i: int| 0 <= i < self.herbivores.len() ==> #[trigger] self.herbivore_ok(i)
        &&& forall|i: int| 0 <= i < self.carnivores.len() ==> #[trigger] self.carnivore_ok(i)
        &&& self.herbivore_count == count_some(self.herbivores)
        &&& self.carnivore_count == count_some(self.carnivores)
        &&& self.grass_count == count_grass(self.plants)
        &&& self.herbivores.len() <= u32::MAX
        &&& self.carnivores.len() <= u32::MAX
        &&& self.grass_count <= u32::MAX
        &&& self.spawn_ok()
        &&& self.input_count == ((2 * self.sense_radius + 1) * (2 * self.sense_radius + 1) - 1) * 4
        &&& self.recording_ok()
    }

    pub open spec fn with_animal_cell(self, x: int, y: int, e: EntityRef) -> WorldView {
        WorldView { animals: self.animals.update(y, self.animals[y].update(x, e)), ..self }
    }

    pub open spec fn with_plant_cell(self, x: int, y: int, e: EntityRef) -> WorldView {
        WorldView { plants: self.plants.update(y, self.plants[y].update(x, e)), ..self }
    }

    /// An animal can move from `(fx, fy)` to `(tx, ty)`: the target is on the
    /// grid and free, and the source holds an animal.
    pub open spec fn can_move(self, fx: int, fy: int, tx: int, ty: int) -> bool {
        &&& self.in_grid(tx, ty)
        &&& self.animals[ty][tx] == EntityRef::Empty
        &&& self.animals[fy][fx] != EntityRef::Empty
    }

    /// The map after the animal at `(fx, fy)` moved to `(tx, ty)`.
    pub open spec fn after_move(self, fx: int, fy: int, tx: int, ty: int) -> WorldView {
        let e = self.animals[fy][fx];
        let moved = match e {
            EntityRef::Carnivore(id) => WorldView {
                carnivores: self.carnivores.update(
                    id as int,
                    Some(Carnivore { pos_x: tx as usize, pos_y: ty as usize, ..self.carnivores[id as int]->0 }),
                ),
                ..self
            },
            EntityRef::Herbivore(id) => WorldView {
                herbivores: self.herbivores.update(
                    id as int,
                    Some(Herbivore { pos_x: tx as usize, pos_y: ty as usize, ..self.herbivores[id as int]->0 }),
                ),
                ..self
            },
            _ => self,
        };
        moved.with_animal_cell(fx, fy, EntityRef::Empty).with_animal_cell(tx, ty, e)
    }

    /// Moving an animal: the map after the attempt and whether it moved.
    pub open spec fn move_animal_spec(self, fx: int, fy: int, tx: int, ty: int) -> (WorldView, bool) {
        if self.can_move(fx, fy, tx, ty) {
            (self.after_move(fx, fy, tx, ty), true)
        } else {
            (self, false)
        }
    }

    /// The map after the animal at `(x, y)` died: it leaves the grid and its
    /// list, the counter drops, and while the population is at or below the
    /// number of best animals to keep, it joins the best ones.
    pub open spec fn after_kill(self, x: int, y: int) -> WorldView {
        match self.animals[y][x] {
            EntityRef::Herbivore(id) => WorldView {
                herbivores: self.herbivores.update(id as int, None),
                herbivore_count: (self.herbivore_count - 1) as u32,
                best_herbivores: if self.herbivore_count <= self.generation_config.best_herbivore_count {
                    self.best_herbivores.push(self.herbivores[id as int]->0)
                } else {
                    self.best_herbivores
                },
                ..self
            }.with_animal_cell(x, y, EntityRef::Empty),
            EntityRef::Carnivore(id) => WorldView {
                carnivores: self.carnivores.update(id as int, None),
                carnivore_count: (self.carnivore_count - 1) as u32,
                best_carnivores: if self.carnivore_count <= self.generation_config.best_carnivore_count {
                    self.best_carnivores.push(self.carnivores[id as int]->0)
                } else {
                    self.best_carnivores
                },
                ..self
            }.with_animal_cell(x, y, EntityRef::Empty),
            _ => self,
        }
    }

    /// The window an animal at `(x_in, y_in)` can eat from: up to two cells
    /// away in each direction, clipped to the grid, as `(x_min, x_max, y_min,
    /// y_max)` with exclusive upper ends.
    pub open spec fn eat_window(self, x_in: int, y_in: int) -> (int, int, int, int) {
        (
            if x_in - 2 < 0 { 0 } else { x_in - 2 },
            if x_in + 3 < self.size_x { x_in + 3 } else { self.size_x as int },
            if y_in - 2 < 0 { 0 } else { y_in - 2 },
            if y_in + 3 < self.size_y { y_in + 3 } else { self.size_y as int },
        )
    }

    /// The cell `(x, y)` holds food of kind `t`: a herbivore in the animal
    /// grid, or grass in the plant grid.
    pub open spec fn is_prey(self, t: EntityType, x: int, y: int) -> bool {
        ||| t == EntityType::Herbivore && self.animals[y][x] is Herbivore
        ||| t == EntityType::Grass && self.plants[y][x] == EntityRef::Grass
    }

    /// `(x, y)` is in the eating window of `(x_in, y_in)`, is not that cell
    /// itself, and holds food of kind `t`.
    pub open spec fn eat_candidate(self, x_in: int, y_in: int, t: EntityType, x: int, y: int) -> bool {
        let (x0, x1, y0, y1) = self.eat_window(x_in, y_in);
        &&& x0 <= x < x1
        &&& y0 <= y < y1
        &&& !(x == x_in && y == y_in)
        &&& self.is_prey(t, x, y)
    }

    /// `(x, y)` is the first candidate in row-major order (top row first,
    /// left to right).
    pub open spec fn first_candidate(self, x_in: int, y_in: int, t: EntityType, x: int, y: int) -> bool {
        &&& self.eat_candidate(x_in, y_in, t, x, y)
        &&& forall|xx: int, yy: int|
            (yy < y || (yy == y && xx < x)) ==> !#[trigger] self.eat_candidate(x_in, y_in, t, xx, yy)
    }

    /// The cell an animal at `(x_in, y_in)` eats from, if any.
    pub open spec fn eat_choice(self, x_in: int, y_in: int, t: EntityType) -> Option<(int, int)> {
        if exists|x: int, y: int| self.first_candidate(x_in, y_in, t, x, y) {
            Some(choose|x: int, y: int| self.first_candidate(x_in, y_in, t, x, y))
        } else {
            None
        }
    }

    /// The map after the food of kind `t` at `(x, y)` was eaten: a herbivore
    /// dies; grass disappears, its counter drops, and the running record
    /// notes `(tick, x, y)`.
    pub open spec fn after_eating(self, x: int, y: int, t: EntityType) -> WorldView {
        if t == EntityType::Herbivore {
            self.after_kill(x, y)
        } else {
            WorldView {
                grass_count: (self.grass_count - 1) as u32,
                current_record: match self.current_record {
                    Some(r) => if self.record {
                        Some(RecordingView { dead_grass: r.dead_grass.push((self.tick, x as usize, y as usize)), ..r })
                    } else {
                        Some(r)
                    },
                    None => None,
                },
                ..self
            }.with_plant_cell(x, y, EntityRef::Empty)
        }
    }

    /// An animal at `(x_in, y_in)` eating food of kind `t`: the map after it
    /// and whether it found food.
    pub open spec fn eat_spec(self, x_in: int, y_in: int, t: EntityType) -> (WorldView, bool) {
        match self.eat_choice(x_in, y_in, t) {
            Some((x, y)) => (self.after_eating(x, y, t), true),
            None => (self, false),
        }
    }

    /// The coordinates of an eater for which the window can be computed.
    pub open spec fn eat_args_ok(x_in: int, y_in: int) -> bool {
        -3 <= x_in <= i32::MAX - 3 && -3 <= y_in <= i32::MAX - 3
    }

    /// Every living animal's energy lies in `[lo, hi]`.
    pub open spec fn energies_between(self, lo: int, hi: int) -> bool {
        &&& forall|i: int| 0 <= i < self.carnivores.len() && #[trigger] self.carnivores[i] is Some
            ==> lo <= self.carnivores[i]->0.energy <= hi
        &&& forall|i: int| 0 <= i < self.herbivores.len() && #[trigger] self.herbivores[i] is Some
            ==> lo <= self.herbivores[i]->0.energy <= hi
    }

    /// The generation counter once the next generation is bred: the end of
    /// the running one is counted unless it was counted already.
    pub open spec fn generation_after_breeding(self) -> int {
        if self.generation_over { self.generation as int } else { self.generation + 1 }
    }

    /// The per-animal record lists of the running record.
    pub open spec fn animal_records(self) -> (Seq<Seq<AnimalRecord>>, Seq<Seq<AnimalRecord>>) {
        (self.current_record->0.carnivore_records, self.current_record->0.herbivore_records)
    }

    /// Every living animal has energy of at least `lo`.
    pub open spec fn survivors_at_least(self, lo: int) -> bool {
        &&& forall|i: int| 0 <= i < self.carnivores.len() && #[trigger] self.carnivores[i] is Some
            ==> lo <= self.carnivores[i]->0.energy
        &&& forall|i: int| 0 <= i < self.herbivores.len() && #[trigger] self.herbivores[i] is Some
            ==> lo <= self.herbivores[i]->0.energy
    }

    /// Every living animal that chose to eat has energy in `[lo, hi]`.
    pub open spec fn eaters_between(self, lo: int, hi: int) -> bool {
        &&& forall|i: int| 0 <= i < self.carnivores.len() && #[trigger] self.carnivores[i] is Some
            && self.carnivores[i]->0.action == Action::Eat ==> lo <= self.carnivores[i]->0.energy <= hi
        &&& forall|i: int| 0 <= i < self.herbivores.len() && #[trigger] self.herbivores[i] is Some
            && self.herbivores[i]->0.action == Action::Eat ==> lo <= self.herbivores[i]->0.energy <= hi
    }

    /// The energies leave room for a tick: every living animal can pay for a
    /// walk, and every one that chose to eat can take a meal.
    pub open spec fn tick_energies_ok(self) -> bool {
        &&& self.energies_between(i32::MIN + 3, i32::MAX as int)
        &&& self.eaters_between(i32::MIN + 3, i32::MAX - 100)
    }

    /// The map with carnivore `i` replaced by `c`.
    pub open spec fn with_carnivore(self, i: int, c: Carnivore) -> WorldView {
        WorldView { carnivores: self.carnivores.update(i, Some(c)), ..self }
    }

    /// The map with herbivore `i` replaced by `h`.
    pub open spec fn with_herbivore(self, i: int, h: Herbivore) -> WorldView {
        WorldView { herbivores: self.herbivores.update(i, Some(h)), ..self }
    }

    /// Carnivore `i`'s eating step: if it is alive and chose to eat, it eats
    /// the first herbivore within reach and gains 100 energy, or loses 1 if
    /// none is there; at 0 energy or below it dies.
    pub open spec fn carnivore_eat_step(self, i: int) -> WorldView {
        match self.carnivores[i] {
            Some(c) => if c.action == Action::Eat {
                let (v1, ate) = self.eat_spec(c.pos_x as int, c.pos_y as int, EntityType::Herbivore);
                let e = energy_after(c.energy, if ate { 100 } else { -1 });
                let v2 = v1.with_carnivore(i, Carnivore { energy: e, ..c });
                if e <= 0 { v2.after_kill(c.pos_x as int, c.pos_y as int) } else { v2 }
            } else {
                self
            },
            None => self,
        }
    }

    /// Herbivore `i`'s eating step: as for carnivores, with grass as food.
    pub open spec fn herbivore_eat_step(self, i: int) -> WorldView {
        match self.herbivores[i] {
            Some(h) => if h.action == Action::Eat {
                let (v1, ate) = self.eat_spec(h.pos_x as int, h.pos_y as int, EntityType::Grass);
                let e = energy_after(h.energy, if ate { 100 } else { -1 });
                let v2 = v1.with_herbivore(i, Herbivore { energy: e, ..h });
                if e <= 0 { v2.after_kill(h.pos_x as int, h.pos_y as int) } else { v2 }
            } else {
                self
            },
            None => self,
        }
    }

    /// The eating steps of the first `n` carnivores, in index order.
    pub open spec fn carnivore_eat_steps(self, n: nat) -> WorldView
        decreases n,
    {
        if n == 0 {
            self
        } else {
            self.carnivore_eat_steps((n - 1) as nat).carnivore_eat_step(n - 1)
        }
    }

    /// The eating steps of the first `n` herbivores, in index order.
    pub open spec fn herbivore_eat_steps(self, n: nat) -> WorldView
        decreases n,
    {
        if n == 0 {
            self
        } else {
            self.herbivore_eat_steps((n - 1) as nat).herbivore_eat_step(n - 1)
        }
    }

    /// The eating phase of a tick: every carnivore, then every herbivore.
    pub open spec fn eat_phase(self) -> WorldView {
        let v = self.carnivore_eat_steps(self.carnivores.len());
        v.herbivore_eat_steps(v.herbivores.len())
    }

    /// Carnivore `i`'s moving step: if it is alive, it carries out its
    /// action; a walk that succeeds costs 3 energy, anything else 1; at 0
    /// energy or below it dies.
    pub open spec fn carnivore_other_step(self, i: int) -> WorldView {
        match self.carnivores[i] {
            Some(c) => {
                let (v1, moved) = self.other_action_spec(c.pos_x as int, c.pos_y as int, c.action);
                let c1 = v1.carnivores[i]->0;
                let e = energy_after(c.energy, if moved { -3 } else { -1 });
                let v2 = v1.with_carnivore(i, Carnivore { energy: e, ..c1 });
                if e <= 0 { v2.after_kill(c1.pos_x as int, c1.pos_y as int) } else { v2 }
            },
            None => self,
        }
    }

    /// Herbivore `i`'s moving step, as for carnivores.
    pub open spec fn herbivore_other_step(self, i: int) -> WorldView {
        match self.herbivores[i] {
            Some(h) => {
                let (v1, moved) = self.other_action_spec(h.pos_x as int, h.pos_y as int, h.action);
                let h1 = v1.herbivores[i]->0;
                let e = energy_after(h.energy, if moved { -3 } else { -1 });
                let v2 = v1.with_herbivore(i, Herbivore { energy: e, ..h1 });
                if e <= 0 { v2.after_kill(h1.pos_x as int, h1.pos_y as int) } else { v2 }
            },
            None => self,
        }
    }

    /// The moving steps of the first `n` carnivores, in index order.
    pub open spec fn carnivore_other_steps(self, n: nat) -> WorldView
        decreases n,
    {
        if n == 0 {
            self
        } else {
            self.carnivore_other_steps((n - 1) as nat).carnivore_other_step(n - 1)
        }
    }

    /// The moving steps of the first `n` herbivores, in index order.
    pub open spec fn herbivore_other_steps(self, n: nat) -> WorldView
        decreases n,
    {
        if n == 0 {
            self
        } else {
            self.herbivore_other_steps((n - 1) as nat).herbivore_other_step(n - 1)
        }
    }

    /// The moving phase of a tick: every carnivore, then every herbivore.
    pub open spec fn other_phase(self) -> WorldView {
        let v = self.carnivore_other_steps(self.carnivores.len());
        v.herbivore_other_steps(v.herbivores.len())
    }

    /// The map after the running record noted this tick's animals.
    pub open spec fn recorded(self) -> WorldView {
        WorldView { current_record: Some(self.current_record->0.after_tick(self.carnivores, self.herbivores)), ..self }
    }

    /// One tick, once every animal has chosen its action: the record notes
    /// the animals (when recording), then the eating phase, then the moving
    /// phase; the tick counter advances.
    pub open spec fn tick_spec(self) -> WorldView {
        let v0 = if self.record { self.recorded() } else { self };
        let v = v0.eat_phase().other_phase();
        WorldView { tick: (v.tick + 1) as usize, ..v }
    }

    /// A population is at or below a threshold that is in use (not negative).
    pub open spec fn at_or_below(count: u32, threshold: i32) -> bool {
        threshold >= 0 && count as i32 <= threshold
    }

    /// Whether the running generation is over: it was already, or the tick
    /// limit is reached, or the populations are at or below their thresholds
    /// (all of them, or any one of them, as configured).
    pub open spec fn generation_ends(self) -> bool {
        let cfg = self.generation_config;
        let by_ticks = cfg.max_ticks_per_generation >= 0 && self.tick >= cfg.max_ticks_per_generation as usize;
        let c = Self::at_or_below(self.carnivore_count, cfg.carnivore_count);
        let h = Self::at_or_below(self.herbivore_count, cfg.herbivore_count);
        let g = Self::at_or_below(self.grass_count, cfg.grass_count);
        let by_levels = if cfg.all_entities_must_be_under_min_levels { c && h && g } else { c || h || g };
        self.generation_over || by_ticks || by_levels
    }

    /// The map after checking for the end of the generation: the flag is set
    /// when it ends, and the generation counter advances when it ends now.
    pub open spec fn after_generation_check(self) -> WorldView {
        let over = self.generation_ends();
        WorldView {
            generation_over: over,
            generation: if !self.generation_over && over { (self.generation + 1) as usize } else { self.generation },
            ..self
        }
    }

    /// A new carnivore at `(x, y)`, bred from best carnivore `parent` if given.
    pub open spec fn spawned_carnivore(self, x: int, y: int, parent: Option<usize>) -> Carnivore {
        match parent {
            Some(b) => Carnivore {
                energy: self.carnivore_max_energy as i32,
                action: self.best_carnivores[b as int].action,
                pos_x: x as usize,
                pos_y: y as usize,
                id: self.carnivores.len() as usize,
                parent: Some(self.best_carnivores[b as int].id),
            },
            None => Carnivore {
                energy: self.carnivore_max_energy as i32,
                action: Action::Idle,
                pos_x: x as usize,
                pos_y: y as usize,
                id: self.carnivores.len() as usize,
                parent: None,
            },
        }
    }

    /// A new herbivore at `(x, y)`, bred from best herbivore `parent` if given.
    pub open spec fn spawned_herbivore(self, x: int, y: int, parent: Option<usize>) -> Herbivore {
        match parent {
            Some(b) => Herbivore {
                energy: self.herbivore_max_energy as i32,
                action: self.best_herbivores[b as int].action,
                pos_x: x as usize,
                pos_y: y as usize,
                id: self.herbivores.len() as usize,
                parent: Some(self.best_herbivores[b as int].id),
            },
            None => Herbivore {
                energy: self.herbivore_max_energy as i32,
                action: Action::Idle,
                pos_x: x as usize,
                pos_y: y as usize,
                id: self.herbivores.len() as usize,
                parent: None,
            },
        }
    }

    /// The cell `(x, y)` can take a new entity of kind `t`.
    pub open spec fn cell_free_for(self, t: EntityType, x: int, y: int) -> bool {
        match t {
            EntityType::Herbivore | EntityType::Carnivore => self.animals[y][x] == EntityRef::Empty,
            EntityType::Grass => self.plants[y][x] == EntityRef::Empty,
            EntityType::Empty => false,
        }
    }

    /// The map after an entity of kind `t` was placed at `(x, y)`: a new
    /// animal is appended to its list, grass grows in the plant grid, and the
    /// counter rises.
    pub open spec fn after_placing(self, t: EntityType, x: int, y: int, parent: Option<usize>) -> WorldView {
        match t {
            EntityType::Grass => WorldView {
                grass_count: (self.grass_count + 1) as u32,
                ..self
            }.with_plant_cell(x, y, EntityRef::Grass),
            EntityType::Herbivore => WorldView {
                herbivores: self.herbivores.push(Some(self.spawned_herbivore(x, y, parent))),
                herbivore_count: (self.herbivore_count + 1) as u32,
                ..self
            }.with_animal_cell(x, y, EntityRef::Herbivore(self.herbivores.len() as usize)),
            EntityType::Carnivore => WorldView {
                carnivores: self.carnivores.push(Some(self.spawned_carnivore(x, y, parent))),
                carnivore_count: (self.carnivore_count + 1) as u32,
                ..self
            }.with_animal_cell(x, y, EntityRef::Carnivore(self.carnivores.len() as usize)),
            EntityType::Empty => self,
        }
    }

    /// Placing an entity of kind `t` at `(x, y)`: the map after it and
    /// whether the cell was free.
    pub open spec fn place_spec(self, t: EntityType, x: int, y: int, parent: Option<usize>) -> (WorldView, bool) {
        if self.cell_free_for(t, x, y) {
            (self.after_placing(t, x, y, parent), true)
        } else {
            (self, false)
        }
    }

    /// A carnivore spawned into this map: full energy, its index, and bred
    /// from one of the best carnivores or new.
    pub open spec fn new_carnivore_ok(self, c: Carnivore, id: int, from_best: bool) -> bool {
        carnivore_spawned_ok(c, id, self.carnivore_max_energy, self.best_carnivores, from_best)
    }

    /// A herbivore spawned into this map, as for carnivores.
    pub open spec fn new_herbivore_ok(self, h: Herbivore, id: int, from_best: bool) -> bool {
        herbivore_spawned_ok(h, id, self.herbivore_max_energy, self.best_herbivores, from_best)
    }

    /// The settings a map keeps for its whole life are equal.
    pub open spec fn same_fixed_settings(self, other: WorldView) -> bool {
        &&& other.carnivore_start_count == self.carnivore_start_count
        &&& other.herbivore_start_count == self.herbivore_start_count
        &&& other.grass_start_count == self.grass_start_count
        &&& other.sense_radius == self.sense_radius
        &&& other.carnivore_max_energy == self.carnivore_max_energy
        &&& other.herbivore_max_energy == self.herbivore_max_energy
        &&& other.input_count == self.input_count
        &&& other.size_x == self.size_x
        &&& other.size_y == self.size_y
        &&& other.record == self.record
        &&& other.generation_config == self.generation_config
    }

    /// Everything but the grids, the animal lists and the counters is equal.
    pub open spec fn same_settings(self, other: WorldView) -> bool {
        &&& other.best_carnivores == self.best_carnivores
        &&& other.best_herbivores == self.best_herbivores
        &&& other.carnivore_start_count == self.carnivore_start_count
        &&& other.herbivore_start_count == self.herbivore_start_count
        &&& other.grass_start_count == self.grass_start_count
        &&& other.sense_radius == self.sense_radius
        &&& other.carnivore_max_energy == self.carnivore_max_energy
        &&& other.herbivore_max_energy == self.herbivore_max_energy
        &&& other.input_count == self.input_count
        &&& other.size_x == self.size_x
        &&& other.size_y == self.size_y
        &&& other.generation == self.generation
        &&& other.tick == self.tick
        &&& other.generation_over == self.generation_over
        &&& other.record == self.record
        &&& other.current_record == self.current_record
        &&& other.complete_record == self.complete_record
        &&& other.generation_config == self.generation_config
    }

    /// Every cell of the layer that entities of kind `t` go to is free.
    pub open spec fn layer_empty(self, t: EntityType) -> bool {
        forall|x: int, y: int| self.in_grid(x, y) ==> #[trigger] self.cell_free_for(t, x, y)
    }

    /// How many entities of kind `t` have been spawned into the running
    /// generation: the length of an animal list, or the number of grass cells.
    pub open spec fn population(self, t: EntityType) -> int {
        match t {
            EntityType::Carnivore => self.carnivores.len() as int,
            EntityType::Herbivore => self.herbivores.len() as int,
            EntityType::Grass => self.grass_count as int,
            EntityType::Empty => 0,
        }
    }

    /// `other` is this map with at most `k` entities of kind `t` added, each
    /// on a free cell, and nothing else changed.
    pub open spec fn grown_by(self, other: WorldView, t: EntityType, from_best: bool, k: int) -> bool {
        &&& self.same_settings(other)
        &&& t != EntityType::Carnivore ==> other.carnivores == self.carnivores
        &&& t != EntityType::Herbivore ==> other.herbivores == self.herbivores
        &&& t != EntityType::Grass ==> other.plants == self.plants && other.grass_count == self.grass_count
        &&& t != EntityType::Herbivore && t != EntityType::Carnivore ==> other.animals == self.animals
        &&& t == EntityType::Carnivore ==> {
            &&& self.carnivores.len() <= other.carnivores.len() <= self.carnivores.len() + k
            &&& other.carnivores.subrange(0, self.carnivores.len() as int) == self.carnivores
            &&& forall|i: int| self.carnivores.len() <= i < other.carnivores.len() ==> {
                &&& #[trigger] other.carnivores[i] is Some
                &&& self.new_carnivore_ok(other.carnivores[i]->0, i, from_best)
            }
        }
        &&& t == EntityType::Herbivore ==> {
            &&& self.herbivores.len() <= other.herbivores.len() <= self.herbivores.len() + k
            &&& other.herbivores.subrange(0, self.herbivores.len() as int) == self.herbivores
            &&& forall|i: int| self.herbivores.len() <= i < other.herbivores.len() ==> {
                &&& #[trigger] other.herbivores[i] is Some
                &&& self.new_herbivore_ok(other.herbivores[i]->0, i, from_best)
            }
        }
        &&& t == EntityType::Grass ==> self.grass_count <= other.grass_count <= self.grass_count + k
        &&& other.population(t) == self.population(t) ==> other.animals == self.animals && other.plants == self.plants
        &&& forall|x: int, y: int| self.in_grid(x, y) && self.animals[y][x] != EntityRef::Empty
            ==> #[trigger] other.animals[y][x] == self.animals[y][x]
        &&& forall|x: int, y: int| self.in_grid(x, y) && self.plants[y][x] == EntityRef::Grass
            ==> #[trigger] other.plants[y][x] == EntityRef::Grass
    }

    /// A fresh record of this map's generation: its animals and grass as
    /// they are, an empty list per animal, and no grass eaten.
    pub open spec fn fresh_record(self) -> RecordingView {
        RecordingView {
            carnivores_at_start: self.carnivores,
            herbivores_at_start: self.herbivores,
            grass_at_start: grass_positions(self.plants),
            carnivore_records: Seq::new(self.carnivores.len(), |i: int| Seq::<AnimalRecord>::empty()),
            herbivore_records: Seq::new(self.herbivores.len(), |i: int| Seq::<AnimalRecord>::empty()),
            dead_grass: Seq::empty(),
        }
    }

    /// The best carnivores once the living ones joined them (see [`promote`]).
    pub open spec fn promoted_carnivores(self) -> Seq<Carnivore> {
        promote(
            self.best_carnivores,
            self.carnivore_count as int,
            self.carnivores,
            self.generation_config.best_carnivore_count as int,
            0,
        ).0
    }

    /// The best herbivores once the living ones joined them.
    pub open spec fn promoted_herbivores(self) -> Seq<Herbivore> {
        promote(
            self.best_herbivores,
            self.herbivore_count as int,
            self.herbivores,
            self.generation_config.best_herbivore_count as int,
            0,
        ).0
    }

    /// There are animals of both kinds to breed the next generation from:
    /// best ones kept already, or living ones that may join them.
    pub open spec fn breeding_stock(self) -> bool {
        &&& self.best_carnivores.len() > 0
            || (self.carnivore_count > 0 && self.generation_config.best_carnivore_count > 0)
        &&& self.best_herbivores.len() > 0
            || (self.herbivore_count > 0 && self.generation_config.best_herbivore_count > 0)
    }

    /// The population was just spawned: every animal is alive with full
    /// energy, bred from `best_c`/`best_h` or new as `from_best` says, and no
    /// more entities than configured exist.
    pub open spec fn freshly_spawned(self, best_c: Seq<Carnivore>, best_h: Seq<Herbivore>, from_best: bool) -> bool {
        &&& self.carnivores.len() <= self.carnivore_start_count
        &&& forall|i: int| 0 <= i < self.carnivores.len() ==> {
            &&& #[trigger] self.carnivores[i] is Some
            &&& carnivore_spawned_ok(self.carnivores[i]->0, i, self.carnivore_max_energy, best_c, from_best)
        }
        &&& self.herbivores.len() <= self.herbivore_start_count
        &&& forall|i: int| 0 <= i < self.herbivores.len() ==> {
            &&& #[trigger] self.herbivores[i] is Some
            &&& herbivore_spawned_ok(self.herbivores[i]->0, i, self.herbivore_max_energy, best_h, from_best)
        }
        &&& self.grass_count <= self.grass_start_count
        &&& self.carnivore_start_count > 0 ==> self.carnivores.len() >= 1
        &&& self.herbivore_start_count > 0 && self.carnivores.len() == 0 ==> self.herbivores.len() >= 1
        &&& self.grass_start_count > 0 ==> self.grass_count >= 1
        &&& self.tick == 0
        &&& !self.generation_over
    }

    /// The grid an animal senses entities of kind `t` in: the plants for
    /// grass, the animals otherwise.
    pub open spec fn sensed_grid(self, t: EntityType) -> Seq<Seq<EntityRef>> {
        if t == EntityType::Grass { self.plants } else { self.animals }
    }

    /// What an animal at `(xc, yc)` perceives of kind `t` (see
    /// [`crate::sensing::partial_input_spec`]).
    pub open spec fn partial_input(self, xc: int, yc: int, t: EntityType) -> Seq<bool> {
        partial_input_spec(self.sensed_grid(t), self.sense_radius as int, xc, yc, t)
    }

    /// An animal's full sensing vector: walls, carnivores, herbivores, grass.
    pub open spec fn input(self, xc: int, yc: int) -> Seq<bool> {
        self.partial_input(xc, yc, EntityType::Empty) + self.partial_input(xc, yc, EntityType::Carnivore)
            + self.partial_input(xc, yc, EntityType::Herbivore) + self.partial_input(xc, yc, EntityType::Grass)
    }

    /// The square around `(xc, yc)` can be walked with `i32` coordinates.
    pub open spec fn sensing_coords_ok(self, xc: i32, yc: i32) -> bool {
        &&& self.sense_radius <= i32::MAX
        &&& i32::MIN <= xc - self.sense_radius
        &&& xc + 1 + self.sense_radius <= i32::MAX
        &&& i32::MIN <= yc - self.sense_radius
        &&& yc + 1 + self.sense_radius <= i32::MAX
    }

    /// The cell that `action` walks to from `(x, y)`, if it is a walk that
    /// does not leave the grid at the low edges.
    pub open spec fn walk_target(x: int, y: int, action: Action) -> Option<(int, int)> {
        match action {
            Action::WalkDown => if y == 0 { None } else { Some((x, y - 1)) },
            Action::WalkUp => Some((x, y + 1)),
            Action::WalkLeft => if x == 0 { None } else { Some((x - 1, y)) },
            Action::WalkRight => Some((x + 1, y)),
            _ => None,
        }
    }

    /// Taking a non-eating action at `(x, y)`: the map after it and whether
    /// the animal moved.
    pub open spec fn other_action_spec(self, x: int, y: int, action: Action) -> (WorldView, bool) {
        match Self::walk_target(x, y, action) {
            Some((tx, ty)) => self.move_animal_spec(x, y, tx, ty),
            None => (self, false),
        }
    }
}

impl View for WorldMap {
    type V = WorldView;

    closed spec fn view(&self) -> WorldView {
        WorldView {
            animals: grid_view(&self.animals),
            plants: grid_view(&self.plants),
            carnivores: self.carnivores@,
            herbivores: self.herbivores@,
            best_carnivores: self.best_carnivores@,
            best_herbivores: self.best_herbivores@,
            carnivore_start_count: self.carnivore_start_count,
            herbivore_start_count: self.herbivore_start_count,
            grass_start_count: self.grass_start_count,
            carnivore_count: self.carnivore_count,
            herbivore_count: self.herbivore_count,
            grass_count: self.grass_count,
            sense_radius: self.sense_radius,
            carnivore_max_energy: self.carnivore_max_energy,
            herbivore_max_energy: self.herbivore_max_energy,
            input_count: self.input_count,
            size_x: self.size_x,
            size_y: self.size_y,
            generation: self.generation,
            tick: self.tick,
            generation_over: self.generation_over,
            record: self.record,
            current_record: match self.current_generation_record {
                Some(r) => Some(r@),
                None => None,
            },
            complete_record: self.complete_record@.map_values(|r: GenerationRecording| r@),
            generation_config: self.generation_config,
        }
    }
}

/// Sets the cell `(x, y)` of a grid.
fn set_cell(grid: &mut Vec<Vec<EntityRef>>, x: usize, y: usize, e: EntityRef)
    requires
        y < old(grid)@.len(),
        x < old(grid)@[y as int]@.len(),
    ensures
        grid_view(final(grid)) == grid_view(old(grid)).update(y as int, grid_view(old(grid))[y as int].update(x as int, e)),
        final(grid)@.len() == old(grid)@.len(),
        forall|i: int| 0 <= i < old(grid)@.len() ==> #[trigger] final(grid)@[i]@.len() == old(grid)@[i]@.len(),
{
    grid[y][x] = e;
    assert(grid_view(grid) =~= grid_view(old(grid)).update(y as int, grid_view(old(grid))[y as int].update(x as int, e)));
}

impl WorldMap {
    /// The map's invariant (see [`WorldView::wf`]).
    pub open spec fn wf(&self) -> bool {
        self@.wf()
    }

    proof fn lemma_row_len(&self, y: int)
        requires
            self.wf(),
        ensures
            self.animals@.len() == self.size_y,
            self.plants@.len() == self.size_y,
            0 <= y < self.size_y ==> self.animals@[y]@.len() == self.size_x && self.plants@[y]@.len() == self.size_x,
    {
        if 0 <= y < self.size_y {
            assert(self@.animals[y].len() == self.size_x);
            assert(self@.plants[y].len() == self.size_x);
        }
    }

    /// Moves the animal at `(from_x, from_y)` to `(to_x, to_y)` when the
    /// target is on the grid and free and the source holds an animal; the
    /// animal's own position follows. Returns whether it moved.
    pub fn move_animal(&mut self, from_x: usize, from_y: usize, to_x: usize, to_y: usize) -> (moved: bool)
        requires
            old(self).wf(),
            old(self)@.in_grid(to_x as int, to_y as int) && old(self)@.animals[to_y as int][to_x as int] == EntityRef::Empty
                ==> old(self)@.in_grid(from_x as int, from_y as int),
        ensures
            final(self).wf(),
            (final(self)@, moved) == old(self)@.move_animal_spec(from_x as int, from_y as int, to_x as int, to_y as int),
    {
        proof {
            self.lemma_row_len(to_y as int);
            self.lemma_row_len(from_y as int);
        }
        if to_x >= self.size_x || to_y >= self.size_y || self.animals[to_y][to_x] != EntityRef::Empty
            || self.animals[from_y][from_x] == EntityRef::Empty {
            return false;
        }
        let ghost v0 = self@;
        let e = self.animals[from_y][from_x];
        if let EntityRef::Carnivore(id) = e {
            assert(v0.animal_cell_ok(from_x as int, from_y as int));
            let mut c = self.carnivores[id].unwrap();
            c.set_position(to_x, to_y);
            self.carnivores.set(id, Some(c));
        }
        if let EntityRef::Herbivore(id) = e {
            assert(v0.animal_cell_ok(from_x as int, from_y as int));
            let mut h = self.herbivores[id].unwrap();
            h.set_position(to_x, to_y);
            self.herbivores.set(id, Some(h));
        }
        set_cell(&mut self.animals, from_x, from_y, EntityRef::Empty);
        set_cell(&mut self.animals, to_x, to_y, e);
        proof {
            let v1 = self@;
            assert(v1 =~= v0.after_move(from_x as int, from_y as int, to_x as int, to_y as int));
            self.lemma_wf_after_move(v0, from_x as int, from_y as int, to_x as int, to_y as int);
        }
        true
    }

    proof fn lemma_wf_after_move(&self, v0: WorldView, fx: int, fy: int, tx: int, ty: int)
        requires
            v0.wf(),
            v0.in_grid(fx, fy),
            v0.can_move(fx, fy, tx, ty),
            self@ == v0.after_move(fx, fy, tx, ty),
        ensures
            self@.wf(),
    {
        let v = self@;
        let e = v0.animals[fy][fx];
        assert(v0.animal_cell_ok(fx, fy));
        assert(v0.animal_cell_ok(tx, ty));
        assert(grid_shape(v.animals, v.size_x as int, v.size_y as int)) by {
            assert forall|y: int| 0 <= y < v.size_y implies #[trigger] v.animals[y].len() == v.size_x by {
                assert(v0.animals[y].len() == v0.size_x);
            }
        }
        assert forall|x: int, y: int| v.in_grid(x, y) implies #[trigger] v.animal_cell_ok(x, y) by {
            assert(v0.animal_cell_ok(x, y));
            if x == tx && y == ty {
            } else if x == fx && y == fy {
            } else {
                match v0.animals[y][x] {
                    EntityRef::Herbivore(id) => {
                        if e == EntityRef::Herbivore(id) {
                            assert(v0.herbivore_ok(id as int));
                        }
                    },
                    EntityRef::Carnivore(id) => {
                        if e == EntityRef::Carnivore(id) {
                            assert(v0.carnivore_ok(id as int));
                        }
                    },
                    _ => {},
                }
            }
        }
        assert forall|x: int, y: int| v.in_grid(x, y) implies #[trigger] v.plant_cell_ok(x, y) by {
            assert(v0.plant_cell_ok(x, y));
        }
        assert forall|i: int| 0 <= i < v.herbivores.len() implies #[trigger] v.herbivore_ok(i) by {
            assert(v0.herbivore_ok(i));
            if let Some(h) = v0.herbivores[i] {
                assert(v0.animal_cell_ok(h.pos_x as int, h.pos_y as int));
            }
        }
        assert forall|i: int| 0 <= i < v.carnivores.len() implies #[trigger] v.carnivore_ok(i) by {
            assert(v0.carnivore_ok(i));
            if let Some(c) = v0.carnivores[i] {
                assert(v0.animal_cell_ok(c.pos_x as int, c.pos_y as int));
            }
        }
        match e {
            EntityRef::Herbivore(id) => {
                lemma_count_some_update(v0.herbivores, id as int, v.herbivores[id as int]);
            },
            EntityRef::Carnivore(id) => {
                lemma_count_some_update(v0.carnivores, id as int, v.carnivores[id as int]);
            },
            _ => {},
        }
    }

    /// Removes the animal at `(x, y)`; see [`WorldView::after_kill`].
    pub fn kill_animal_by_pos(&mut self, x: usize, y: usize)
        requires
            old(self).wf(),
            old(self)@.in_grid(x as int, y as int),
            old(self)@.animals[y as int][x as int] is Herbivore || old(self)@.animals[y as int][x as int] is Carnivore,
        ensures
            final(self).wf(),
            final(self)@ == old(self)@.after_kill(x as int, y as int),
    {
        let ghost v0 = self@;
        proof {
            self.lemma_row_len(y as int);
            assert(v0.animal_cell_ok(x as int, y as int));
        }
        match self.animals[y][x] {
            EntityRef::Herbivore(id) => {
                proof {
                    lemma_count_some_positive(v0.herbivores, id as int);
                }
                if self.herbivore_count <= self.generation_config.best_herbivore_count {
                    let h = self.herbivores[id].unwrap();
                    self.best_herbivores.push(h);
                }
                set_cell(&mut self.animals, x, y, EntityRef::Empty);
                self.herbivores.set(id, None);
                self.herbivore_count = self.herbivore_count - 1;
            },
            EntityRef::Carnivore(id) => {
                proof {
                    lemma_count_some_positive(v0.carnivores, id as int);
                }
                if self.carnivore_count <= self.generation_config.best_carnivore_count {
                    let c = self.carnivores[id].unwrap();
                    self.best_carnivores.push(c);
                }
                set_cell(&mut self.animals, x, y, EntityRef::Empty);
                self.carnivores.set(id, None);
                self.carnivore_count = self.carnivore_count - 1;
            },
            _ => {},
        }
        proof {
            assert(self@ =~= v0.after_kill(x as int, y as int));
            self.lemma_wf_after_kill(v0, x as int, y as int);
        }
    }

    proof fn lemma_wf_after_kill(&self, v0: WorldView, x: int, y: int)
        requires
            v0.wf(),
            v0.in_grid(x, y),
            v0.animals[y][x] is Herbivore || v0.animals[y][x] is Carnivore,
            self@ == v0.after_kill(x, y),
        ensures
            self@.wf(),
    {
        let v = self@;
        let e = v0.animals[y][x];
        assert(v0.animal_cell_ok(x, y));
        assert(grid_shape(v.animals, v.size_x as int, v.size_y as int)) by {
            assert forall|yy: int| 0 <= yy < v.size_y implies #[trigger] v.animals[yy].len() == v.size_x by {
                assert(v0.animals[yy].len() == v0.size_x);
            }
        }
        assert forall|xx: int, yy: int| v.in_grid(xx, yy) implies #[trigger] v.animal_cell_ok(xx, yy) by {
            assert(v0.animal_cell_ok(xx, yy));
            if !(xx == x && yy == y) {
                match v0.animals[yy][xx] {
                    EntityRef::Herbivore(id) => {
                        if e == EntityRef::Herbivore(id) {
                            assert(v0.herbivore_ok(id as int));
                        }
                    },
                    EntityRef::Carnivore(id) => {
                        if e == EntityRef::Carnivore(id) {
                            assert(v0.carnivore_ok(id as int));
                        }
                    },
                    _ => {},
                }
            }
        }
        assert forall|xx: int, yy: int| v.in_grid(xx, yy) implies #[trigger] v.plant_cell_ok(xx, yy) by {
            assert(v0.plant_cell_ok(xx, yy));
        }
        assert forall|i: int| 0 <= i < v.herbivores.len() implies #[trigger] v.herbivore_ok(i) by {
            assert(v0.herbivore_ok(i));
            if let Some(h) = v0.herbivores[i] {
                assert(v0.animal_cell_ok(h.pos_x as int, h.pos_y as int));
            }
        }
        assert forall|i: int| 0 <= i < v.carnivores.len() implies #[trigger] v.carnivore_ok(i) by {
            assert(v0.carnivore_ok(i));
            if let Some(c) = v0.carnivores[i] {
                assert(v0.animal_cell_ok(c.pos_x as int, c.pos_y as int));
            }
        }
        match e {
            EntityRef::Herbivore(id) => {
                lemma_count_some_update(v0.herbivores, id as int, None);
            },
            EntityRef::Carnivore(id) => {
                lemma_count_some_update(v0.carnivores, id as int, None);
            },
            _ => {},
        }
    }

    /// Removes the living animal of the given kind with index `id`, wherever
    /// it stands.
    pub fn kill_animal_by_id(&mut self, id: usize, entity_type: EntityType)
        requires
            old(self).wf(),
            entity_type == EntityType::Herbivore || entity_type == EntityType::Carnivore,
            entity_type == EntityType::Herbivore ==> id < old(self)@.herbivores.len() && old(self)@.herbivores[id as int] is Some,
            entity_type == EntityType::Carnivore ==> id < old(self)@.carnivores.len() && old(self)@.carnivores[id as int] is Some,
        ensures
            final(self).wf(),
            entity_type == EntityType::Herbivore ==> final(self)@ == old(self)@.after_kill(
                old(self)@.herbivores[id as int]->0.pos_x as int,
                old(self)@.herbivores[id as int]->0.pos_y as int,
            ),
            entity_type == EntityType::Carnivore ==> final(self)@ == old(self)@.after_kill(
                old(self)@.carnivores[id as int]->0.pos_x as int,
                old(self)@.carnivores[id as int]->0.pos_y as int,
            ),
    {
        let ghost v0 = self@;
        match entity_type {
            EntityType::Herbivore => {
                proof {
                    assert(v0.herbivore_ok(id as int));
                }
                let (x, y) = self.herbivores[id].unwrap().get_position();
                self.kill_animal_by_pos(x, y);
            },
            EntityType::Carnivore => {
                proof {
                    assert(v0.carnivore_ok(id as int));
                }
                let (x, y) = self.carnivores[id].unwrap().get_position();
                self.kill_animal_by_pos(x, y);
            },
            _ => {},
        }
    }

    /// Carries out a non-eating action of the animal at `(x, y)`: a walk moves
    /// it one cell if the target cell is on the grid and free. Returns whether
    /// it moved.
    pub fn take_other_action(&mut self, x: usize, y: usize, action: Action) -> (moved: bool)
        requires
            old(self).wf(),
            action == Action::WalkUp ==> y < usize::MAX,
            action == Action::WalkRight ==> x < usize::MAX,
            WorldView::walk_target(x as int, y as int, action) matches Some((tx, ty)) ==> (
                old(self)@.in_grid(tx, ty) && old(self)@.animals[ty][tx] == EntityRef::Empty
                    ==> old(self)@.in_grid(x as int, y as int)),
        ensures
            final(self).wf(),
            (final(self)@, moved) == old(self)@.other_action_spec(x as int, y as int, action),
    {
        match action {
            Action::WalkDown => {
                if y == 0 {
                    return false;
                }
                return self.move_animal(x, y, x, y - 1);
            },
            Action::WalkUp => {
                return self.move_animal(x, y, x, y + 1);
            },
            Action::WalkLeft => {
                if x == 0 {
                    return false;
                }
                return self.move_animal(x, y, x - 1, y);
            },
            Action::WalkRight => {
                return self.move_animal(x, y, x + 1, y);
            },
            Action::Idle => {},
            Action::Eat => {},
        }
        false
    }

    proof fn lemma_first_candidate_unique(v: WorldView, x_in: int, y_in: int, t: EntityType, x: int, y: int)
        requires
            v.first_candidate(x_in, y_in, t, x, y),
        ensures
            v.eat_choice(x_in, y_in, t) == Some((x, y)),
    {
        let (cx, cy) = choose|x: int, y: int| v.first_candidate(x_in, y_in, t, x, y);
        assert(v.first_candidate(x_in, y_in, t, cx, cy));
        if cy < y || (cy == y && cx < x) {
            assert(!v.eat_candidate(x_in, y_in, t, cx, cy));
        } else if y < cy || (y == cy && x < cx) {
            assert(!v.eat_candidate(x_in, y_in, t, x, y));
        }
    }

    /// Looks for food of kind `t` (herbivores for a carnivore, grass for a
    /// herbivore) up to two cells around `(x_in, y_in)`, row by row, and eats
    /// the first found; see [`WorldView::eat_spec`]. Returns whether it ate.
    pub fn take_eat_action(&mut self, x_in: i32, y_in: i32, entity_type: EntityType) -> (ate: bool)
        requires
            old(self).wf(),
            WorldView::eat_args_ok(x_in as int, y_in as int),
        ensures
            final(self).wf(),
            (final(self)@, ate) == old(self)@.eat_spec(x_in as int, y_in as int, entity_type),
            final(self)@.grass_count <= old(self)@.grass_count,
    {
        let ghost v0 = self@;
        let eat_range: i32 = 2;
        let x_min: usize = if x_in - eat_range < 0 { 0 } else { (x_in - eat_range) as usize };
        let x_max: usize = if x_in + eat_range + 1 < self.size_x as i32 { (x_in + eat_range + 1) as usize } else { self.size_x };
        let y_min: usize = if y_in - eat_range < 0 { 0 } else { (y_in - eat_range) as usize };
        let y_max: usize = if y_in + eat_range + 1 < self.size_y as i32 { (y_in + eat_range + 1) as usize } else { self.size_y };
        assert(v0.eat_window(x_in as int, y_in as int) == (x_min as int, x_max as int, y_min as int, y_max as int));
        let mut y: usize = y_min;
        while y < y_max
            invariant
                self@ == v0,
                v0 == old(self)@,
                v0.wf(),
                v0.eat_window(x_in as int, y_in as int) == (x_min as int, x_max as int, y_min as int, y_max as int),
                x_max <= v0.size_x,
                y_max <= v0.size_y,
                y_min <= y,
                y_min < y_max ==> y <= y_max,
                forall|xx: int, yy: int| yy < y ==> !#[trigger] v0.eat_candidate(x_in as int, y_in as int, entity_type, xx, yy),
            decreases y_max - y,
        {
            let mut x: usize = x_min;
            while x < x_max
                invariant
                    self@ == v0,
                    v0 == old(self)@,
                    v0.wf(),
                    v0.eat_window(x_in as int, y_in as int) == (x_min as int, x_max as int, y_min as int, y_max as int),
                    x_max <= v0.size_x,
                    y_max <= v0.size_y,
                    y_min <= y < y_max,
                    x_min <= x,
                    x_min < x_max ==> x <= x_max,
                    forall|xx: int, yy: int|
                        (yy < y || (yy == y && xx < x)) ==> !#[trigger] v0.eat_candidate(x_in as int, y_in as int, entity_type, xx, yy),
                decreases x_max - x,
            {
                proof {
                    self.lemma_row_len(y as int);
                }
                if x_in >= 0 && y_in >= 0 && x == x_in as usize && y == y_in as usize {
                    x = x + 1;
                    continue;
                }
                if entity_type == EntityType::Herbivore {
                    if let EntityRef::Herbivore(_) = self.animals[y][x] {
                        proof {
                            assert(v0.eat_candidate(x_in as int, y_in as int, entity_type, x as int, y as int));
                            Self::lemma_first_candidate_unique(v0, x_in as int, y_in as int, entity_type, x as int, y as int);
                        }
                        self.kill_animal_by_pos(x, y);
                        return true;
                    }
                }
                if entity_type == EntityType::Grass && self.plants[y][x] == EntityRef::Grass {
                    proof {
                        assert(v0.eat_candidate(x_in as int, y_in as int, entity_type, x as int, y as int));
                        Self::lemma_first_candidate_unique(v0, x_in as int, y_in as int, entity_type, x as int, y as int);
                        lemma_count_grass_positive(v0.plants, x as int, y as int);
                    }
                    if self.record && self.current_generation_record.is_some() {
                        let tick = self.tick;
                        match &mut self.current_generation_record {
                            Some(r) => {
                                r.add_dead_grass(tick, x, y);
                            },
                            None => {},
                        }
                    }
                    set_cell(&mut self.plants, x, y, EntityRef::Empty);
                    self.grass_count = self.grass_count - 1;
                    proof {
                        assert(self@ =~= v0.after_eating(x as int, y as int, entity_type));
                        self.lemma_wf_after_grass_eaten(v0, x as int, y as int);
                    }
                    return true;
                }
                proof {
                    assert(!v0.eat_candidate(x_in as int, y_in as int, entity_type, x as int, y as int));
                }
                x = x + 1;
            }
            y = y + 1;
        }
        proof {
            assert forall|x: int, y: int| !v0.first_candidate(x_in as int, y_in as int, entity_type, x, y) by {
                assert(!v0.eat_candidate(x_in as int, y_in as int, entity_type, x, y));
            }
        }
        false
    }

    proof fn lemma_wf_after_grass_eaten(&self, v0: WorldView, x: int, y: int)
        requires
            v0.wf(),
            v0.in_grid(x, y),
            v0.plants[y][x] == EntityRef::Grass,
            self@ == v0.after_eating(x, y, EntityType::Grass),
        ensures
            self@.wf(),
    {
        let v = self@;
        lemma_count_grass_update(v0.plants, x, y, EntityRef::Empty);
        assert(grid_shape(v.plants, v.size_x as int, v.size_y as int)) by {
            assert forall|yy: int| 0 <= yy < v.size_y implies #[trigger] v.plants[yy].len() == v.size_x by {
                assert(v0.plants[yy].len() == v0.size_x);
            }
        }
        Self::lemma_animals_frame(v0, v);
        assert forall|xx: int, yy: int| v.in_grid(xx, yy) implies #[trigger] v.plant_cell_ok(xx, yy) by {
            assert(v0.plant_cell_ok(xx, yy));
        }
    }

    proof fn lemma_wf_with_carnivore(v: WorldView, i: int, c: Carnivore)
        requires
            v.wf(),
            0 <= i < v.carnivores.len(),
            v.carnivores[i] is Some,
            v.carnivores[i]->0.id == c.id,
            v.carnivores[i]->0.pos_x == c.pos_x,
            v.carnivores[i]->0.pos_y == c.pos_y,
        ensures
            v.with_carnivore(i, c).wf(),
    {
        let w = v.with_carnivore(i, c);
        assert forall|x: int, y: int| w.in_grid(x, y) implies #[trigger] w.animal_cell_ok(x, y) by {
            assert(v.animal_cell_ok(x, y));
        }
        assert forall|x: int, y: int| w.in_grid(x, y) implies #[trigger] w.plant_cell_ok(x, y) by {
            assert(v.plant_cell_ok(x, y));
        }
        assert forall|j: int| 0 <= j < w.herbivores.len() implies #[trigger] w.herbivore_ok(j) by {
            assert(v.herbivore_ok(j));
        }
        assert forall|j: int| 0 <= j < w.carnivores.len() implies #[trigger] w.carnivore_ok(j) by {
            assert(v.carnivore_ok(j));
        }
        lemma_count_some_update(v.carnivores, i, Some(c));
    }

    proof fn lemma_wf_with_herbivore(v: WorldView, i: int, h: Herbivore)
        requires
            v.wf(),
            0 <= i < v.herbivores.len(),
            v.herbivores[i] is Some,
            v.herbivores[i]->0.id == h.id,
            v.herbivores[i]->0.pos_x == h.pos_x,
            v.herbivores[i]->0.pos_y == h.pos_y,
        ensures
            v.with_herbivore(i, h).wf(),
    {
        let w = v.with_herbivore(i, h);
        assert forall|x: int, y: int| w.in_grid(x, y) implies #[trigger] w.animal_cell_ok(x, y) by {
            assert(v.animal_cell_ok(x, y));
        }
        assert forall|x: int, y: int| w.in_grid(x, y) implies #[trigger] w.plant_cell_ok(x, y) by {
            assert(v.plant_cell_ok(x, y));
        }
        assert forall|j: int| 0 <= j < w.herbivores.len() implies #[trigger] w.herbivore_ok(j) by {
            assert(v.herbivore_ok(j));
        }
        assert forall|j: int| 0 <= j < w.carnivores.len() implies #[trigger] w.carnivore_ok(j) by {
            assert(v.carnivore_ok(j));
        }
        lemma_count_some_update(v.herbivores, i, Some(h));
    }

    /// What eating leaves untouched: the carnivores always, the herbivores
    /// and the animal grid when grass is eaten.
    proof fn lemma_eat_frame(v: WorldView, x_in: int, y_in: int, t: EntityType)
        requires
            v.wf(),
        ensures
            v.eat_spec(x_in, y_in, t).0.carnivores == v.carnivores,
            v.eat_spec(x_in, y_in, t).0.herbivores.len() == v.herbivores.len(),
            t != EntityType::Herbivore ==> v.eat_spec(x_in, y_in, t).0.herbivores == v.herbivores,
            t != EntityType::Herbivore ==> v.eat_spec(x_in, y_in, t).0.animals == v.animals,
            forall|j: int| 0 <= j < v.herbivores.len() && #[trigger] v.eat_spec(x_in, y_in, t).0.herbivores[j] is Some
                ==> v.eat_spec(x_in, y_in, t).0.herbivores[j] == v.herbivores[j],
            v.eat_spec(x_in, y_in, t).0.tick == v.tick,
            v.eat_spec(x_in, y_in, t).0.size_x == v.size_x,
            v.eat_spec(x_in, y_in, t).0.size_y == v.size_y,
    {
        if let Some((x, y)) = v.eat_choice(x_in, y_in, t) {
            assert(v.first_candidate(x_in, y_in, t, x, y));
            assert(v.eat_candidate(x_in, y_in, t, x, y));
            assert(v.in_grid(x, y));
            assert(v.animal_cell_ok(x, y));
        }
    }

    /// Carries out the eating phase of a tick (see [`WorldView::eat_phase`]):
    /// every living carnivore that chose to eat, then every living herbivore
    /// that did, eats or goes hungry, and dies when its energy runs out.
    pub fn take_eat_actions(&mut self)
        requires
            old(self).wf(),
            old(self)@.eaters_between(i32::MIN + 1, i32::MAX - 100),
        ensures
            final(self).wf(),
            final(self)@ == old(self)@.eat_phase(),
            forall|i: int| 0 <= i < final(self)@.carnivores.len() && #[trigger] final(self)@.carnivores[i] is Some ==> {
                &&& old(self)@.carnivores[i] is Some
                &&& final(self)@.carnivores[i]->0.energy == old(self)@.carnivores[i]->0.energy
                    || 0 <= final(self)@.carnivores[i]->0.energy
            },
            forall|i: int| 0 <= i < final(self)@.herbivores.len() && #[trigger] final(self)@.herbivores[i] is Some ==> {
                &&& old(self)@.herbivores[i] is Some
                &&& final(self)@.herbivores[i]->0.energy == old(self)@.herbivores[i]->0.energy
                    || 0 <= final(self)@.herbivores[i]->0.energy
            },
            final(self)@.carnivores.len() == old(self)@.carnivores.len(),
            final(self)@.herbivores.len() == old(self)@.herbivores.len(),
            final(self)@.tick == old(self)@.tick,
            final(self)@.record == old(self)@.record,
            final(self)@.current_record is Some == old(self)@.current_record is Some,
            old(self)@.same_fixed_settings(final(self)@),
            final(self)@.generation == old(self)@.generation,
            final(self)@.generation_over == old(self)@.generation_over,
            final(self)@.grass_count <= old(self)@.grass_count,
            final(self)@.animal_records() == old(self)@.animal_records(),
    {
        let ghost v0 = self@;
        let n = self.carnivores.len();
        let mut i: usize = 0;
        while i < n
            invariant
                self.wf(),
                0 <= i <= n,
                n == v0.carnivores.len(),
                self@.carnivores.len() == n,
                self@.herbivores.len() == v0.herbivores.len(),
                self@.grass_count <= v0.grass_count,
                self@ == v0.carnivore_eat_steps(i as nat),
                self@.animal_records() == v0.animal_records(),
                self@.tick == v0.tick,
                self@.record == v0.record,
                self@.current_record is Some == v0.current_record is Some,
                v0.same_fixed_settings(self@),
                self@.generation == v0.generation,
                self@.generation_over == v0.generation_over,
                v0.eaters_between(i32::MIN + 1, i32::MAX - 100),
                forall|j: int| i <= j < n ==> #[trigger] self@.carnivores[j] == v0.carnivores[j],
                forall|j: int| 0 <= j < n && #[trigger] self@.carnivores[j] is Some ==> {
                    &&& v0.carnivores[j] is Some
                    &&& self@.carnivores[j]->0.energy == v0.carnivores[j]->0.energy || 0 <= self@.carnivores[j]->0.energy
                },
                forall|j: int| 0 <= j < self@.herbivores.len() && #[trigger] self@.herbivores[j] is Some
                    ==> self@.herbivores[j] == v0.herbivores[j],
            decreases n - i,
        {
            let ghost vi = self@;
            if self.carnivores[i].is_some() {
                let c = self.carnivores[i].unwrap();
                proof {
                    assert(vi.carnivore_ok(i as int));
                    assert(v0.carnivores[i as int] is Some);
                }
                let (x, y) = c.get_position();
                if *c.get_action_ref_immutable() == Action::Eat {
                    let ate = self.take_eat_action(x as i32, y as i32, EntityType::Herbivore);
                    proof {
                        Self::lemma_eat_frame(vi, x as int, y as int, EntityType::Herbivore);
                    }
                    let ghost v1 = self@;
                    let mut c2 = c;
                    if ate {
                        c2.take_eat_action();
                    } else {
                        c2.add_to_energy(-1);
                    }
                    self.carnivores.set(i, Some(c2));
                    proof {
                        Self::lemma_wf_with_carnivore(v1, i as int, c2);
                        assert(self@ == v1.with_carnivore(i as int, c2));
                    }
                    if c2.get_energy() <= 0 {
                        self.kill_animal_by_id(i, EntityType::Carnivore);
                    }
                    proof {
                        assert(self@ == vi.carnivore_eat_step(i as int));
                    }
                }
            }
            proof {
                assert(self@ == vi.carnivore_eat_step(i as int));
                assert(v0.carnivore_eat_steps((i + 1) as nat) == v0.carnivore_eat_steps(i as nat).carnivore_eat_step(i as int));
            }
            i = i + 1;
        }
        let ghost vc = self@;
        let m = self.herbivores.len();
        let mut i: usize = 0;
        while i < m
            invariant
                self.wf(),
                0 <= i <= m,
                m == vc.herbivores.len(),
                m == v0.herbivores.len(),
                vc == v0.carnivore_eat_steps(v0.carnivores.len()),
                self@.carnivores.len() == v0.carnivores.len(),
                self@.herbivores.len() == m,
                self@ == vc.herbivore_eat_steps(i as nat),
                self@.animal_records() == v0.animal_records(),
                self@.grass_count <= v0.grass_count,
                self@.tick == v0.tick,
                self@.record == v0.record,
                self@.current_record is Some == v0.current_record is Some,
                v0.same_fixed_settings(self@),
                self@.generation == v0.generation,
                self@.generation_over == v0.generation_over,
                v0.eaters_between(i32::MIN + 1, i32::MAX - 100),
                forall|j: int| i <= j < m ==> #[trigger] self@.herbivores[j] == vc.herbivores[j],
                forall|j: int| 0 <= j < m && #[trigger] self@.herbivores[j] is Some ==> {
                    &&& v0.herbivores[j] is Some
                    &&& self@.herbivores[j]->0.energy == v0.herbivores[j]->0.energy || 0 <= self@.herbivores[j]->0.energy
                },
                forall|j: int| 0 <= j < m && #[trigger] vc.herbivores[j] is Some ==> vc.herbivores[j] == v0.herbivores[j],
                forall|j: int| 0 <= j < self@.carnivores.len() && #[trigger] self@.carnivores[j] is Some ==> {
                    &&& v0.carnivores[j] is Some
                    &&& self@.carnivores[j]->0.energy == v0.carnivores[j]->0.energy || 0 <= self@.carnivores[j]->0.energy
                },
            decreases m - i,
        {
            let ghost vi = self@;
            if self.herbivores[i].is_some() {
                let h = self.herbivores[i].unwrap();
                proof {
                    assert(vi.herbivore_ok(i as int));
                    assert(vc.herbivores[i as int] is Some);
                }
                let (x, y) = h.get_position();
                if *h.get_action_ref_immutable() == Action::Eat {
                    let ate = self.take_eat_action(x as i32, y as i32, EntityType::Grass);
                    proof {
                        Self::lemma_eat_frame(vi, x as int, y as int, EntityType::Grass);
                    }
                    let ghost v1 = self@;
                    let mut h2 = h;
                    if ate {
                        h2.take_eat_action();
                    } else {
                        h2.add_to_energy(-1);
                    }
                    self.herbivores.set(i, Some(h2));
                    proof {
                        Self::lemma_wf_with_herbivore(v1, i as int, h2);
                        assert(self@ == v1.with_herbivore(i as int, h2));
                    }
                    if h2.get_energy() <= 0 {
                        self.kill_animal_by_id(i, EntityType::Herbivore);
                    }
                    proof {
                        assert(self@ == vi.herbivore_eat_step(i as int));
                    }
                }
            }
            proof {
                assert(self@ == vi.herbivore_eat_step(i as int));
                assert(vc.herbivore_eat_steps((i + 1) as nat) == vc.herbivore_eat_steps(i as nat).herbivore_eat_step(i as int));
            }
            i = i + 1;
        }
    }

    /// What carnivore `i`'s move leaves untouched: the herbivores, and every
    /// other carnivore; its own energy, action and index stay too.
    proof fn lemma_other_frame_carnivore(v: WorldView, i: int)
        requires
            v.wf(),
            0 <= i < v.carnivores.len(),
            v.carnivores[i] is Some,
        ensures
            ({
                let c = v.carnivores[i]->0;
                let (v1, moved) = v.other_action_spec(c.pos_x as int, c.pos_y as int, c.action);
                &&& v1.herbivores == v.herbivores
                &&& v1.carnivores.len() == v.carnivores.len()
                &&& forall|j: int| 0 <= j < v.carnivores.len() && j != i ==> #[trigger] v1.carnivores[j] == v.carnivores[j]
                &&& v1.carnivores[i] is Some
                &&& v1.carnivores[i]->0.energy == c.energy
                &&& v1.carnivores[i]->0.action == c.action
                &&& v1.carnivores[i]->0.id == c.id
                &&& moved ==> c.action != Action::Idle && c.action != Action::Eat
            }),
    {
        assert(v.carnivore_ok(i));
    }

    /// What herbivore `i`'s move leaves untouched, as for carnivores.
    proof fn lemma_other_frame_herbivore(v: WorldView, i: int)
        requires
            v.wf(),
            0 <= i < v.herbivores.len(),
            v.herbivores[i] is Some,
        ensures
            ({
                let h = v.herbivores[i]->0;
                let (v1, moved) = v.other_action_spec(h.pos_x as int, h.pos_y as int, h.action);
                &&& v1.carnivores == v.carnivores
                &&& v1.herbivores.len() == v.herbivores.len()
                &&& forall|j: int| 0 <= j < v.herbivores.len() && j != i ==> #[trigger] v1.herbivores[j] == v.herbivores[j]
                &&& v1.herbivores[i] is Some
                &&& v1.herbivores[i]->0.energy == h.energy
                &&& v1.herbivores[i]->0.action == h.action
                &&& v1.herbivores[i]->0.id == h.id
                &&& moved ==> h.action != Action::Idle && h.action != Action::Eat
            }),
    {
        assert(v.herbivore_ok(i));
    }

    /// Carries out the moving phase of a tick (see
    /// [`WorldView::other_phase`]): every living carnivore, then every living
    /// herbivore, walks if it chose to and can, pays for it, and dies when its
    /// energy runs out.
    pub fn take_other_actions(&mut self)
        requires
            old(self).wf(),
            old(self)@.energies_between(i32::MIN + 3, i32::MAX as int),
        ensures
            final(self).wf(),
            final(self)@ == old(self)@.other_phase(),
            final(self)@.tick == old(self)@.tick,
            final(self)@.record == old(self)@.record,
            final(self)@.current_record is Some == old(self)@.current_record is Some,
            old(self)@.same_fixed_settings(final(self)@),
            final(self)@.generation == old(self)@.generation,
            final(self)@.generation_over == old(self)@.generation_over,
            final(self)@.plants == old(self)@.plants,
            final(self)@.grass_count == old(self)@.grass_count,
            final(self)@.carnivores.len() == old(self)@.carnivores.len(),
            final(self)@.herbivores.len() == old(self)@.herbivores.len(),
            forall|i: int| 0 <= i < final(self)@.carnivores.len() && #[trigger] final(self)@.carnivores[i] is Some
                ==> old(self)@.carnivores[i] is Some,
            forall|i: int| 0 <= i < final(self)@.herbivores.len() && #[trigger] final(self)@.herbivores[i] is Some
                ==> old(self)@.herbivores[i] is Some,
            final(self)@.survivors_at_least(1),
            final(self)@.animal_records() == old(self)@.animal_records(),
    {
        let ghost v0 = self@;
        let n = self.carnivores.len();
        let mut i: usize = 0;
        while i < n
            invariant
                self.wf(),
                0 <= i <= n,
                n == v0.carnivores.len(),
                self@.carnivores.len() == n,
                self@.herbivores.len() == v0.herbivores.len(),
                self@ == v0.carnivore_other_steps(i as nat),
                forall|j: int| 0 <= j < i && #[trigger] self@.carnivores[j] is Some ==> 1 <= self@.carnivores[j]->0.energy,
                self@.animal_records() == v0.animal_records(),
                self@.plants == v0.plants,
                self@.grass_count == v0.grass_count,
                forall|j: int| 0 <= j < n && #[trigger] self@.carnivores[j] is Some ==> v0.carnivores[j] is Some,
                self@.tick == v0.tick,
                self@.record == v0.record,
                self@.current_record is Some == v0.current_record is Some,
                v0.same_fixed_settings(self@),
                self@.generation == v0.generation,
                self@.generation_over == v0.generation_over,
                v0.energies_between(i32::MIN + 3, i32::MAX as int),
                forall|j: int| i <= j < n ==> #[trigger] self@.carnivores[j] == v0.carnivores[j],
                forall|j: int| 0 <= j < self@.herbivores.len() ==> #[trigger] self@.herbivores[j] == v0.herbivores[j],
            decreases n - i,
        {
            let ghost vi = self@;
            if self.carnivores[i].is_some() {
                let c = self.carnivores[i].unwrap();
                proof {
                    assert(vi.carnivore_ok(i as int));
                    assert(v0.carnivores[i as int] is Some);
                    Self::lemma_other_frame_carnivore(vi, i as int);
                }
                let (x, y) = c.get_position();
                let action = *c.get_action_ref_immutable();
                let moved = self.take_other_action(x, y, action);
                let ghost v1 = self@;
                let mut c2 = self.carnivores[i].unwrap();
                if moved {
                    c2.take_other_action();
                } else {
                    c2.add_to_energy(-1);
                }
                proof {
                    Self::lemma_wf_with_carnivore(v1, i as int, c2);
                }
                self.carnivores.set(i, Some(c2));
                proof {
                    assert(self@ == v1.with_carnivore(i as int, c2));
                    assert(v1.carnivore_ok(i as int));
                }
                if c2.get_energy() <= 0 {
                    self.kill_animal_by_id(i, EntityType::Carnivore);
                }
                proof {
                    assert(self@ == vi.carnivore_other_step(i as int));
                }
            }
            proof {
                assert(self@ == vi.carnivore_other_step(i as int));
                assert(v0.carnivore_other_steps((i + 1) as nat) == v0.carnivore_other_steps(i as nat).carnivore_other_step(i as int));
            }
            i = i + 1;
        }
        let ghost vc = self@;
        let m = self.herbivores.len();
        let mut i: usize = 0;
        while i < m
            invariant
                self.wf(),
                0 <= i <= m,
                m == vc.herbivores.len(),
                m == v0.herbivores.len(),
                vc == v0.carnivore_other_steps(v0.carnivores.len()),
                self@.herbivores.len() == m,
                self@ == vc.herbivore_other_steps(i as nat),
                self@.carnivores == vc.carnivores,
                forall|j: int| 0 <= j < vc.carnivores.len() && #[trigger] vc.carnivores[j] is Some ==> 1 <= vc.carnivores[j]->0.energy,
                forall|j: int| 0 <= j < i && #[trigger] self@.herbivores[j] is Some ==> 1 <= self@.herbivores[j]->0.energy,
                self@.animal_records() == v0.animal_records(),
                self@.plants == v0.plants,
                self@.grass_count == v0.grass_count,
                self@.carnivores.len() == v0.carnivores.len(),
                forall|j: int| 0 <= j < v0.carnivores.len() && #[trigger] self@.carnivores[j] is Some ==> v0.carnivores[j] is Some,
                forall|j: int| 0 <= j < m && #[trigger] self@.herbivores[j] is Some ==> v0.herbivores[j] is Some,
                self@.tick == v0.tick,
                self@.record == v0.record,
                self@.current_record is Some == v0.current_record is Some,
                v0.same_fixed_settings(self@),
                self@.generation == v0.generation,
                self@.generation_over == v0.generation_over,
                v0.energies_between(i32::MIN + 3, i32::MAX as int),
                forall|j: int| i <= j < m ==> #[trigger] self@.herbivores[j] == v0.herbivores[j],
            decreases m - i,
        {
            let ghost vi = self@;
            if self.herbivores[i].is_some() {
                let h = self.herbivores[i].unwrap();
                proof {
                    assert(vi.herbivore_ok(i as int));
                    assert(v0.herbivores[i as int] is Some);
                    Self::lemma_other_frame_herbivore(vi, i as int);
                }
                let (x, y) = h.get_position();
                let action = *h.get_action_ref_immutable();
                let moved = self.take_other_action(x, y, action);
                let ghost v1 = self@;
                let mut h2 = self.herbivores[i].unwrap();
                if moved {
                    h2.take_other_action();
                } else {
                    h2.add_to_energy(-1);
                }
                proof {
                    Self::lemma_wf_with_herbivore(v1, i as int, h2);
                }
                self.herbivores.set(i, Some(h2));
                proof {
                    assert(self@ == v1.with_herbivore(i as int, h2));
                    assert(v1.herbivore_ok(i as int));
                }
                if h2.get_energy() <= 0 {
                    self.kill_animal_by_id(i, EntityType::Herbivore);
                }
                proof {
                    assert(self@ == vi.herbivore_other_step(i as int));
                }
            }
            proof {
                assert(self@ == vi.herbivore_other_step(i as int));
                assert(vc.herbivore_other_steps((i + 1) as nat) == vc.herbivore_other_steps(i as nat).herbivore_other_step(i as int));
            }
            i = i + 1;
        }
    }

    /// Appends the state of every living animal to the running record.
    pub fn record_tick(&mut self)
        requires
            old(self).wf(),
            old(self)@.current_record is Some,
        ensures
            final(self).wf(),
            final(self)@ == old(self)@.recorded(),
    {
        let ghost v0 = self@;
        match &mut self.current_generation_record {
            Some(r) => {
                r.record_tick(&self.carnivores, &self.herbivores);
            },
            None => {},
        }
        proof {
            assert(self@ =~= v0.recorded());
            let v = self@;
            WorldMap::lemma_cells_frame(v0, v);
        }
    }

    /// The cells agree with the animal lists whenever the grids' animal
    /// layer, the lists and the size are unchanged.
    proof fn lemma_animals_frame(v0: WorldView, v: WorldView)
        requires
            v0.wf(),
            v.animals == v0.animals,
            v.carnivores == v0.carnivores,
            v.herbivores == v0.herbivores,
            v.size_x == v0.size_x,
            v.size_y == v0.size_y,
        ensures
            forall|x: int, y: int| v.in_grid(x, y) ==> #[trigger] v.animal_cell_ok(x, y),
            forall|i: int| 0 <= i < v.herbivores.len() ==> #[trigger] v.herbivore_ok(i),
            forall|i: int| 0 <= i < v.carnivores.len() ==> #[trigger] v.carnivore_ok(i),
    {
        assert forall|x: int, y: int| v.in_grid(x, y) implies #[trigger] v.animal_cell_ok(x, y) by {
            assert(v0.animal_cell_ok(x, y));
        }
        assert forall|j: int| 0 <= j < v.herbivores.len() implies #[trigger] v.herbivore_ok(j) by {
            assert(v0.herbivore_ok(j));
        }
        assert forall|j: int| 0 <= j < v.carnivores.len() implies #[trigger] v.carnivore_ok(j) by {
            assert(v0.carnivore_ok(j));
        }
    }

    /// As [`WorldMap::lemma_animals_frame`], with the plant layer unchanged too.
    proof fn lemma_cells_frame(v0: WorldView, v: WorldView)
        requires
            v0.wf(),
            v.animals == v0.animals,
            v.plants == v0.plants,
            v.carnivores == v0.carnivores,
            v.herbivores == v0.herbivores,
            v.size_x == v0.size_x,
            v.size_y == v0.size_y,
        ensures
            forall|x: int, y: int| v.in_grid(x, y) ==> #[trigger] v.animal_cell_ok(x, y),
            forall|x: int, y: int| v.in_grid(x, y) ==> #[trigger] v.plant_cell_ok(x, y),
            forall|i: int| 0 <= i < v.herbivores.len() ==> #[trigger] v.herbivore_ok(i),
            forall|i: int| 0 <= i < v.carnivores.len() ==> #[trigger] v.carnivore_ok(i),
    {
        Self::lemma_animals_frame(v0, v);
        assert forall|x: int, y: int| v.in_grid(x, y) implies #[trigger] v.plant_cell_ok(x, y) by {
            assert(v0.plant_cell_ok(x, y));
        }
    }

    proof fn lemma_wf_other_fields(v0: WorldView, v: WorldView)
        requires
            v0.wf(),
            v.animals == v0.animals,
            v.plants == v0.plants,
            v.carnivores == v0.carnivores,
            v.herbivores == v0.herbivores,
            v.herbivore_count == v0.herbivore_count,
            v.carnivore_count == v0.carnivore_count,
            v.grass_count == v0.grass_count,
            v.herbivore_start_count == v0.herbivore_start_count,
            v.carnivore_start_count == v0.carnivore_start_count,
            v.grass_start_count == v0.grass_start_count,
            v.sense_radius == v0.sense_radius,
            v.input_count == v0.input_count,
            v.size_x == v0.size_x,
            v.size_y == v0.size_y,
            v.record == v0.record,
            v.current_record == v0.current_record || v.current_record is None,
        ensures
            v.wf(),
    {
        WorldMap::lemma_cells_frame(v0, v);
    }

    /// Runs one tick once every living animal has chosen its action (see
    /// [`WorldView::tick_spec`]). The animals' energies must leave room for a
    /// meal and for the cost of a walk.
    pub fn tick(&mut self)
        requires
            old(self).wf(),
            old(self)@.tick_energies_ok(),
            old(self)@.tick < usize::MAX,
            old(self)@.recording_ready(),
        ensures
            final(self).wf(),
            final(self)@.recording_ready(),
            final(self)@ == old(self)@.tick_spec(),
            final(self)@.carnivores.len() == old(self)@.carnivores.len(),
            final(self)@.herbivores.len() == old(self)@.herbivores.len(),
            forall|i: int| 0 <= i < final(self)@.carnivores.len() && #[trigger] final(self)@.carnivores[i] is Some
                ==> old(self)@.carnivores[i] is Some,
            forall|i: int| 0 <= i < final(self)@.herbivores.len() && #[trigger] final(self)@.herbivores[i] is Some
                ==> old(self)@.herbivores[i] is Some,
            final(self)@.carnivore_count <= old(self)@.carnivore_count,
            final(self)@.herbivore_count <= old(self)@.herbivore_count,
            final(self)@.grass_count <= old(self)@.grass_count,
            old(self)@.same_fixed_settings(final(self)@),
            final(self)@.generation == old(self)@.generation,
            final(self)@.generation_over == old(self)@.generation_over,
            final(self)@.tick == old(self)@.tick + 1,
            final(self)@.survivors_at_least(1),
            old(self)@.record ==> final(self)@.animal_records() == old(self)@.recorded().animal_records(),
    {
        let ghost v0 = self@;
        if self.record {
            self.record_tick();
        }
        let ghost v1 = self@;
        proof {
            assert(v1.carnivores == v0.carnivores && v1.herbivores == v0.herbivores);
        }
        self.take_eat_actions();
        let ghost v2 = self@;
        proof {
            assert forall|i: int| 0 <= i < v2.carnivores.len() && #[trigger] v2.carnivores[i] is Some
                implies i32::MIN + 3 <= v2.carnivores[i]->0.energy <= i32::MAX by {
                assert(v1.carnivores[i] is Some);
            }
            assert forall|i: int| 0 <= i < v2.herbivores.len() && #[trigger] v2.herbivores[i] is Some
                implies i32::MIN + 3 <= v2.herbivores[i]->0.energy <= i32::MAX by {
                assert(v1.herbivores[i] is Some);
            }
        }
        self.take_other_actions();
        let ghost v3 = self@;
        self.tick = self.tick + 1;
        proof {
            Self::lemma_wf_other_fields(v3, self@);
            assert forall|i: int| 0 <= i < v3.carnivores.len() && #[trigger] v3.carnivores[i] is Some
                implies v0.carnivores[i] is Some by {
                assert(v2.carnivores[i] is Some);
            }
            assert forall|i: int| 0 <= i < v3.herbivores.len() && #[trigger] v3.herbivores[i] is Some
                implies v0.herbivores[i] is Some by {
                assert(v2.herbivores[i] is Some);
            }
            lemma_count_some_monotone(v3.carnivores, v0.carnivores);
            lemma_count_some_monotone(v3.herbivores, v0.herbivores);
        }
    }

    /// Checks whether the running generation is over (see
    /// [`WorldView::after_generation_check`]) and returns the answer.
    pub fn set_and_return_generation_over(&mut self) -> (over: bool)
        requires
            old(self).wf(),
            !old(self)@.generation_over ==> old(self)@.generation < usize::MAX,
        ensures
            final(self).wf(),
            final(self)@ == old(self)@.after_generation_check(),
            over == old(self)@.generation_ends(),
    {
        let ghost v0 = self@;
        let old_val = self.generation_over;
        if self.generation_config.max_ticks_per_generation >= 0
            && self.tick >= self.generation_config.max_ticks_per_generation as usize {
            self.generation_over = true;
        }
        let cfg = self.generation_config;
        let c = cfg.carnivore_count >= 0 && self.carnivore_count as i32 <= cfg.carnivore_count;
        let h = cfg.herbivore_count >= 0 && self.herbivore_count as i32 <= cfg.herbivore_count;
        let g = cfg.grass_count >= 0 && self.grass_count as i32 <= cfg.grass_count;
        if cfg.all_entities_must_be_under_min_levels {
            if c && h && g {
                self.generation_over = true;
            }
        } else {
            if c || h || g {
                self.generation_over = true;
            }
        }
        if !old_val && self.generation_over {
            self.generation = self.generation + 1;
        }
        proof {
            Self::lemma_wf_other_fields(v0, self@);
        }
        self.generation_over
    }

    /// Whether the configured number of generations has been run.
    pub fn is_simulation_over(&self) -> (over: bool)
        ensures
            over == (self@.generation >= self@.generation_config.max_generation_count as usize),
    {
        self.generation >= self.generation_config.max_generation_count as usize
    }

    /// The number of ticks run in the current generation.
    pub fn get_tick_count(&self) -> (tick: usize)
        ensures
            tick == self@.tick,
    {
        self.tick
    }

    /// Places an entity of kind `entity_type` at `(pos_x, pos_y)` if that
    /// cell of its layer is free (see [`WorldView::place_spec`]); a new animal
    /// is bred from the best animal with index `parent` when one is given.
    /// Returns whether it was placed.
    pub fn place_entity(&mut self, entity_type: EntityType, pos_x: usize, pos_y: usize, parent: Option<usize>) -> (placed: bool)
        requires
            old(self).wf(),
            old(self)@.in_grid(pos_x as int, pos_y as int),
            entity_type == EntityType::Carnivore ==> {
                &&& old(self)@.carnivores.len() < u32::MAX
                &&& old(self)@.current_record is None
                &&& parent matches Some(b) ==> b < old(self)@.best_carnivores.len()
            },
            entity_type == EntityType::Herbivore ==> {
                &&& old(self)@.herbivores.len() < u32::MAX
                &&& old(self)@.current_record is None
                &&& parent matches Some(b) ==> b < old(self)@.best_herbivores.len()
            },
            entity_type == EntityType::Grass ==> old(self)@.grass_count < u32::MAX,
        ensures
            final(self).wf(),
            (final(self)@, placed) == old(self)@.place_spec(entity_type, pos_x as int, pos_y as int, parent),
    {
        let ghost v0 = self@;
        proof {
            self.lemma_row_len(pos_y as int);
            assert(v0.animal_cell_ok(pos_x as int, pos_y as int));
            assert(v0.plant_cell_ok(pos_x as int, pos_y as int));
        }
        match entity_type {
            EntityType::Grass => {
                if self.plants[pos_y][pos_x] != EntityRef::Empty {
                    return false;
                }
                set_cell(&mut self.plants, pos_x, pos_y, EntityRef::Grass);
                self.grass_count = self.grass_count + 1;
                proof {
                    lemma_count_grass_update(v0.plants, pos_x as int, pos_y as int, EntityRef::Grass);
                    assert(self@ =~= v0.after_placing(entity_type, pos_x as int, pos_y as int, parent));
                    let v = self@;
                    WorldMap::lemma_animals_frame(v0, v);
                    assert forall|x: int, y: int| v.in_grid(x, y) implies #[trigger] v.plant_cell_ok(x, y) by {
                        assert(v0.plant_cell_ok(x, y));
                    }
                }
                true
            },
            EntityType::Herbivore => {
                if self.animals[pos_y][pos_x] != EntityRef::Empty {
                    return false;
                }
                let id = self.herbivores.len();
                let h = match parent {
                    Some(b) => Herbivore::new_from_parent(&self.best_herbivores[b], self.herbivore_max_energy, pos_x, pos_y, id),
                    None => Herbivore::new(self.herbivore_max_energy, pos_x, pos_y, id),
                };
                set_cell(&mut self.animals, pos_x, pos_y, EntityRef::Herbivore(id));
                self.herbivores.push(Some(h));
                proof {
                    lemma_count_some_push(v0.herbivores, Some(h));
                    lemma_count_some_bound(v0.herbivores);
                }
                self.herbivore_count = self.herbivore_count + 1;
                proof {
                    assert(self@ =~= v0.after_placing(entity_type, pos_x as int, pos_y as int, parent));
                    assert(self@.herbivores.subrange(0, v0.herbivores.len() as int) =~= v0.herbivores);
                    self.lemma_wf_after_animal_placed(v0, pos_x as int, pos_y as int);
                }
                true
            },
            EntityType::Carnivore => {
                if self.animals[pos_y][pos_x] != EntityRef::Empty {
                    return false;
                }
                let id = self.carnivores.len();
                let c = match parent {
                    Some(b) => Carnivore::new_from_parent(&self.best_carnivores[b], self.carnivore_max_energy, pos_x, pos_y, id),
                    None => Carnivore::new(self.carnivore_max_energy, pos_x, pos_y, id),
                };
                set_cell(&mut self.animals, pos_x, pos_y, EntityRef::Carnivore(id));
                self.carnivores.push(Some(c));
                proof {
                    lemma_count_some_push(v0.carnivores, Some(c));
                    lemma_count_some_bound(v0.carnivores);
                }
                self.carnivore_count = self.carnivore_count + 1;
                proof {
                    assert(self@ =~= v0.after_placing(entity_type, pos_x as int, pos_y as int, parent));
                    assert(self@.carnivores.subrange(0, v0.carnivores.len() as int) =~= v0.carnivores);
                    self.lemma_wf_after_animal_placed(v0, pos_x as int, pos_y as int);
                }
                true
            },
            EntityType::Empty => false,
        }
    }

    proof fn lemma_wf_after_animal_placed(&self, v0: WorldView, x: int, y: int)
        requires
            v0.wf(),
            v0.in_grid(x, y),
            v0.animals[y][x] == EntityRef::Empty,
            v0.current_record is None,
            (self@.herbivores.len() == v0.herbivores.len() + 1 && self@.carnivores == v0.carnivores
                && self@.herbivores.subrange(0, v0.herbivores.len() as int) == v0.herbivores
                && self@.herbivores.last() is Some
                && self@.herbivores.last()->0.id == v0.herbivores.len()
                && self@.herbivores.last()->0.pos_x == x && self@.herbivores.last()->0.pos_y == y
                && self@.animals == v0.with_animal_cell(x, y, EntityRef::Herbivore(v0.herbivores.len() as usize)).animals
                && self@.herbivore_count == count_some(self@.herbivores))
            || (self@.carnivores.len() == v0.carnivores.len() + 1 && self@.herbivores == v0.herbivores
                && self@.carnivores.subrange(0, v0.carnivores.len() as int) == v0.carnivores
                && self@.carnivores.last() is Some
                && self@.carnivores.last()->0.id == v0.carnivores.len()
                && self@.carnivores.last()->0.pos_x == x && self@.carnivores.last()->0.pos_y == y
                && self@.animals == v0.with_animal_cell(x, y, EntityRef::Carnivore(v0.carnivores.len() as usize)).animals
                && self@.carnivore_count == count_some(self@.carnivores)),
            self@.plants == v0.plants,
            self@.grass_count == v0.grass_count,
            v0.same_settings(self@),
            self@.herbivores.len() <= u32::MAX,
            self@.carnivores.len() <= u32::MAX,
            self@.herbivore_count == count_some(self@.herbivores),
            self@.carnivore_count == count_some(self@.carnivores),
        ensures
            self@.wf(),
    {
        let v = self@;
        assert(grid_shape(v.animals, v.size_x as int, v.size_y as int)) by {
            assert forall|yy: int| 0 <= yy < v.size_y implies #[trigger] v.animals[yy].len() == v.size_x by {
                assert(v0.animals[yy].len() == v0.size_x);
            }
        }
        assert forall|xx: int, yy: int| v.in_grid(xx, yy) implies #[trigger] v.animal_cell_ok(xx, yy) by {
            assert(v0.animal_cell_ok(xx, yy));
        }
        assert forall|xx: int, yy: int| v.in_grid(xx, yy) implies #[trigger] v.plant_cell_ok(xx, yy) by {
            assert(v0.plant_cell_ok(xx, yy));
        }
        assert forall|j: int| 0 <= j < v.herbivores.len() implies #[trigger] v.herbivore_ok(j) by {
            if j < v0.herbivores.len() {
                assert(v0.herbivore_ok(j));
                assert(v.herbivores[j] == v0.herbivores[j]);
                if let Some(h) = v0.herbivores[j] {
                    assert(v0.animal_cell_ok(h.pos_x as int, h.pos_y as int));
                }
            }
        }
        assert forall|j: int| 0 <= j < v.carnivores.len() implies #[trigger] v.carnivore_ok(j) by {
            if j < v0.carnivores.len() {
                assert(v0.carnivore_ok(j));
                assert(v.carnivores[j] == v0.carnivores[j]);
                if let Some(c) = v0.carnivores[j] {
                    assert(v0.animal_cell_ok(c.pos_x as int, c.pos_y as int));
                }
            }
        }
    }

    proof fn lemma_grown_by_refl(v0: WorldView, t: EntityType, from_best: bool)
        ensures
            v0.grown_by(v0, t, from_best, 0),
    {
        assert(v0.carnivores.subrange(0, v0.carnivores.len() as int) =~= v0.carnivores);
        assert(v0.herbivores.subrange(0, v0.herbivores.len() as int) =~= v0.herbivores);
    }

    proof fn lemma_grown_by_step(
        v0: WorldView,
        v1: WorldView,
        t: EntityType,
        from_best: bool,
        k: int,
        x: int,
        y: int,
        parent: Option<usize>,
    )
        requires
            v0.wf(),
            v1.wf(),
            v0.grown_by(v1, t, from_best, k),
            v1.in_grid(x, y),
            v1.cell_free_for(t, x, y),
            t == EntityType::Grass ==> v1.grass_count < u32::MAX,
            t == EntityType::Carnivore ==> (from_best <==> parent is Some)
                && (parent matches Some(b) ==> b < v1.best_carnivores.len()),
            t == EntityType::Herbivore ==> (from_best <==> parent is Some)
                && (parent matches Some(b) ==> b < v1.best_herbivores.len()),
        ensures
            v0.grown_by(v1.after_placing(t, x, y, parent), t, from_best, k + 1),
    {
        let v2 = v1.after_placing(t, x, y, parent);
        if t == EntityType::Carnivore {
            assert(v2.carnivores.subrange(0, v0.carnivores.len() as int) =~= v1.carnivores.subrange(0, v0.carnivores.len() as int));
            let c = v1.spawned_carnivore(x, y, parent);
            if let Some(b) = parent {
                assert(c.parent == Some(v0.best_carnivores[b as int].id));
                assert(c.action == v0.best_carnivores[b as int].action);
            }
            assert(v0.new_carnivore_ok(c, v1.carnivores.len() as int, from_best));
            assert forall|i: int| v0.carnivores.len() <= i < v2.carnivores.len() implies {
                &&& #[trigger] v2.carnivores[i] is Some
                &&& v0.new_carnivore_ok(v2.carnivores[i]->0, i, from_best)
            } by {
                if i < v1.carnivores.len() {
                    assert(v2.carnivores[i] == v1.carnivores[i]);
                }
            }
        }
        if t == EntityType::Herbivore {
            assert(v2.herbivores.subrange(0, v0.herbivores.len() as int) =~= v1.herbivores.subrange(0, v0.herbivores.len() as int));
            let h = v1.spawned_herbivore(x, y, parent);
            if let Some(b) = parent {
                assert(h.parent == Some(v0.best_herbivores[b as int].id));
                assert(h.action == v0.best_herbivores[b as int].action);
            }
            assert(v0.new_herbivore_ok(h, v1.herbivores.len() as int, from_best));
            assert forall|i: int| v0.herbivores.len() <= i < v2.herbivores.len() implies {
                &&& #[trigger] v2.herbivores[i] is Some
                &&& v0.new_herbivore_ok(v2.herbivores[i]->0, i, from_best)
            } by {
                if i < v1.herbivores.len() {
                    assert(v2.herbivores[i] == v1.herbivores[i]);
                }
            }
        }
        assert forall|xx: int, yy: int| v0.in_grid(xx, yy) && v0.animals[yy][xx] != EntityRef::Empty
            implies #[trigger] v2.animals[yy][xx] == v0.animals[yy][xx] by {
            assert(v1.animals[yy][xx] == v0.animals[yy][xx]);
            if yy == y && xx == x && t != EntityType::Grass {
                assert(v1.animals[y][x] == EntityRef::Empty);
            }
        }
        assert forall|xx: int, yy: int| v0.in_grid(xx, yy) && v0.plants[yy][xx] == EntityRef::Grass
            implies #[trigger] v2.plants[yy][xx] == EntityRef::Grass by {
            assert(v1.plants[yy][xx] == EntityRef::Grass);
            if t == EntityType::Grass {
                if yy == y {
                    assert(v2.plants[yy] == v1.plants[yy].update(x, EntityRef::Grass));
                }
            }
        }
    }

    /// Tries `entity_count` times to spawn an entity of kind `entity_type`:
    /// each try draws up to three random cells and fills the first free one
    /// (see [`WorldMap::place_entity`]); bred animals descend from a randomly
    /// drawn best animal when `from_best` is set. Whatever the draws, at most
    /// `entity_count` entities are added and nothing else changes.
    pub fn generate_entities(&mut self, entity_count: u32, entity_type: EntityType, from_best: bool)
        requires
            old(self).wf(),
            entity_count > 0 ==> old(self)@.size_x > 0 && old(self)@.size_y > 0,
            entity_type == EntityType::Carnivore ==> {
                &&& old(self)@.carnivores.len() + entity_count <= u32::MAX
                &&& entity_count > 0 ==> old(self)@.current_record is None
                &&& from_best && entity_count > 0 ==> old(self)@.best_carnivores.len() > 0
            },
            entity_type == EntityType::Herbivore ==> {
                &&& old(self)@.herbivores.len() + entity_count <= u32::MAX
                &&& entity_count > 0 ==> old(self)@.current_record is None
                &&& from_best && entity_count > 0 ==> old(self)@.best_herbivores.len() > 0
            },
            entity_type == EntityType::Grass ==> old(self)@.grass_count + entity_count <= u32::MAX,
        ensures
            final(self).wf(),
            old(self)@.grown_by(final(self)@, entity_type, from_best, entity_count as int),
            entity_count > 0 && old(self)@.layer_empty(entity_type)
                ==> final(self)@.population(entity_type) > old(self)@.population(entity_type),
    {
        let ghost v0 = self@;
        proof {
            Self::lemma_grown_by_refl(v0, entity_type, from_best);
        }
        let mut n: u32 = 0;
        while n < entity_count
            invariant
                self.wf(),
                v0.wf(),
                0 <= n <= entity_count,
                v0.grown_by(self@, entity_type, from_best, n as int),
                n == 0 ==> self@ == v0,
                self@.population(entity_type) >= v0.population(entity_type),
                n > 0 && v0.layer_empty(entity_type) ==> self@.population(entity_type) > v0.population(entity_type),
                entity_count > 0 ==> v0.size_x > 0 && v0.size_y > 0,
                entity_type == EntityType::Carnivore ==> {
                    &&& v0.carnivores.len() + entity_count <= u32::MAX
                    &&& entity_count > 0 ==> v0.current_record is None
                    &&& from_best && entity_count > 0 ==> v0.best_carnivores.len() > 0
                },
                entity_type == EntityType::Herbivore ==> {
                    &&& v0.herbivores.len() + entity_count <= u32::MAX
                    &&& entity_count > 0 ==> v0.current_record is None
                    &&& from_best && entity_count > 0 ==> v0.best_herbivores.len() > 0
                },
                entity_type == EntityType::Grass ==> v0.grass_count + entity_count <= u32::MAX,
            decreases entity_count - n,
        {
            let ghost before = self@;
            let mut retries: u8 = 0;
            let mut placed = false;
            while retries < 3 && !placed
                invariant
                    self.wf(),
                    v0.wf(),
                    0 <= n < entity_count,
                    v0.grown_by(self@, entity_type, from_best, (n + 1) as int),
                    !placed ==> v0.grown_by(self@, entity_type, from_best, n as int),
                    !placed ==> self@ == before,
                    placed ==> self@.population(entity_type) > before.population(entity_type),
                    n == 0 ==> before == v0,
                    before.population(entity_type) >= v0.population(entity_type),
                    n == 0 && v0.layer_empty(entity_type) ==> placed || retries == 0,
                    v0.size_x > 0 && v0.size_y > 0,
                    entity_type == EntityType::Carnivore ==> {
                        &&& v0.carnivores.len() + entity_count <= u32::MAX
                        &&& v0.current_record is None
                        &&& from_best ==> v0.best_carnivores.len() > 0
                    },
                    entity_type == EntityType::Herbivore ==> {
                        &&& v0.herbivores.len() + entity_count <= u32::MAX
                        &&& v0.current_record is None
                        &&& from_best ==> v0.best_herbivores.len() > 0
                    },
                    entity_type == EntityType::Grass ==> v0.grass_count + entity_count <= u32::MAX,
                decreases 3 - retries, if placed { 0int } else { 1int },
            {
                let pos_x = random_index(self.size_x);
                let pos_y = random_index(self.size_y);
                proof {
                    self.lemma_row_len(pos_y as int);
                }
                let is_free = match entity_type {
                    EntityType::Herbivore | EntityType::Carnivore => self.animals[pos_y][pos_x] == EntityRef::Empty,
                    EntityType::Grass => self.plants[pos_y][pos_x] == EntityRef::Empty,
                    EntityType::Empty => false,
                };
                proof {
                    if n == 0 && v0.layer_empty(entity_type) && !placed {
                        assert(v0.cell_free_for(entity_type, pos_x as int, pos_y as int));
                    }
                }
                if is_free {
                    let parent: Option<usize> = if from_best && entity_type == EntityType::Herbivore {
                        Some(random_index(self.best_herbivores.len()))
                    } else if from_best && entity_type == EntityType::Carnivore {
                        Some(random_index(self.best_carnivores.len()))
                    } else {
                        None
                    };
                    let ghost v1 = self@;
                    proof {
                        Self::lemma_grown_by_step(v0, v1, entity_type, from_best, n as int, pos_x as int, pos_y as int, parent);
                    }
                    self.place_entity(entity_type, pos_x, pos_y, parent);
                    placed = true;
                } else {
                    retries = retries + 1;
                }
            }
            n = n + 1;
        }
    }

    /// The animal lists' carnivores, indexed by id (`None` for the dead).
    pub fn get_carnivores(&self) -> (carnivores: &Vec<Option<Carnivore>>)
        ensures
            carnivores@ == self@.carnivores,
    {
        &self.carnivores
    }

    /// The herbivores, indexed by id (`None` for the dead).
    pub fn get_herbivores(&self) -> (herbivores: &Vec<Option<Herbivore>>)
        ensures
            herbivores@ == self@.herbivores,
    {
        &self.herbivores
    }

    /// The plant grid, row by row.
    pub fn get_plants(&self) -> (plants: &Vec<Vec<EntityRef>>)
        ensures
            grid_view(plants) == self@.plants,
    {
        &self.plants
    }

    /// The animal grid, row by row.
    pub fn get_animals(&self) -> (animals: &Vec<Vec<EntityRef>>)
        ensures
            grid_view(animals) == self@.animals,
    {
        &self.animals
    }

    /// The number of grass cells.
    pub fn get_grass_count(&self) -> (count: u32)
        ensures
            count == self@.grass_count,
    {
        self.grass_count
    }

    /// Starts recording the running generation from its present state.
    fn init_current_generation_recording(&mut self)
        requires
            old(self).wf(),
        ensures
            final(self).wf(),
            final(self)@ == (WorldView { current_record: Some(old(self)@.fresh_record()), ..old(self)@ }),
    {
        let ghost v0 = self@;
        let record = GenerationRecording::new(self);
        self.current_generation_record = Some(record);
        proof {
            assert(self@ =~= (WorldView { current_record: Some(v0.fresh_record()), ..v0 }));
            let v = self@;
            WorldMap::lemma_cells_frame(v0, v);
        }
    }

    /// Empties both grids and the animal lists, zeroes the counters and the
    /// tick, and opens the generation.
    fn clear_population(&mut self)
        requires
            old(self)@.settings_ok(),
            old(self)@.current_record is None,
        ensures
            final(self).wf(),
            final(self)@ == (WorldView {
                animals: empty_grid(old(self)@.size_x as int, old(self)@.size_y as int),
                plants: empty_grid(old(self)@.size_x as int, old(self)@.size_y as int),
                carnivores: Seq::empty(),
                herbivores: Seq::empty(),
                carnivore_count: 0,
                herbivore_count: 0,
                grass_count: 0,
                tick: 0,
                generation_over: false,
                ..old(self)@
            }),
    {
        self.tick = 0;
        self.carnivore_count = 0;
        self.herbivore_count = 0;
        self.grass_count = 0;
        self.generation_over = false;
        self.plants = new_empty_grid(self.size_x, self.size_y);
        self.animals = new_empty_grid(self.size_x, self.size_y);
        self.carnivores = Vec::with_capacity(self.carnivore_start_count as usize);
        self.herbivores = Vec::with_capacity(self.herbivore_start_count as usize);
        proof {
            let v = self@;
            lemma_count_grass_empty(v.size_x as nat, v.size_y as nat);
            lemma_count_some_empty::<Carnivore>();
            lemma_count_some_empty::<Herbivore>();
            assert(v.carnivores =~= Seq::<Option<Carnivore>>::empty());
            assert(v.herbivores =~= Seq::<Option<Herbivore>>::empty());
            assert(grid_shape(v.animals, v.size_x as int, v.size_y as int));
            assert(grid_shape(v.plants, v.size_x as int, v.size_y as int));
            assert forall|x: int, y: int| v.in_grid(x, y) implies #[trigger] v.animal_cell_ok(x, y) by {}
            assert forall|x: int, y: int| v.in_grid(x, y) implies #[trigger] v.plant_cell_ok(x, y) by {}
        }
    }

    /// A freshly cleared map, once populated, is freshly spawned.
    proof fn lemma_populated(
        ve: WorldView,
        v1: WorldView,
        v2: WorldView,
        v3: WorldView,
        best_c: Seq<Carnivore>,
        best_h: Seq<Herbivore>,
        from_best: bool,
    )
        requires
            ve.carnivores.len() == 0,
            ve.herbivores.len() == 0,
            ve.grass_count == 0,
            ve.tick == 0,
            !ve.generation_over,
            ve.best_carnivores == best_c,
            ve.best_herbivores == best_h,
            ve.grown_by(v1, EntityType::Carnivore, from_best, ve.carnivore_start_count as int),
            v1.grown_by(v2, EntityType::Herbivore, from_best, ve.herbivore_start_count as int),
            v2.grown_by(v3, EntityType::Grass, from_best, ve.grass_start_count as int),
            ve.layer_empty(EntityType::Carnivore),
            ve.layer_empty(EntityType::Grass),
            ve.carnivore_start_count > 0 && ve.layer_empty(EntityType::Carnivore)
                ==> v1.population(EntityType::Carnivore) > ve.population(EntityType::Carnivore),
            ve.herbivore_start_count > 0 && v1.layer_empty(EntityType::Herbivore)
                ==> v2.population(EntityType::Herbivore) > v1.population(EntityType::Herbivore),
            ve.grass_start_count > 0 && v2.layer_empty(EntityType::Grass)
                ==> v3.population(EntityType::Grass) > v2.population(EntityType::Grass),
        ensures
            v3.freshly_spawned(best_c, best_h, from_best),
            ve.same_settings(v3),
    {
        if v1.carnivores.len() == 0 {
            assert(v1.animals == ve.animals);
            assert forall|x: int, y: int| v1.in_grid(x, y) implies #[trigger] v1.cell_free_for(EntityType::Herbivore, x, y) by {
                assert(ve.cell_free_for(EntityType::Carnivore, x, y));
            }
        }
        assert forall|x: int, y: int| v2.in_grid(x, y) implies #[trigger] v2.cell_free_for(EntityType::Grass, x, y) by {
            assert(ve.cell_free_for(EntityType::Grass, x, y));
        }
        assert forall|i: int| 0 <= i < v3.carnivores.len() implies {
            &&& #[trigger] v3.carnivores[i] is Some
            &&& carnivore_spawned_ok(v3.carnivores[i]->0, i, v3.carnivore_max_energy, best_c, from_best)
        } by {
            assert(v1.carnivores[i] is Some);
        }
        assert forall|i: int| 0 <= i < v3.herbivores.len() implies {
            &&& #[trigger] v3.herbivores[i] is Some
            &&& herbivore_spawned_ok(v3.herbivores[i]->0, i, v3.herbivore_max_energy, best_h, from_best)
        } by {
            assert(v2.herbivores[i] is Some);
        }
    }

    /// Starts the first generation: empty grids, then the configured numbers
    /// of new carnivores, herbivores and grass on random free cells.
    fn reset(&mut self)
        requires
            old(self)@.settings_ok(),
            old(self)@.current_record is None,
        ensures
            final(self).wf(),
            final(self)@.recording_ready(),
            final(self)@.freshly_spawned(Seq::empty(), Seq::empty(), false),
            final(self)@.generation == 0,
            final(self)@.best_carnivores.len() == 0,
            final(self)@.best_herbivores.len() == 0,
            final(self)@.record ==> final(self)@.current_record == Some(final(self)@.fresh_record())
                && final(self)@.complete_record.len() == 0,
            !final(self)@.record ==> final(self)@.current_record is None
                && final(self)@.complete_record == old(self)@.complete_record,
            old(self)@.same_fixed_settings(final(self)@),
    {
        self.generation = 0;
        self.clear_population();
        self.best_carnivores = Vec::new();
        self.best_herbivores = Vec::new();
        let ghost ve = self@;
        proof {
            Self::lemma_wf_other_fields(self@, self@);
        }
        assert(ve.wf()) by {
            let v = ve;
            assert forall|x: int, y: int| v.in_grid(x, y) implies #[trigger] v.animal_cell_ok(x, y) by {}
        }
        self.generate_entities(self.carnivore_start_count, EntityType::Carnivore, false);
        let ghost v1 = self@;
        self.generate_entities(self.herbivore_start_count, EntityType::Herbivore, false);
        let ghost v2 = self@;
        self.generate_entities(self.grass_start_count, EntityType::Grass, false);
        let ghost v3 = self@;
        proof {
            assert(ve.best_carnivores =~= Seq::<Carnivore>::empty());
            assert(ve.best_herbivores =~= Seq::<Herbivore>::empty());
            Self::lemma_populated(ve, v1, v2, v3, Seq::empty(), Seq::empty(), false);
        }
        if self.record {
            self.complete_record.clear();
            proof {
                assert(self@.complete_record =~= Seq::<RecordingView>::empty());
                assert(self@ =~= (WorldView { complete_record: Seq::empty(), ..v3 }));
                Self::lemma_wf_other_fields(v3, self@);
            }
            self.init_current_generation_recording();
        }
    }

    /// A map of the configured size holding the configured numbers of new
    /// carnivores, herbivores and grass on random free cells, at generation 0
    /// and tick 0, recording from the start if configured to.
    pub fn new(map_config: MapConfig, generation_config: GenerationConfig) -> (map: WorldMap)
        requires
            map_config.size_x <= i32::MAX - 2,
            map_config.size_y <= i32::MAX - 2,
            ((2 * map_config.sense_radius + 1) * (2 * map_config.sense_radius + 1) - 1) * 4 <= usize::MAX,
            map_config.carnivore_count > 0 || map_config.herbivore_count > 0 || map_config.grass_count > 0
                ==> map_config.size_x > 0 && map_config.size_y > 0,
        ensures
            map.wf(),
            map@.recording_ready(),
            map@.freshly_spawned(Seq::empty(), Seq::empty(), false),
            map@.size_x == map_config.size_x,
            map@.size_y == map_config.size_y,
            map@.carnivore_start_count == map_config.carnivore_count,
            map@.herbivore_start_count == map_config.herbivore_count,
            map@.grass_start_count == map_config.grass_count,
            map@.carnivore_max_energy == map_config.carnivore_max_energy,
            map@.herbivore_max_energy == map_config.herbivore_max_energy,
            map@.sense_radius == map_config.sense_radius,
            map@.input_count == ((2 * map_config.sense_radius + 1) * (2 * map_config.sense_radius + 1) - 1) * 4,
            map@.record == map_config.record,
            map@.generation_config == generation_config,
            map@.generation == 0,
            map@.best_carnivores.len() == 0,
            map@.best_herbivores.len() == 0,
            map@.complete_record.len() == 0,
            map_config.record ==> map@.current_record == Some(map@.fresh_record()),
            !map_config.record ==> map@.current_record is None,
    {
        assert(2 * map_config.sense_radius + 1 <= usize::MAX) by (nonlinear_arith)
            requires
                ((2 * map_config.sense_radius + 1) * (2 * map_config.sense_radius + 1) - 1) * 4 <= usize::MAX,
        ;
        let side: usize = map_config.sense_radius * 2 + 1;
        assert(side * side >= 1) by (nonlinear_arith)
            requires
                side >= 1,
        ;
        let mut map = WorldMap {
            animals: Vec::new(),
            plants: Vec::new(),
            carnivores: Vec::new(),
            herbivores: Vec::new(),
            best_carnivores: Vec::new(),
            best_herbivores: Vec::new(),
            carnivore_start_count: map_config.carnivore_count,
            herbivore_start_count: map_config.herbivore_count,
            grass_start_count: map_config.grass_count,
            carnivore_count: 0,
            herbivore_count: 0,
            grass_count: 0,
            sense_radius: map_config.sense_radius,
            carnivore_max_energy: map_config.carnivore_max_energy,
            herbivore_max_energy: map_config.herbivore_max_energy,
            input_count: (side * side - 1) * 4,
            size_x: map_config.size_x,
            size_y: map_config.size_y,
            generation: 0,
            tick: 0,
            generation_over: false,
            record: map_config.record,
            current_generation_record: None,
            complete_record: Vec::new(),
            generation_config,
        };
        proof {
            assert(map@.complete_record =~= Seq::<RecordingView>::empty());
        }
        map.reset();
        map
    }

    /// Moves living animals to the best ones (see [`WorldView::promoted_carnivores`]):
    /// in index order, while some are counted alive and fewer best ones are
    /// kept than configured, each living animal joins them and the counter
    /// drops. The animals themselves stay where they are.
    fn move_remaining_animals_to_best(&mut self)
        requires
            old(self).wf(),
        ensures
            final(self)@ == (WorldView {
                best_herbivores: old(self)@.promoted_herbivores(),
                herbivore_count: promote(
                    old(self)@.best_herbivores,
                    old(self)@.herbivore_count as int,
                    old(self)@.herbivores,
                    old(self)@.generation_config.best_herbivore_count as int,
                    0,
                ).1 as u32,
                best_carnivores: old(self)@.promoted_carnivores(),
                carnivore_count: promote(
                    old(self)@.best_carnivores,
                    old(self)@.carnivore_count as int,
                    old(self)@.carnivores,
                    old(self)@.generation_config.best_carnivore_count as int,
                    0,
                ).1 as u32,
                ..old(self)@
            }),
    {
        let ghost v0 = self@;
        let ghost hs = v0.herbivores;
        proof {
            lemma_count_some_bound(hs);
        }
        let ghost cap_h = v0.generation_config.best_herbivore_count as int;
        let mut id: u32 = 0;
        while self.herbivore_count > 0
            && self.best_herbivores.len() < self.generation_config.best_herbivore_count as usize
            && id < self.herbivores.len() as u32
            invariant
                self@ == (WorldView { best_herbivores: self@.best_herbivores, herbivore_count: self@.herbivore_count, ..v0 }),
                hs.len() <= u32::MAX,
                self.herbivores@ == hs,
                hs == v0.herbivores,
                cap_h == v0.generation_config.best_herbivore_count as int,
                0 <= id <= hs.len(),
                promote(self@.best_herbivores, self@.herbivore_count as int, hs, cap_h, id as int)
                    == promote(v0.best_herbivores, v0.herbivore_count as int, hs, cap_h, 0),
            decreases hs.len() - id,
        {
            proof {
                let b = self@.best_herbivores;
                let c = self@.herbivore_count as int;
                assert(promote(b, c, hs, cap_h, id as int) == match hs[id as int] {
                    Some(a) => promote(b.push(a), c - 1, hs, cap_h, id + 1),
                    None => promote(b, c, hs, cap_h, id + 1),
                });
            }
            match self.herbivores[id as usize] {
                Some(h) => {
                    self.best_herbivores.push(h);
                    self.herbivore_count = self.herbivore_count - 1;
                },
                None => {},
            }
            id = id + 1;
        }
        let ghost v1 = self@;
        let ghost cs = v0.carnivores;
        let ghost cap_c = v0.generation_config.best_carnivore_count as int;
        let mut id: u32 = 0;
        while self.carnivore_count > 0
            && self.best_carnivores.len() < self.generation_config.best_carnivore_count as usize
            && id < self.carnivores.len() as u32
            invariant
                self@ == (WorldView { best_carnivores: self@.best_carnivores, carnivore_count: self@.carnivore_count, ..v1 }),
                cs.len() <= u32::MAX,
                cs == v1.carnivores,
                self.carnivores@ == cs,
                cap_c == v0.generation_config.best_carnivore_count as int,
                v1.generation_config == v0.generation_config,
                cs == v0.carnivores,
                0 <= id <= cs.len(),
                promote(self@.best_carnivores, self@.carnivore_count as int, cs, cap_c, id as int)
                    == promote(v0.best_carnivores, v0.carnivore_count as int, cs, cap_c, 0),
            decreases cs.len() - id,
        {
            proof {
                let b = self@.best_carnivores;
                let c = self@.carnivore_count as int;
                assert(promote(b, c, cs, cap_c, id as int) == match cs[id as int] {
                    Some(a) => promote(b.push(a), c - 1, cs, cap_c, id + 1),
                    None => promote(b, c, cs, cap_c, id + 1),
                });
            }
            match self.carnivores[id as usize] {
                Some(c) => {
                    self.best_carnivores.push(c);
                    self.carnivore_count = self.carnivore_count - 1;
                },
                None => {},
            }
            id = id + 1;
        }
    }

    /// Whether there are animals of both kinds to breed the next generation
    /// from (see [`WorldView::breeding_stock`]); starting a new generation
    /// without them is not possible.
    pub fn has_breeding_stock(&self) -> (ok: bool)
        requires
            self.wf(),
        ensures
            ok == self@.breeding_stock(),
            ok <==> self@.promoted_carnivores().len() > 0 && self@.promoted_herbivores().len() > 0,
    {
        proof {
            lemma_promote_nonempty(self@.best_carnivores, self@.carnivores, self@.generation_config.best_carnivore_count as int);
            lemma_promote_nonempty(self@.best_herbivores, self@.herbivores, self@.generation_config.best_herbivore_count as int);
        }
        (self.best_carnivores.len() > 0 || (self.carnivore_count > 0 && self.generation_config.best_carnivore_count > 0))
            && (self.best_herbivores.len() > 0 || (self.herbivore_count > 0 && self.generation_config.best_herbivore_count > 0))
    }

    /// Ends the running generation and breeds the next one: the running record
    /// is filed, the living animals join the best ones (see
    /// [`WorldView::promoted_carnivores`]), the generation counter advances if
    /// the end was not already counted, and the grids are refilled with the
    /// configured numbers of animals, each bred from a random best animal,
    /// and grass, on random free cells. The best animals are then forgotten.
    pub fn start_new_generation(&mut self)
        requires
            old(self).wf(),
            old(self)@.breeding_stock(),
            !old(self)@.generation_over ==> old(self)@.generation < usize::MAX,
        ensures
            final(self).wf(),
            final(self)@.recording_ready(),
            final(self)@.freshly_spawned(old(self)@.promoted_carnivores(), old(self)@.promoted_herbivores(), true),
            final(self)@.best_carnivores.len() == 0,
            final(self)@.best_herbivores.len() == 0,
            final(self)@.generation == old(self)@.generation_after_breeding(),
            final(self)@.complete_record == match old(self)@.current_record {
                Some(r) => old(self)@.complete_record.push(r),
                None => old(self)@.complete_record,
            },
            final(self)@.record ==> final(self)@.current_record == Some(final(self)@.fresh_record()),
            !final(self)@.record ==> final(self)@.current_record is None,
            old(self)@.same_fixed_settings(final(self)@),
    {
        let ghost v0 = self@;
        proof {
            lemma_promote_nonempty(v0.best_carnivores, v0.carnivores, v0.generation_config.best_carnivore_count as int);
            lemma_promote_nonempty(v0.best_herbivores, v0.herbivores, v0.generation_config.best_herbivore_count as int);
        }
        let taken = self.current_generation_record.take();
        match taken {
            Some(record) => {
                self.complete_record.push(record);
            },
            None => {},
        }
        proof {
            let expected = match v0.current_record {
                Some(r) => v0.complete_record.push(r),
                None => v0.complete_record,
            };
            assert(self@.complete_record =~= expected);
            Self::lemma_wf_other_fields(v0, self@);
        }
        self.move_remaining_animals_to_best();
        if !self.generation_over {
            self.generation = self.generation + 1;
        }
        self.clear_population();
        let ghost ve = self@;
        self.generate_entities(self.carnivore_start_count, EntityType::Carnivore, true);
        let ghost v1 = self@;
        self.generate_entities(self.herbivore_start_count, EntityType::Herbivore, true);
        let ghost v2 = self@;
        self.generate_entities(self.grass_start_count, EntityType::Grass, true);
        let ghost v3 = self@;
        proof {
            Self::lemma_populated(ve, v1, v2, v3, v0.promoted_carnivores(), v0.promoted_herbivores(), true);
        }
        self.best_carnivores = Vec::new();
        self.best_herbivores = Vec::new();
        proof {
            Self::lemma_wf_other_fields(v3, self@);
        }
        if self.record {
            self.init_current_generation_recording();
        }
    }

    proof fn lemma_sensing_args(&self, xc: i32, yc: i32, t: EntityType)
        requires
            self.wf(),
            self@.sensing_coords_ok(xc, yc),
        ensures
            sensing_args_ok(self@.sensed_grid(t), self@.sense_radius, xc, yc),
    {
        let v = self@;
        let g = v.sensed_grid(t);
        let r = v.sense_radius;
        assert((2 * r + 1) * (2 * r + 1) >= 1) by (nonlinear_arith);
        if g.len() > 0 {
            assert(g[0].len() == v.size_x);
        }
        assert forall|y: int| 0 <= y < g.len() implies #[trigger] g[y].len() >= g[0].len() by {
            assert(g[y].len() == v.size_x);
            assert(g[0].len() == v.size_x);
        }
    }

    /// What an animal at `(x_center, y_center)` perceives of kind
    /// `input_type` (see [`WorldView::partial_input`]): one entry per cell of
    /// the square of the map's sensing radius around it, without its own.
    pub fn generate_partial_input(&self, x_center: i32, y_center: i32, input_type: EntityType) -> (ret: Vec<bool>)
        requires
            self.wf(),
            self@.sensing_coords_ok(x_center, y_center),
        ensures
            ret@ == self@.partial_input(x_center as int, y_center as int, input_type),
            ret@.len() == (2 * self@.sense_radius + 1) * (2 * self@.sense_radius + 1) - 1,
    {
        proof {
            self.lemma_sensing_args(x_center, y_center, input_type);
        }
        if input_type == EntityType::Grass {
            sense_partial(&self.plants, self.sense_radius, x_center, y_center, input_type)
        } else {
            sense_partial(&self.animals, self.sense_radius, x_center, y_center, input_type)
        }
    }

    /// The full sensing vector of an animal at `(x_center, y_center)` (see
    /// [`WorldView::input`]); it is as long as the map's `input_count`, the
    /// size of a brain's input layer. The sensing radius must be at least 1.
    pub fn generate_input(&self, x_center: i32, y_center: i32) -> (ret: Vec<bool>)
        requires
            self.wf(),
            self@.sensing_coords_ok(x_center, y_center),
            self@.sense_radius >= 1,
        ensures
            ret@ == self@.input(x_center as int, y_center as int),
            ret@.len() == self@.input_count,
    {
        let side: usize = self.sense_radius * 2 + 1;
        assert(side * side >= 9) by (nonlinear_arith)
            requires
                side >= 3,
        ;
        let mut ret: Vec<bool> = Vec::with_capacity((side * side - 1) * 4 - 4);
        let mut walls = self.generate_partial_input(x_center, y_center, EntityType::Empty);
        let mut carnivores = self.generate_partial_input(x_center, y_center, EntityType::Carnivore);
        let mut herbivores = self.generate_partial_input(x_center, y_center, EntityType::Herbivore);
        let mut grass = self.generate_partial_input(x_center, y_center, EntityType::Grass);
        ret.append(&mut walls);
        ret.append(&mut carnivores);
        ret.append(&mut herbivores);
        ret.append(&mut grass);
        ret
    }

    /// Sets the action of carnivore `id`, if it is alive.
    pub fn set_carnivore_action(&mut self, id: usize, action: Action)
        requires
            old(self).wf(),
            id < old(self)@.carnivores.len(),
        ensures
            final(self).wf(),
            final(self)@ == match old(self)@.carnivores[id as int] {
                Some(c) => old(self)@.with_carnivore(id as int, Carnivore { action, ..c }),
                None => old(self)@,
            },
    {
        if let Some(c) = self.carnivores[id] {
            let mut c2 = c;
            *c2.get_action_ref_mut() = action;
            proof {
                Self::lemma_wf_with_carnivore(self@, id as int, c2);
            }
            self.carnivores.set(id, Some(c2));
        }
    }

    /// Sets the action of herbivore `id`, if it is alive.
    pub fn set_herbivore_action(&mut self, id: usize, action: Action)
        requires
            old(self).wf(),
            id < old(self)@.herbivores.len(),
        ensures
            final(self).wf(),
            final(self)@ == match old(self)@.herbivores[id as int] {
                Some(h) => old(self)@.with_herbivore(id as int, Herbivore { action, ..h }),
                None => old(self)@,
            },
    {
        if let Some(h) = self.herbivores[id] {
            let mut h2 = h;
            *h2.get_action_ref_mut() = action;
            proof {
                Self::lemma_wf_with_herbivore(self@, id as int, h2);
            }
            self.herbivores.set(id, Some(h2));
        }
    }

    /// The size of a brain's input layer: four kinds of sensing over the
    /// square around an animal, without its own cell.
    pub fn get_input_count(&self) -> (count: usize)
        ensures
            count == self@.input_count,
    {
        self.input_count
    }

    /// The generation counter.
    pub fn get_generation(&self) -> (generation: usize)
        ensures
            generation == self@.generation,
    {
        self.generation
    }

    /// The map as text, one line per row (see [`grid_text`]).
    pub fn to_string(&self) -> (text: String)
        requires
            self.wf(),
        ensures
            text@ == grid_text(self@.animals, self@.plants, self@.size_x as nat, self@.size_y as nat),
    {
        let ghost v = self@;
        proof {
            reveal_strlit("");
        }
        let mut ret: String = String::from_str("");
        let mut y: usize = 0;
        while y < self.size_y
            invariant
                v == self@,
                self.wf(),
                0 <= y <= v.size_y,
                ret@ == grid_text(v.animals, v.plants, v.size_x as nat, y as nat),
            decreases v.size_y - y,
        {
            proof {
                self.lemma_row_len(y as int);
                reveal_strlit("");
                reveal_strlit("\n");
            }
            let mut row: String = String::from_str("");
            let mut x: usize = 0;
            while x < self.size_x
                invariant
                    v == self@,
                    self.wf(),
                    0 <= y < v.size_y,
                    0 <= x <= v.size_x,
                    self.animals@[y as int]@.len() == v.size_x,
                    self.plants@[y as int]@.len() == v.size_x,
                    row@ == row_text(v.animals[y as int], v.plants[y as int], x as nat),
                decreases v.size_x - x,
            {
                proof {
                    reveal_strlit("X");
                    reveal_strlit("o");
                    reveal_strlit(" ");
                    reveal_strlit(".");
                }
                match self.animals[y][x] {
                    EntityRef::Carnivore(_) => {
                        row.append("X");
                    },
                    EntityRef::Herbivore(_) => {
                        row.append("o");
                    },
                    EntityRef::Grass => {},
                    EntityRef::Empty => {
                        row.append(" ");
                    },
                }
                if self.plants[y][x] == EntityRef::Grass {
                    row.append(".");
                }
                assert(row@ =~= row_text(v.animals[y as int], v.plants[y as int], (x + 1) as nat));
                x = x + 1;
            }
            ret.append(row.as_str());
            ret.append("\n");
            assert(ret@ =~= grid_text(v.animals, v.plants, v.size_x as nat, (y + 1) as nat));
            y = y + 1;
        }
        ret
    }

    /// A copy of the records of the finished generations.
    pub fn get_recording(&self) -> (recording: Vec<GenerationRecording>)
        ensures
            recording@.map_values(|r: GenerationRecording| r@) == self@.complete_record,
    {
        let mut recording: Vec<GenerationRecording> = Vec::new();
        let mut i: usize = 0;
        while i < self.complete_record.len()
            invariant
                0 <= i <= self.complete_record@.len(),
                recording@.len() == i,
                forall|j: int| 0 <= j < i ==> #[trigger] recording@[j]@ == self.complete_record@[j]@,
            decreases self.complete_record@.len() - i,
        {
            let copy = self.complete_record[i].clone();
            recording.push(copy);
            i = i + 1;
        }
        assert(recording@.map_values(|r: GenerationRecording| r@) =~= self@.complete_record);
        recording
    }

    /// The record of the running generation, if it is being recorded.
    pub fn get_current_recording(&self) -> (recording: Option<&GenerationRecording>)
        ensures
            match recording {
                Some(r) => self@.current_record == Some(r@),
                None => self@.current_record is None,
            },
    {
        match &self.current_generation_record {
            Some(r) => Some(r),
            None => None,
        }
    }

    /// The number of living carnivores.
    pub fn get_carnivore_count(&self) -> (count: u32)
        ensures
            count == self@.carnivore_count,
    {
        self.carnivore_count
    }

    /// The number of living herbivores.
    pub fn get_herbivore_count(&self) -> (count: u32)
        ensures
            count == self@.herbivore_count,
    {
        self.herbivore_count
    }

    /// The best carnivores kept so far in this generation.
    pub fn get_best_carnivores(&self) -> (best: &Vec<Carnivore>)
        ensures
            best@ == self@.best_carnivores,
    {
        &self.best_carnivores
    }

    /// The best herbivores kept so far in this generation.
    pub fn get_best_herbivores(&self) -> (best: &Vec<Herbivore>)
        ensures
            best@ == self@.best_herbivores,
    {
        &self.best_herbivores
    }

    /// Whether the energies leave room for a tick (see
    /// [`WorldView::tick_energies_ok`]).
    pub fn energies_fit_tick(&self) -> (ok: bool)
        ensures
            ok == self@.tick_energies_ok(),
    {
        let mut i: usize = 0;
        while i < self.carnivores.len()
            invariant
                0 <= i <= self.carnivores@.len(),
                forall|j: int| 0 <= j < i && #[trigger] self@.carnivores[j] is Some
                    ==> i32::MIN + 3 <= self@.carnivores[j]->0.energy
                        && (self@.carnivores[j]->0.action == Action::Eat ==> self@.carnivores[j]->0.energy <= i32::MAX - 100),
            decreases self.carnivores@.len() - i,
        {
            if let Some(c) = self.carnivores[i] {
                if c.energy < i32::MIN + 3 || (c.action == Action::Eat && c.energy > i32::MAX - 100) {
                    return false;
                }
            }
            i = i + 1;
        }
        let mut i: usize = 0;
        while i < self.herbivores.len()
            invariant
                0 <= i <= self.herbivores@.len(),
                forall|j: int| 0 <= j < self@.carnivores.len() && #[trigger] self@.carnivores[j] is Some
                    ==> i32::MIN + 3 <= self@.carnivores[j]->0.energy
                        && (self@.carnivores[j]->0.action == Action::Eat ==> self@.carnivores[j]->0.energy <= i32::MAX - 100),
                forall|j: int| 0 <= j < i && #[trigger] self@.herbivores[j] is Some
                    ==> i32::MIN + 3 <= self@.herbivores[j]->0.energy
                        && (self@.herbivores[j]->0.action == Action::Eat ==> self@.herbivores[j]->0.energy <= i32::MAX - 100),
            decreases self.herbivores@.len() - i,
        {
            if let Some(h) = self.herbivores[i] {
                if h.energy < i32::MIN + 3 || (h.action == Action::Eat && h.energy > i32::MAX - 100) {
                    return false;
                }
            }
            i = i + 1;
        }
        true
    }

    /// Whether the generations are recorded.
    pub fn is_recording(&self) -> (record: bool)
        ensures
            record == self@.record,
    {
        self.record
    }
}

/// A grid of `h` rows of `w` empty cells.
fn new_empty_grid(w: usize, h: usize) -> (grid: Vec<Vec<EntityRef>>)
    ensures
        grid_view(&grid) == empty_grid(w as int, h as int),
        grid@.len() == h,
        forall|y: int| 0 <= y < h ==> #[trigger] grid@[y]@.len() == w,
{
    let mut grid: Vec<Vec<EntityRef>> = Vec::new();
    let mut y: usize = 0;
    while y < h
        invariant
            0 <= y <= h,
            grid@.len() == y,
            forall|j: int| 0 <= j < y ==> #[trigger] grid@[j]@ == Seq::new(w as nat, |x: int| EntityRef::Empty),
        decreases h - y,
    {
        let mut row: Vec<EntityRef> = Vec::new();
        let mut x: usize = 0;
        while x < w
            invariant
                0 <= x <= w,
                row@ == Seq::new(x as nat, |i: int| EntityRef::Empty),
            decreases w - x,
        {
            row.push(EntityRef::Empty);
            assert(row@ =~= Seq::new((x + 1) as nat, |i: int| EntityRef::Empty));
            x = x + 1;
        }
        grid.push(row);
        y = y + 1;
    }
    assert(grid_view(&grid) =~= empty_grid(w as int, h as int));
    grid
}

proof fn lemma_count_grass_empty_row(n: nat)
    ensures
        count_grass_row(Seq::new(n, |x: int| EntityRef::Empty)) == 0,
    decreases n,
{
    if n > 0 {
        lemma_count_grass_empty_row((n - 1) as nat);
        assert(Seq::new(n, |x: int| EntityRef::Empty).drop_last() =~= Seq::new((n - 1) as nat, |x: int| EntityRef::Empty));
    }
}

proof fn lemma_count_grass_empty(w: nat, h: nat)
    ensures
        count_grass(empty_grid(w as int, h as int)) == 0,
    decreases h,
{
    if h > 0 {
        lemma_count_grass_empty(w, (h - 1) as nat);
        lemma_count_grass_empty_row(w);
        assert(empty_grid(w as int, h as int).drop_last() =~= empty_grid(w as int, (h - 1) as int));
    }
}

proof fn lemma_count_some_empty<A>()
    ensures
        count_some(Seq::<Option<A>>::empty()) == 0,
{
}

/// Promoting never loses a best animal.
proof fn lemma_promote_grows<A>(best: Seq<A>, count: int, xs: Seq<Option<A>>, cap: int, id: int)
    ensures
        promote(best, count, xs, cap, id).0.len() >= best.len(),
    decreases xs.len() - id,
{
    if count > 0 && best.len() < cap && 0 <= id < xs.len() {
        match xs[id] {
            Some(a) => lemma_promote_grows(best.push(a), count - 1, xs, cap, id + 1),
            None => lemma_promote_grows(best, count, xs, cap, id + 1),
        }
    }
}

/// Promoting adds an animal when one is alive at or after `id` and there is
/// room and count for it.
proof fn lemma_promote_finds<A>(best: Seq<A>, count: int, xs: Seq<Option<A>>, cap: int, id: int, j: int)
    requires
        count > 0,
        best.len() < cap,
        0 <= id <= j < xs.len(),
        xs[j] is Some,
    ensures
        promote(best, count, xs, cap, id).0.len() > best.len(),
    decreases xs.len() - id,
{
    match xs[id] {
        Some(a) => lemma_promote_grows(best.push(a), count - 1, xs, cap, id + 1),
        None => lemma_promote_finds(best, count, xs, cap, id + 1, j),
    }
}

/// With the counter counting the living, promotion yields some best animal
/// exactly when there was one already, or one is alive and may be kept.
proof fn lemma_promote_nonempty<A>(best: Seq<A>, xs: Seq<Option<A>>, cap: int)
    requires
        cap >= 0,
    ensures
        promote(best, count_some(xs) as int, xs, cap, 0).0.len() > 0
            <==> (best.len() > 0 || (count_some(xs) > 0 && cap > 0)),
{
    let count = count_some(xs) as int;
    if best.len() > 0 {
        lemma_promote_grows(best, count, xs, cap, 0);
    } else if count > 0 && cap > 0 {
        let j = lemma_count_some_witness(xs);
        lemma_promote_finds(best, count, xs, cap, 0, j);
    }
}

} // verus!
