use vstd::prelude::*;
use crate::entity::Action;
use crate::carnivore::Carnivore;
use crate::herbivore::Herbivore;
use crate::entity::EntityRef;
use crate::map::WorldMap;
use crate::sensing::grid_view;

verus! {

/// The state of one animal at one tick.
#[derive(Clone, Copy, Debug)]
pub struct AnimalRecord {
    pub energy: i32,
    pub action: Action,
    pub pos_x: usize,
    pub pos_y: usize,
}

/// The record of one generation: the population at its start, one record
/// per tick for every living animal (indexed by the animal's id), and the
/// grass eaten as `(tick, x, y)`.
pub struct GenerationRecording {
    carnivores_at_start: Vec<Option<Carnivore>>,
    herbivores_at_start: Vec<Option<Herbivore>>,
    grass_at_start: Vec<(usize, usize)>,
    carnivore_records: Vec<Vec<AnimalRecord>>,
    herbivore_records: Vec<Vec<AnimalRecord>>,
    dead_grass: Vec<(usize, usize, usize)>,
}

/// The contents of a [`GenerationRecording`].
pub struct RecordingView {
    pub carnivores_at_start: Seq<Option<Carnivore>>,
    pub herbivores_at_start: Seq<Option<Herbivore>>,
    pub grass_at_start: Seq<(usize, usize)>,
    pub carnivore_records: Seq<Seq<AnimalRecord>>,
    pub herbivore_records: Seq<Seq<AnimalRecord>>,
    pub dead_grass: Seq<(usize, usize, usize)>,
}

/// The record of a carnivore at one tick.
pub open spec fn carnivore_record(c: Carnivore) -> AnimalRecord {
    AnimalRecord { energy: c.energy, action: c.action, pos_x: c.pos_x, pos_y: c.pos_y }
}

/// The record of a herbivore at one tick.
pub open spec fn herbivore_record(h: Herbivore) -> AnimalRecord {
    AnimalRecord { energy: h.energy, action: h.action, pos_x: h.pos_x, pos_y: h.pos_y }
}

/// The positions `(x, y)` of the grass cells of row `y`, left to right.
pub open spec fn grass_in_row(row: Seq<EntityRef>, y: int) -> Seq<(usize, usize)>
    decreases row.len(),
{
    if row.len() == 0 {
        Seq::empty()
    } else {
        grass_in_row(row.drop_last(), y) + if row.last() == EntityRef::Grass {
            seq![((row.len() - 1) as usize, y as usize)]
        } else {
            Seq::empty()
        }
    }
}

/// The positions `(x, y)` of the grass cells of a grid, row by row.
pub open spec fn grass_positions(g: Seq<Seq<EntityRef>>) -> Seq<(usize, usize)>
    decreases g.len(),
{
    if g.len() == 0 {
        Seq::empty()
    } else {
        grass_positions(g.drop_last()) + grass_in_row(g.last(), g.len() - 1)
    }
}

impl RecordingView {
    /// The record after one tick: every living animal's state is appended to
    /// the list of its id.
    pub open spec fn after_tick(self, carnivores: Seq<Option<Carnivore>>, herbivores: Seq<Option<Herbivore>>) -> RecordingView {
        RecordingView {
            carnivore_records: Seq::new(
                self.carnivore_records.len(),
                |id: int|
                    if id < carnivores.len() && carnivores[id] is Some {
                        self.carnivore_records[id].push(carnivore_record(carnivores[id]->0))
                    } else {
                        self.carnivore_records[id]
                    },
            ),
            herbivore_records: Seq::new(
                self.herbivore_records.len(),
                |id: int|
                    if id < herbivores.len() && herbivores[id] is Some {
                        self.herbivore_records[id].push(herbivore_record(herbivores[id]->0))
                    } else {
                        self.herbivore_records[id]
                    },
            ),
            ..self
        }
    }
}

/// The lists of records, one per animal.
pub open spec fn records_view(lists: &Vec<Vec<AnimalRecord>>) -> Seq<Seq<AnimalRecord>> {
    lists@.map_values(|r: Vec<AnimalRecord>| r@)
}

fn push_record(lists: &mut Vec<Vec<AnimalRecord>>, id: usize, record: AnimalRecord)
    requires
        id < old(lists)@.len(),
    ensures
        records_view(final(lists)) == records_view(old(lists)).update(id as int, records_view(old(lists))[id as int].push(record)),
        final(lists)@.len() == old(lists)@.len(),
{
    lists[id].push(record);
    assert(records_view(lists) =~= records_view(old(lists)).update(id as int, records_view(old(lists))[id as int].push(record)));
}

impl View for GenerationRecording {
    type V = RecordingView;

    closed spec fn view(&self) -> RecordingView {
        RecordingView {
            carnivores_at_start: self.carnivores_at_start@,
            herbivores_at_start: self.herbivores_at_start@,
            grass_at_start: self.grass_at_start@,
            carnivore_records: records_view(&self.carnivore_records),
            herbivore_records: records_view(&self.herbivore_records),
            dead_grass: self.dead_grass@,
        }
    }
}

/// A copy of a list of values.
fn copy_list<T: Copy>(list: &Vec<T>) -> (copy: Vec<T>)
    ensures
        copy@ == list@,
{
    let mut copy: Vec<T> = Vec::new();
    let mut i: usize = 0;
    while i < list.len()
        invariant
            0 <= i <= list@.len(),
            copy@ == list@.subrange(0, i as int),
        decreases list@.len() - i,
    {
        let item = list[i];
        copy.push(item);
        assert(copy@ =~= list@.subrange(0, i as int + 1));
        i = i + 1;
    }
    assert(copy@ =~= list@);
    copy
}

/// A copy of a list of record lists.
fn clone_records(lists: &Vec<Vec<AnimalRecord>>) -> (copy: Vec<Vec<AnimalRecord>>)
    ensures
        records_view(&copy) == records_view(lists),
{
    let mut copy: Vec<Vec<AnimalRecord>> = Vec::new();
    let mut i: usize = 0;
    while i < lists.len()
        invariant
            0 <= i <= lists@.len(),
            copy@.len() == i,
            forall|j: int| 0 <= j < i ==> #[trigger] copy@[j]@ == lists@[j]@,
        decreases lists@.len() - i,
    {
        let inner = lists[i].clone();
        assert(inner@ =~= lists@[i as int]@);
        copy.push(inner);
        i = i + 1;
    }
    assert(records_view(&copy) =~= records_view(lists));
    copy
}

impl Clone for GenerationRecording {
    fn clone(&self) -> (copy: Self)
        ensures
            copy@ == self@,
    {
        let carnivores_at_start = self.carnivores_at_start.clone();
        let herbivores_at_start = self.herbivores_at_start.clone();
        let grass_at_start = copy_list(&self.grass_at_start);
        let dead_grass = copy_list(&self.dead_grass);
        assert(carnivores_at_start@ =~= self.carnivores_at_start@);
        assert(herbivores_at_start@ =~= self.herbivores_at_start@);
        GenerationRecording {
            carnivores_at_start,
            herbivores_at_start,
            grass_at_start,
            carnivore_records: clone_records(&self.carnivore_records),
            herbivore_records: clone_records(&self.herbivore_records),
            dead_grass,
        }
    }
}

impl GenerationRecording {
    /// The carnivores at the start of the generation, indexed by id.
    pub fn carnivores_at_start(&self) -> (carnivores: &Vec<Option<Carnivore>>)
        ensures
            carnivores@ == self@.carnivores_at_start,
    {
        &self.carnivores_at_start
    }

    /// The herbivores at the start of the generation, indexed by id.
    pub fn herbivores_at_start(&self) -> (herbivores: &Vec<Option<Herbivore>>)
        ensures
            herbivores@ == self@.herbivores_at_start,
    {
        &self.herbivores_at_start
    }

    /// The positions `(x, y)` of the grass at the start of the generation.
    pub fn grass_at_start(&self) -> (grass: &Vec<(usize, usize)>)
        ensures
            grass@ == self@.grass_at_start,
    {
        &self.grass_at_start
    }

    /// Per carnivore id, its record at every tick it was alive.
    pub fn carnivore_records(&self) -> (records: &Vec<Vec<AnimalRecord>>)
        ensures
            records_view(records) == self@.carnivore_records,
    {
        &self.carnivore_records
    }

    /// Per herbivore id, its record at every tick it was alive.
    pub fn herbivore_records(&self) -> (records: &Vec<Vec<AnimalRecord>>)
        ensures
            records_view(records) == self@.herbivore_records,
    {
        &self.herbivore_records
    }

    /// The grass eaten, as `(tick, x, y)`.
    pub fn dead_grass(&self) -> (dead: &Vec<(usize, usize, usize)>)
        ensures
            dead@ == self@.dead_grass,
    {
        &self.dead_grass
    }

    /// A fresh record of `map`'s generation: its animals and grass as they
    /// are now, an empty list per animal, and no grass eaten yet.
    pub fn new(map: &WorldMap) -> (ret: GenerationRecording)
        ensures
            ret@ == map@.fresh_record(),
    {
        let carnivores = map.get_carnivores();
        let herbivores = map.get_herbivores();
        let carnivores_at_start = carnivores.clone();
        let herbivores_at_start = herbivores.clone();
        assert(carnivores_at_start@ =~= carnivores@);
        assert(herbivores_at_start@ =~= herbivores@);
        let mut carnivore_records: Vec<Vec<AnimalRecord>> = Vec::new();
        let mut i: usize = 0;
        while i < carnivores.len()
            invariant
                0 <= i <= carnivores@.len(),
                records_view(&carnivore_records) == Seq::new(i as nat, |j: int| Seq::<AnimalRecord>::empty()),
                carnivore_records@.len() == i,
            decreases carnivores@.len() - i,
        {
            let ghost before = carnivore_records@;
            let ghost before_view = records_view(&carnivore_records);
            let empty: Vec<AnimalRecord> = Vec::new();
            carnivore_records.push(empty);
            assert(carnivore_records@ == before.push(empty));
            assert forall|j: int| 0 <= j < i implies #[trigger] records_view(&carnivore_records)[j] == before_view[j] by {
                assert(before_view[j] == before[j]@);
            }
            assert(records_view(&carnivore_records) =~= Seq::new((i + 1) as nat, |j: int| Seq::<AnimalRecord>::empty()));
            i = i + 1;
        }
        let mut herbivore_records: Vec<Vec<AnimalRecord>> = Vec::new();
        let mut i: usize = 0;
        while i < herbivores.len()
            invariant
                0 <= i <= herbivores@.len(),
                records_view(&herbivore_records) == Seq::new(i as nat, |j: int| Seq::<AnimalRecord>::empty()),
                herbivore_records@.len() == i,
            decreases herbivores@.len() - i,
        {
            let ghost before = herbivore_records@;
            let ghost before_view = records_view(&herbivore_records);
            let empty: Vec<AnimalRecord> = Vec::new();
            herbivore_records.push(empty);
            assert(herbivore_records@ == before.push(empty));
            assert forall|j: int| 0 <= j < i implies #[trigger] records_view(&herbivore_records)[j] == before_view[j] by {
                assert(before_view[j] == before[j]@);
            }
            assert(records_view(&herbivore_records) =~= Seq::new((i + 1) as nat, |j: int| Seq::<AnimalRecord>::empty()));
            i = i + 1;
        }
        let plants = map.get_plants();
        let ghost g = grid_view(plants);
        let mut grass_at_start: Vec<(usize, usize)> = Vec::with_capacity(map.get_grass_count() as usize);
        let mut y: usize = 0;
        while y < plants.len()
            invariant
                g == grid_view(plants),
                0 <= y <= g.len(),
                grass_at_start@ == grass_positions(g.take(y as int)),
            decreases g.len() - y,
        {
            let row = &plants[y];
            let ghost before = grass_at_start@;
            let mut x: usize = 0;
            while x < row.len()
                invariant
                    g == grid_view(plants),
                    0 <= y < g.len(),
                    row@ == g[y as int],
                    0 <= x <= row@.len(),
                    grass_at_start@ == before + grass_in_row(row@.take(x as int), y as int),
                decreases row@.len() - x,
            {
                assert(row@.take(x as int + 1).drop_last() =~= row@.take(x as int));
                if row[x] == EntityRef::Grass {
                    grass_at_start.push((x, y));
                }
                assert(grass_at_start@ =~= before + grass_in_row(row@.take(x as int + 1), y as int));
                x = x + 1;
            }
            assert(g.take(y as int + 1).drop_last() =~= g.take(y as int));
            assert(row@.take(x as int) =~= row@);
            y = y + 1;
        }
        assert(g.take(y as int) =~= g);
        GenerationRecording {
            carnivores_at_start,
            herbivores_at_start,
            grass_at_start,
            carnivore_records,
            herbivore_records,
            dead_grass: Vec::new(),
        }
    }

    /// Appends the state of every living animal to the list of its id.
    pub fn record_tick(&mut self, carnivores: &Vec<Option<Carnivore>>, herbivores: &Vec<Option<Herbivore>>)
        requires
            carnivores@.len() <= old(self)@.carnivore_records.len(),
            herbivores@.len() <= old(self)@.herbivore_records.len(),
        ensures
            final(self)@ == old(self)@.after_tick(carnivores@, herbivores@),
    {
        let ghost v0 = self@;
        let mut id: usize = 0;
        assert(self@.carnivore_records =~= Seq::new(
            v0.carnivore_records.len(),
            |j: int|
                if j < id && carnivores@[j] is Some {
                    v0.carnivore_records[j].push(carnivore_record(carnivores@[j]->0))
                } else {
                    v0.carnivore_records[j]
                },
        ));
        while id < carnivores.len()
            invariant
                0 <= id <= carnivores@.len(),
                self.carnivore_records@.len() == v0.carnivore_records.len(),
                carnivores@.len() <= v0.carnivore_records.len(),
                self@ == (RecordingView {
                    carnivore_records: Seq::new(
                        v0.carnivore_records.len(),
                        |j: int|
                            if j < id && carnivores@[j] is Some {
                                v0.carnivore_records[j].push(carnivore_record(carnivores@[j]->0))
                            } else {
                                v0.carnivore_records[j]
                            },
                    ),
                    ..v0
                }),
            decreases carnivores@.len() - id,
        {
            if let Some(c) = carnivores[id] {
                let record = AnimalRecord {
                    energy: c.energy,
                    action: c.action,
                    pos_x: c.pos_x,
                    pos_y: c.pos_y,
                };
                push_record(&mut self.carnivore_records, id, record);
            }
            proof {
                assert(self@.carnivore_records =~= Seq::new(
                    v0.carnivore_records.len(),
                    |j: int|
                        if j < id + 1 && carnivores@[j] is Some {
                            v0.carnivore_records[j].push(carnivore_record(carnivores@[j]->0))
                        } else {
                            v0.carnivore_records[j]
                        },
                ));
            }
            id = id + 1;
        }
        let ghost v1 = self@;
        let mut id: usize = 0;
        assert(self@.herbivore_records =~= Seq::new(
            v1.herbivore_records.len(),
            |j: int|
                if j < id && herbivores@[j] is Some {
                    v1.herbivore_records[j].push(herbivore_record(herbivores@[j]->0))
                } else {
                    v1.herbivore_records[j]
                },
        ));
        while id < herbivores.len()
            invariant
                0 <= id <= herbivores@.len(),
                self.herbivore_records@.len() == v1.herbivore_records.len(),
                herbivores@.len() <= v1.herbivore_records.len(),
                self@ == (RecordingView {
                    herbivore_records: Seq::new(
                        v1.herbivore_records.len(),
                        |j: int|
                            if j < id && herbivores@[j] is Some {
                                v1.herbivore_records[j].push(herbivore_record(herbivores@[j]->0))
                            } else {
                                v1.herbivore_records[j]
                            },
                    ),
                    ..v1
                }),
            decreases herbivores@.len() - id,
        {
            if let Some(h) = herbivores[id] {
                let record = AnimalRecord {
                    energy: h.energy,
                    action: h.action,
                    pos_x: h.pos_x,
                    pos_y: h.pos_y,
                };
                push_record(&mut self.herbivore_records, id, record);
            }
            proof {
                assert(self@.herbivore_records =~= Seq::new(
                    v1.herbivore_records.len(),
                    |j: int|
                        if j < id + 1 && herbivores@[j] is Some {
                            v1.herbivore_records[j].push(herbivore_record(herbivores@[j]->0))
                        } else {
                            v1.herbivore_records[j]
                        },
                ));
            }
            id = id + 1;
        }
        proof {
            assert(self@.carnivore_records =~= v0.after_tick(carnivores@, herbivores@).carnivore_records);
            assert(self@.herbivore_records =~= v0.after_tick(carnivores@, herbivores@).herbivore_records);
        }
    }

    /// Appends `(tick, x, y)` to the grass eaten.
    pub fn add_dead_grass(&mut self, tick: usize, x: usize, y: usize)
        ensures
            final(self)@ == (RecordingView { dead_grass: old(self)@.dead_grass.push((tick, x, y)), ..old(self)@ }),
    {
        self.dead_grass.push((tick, x, y));
    }
}

} // verus!
