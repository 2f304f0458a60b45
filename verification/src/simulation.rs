use vstd::prelude::*;
use crate::config::{GenerationConfig, MapConfig};
use crate::entity::Action;
use crate::map::{WorldMap, WorldView};
use crate::record::{GenerationRecording, RecordingView};

verus! {

/// What the driver of a simulation has to do next.
#[derive(Clone, Copy, Debug, PartialEq, Eq, Structural)]
pub enum SimulationStep {
    /// Every living animal chooses its action; then the tick is run.
    Tick,
    /// A generation started; `bred` tells whether its animals were bred from
    /// the best of the previous one (and need their brains bred too).
    GenerationStarted { bred: bool },
    /// The running generation ended; its record, if kept, was filed.
    GenerationEnded,
    /// The configured number of generations has been run.
    Finished,
    /// A new generation cannot be bred: no carnivore or no herbivore is left
    /// to breed from.
    NoBreedingStock,
}

/// A simulation: a map run generation after generation, with the records of
/// the finished generations.
pub struct Simulation {
    map: WorldMap,
    generation: usize,
    max_generation_count: u32,
    in_generation: bool,
    recording: Vec<GenerationRecording>,
}

/// The contents of a [`Simulation`].
pub struct SimulationView {
    pub map: WorldView,
    pub generation: usize,
    pub max_generation_count: u32,
    pub in_generation: bool,
    pub recording: Seq<RecordingView>,
}

impl View for Simulation {
    type V = SimulationView;

    closed spec fn view(&self) -> SimulationView {
        SimulationView {
            map: self.map@,
            generation: self.generation,
            max_generation_count: self.max_generation_count,
            in_generation: self.in_generation,
            recording: self.recording@.map_values(|r: GenerationRecording| r@),
        }
    }
}

impl SimulationView {
    /// The simulation's invariant: the map is well formed and ready to
    /// record, the generation counters agree, and a generation runs only
    /// while generations remain.
    pub open spec fn wf(self) -> bool {
        &&& self.map.wf()
        &&& self.map.recording_ready()
        &&& self.generation <= self.max_generation_count
        &&& self.map.generation == self.generation
        &&& self.map.generation_config.max_generation_count == self.max_generation_count
        &&& self.in_generation ==> self.generation < self.max_generation_count && !self.map.generation_over
        &&& !self.in_generation ==> (self.map.generation_over <==> self.generation > 0)
    }

    /// The next step, decided from the present state alone.
    pub open spec fn next_step(self) -> SimulationStep {
        if self.in_generation {
            if self.map.generation_ends() {
                SimulationStep::GenerationEnded
            } else {
                SimulationStep::Tick
            }
        } else if self.generation >= self.max_generation_count {
            SimulationStep::Finished
        } else if self.generation == 0 {
            SimulationStep::GenerationStarted { bred: false }
        } else if self.map.breeding_stock() {
            SimulationStep::GenerationStarted { bred: true }
        } else {
            SimulationStep::NoBreedingStock
        }
    }
}

impl Simulation {
    /// The simulation's invariant (see [`SimulationView::wf`]).
    pub open spec fn wf(&self) -> bool {
        self@.wf()
    }

    /// A simulation of a new map (see [`WorldMap::new`]), before its first
    /// generation starts.
    pub fn new(map_config: MapConfig, generation_config: GenerationConfig) -> (sim: Simulation)
        requires
            map_config.size_x <= i32::MAX - 2,
            map_config.size_y <= i32::MAX - 2,
            ((2 * map_config.sense_radius + 1) * (2 * map_config.sense_radius + 1) - 1) * 4 <= usize::MAX,
            map_config.carnivore_count > 0 || map_config.herbivore_count > 0 || map_config.grass_count > 0
                ==> map_config.size_x > 0 && map_config.size_y > 0,
        ensures
            sim.wf(),
            sim@.generation == 0,
            !sim@.in_generation,
            sim@.recording.len() == 0,
            sim@.max_generation_count == generation_config.max_generation_count,
            sim@.map.freshly_spawned(Seq::empty(), Seq::empty(), false),
            sim@.map.size_x == map_config.size_x,
            sim@.map.size_y == map_config.size_y,
            sim@.map.record == map_config.record,
    {
        let map = WorldMap::new(map_config, generation_config);
        let sim = Simulation {
            map,
            generation: 0,
            max_generation_count: generation_config.max_generation_count,
            in_generation: false,
            recording: Vec::new(),
        };
        assert(sim@.recording =~= Seq::<RecordingView>::empty());
        sim
    }

    /// Decides and carries out the next step (see [`SimulationView::next_step`]):
    /// ends the running generation when it is over, filing its record;
    /// starts the next generation (breeding it from the best animals after
    /// the first); or reports that a tick is due, that all generations have
    /// run, or that no animals are left to breed from.
    pub fn advance(&mut self) -> (step: SimulationStep)
        requires
            old(self).wf(),
        ensures
            final(self).wf(),
            step == old(self)@.next_step(),
            step == SimulationStep::Tick || step == SimulationStep::Finished || step == SimulationStep::NoBreedingStock
                ==> final(self)@ == old(self)@,
            step == SimulationStep::GenerationEnded ==> {
                &&& final(self)@.map == old(self)@.map.after_generation_check()
                &&& final(self)@.generation == old(self)@.generation + 1
                &&& !final(self)@.in_generation
                &&& final(self)@.recording == match old(self)@.map.current_record {
                    Some(r) => if old(self)@.map.record { old(self)@.recording.push(r) } else { old(self)@.recording },
                    None => old(self)@.recording,
                }
            },
            step == (SimulationStep::GenerationStarted { bred: false }) ==> final(self)@ == (SimulationView {
                in_generation: true,
                ..old(self)@
            }),
            step == (SimulationStep::GenerationStarted { bred: true }) ==> {
                &&& final(self)@.in_generation
                &&& final(self)@.generation == old(self)@.generation
                &&& final(self)@.recording == old(self)@.recording
                &&& final(self)@.map.freshly_spawned(
                    old(self)@.map.promoted_carnivores(),
                    old(self)@.map.promoted_herbivores(),
                    true,
                )
                &&& final(self)@.map.best_carnivores.len() == 0
                &&& final(self)@.map.best_herbivores.len() == 0
                &&& old(self)@.map.same_fixed_settings(final(self)@.map)
                &&& final(self)@.map.complete_record == match old(self)@.map.current_record {
                    Some(r) => old(self)@.map.complete_record.push(r),
                    None => old(self)@.map.complete_record,
                }
            },
    {
        if self.in_generation {
            let ghost m0 = self.map@;
            if self.map.set_and_return_generation_over() {
                if self.map.is_recording() {
                    match self.map.get_current_recording() {
                        Some(r) => {
                            let copy = r.clone();
                            self.recording.push(copy);
                        },
                        None => {},
                    }
                }
                self.generation = self.generation + 1;
                self.in_generation = false;
                return SimulationStep::GenerationEnded;
            }
            return SimulationStep::Tick;
        }
        if self.generation >= self.max_generation_count as usize {
            return SimulationStep::Finished;
        }
        if self.generation == 0 {
            self.in_generation = true;
            return SimulationStep::GenerationStarted { bred: false };
        }
        if !self.map.has_breeding_stock() {
            return SimulationStep::NoBreedingStock;
        }
        self.map.start_new_generation();
        self.in_generation = true;
        SimulationStep::GenerationStarted { bred: true }
    }

    /// Runs one tick of the running generation once every living animal has
    /// chosen its action (see [`WorldView::tick_spec`]).
    pub fn tick(&mut self)
        requires
            old(self).wf(),
            old(self)@.in_generation,
            old(self)@.map.tick_energies_ok(),
            old(self)@.map.tick < usize::MAX,
        ensures
            final(self).wf(),
            final(self)@ == (SimulationView { map: old(self)@.map.tick_spec(), ..old(self)@ }),
    {
        self.map.tick();
    }

    /// Sets the action chosen by carnivore `id`, if it is alive.
    pub fn set_carnivore_action(&mut self, id: usize, action: Action)
        requires
            old(self).wf(),
            id < old(self)@.map.carnivores.len(),
        ensures
            final(self).wf(),
            final(self)@ == (SimulationView {
                map: match old(self)@.map.carnivores[id as int] {
                    Some(c) => old(self)@.map.with_carnivore(id as int, crate::carnivore::Carnivore { action, ..c }),
                    None => old(self)@.map,
                },
                ..old(self)@
            }),
    {
        self.map.set_carnivore_action(id, action);
    }

    /// Sets the action chosen by herbivore `id`, if it is alive.
    pub fn set_herbivore_action(&mut self, id: usize, action: Action)
        requires
            old(self).wf(),
            id < old(self)@.map.herbivores.len(),
        ensures
            final(self).wf(),
            final(self)@ == (SimulationView {
                map: match old(self)@.map.herbivores[id as int] {
                    Some(h) => old(self)@.map.with_herbivore(id as int, crate::herbivore::Herbivore { action, ..h }),
                    None => old(self)@.map,
                },
                ..old(self)@
            }),
    {
        self.map.set_herbivore_action(id, action);
    }

    /// The simulated map.
    pub fn map(&self) -> (map: &WorldMap)
        ensures
            map@ == self@.map,
    {
        &self.map
    }

    /// The map as text (see [`WorldMap::to_string`]).
    pub fn to_string(&self) -> (text: String)
        requires
            self.wf(),
        ensures
            text@ == crate::map::grid_text(self@.map.animals, self@.map.plants, self@.map.size_x as nat, self@.map.size_y as nat),
    {
        self.map.to_string()
    }

    /// The records of the finished generations, oldest first.
    pub fn get_recording(&self) -> (recording: &Vec<GenerationRecording>)
        ensures
            recording@.map_values(|r: GenerationRecording| r@) == self@.recording,
    {
        &self.recording
    }
}

} // verus!
