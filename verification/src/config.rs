use vstd::prelude::*;

verus! {

/// The shape of a map and of what populates it.
#[derive(Clone, Copy, Debug)]
pub struct MapConfig {
    pub carnivore_count: u32,
    pub herbivore_count: u32,
    pub grass_count: u32,
    pub neuron_count: usize,
    pub neuron_layer_count: usize,
    pub sense_radius: usize,
    pub carnivore_max_energy: u32,
    pub herbivore_max_energy: u32,
    pub size_x: usize,
    pub size_y: usize,
    pub record: bool,
}

/// When a generation ends and how many animals breed the next one.
///
/// A negative `max_ticks_per_generation` means no tick limit; a negative
/// population threshold is never reached.
#[derive(Clone, Copy, Debug)]
pub struct GenerationConfig {
    pub max_generation_count: u32,
    pub max_ticks_per_generation: i32,
    pub carnivore_count: i32,
    pub herbivore_count: i32,
    pub grass_count: i32,
    pub best_carnivore_count: u32,
    pub best_herbivore_count: u32,
    pub all_entities_must_be_under_min_levels: bool,
}

impl Default for MapConfig {
    /// A 200 by 100 map with 5 carnivores, 15 herbivores and 100 grass,
    /// brains of 2 hidden layers of 10 neurons, a sensing radius of 4, and
    /// recording switched on.
    fn default() -> (config: MapConfig)
        ensures
            config.carnivore_count == 5,
            config.herbivore_count == 15,
            config.grass_count == 100,
            config.neuron_count == 10,
            config.neuron_layer_count == 2,
            config.sense_radius == 4,
            config.carnivore_max_energy == 100,
            config.herbivore_max_energy == 50,
            config.size_x == 200,
            config.size_y == 100,
            config.record,
    {
        MapConfig {
            carnivore_count: 5,
            herbivore_count: 15,
            grass_count: 100,
            neuron_count: 10,
            neuron_layer_count: 2,
            sense_radius: 4,
            carnivore_max_energy: 100,
            herbivore_max_energy: 50,
            size_x: 200,
            size_y: 100,
            record: true,
        }
    }
}

impl Default for GenerationConfig {
    /// At most 50 generations of at most 1000 ticks each; a generation also
    /// ends once at most 2 carnivores and 2 herbivores live (grass is not
    /// counted), and the 2 best of each kind breed the next one.
    fn default() -> (config: GenerationConfig)
        ensures
            config.max_generation_count == 50,
            config.max_ticks_per_generation == 1000,
            config.carnivore_count == 2,
            config.herbivore_count == 2,
            config.grass_count == -1,
            config.best_carnivore_count == 2,
            config.best_herbivore_count == 2,
            config.all_entities_must_be_under_min_levels,
    {
        GenerationConfig {
            max_generation_count: 50,
            max_ticks_per_generation: 1000,
            carnivore_count: 2,
            herbivore_count: 2,
            grass_count: -1,
            best_carnivore_count: 2,
            best_herbivore_count: 2,
            all_entities_must_be_under_min_levels: true,
        }
    }
}

} // verus!
