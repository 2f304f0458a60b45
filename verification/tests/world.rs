use evolution_sim::animal::Animal;
use evolution_sim::carnivore::Carnivore;
use evolution_sim::config::{GenerationConfig, MapConfig};
use evolution_sim::entity::{Action, EntityRef, EntityType};
use evolution_sim::herbivore::Herbivore;
use evolution_sim::map::WorldMap;

fn map_config(size_x: usize, size_y: usize, carnivores: u32, herbivores: u32, grass: u32, record: bool) -> MapConfig {
    MapConfig {
        carnivore_count: carnivores,
        herbivore_count: herbivores,
        grass_count: grass,
        neuron_count: 3,
        neuron_layer_count: 1,
        sense_radius: 1,
        carnivore_max_energy: 10,
        herbivore_max_energy: 5,
        size_x,
        size_y,
        record,
    }
}

fn generation_config() -> GenerationConfig {
    GenerationConfig {
        max_generation_count: 3,
        max_ticks_per_generation: 2,
        carnivore_count: -1,
        herbivore_count: -1,
        grass_count: -1,
        best_carnivore_count: 2,
        best_herbivore_count: 2,
        all_entities_must_be_under_min_levels: false,
    }
}

fn empty_map(size_x: usize, size_y: usize) -> WorldMap {
    WorldMap::new(map_config(size_x, size_y, 0, 0, 0, false), generation_config())
}

#[test]
fn new_empty_map_draws_blank() {
    let map = empty_map(3, 2);
    assert_eq!(map.to_string(), "   \n   \n");
    assert_eq!(map.get_tick_count(), 0);
    assert_eq!(map.get_generation(), 0);
    assert_eq!(map.get_input_count(), 32);
    assert!(map.get_carnivores().is_empty());
}

#[test]
fn single_cell_map_places_its_only_carnivore_at_origin() {
    let map = WorldMap::new(map_config(1, 1, 3, 0, 1, false), generation_config());
    assert_eq!(map.get_carnivores().len(), 1);
    let c = map.get_carnivores()[0].unwrap();
    assert_eq!(c.get_position(), (0, 0));
    assert_eq!(c.get_energy(), 10);
    assert_eq!(*c.get_action_ref_immutable(), Action::Idle);
    assert_eq!(map.get_carnivore_count(), 1);
    assert_eq!(map.get_grass_count(), 1);
    assert_eq!(map.to_string(), "X.\n");
}

#[test]
fn place_entity_fills_free_cells_only() {
    let mut map = empty_map(3, 3);
    assert!(map.place_entity(EntityType::Herbivore, 1, 1, None));
    assert!(!map.place_entity(EntityType::Carnivore, 1, 1, None));
    assert!(map.place_entity(EntityType::Grass, 1, 1, None));
    assert!(!map.place_entity(EntityType::Grass, 1, 1, None));
    assert!(!map.place_entity(EntityType::Empty, 0, 0, None));
    assert_eq!(map.get_animals()[1][1], EntityRef::Herbivore(0));
    assert_eq!(map.get_plants()[1][1], EntityRef::Grass);
    assert_eq!(map.get_herbivore_count(), 1);
    assert_eq!(map.to_string(), "   \n o. \n   \n");
}

#[test]
fn move_animal_moves_and_updates_position() {
    let mut map = empty_map(3, 3);
    map.place_entity(EntityType::Carnivore, 0, 0, None);
    assert!(map.move_animal(0, 0, 1, 0));
    assert_eq!(map.get_animals()[0][1], EntityRef::Carnivore(0));
    assert_eq!(map.get_animals()[0][0], EntityRef::Empty);
    assert_eq!(map.get_carnivores()[0].unwrap().get_position(), (1, 0));
    // off the grid, onto an occupied cell, or from an empty cell: nothing moves
    assert!(!map.move_animal(1, 0, 3, 0));
    map.place_entity(EntityType::Herbivore, 2, 0, None);
    assert!(!map.move_animal(1, 0, 2, 0));
    assert!(!map.move_animal(0, 1, 0, 2));
    assert_eq!(map.get_animals()[0][1], EntityRef::Carnivore(0));
}

#[test]
fn walking_back_restores_the_map() {
    let mut map = empty_map(3, 3);
    map.place_entity(EntityType::Herbivore, 1, 1, None);
    let before = map.to_string();
    assert!(map.take_other_action(1, 1, Action::WalkRight));
    assert_eq!(map.to_string(), "   \n  o\n   \n");
    assert!(map.take_other_action(2, 1, Action::WalkLeft));
    assert_eq!(map.to_string(), before);
    assert_eq!(map.get_herbivores()[0].unwrap().get_position(), (1, 1));
}

#[test]
fn walks_follow_their_directions_and_stop_at_edges() {
    let mut map = empty_map(2, 2);
    map.place_entity(EntityType::Herbivore, 0, 0, None);
    assert!(!map.take_other_action(0, 0, Action::WalkDown));
    assert!(!map.take_other_action(0, 0, Action::WalkLeft));
    assert!(!map.take_other_action(0, 0, Action::Idle));
    assert!(!map.take_other_action(0, 0, Action::Eat));
    assert!(map.take_other_action(0, 0, Action::WalkUp));
    assert_eq!(map.get_herbivores()[0].unwrap().get_position(), (0, 1));
    assert!(!map.take_other_action(0, 1, Action::WalkUp));
    assert!(map.take_other_action(0, 1, Action::WalkDown));
    assert_eq!(map.get_herbivores()[0].unwrap().get_position(), (0, 0));
}

#[test]
fn kill_animal_by_pos_keeps_best_when_population_is_small() {
    let mut map = empty_map(3, 3);
    map.place_entity(EntityType::Herbivore, 0, 0, None);
    map.place_entity(EntityType::Herbivore, 1, 0, None);
    map.place_entity(EntityType::Herbivore, 2, 0, None);
    // three alive, two kept: the first death is not kept
    map.kill_animal_by_pos(0, 0);
    assert_eq!(map.get_best_herbivores().len(), 0);
    assert_eq!(map.get_herbivore_count(), 2);
    assert!(map.get_herbivores()[0].is_none());
    assert_eq!(map.get_animals()[0][0], EntityRef::Empty);
    // two alive: the next death is kept
    map.kill_animal_by_id(2, EntityType::Herbivore);
    assert_eq!(map.get_best_herbivores().len(), 1);
    assert_eq!(map.get_best_herbivores()[0].id, 2);
    assert_eq!(map.get_herbivore_count(), 1);
}

#[test]
fn carnivore_eats_first_herbivore_within_two_cells() {
    let mut map = empty_map(6, 6);
    map.place_entity(EntityType::Carnivore, 0, 0, None);
    map.place_entity(EntityType::Herbivore, 3, 0, None);
    // three cells away: out of reach
    assert!(!map.take_eat_action(0, 0, EntityType::Herbivore));
    map.place_entity(EntityType::Herbivore, 2, 2, None);
    map.place_entity(EntityType::Herbivore, 1, 1, None);
    // (1, 1) comes first in row order
    assert!(map.take_eat_action(0, 0, EntityType::Herbivore));
    assert_eq!(map.get_animals()[1][1], EntityRef::Empty);
    assert_eq!(map.get_animals()[2][2], EntityRef::Herbivore(1));
    assert_eq!(map.get_herbivore_count(), 2);
    // carnivores are never food, and an animal never eats itself
    assert!(!map.take_eat_action(2, 2, EntityType::Carnivore));
}

#[test]
fn herbivore_eats_grass() {
    let mut map = empty_map(3, 3);
    map.place_entity(EntityType::Grass, 2, 2, None);
    map.place_entity(EntityType::Grass, 0, 0, None);
    assert_eq!(map.get_grass_count(), 2);
    assert!(map.take_eat_action(1, 1, EntityType::Grass));
    assert_eq!(map.get_plants()[0][0], EntityRef::Empty);
    assert_eq!(map.get_grass_count(), 1);
}

#[test]
fn tick_feeds_hunter_and_charges_walkers() {
    let mut map = empty_map(4, 4);
    map.place_entity(EntityType::Carnivore, 0, 0, None);
    map.place_entity(EntityType::Herbivore, 1, 0, None);
    map.place_entity(EntityType::Herbivore, 3, 3, None);
    map.set_carnivore_action(0, Action::Eat);
    map.set_herbivore_action(1, Action::WalkDown);
    map.tick();
    assert_eq!(map.get_tick_count(), 1);
    let c = map.get_carnivores()[0].unwrap();
    // 10 + 100 for the meal, then 1 for not walking
    assert_eq!(c.get_energy(), 109);
    assert!(map.get_herbivores()[0].is_none());
    let h = map.get_herbivores()[1].unwrap();
    assert_eq!(h.get_position(), (3, 2));
    assert_eq!(h.get_energy(), 2);
    assert_eq!(map.get_herbivore_count(), 1);
}

#[test]
fn starving_animals_die() {
    let mut map = empty_map(3, 3);
    map.place_entity(EntityType::Herbivore, 1, 1, None);
    map.set_herbivore_action(0, Action::Eat);
    // 5 energy; each tick costs 1 for finding no grass and 1 for not walking
    map.tick();
    map.tick();
    assert_eq!(map.get_herbivores()[0].unwrap().get_energy(), 1);
    map.tick();
    assert!(map.get_herbivores()[0].is_none());
    assert_eq!(map.get_herbivore_count(), 0);
    assert_eq!(map.get_animals()[1][1], EntityRef::Empty);
    // it died while the population was small, so it is kept among the best
    assert_eq!(map.get_best_herbivores().len(), 1);
    assert_eq!(map.get_best_herbivores()[0].get_energy(), 0);
}

#[test]
fn generation_ends_at_tick_limit_and_is_counted_once() {
    let mut map = empty_map(2, 2);
    assert!(!map.set_and_return_generation_over());
    map.tick();
    map.tick();
    assert!(map.set_and_return_generation_over());
    assert_eq!(map.get_generation(), 1);
    assert!(map.set_and_return_generation_over());
    assert_eq!(map.get_generation(), 1);
    assert!(!map.is_simulation_over());
}

#[test]
fn generation_ends_when_populations_drop() {
    let mut cfg = generation_config();
    cfg.max_ticks_per_generation = -1;
    cfg.herbivore_count = 0;
    cfg.carnivore_count = 5;
    cfg.all_entities_must_be_under_min_levels = true;
    let mut map = WorldMap::new(map_config(3, 3, 0, 0, 0, false), cfg);
    map.place_entity(EntityType::Herbivore, 0, 0, None);
    // grass threshold is off, so "all under" is never met
    assert!(!map.set_and_return_generation_over());
    let mut cfg = generation_config();
    cfg.max_ticks_per_generation = -1;
    cfg.herbivore_count = 0;
    let mut map = WorldMap::new(map_config(3, 3, 0, 0, 0, false), cfg);
    map.place_entity(EntityType::Herbivore, 0, 0, None);
    assert!(!map.set_and_return_generation_over());
    map.kill_animal_by_pos(0, 0);
    assert!(map.set_and_return_generation_over());
}

#[test]
fn no_breeding_stock_without_animals() {
    let map = empty_map(2, 2);
    assert!(!map.has_breeding_stock());
}

#[test]
fn new_generation_breeds_from_the_best() {
    let mut map = WorldMap::new(map_config(10, 10, 1, 1, 0, true), generation_config());
    assert!(map.has_breeding_stock());
    let parent_c = map.get_carnivores()[0].unwrap();
    map.set_carnivore_action(0, Action::WalkUp);
    map.start_new_generation();
    assert_eq!(map.get_generation(), 1);
    assert_eq!(map.get_tick_count(), 0);
    assert_eq!(map.get_best_carnivores().len(), 0);
    let c = map.get_carnivores()[0].unwrap();
    assert_eq!(c.parent, Some(parent_c.id));
    assert_eq!(*c.get_action_ref_immutable(), Action::WalkUp);
    assert_eq!(c.get_energy(), 10);
    assert_eq!(map.get_recording().len(), 1);
    assert!(map.get_current_recording().is_some());
}

#[test]
fn recording_notes_every_living_animal_each_tick() {
    let mut map = WorldMap::new(map_config(1, 1, 1, 0, 0, true), generation_config());
    map.tick();
    map.tick();
    let rec = map.get_current_recording().unwrap();
    assert_eq!(rec.carnivores_at_start().len(), 1);
    assert_eq!(rec.carnivore_records()[0].len(), 2);
    assert_eq!(rec.carnivore_records()[0][0].energy, 10);
    assert_eq!(rec.carnivore_records()[0][1].energy, 9);
    assert_eq!(rec.herbivore_records().len(), 0);
}

#[test]
fn recording_notes_eaten_grass() {
    let mut map = WorldMap::new(map_config(1, 2, 0, 1, 0, true), generation_config());
    assert_eq!(map.get_current_recording().unwrap().grass_at_start().len(), 0);
    let h = map.get_herbivores()[0].unwrap();
    let (x, y) = h.get_position();
    let other = if y == 0 { 1 } else { 0 };
    map.set_herbivore_action(0, Action::Eat);
    assert!(map.place_entity(EntityType::Grass, x, other, None));
    map.tick();
    let rec = map.get_current_recording().unwrap();
    assert_eq!(rec.dead_grass().len(), 1);
    assert_eq!(rec.dead_grass()[0], (0, x, other));
    assert_eq!(map.get_herbivores()[0].unwrap().get_energy(), 5 + 100 - 1);
}

#[test]
fn animal_energy_rules() {
    let mut h = Herbivore::new(5, 1, 2, 0);
    assert_eq!(h.get_position(), (1, 2));
    h.add_to_energy(-7);
    assert_eq!(h.get_energy(), 0);
    h.take_eat_action();
    assert_eq!(h.get_energy(), 100);
    *h.get_action_ref_mut() = Action::WalkLeft;
    h.take_other_action();
    assert_eq!(h.get_energy(), 97);
    *h.get_action_ref_mut() = Action::Idle;
    h.take_other_action();
    assert_eq!(h.get_energy(), 96);
    h.set_energy(-4);
    assert_eq!(h.get_energy(), -4);
}

#[test]
fn bred_animal_keeps_parents_action() {
    let mut parent = Carnivore::new(7, 0, 0, 4);
    *parent.get_action_ref_mut() = Action::Eat;
    let child = Carnivore::new_from_parent(&parent, 9, 2, 3, 0);
    assert_eq!(*child.get_action_ref_immutable(), Action::Eat);
    assert_eq!(child.get_energy(), 9);
    assert_eq!(child.get_position(), (2, 3));
    assert_eq!(child.parent, Some(4));
    assert_eq!(child.id, 0);
    let big = Herbivore::new(u32::MAX, 0, 0, 0);
    assert_eq!(big.get_energy(), -1);
}

#[test]
fn generate_entities_drops_what_finds_no_free_cell() {
    let mut map = empty_map(1, 1);
    map.generate_entities(2, EntityType::Grass, false);
    assert_eq!(map.get_grass_count(), 1);
    assert_eq!(*map.get_plants(), vec![vec![EntityRef::Grass]]);
    assert_eq!(*map.get_animals(), vec![vec![EntityRef::Empty]]);
    assert_eq!(map.get_carnivore_count(), 0);
    assert_eq!(map.get_herbivore_count(), 0);
    map.generate_entities(2, EntityType::Herbivore, false);
    assert_eq!(map.get_herbivores().len(), 1);
    assert_eq!(map.get_herbivores()[0].unwrap().get_energy(), 5);
    assert_eq!(map.get_animals()[0][0], EntityRef::Herbivore(0));
    // the only cell is taken: no carnivore finds room
    map.generate_entities(1, EntityType::Carnivore, false);
    assert!(map.get_carnivores().is_empty());
    assert_eq!(map.to_string(), "o.\n");
}

#[test]
fn single_cell_map_with_one_grass_draws_it() {
    let map = WorldMap::new(map_config(1, 1, 0, 0, 1, false), generation_config());
    assert_eq!(map.get_grass_count(), 1);
    assert_eq!(map.to_string(), " .\n");
}

#[test]
fn new_map_places_at_least_one_of_each_configured_kind() {
    let map = WorldMap::new(map_config(6, 5, 4, 3, 7, false), generation_config());
    assert!(map.get_carnivores().len() >= 1 && map.get_carnivores().len() <= 4);
    assert!(map.get_herbivores().len() <= 3);
    assert!(map.get_grass_count() >= 1 && map.get_grass_count() <= 7);
    assert_eq!(map.get_carnivore_count() as usize, map.get_carnivores().len());
}

#[test]
fn default_configs_hold_the_standard_values() {
    let m = MapConfig::default();
    assert_eq!((m.carnivore_count, m.herbivore_count, m.grass_count), (5, 15, 100));
    assert_eq!((m.neuron_count, m.neuron_layer_count, m.sense_radius), (10, 2, 4));
    assert_eq!((m.carnivore_max_energy, m.herbivore_max_energy), (100, 50));
    assert_eq!((m.size_x, m.size_y), (200, 100));
    assert!(m.record);
    let g = GenerationConfig::default();
    assert_eq!((g.max_generation_count, g.max_ticks_per_generation), (50, 1000));
    assert_eq!((g.carnivore_count, g.herbivore_count, g.grass_count), (2, 2, -1));
    assert_eq!((g.best_carnivore_count, g.best_herbivore_count), (2, 2));
    assert!(g.all_entities_must_be_under_min_levels);
}

#[test]
fn only_eaters_need_headroom_for_a_meal() {
    let mut config = map_config(2, 2, 0, 0, 0, false);
    config.carnivore_max_energy = i32::MAX as u32;
    let mut map = WorldMap::new(config, generation_config());
    assert!(map.place_entity(EntityType::Carnivore, 0, 0, None));
    assert!(map.energies_fit_tick());
    map.set_carnivore_action(0, Action::Eat);
    assert!(!map.energies_fit_tick());
    map.set_carnivore_action(0, Action::WalkRight);
    assert!(map.energies_fit_tick());
    map.tick();
    assert_eq!(map.get_carnivores()[0].unwrap().get_energy(), i32::MAX - 3);
}

#[test]
fn tick_counts_once_and_leaves_only_living_animals() {
    let mut map = empty_map(3, 3);
    map.place_entity(EntityType::Herbivore, 0, 0, None);
    map.place_entity(EntityType::Herbivore, 2, 2, None);
    map.set_herbivore_action(0, Action::Eat);
    for n in 1..=4 {
        assert!(map.energies_fit_tick());
        map.tick();
        assert_eq!(map.get_tick_count(), n);
        for h in map.get_herbivores().iter().flatten() {
            assert!(h.get_energy() >= 1);
        }
    }
    // the eater pays 2 a tick and is gone after the third; the idler lives on
    assert!(map.get_herbivores()[0].is_none());
    assert_eq!(map.get_herbivores()[1].unwrap().get_energy(), 1);
}
