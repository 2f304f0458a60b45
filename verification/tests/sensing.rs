use evolution_sim::config::{GenerationConfig, MapConfig};
use evolution_sim::entity::{EntityRef, EntityType};
use evolution_sim::map::WorldMap;
use evolution_sim::sensing::{generate_input, generate_partial_input};

fn grid_with_herbivore_at_origin() -> Vec<Vec<EntityRef>> {
    vec![
        vec![EntityRef::Herbivore(0), EntityRef::Empty, EntityRef::Empty],
        vec![EntityRef::Empty, EntityRef::Carnivore(0), EntityRef::Empty],
        vec![EntityRef::Empty, EntityRef::Empty, EntityRef::Grass],
    ]
}

#[test]
fn partial_input_reads_square_row_by_row_without_centre() {
    let g = grid_with_herbivore_at_origin();
    let herbivores = generate_partial_input(&g, 1, 1, 1, EntityType::Herbivore);
    assert_eq!(herbivores, vec![true, false, false, false, false, false, false, false]);
    let grass = generate_partial_input(&g, 1, 1, 1, EntityType::Grass);
    assert_eq!(grass, vec![false, false, false, false, false, false, false, true]);
    // the centre is left out: the carnivore never sees itself
    let carnivores = generate_partial_input(&g, 1, 1, 1, EntityType::Carnivore);
    assert_eq!(carnivores, vec![false; 8]);
}

#[test]
fn walls_are_seen_only_off_the_grid() {
    let g = grid_with_herbivore_at_origin();
    let walls = generate_partial_input(&g, 1, 0, 0, EntityType::Empty);
    assert_eq!(walls, vec![true, true, true, true, false, true, false, false]);
    let herbivores = generate_partial_input(&g, 1, -5, -5, EntityType::Herbivore);
    assert_eq!(herbivores, vec![false; 8]);
}

#[test]
fn partial_input_length_follows_radius() {
    let g = grid_with_herbivore_at_origin();
    assert_eq!(generate_partial_input(&g, 0, 1, 1, EntityType::Empty).len(), 0);
    assert_eq!(generate_partial_input(&g, 2, 1, 1, EntityType::Empty).len(), 24);
}

#[test]
fn full_input_concatenates_four_kinds() {
    let g = grid_with_herbivore_at_origin();
    let input = generate_input(&g, 1, 1, 1);
    assert_eq!(input.len(), 32);
    let mut expected = vec![false; 8];
    expected.extend(vec![false; 8]);
    expected.extend(vec![true, false, false, false, false, false, false, false]);
    expected.extend(vec![false, false, false, false, false, false, false, true]);
    assert_eq!(input, expected);
}

#[test]
fn map_input_is_as_long_as_input_count() {
    let map_config = MapConfig {
        carnivore_count: 0,
        herbivore_count: 0,
        grass_count: 0,
        neuron_count: 2,
        neuron_layer_count: 1,
        sense_radius: 2,
        carnivore_max_energy: 1,
        herbivore_max_energy: 1,
        size_x: 4,
        size_y: 4,
        record: false,
    };
    let generation_config = GenerationConfig {
        max_generation_count: 1,
        max_ticks_per_generation: 1,
        carnivore_count: -1,
        herbivore_count: -1,
        grass_count: -1,
        best_carnivore_count: 1,
        best_herbivore_count: 1,
        all_entities_must_be_under_min_levels: false,
    };
    let mut map = WorldMap::new(map_config, generation_config);
    assert_eq!(map.get_input_count(), 96);
    map.place_entity(EntityType::Grass, 1, 0, None);
    let input = map.generate_input(0, 0);
    assert_eq!(input.len(), map.get_input_count());
    // rows y = -2 and y = -1 fill the first ten entries; in row y = 0 come
    // x = -2, x = -1, then (the centre skipped) x = 1 at index 12
    let grass = map.generate_partial_input(0, 0, EntityType::Grass);
    assert!(grass[12]);
    assert_eq!(grass.iter().filter(|b| **b).count(), 1);
}

#[test]
fn a_cell_is_sensed_as_one_kind_at_most() {
    let g = grid_with_herbivore_at_origin();
    for (xc, yc) in [(0, 0), (1, 1), (2, 2), (3, 1)] {
        let kinds = [EntityType::Empty, EntityType::Carnivore, EntityType::Herbivore, EntityType::Grass];
        let seen: Vec<Vec<bool>> = kinds.iter().map(|t| generate_partial_input(&g, 1, xc, yc, *t)).collect();
        for k in 0..8 {
            let hits = seen.iter().filter(|s| s[k]).count();
            assert!(hits <= 1);
        }
    }
}
