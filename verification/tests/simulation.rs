use evolution_sim::config::{GenerationConfig, MapConfig};
use evolution_sim::entity::Action;
use evolution_sim::simulation::{Simulation, SimulationStep};

fn configs(record: bool, max_generations: u32, max_ticks: i32) -> (MapConfig, GenerationConfig) {
    (
        MapConfig {
            carnivore_count: 2,
            herbivore_count: 3,
            grass_count: 4,
            neuron_count: 2,
            neuron_layer_count: 1,
            sense_radius: 1,
            carnivore_max_energy: 20,
            herbivore_max_energy: 20,
            size_x: 12,
            size_y: 12,
            record,
        },
        GenerationConfig {
            max_generation_count: max_generations,
            max_ticks_per_generation: max_ticks,
            carnivore_count: -1,
            herbivore_count: -1,
            grass_count: -1,
            best_carnivore_count: 2,
            best_herbivore_count: 2,
            all_entities_must_be_under_min_levels: false,
        },
    )
}

fn drive(sim: &mut Simulation) -> Vec<SimulationStep> {
    let mut steps = Vec::new();
    loop {
        let step = sim.advance();
        steps.push(step);
        match step {
            SimulationStep::Tick => {
                let carnivores = sim.map().get_carnivores().len();
                for id in 0..carnivores {
                    sim.set_carnivore_action(id, Action::Idle);
                }
                sim.tick();
            }
            SimulationStep::Finished | SimulationStep::NoBreedingStock => break,
            _ => {}
        }
    }
    steps
}

#[test]
fn simulation_runs_each_generation_to_its_tick_limit() {
    let (map_config, generation_config) = configs(true, 2, 3);
    let mut sim = Simulation::new(map_config, generation_config);
    let steps = drive(&mut sim);
    assert_eq!(
        steps,
        vec![
            SimulationStep::GenerationStarted { bred: false },
            SimulationStep::Tick,
            SimulationStep::Tick,
            SimulationStep::Tick,
            SimulationStep::GenerationEnded,
            SimulationStep::GenerationStarted { bred: true },
            SimulationStep::Tick,
            SimulationStep::Tick,
            SimulationStep::Tick,
            SimulationStep::GenerationEnded,
            SimulationStep::Finished,
        ]
    );
    assert_eq!(sim.get_recording().len(), 2);
    assert_eq!(sim.map().get_generation(), 2);
    // every bred carnivore descends from one kept at the end of generation 1
    for c in sim.map().get_carnivores() {
        assert!(c.unwrap().parent.is_some());
    }
}

#[test]
fn simulation_without_recording_files_nothing() {
    let (map_config, generation_config) = configs(false, 1, 1);
    let mut sim = Simulation::new(map_config, generation_config);
    let steps = drive(&mut sim);
    assert_eq!(steps.last(), Some(&SimulationStep::Finished));
    assert_eq!(sim.get_recording().len(), 0);
}

#[test]
fn simulation_stops_when_nothing_is_left_to_breed() {
    let (mut map_config, generation_config) = configs(false, 3, 1);
    map_config.carnivore_count = 0;
    let mut sim = Simulation::new(map_config, generation_config);
    let steps = drive(&mut sim);
    assert_eq!(steps.last(), Some(&SimulationStep::NoBreedingStock));
}

#[test]
fn zero_generations_finish_at_once() {
    let (map_config, generation_config) = configs(false, 0, 1);
    let mut sim = Simulation::new(map_config, generation_config);
    assert_eq!(sim.advance(), SimulationStep::Finished);
    assert_eq!(sim.to_string().lines().count(), 12);
}
