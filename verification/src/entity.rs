use vstd::prelude::*;

verus! {

/// What a cell of the grid holds: an animal (by its index in the map's list
/// of that kind), a plant, or nothing.
#[derive(Clone, Copy, Debug, PartialEq, Eq, Structural)]
pub enum EntityRef {
    Herbivore(usize),
    Carnivore(usize),
    Grass,
    Empty,
}

/// The kinds of entities, used to select what to sense, spawn or eat.
#[derive(Clone, Copy, Debug, PartialEq, Eq, Structural)]
pub enum EntityType {
    Grass,
    Herbivore,
    Carnivore,
    Empty,
}

/// The action an animal chooses for one tick.
#[derive(Clone, Copy, Debug, PartialEq, Eq, Structural)]
pub enum Action {
    WalkLeft,
    WalkRight,
    WalkUp,
    WalkDown,
    Eat,
    Idle,
}

/// The number of distinct actions, which is the size of a brain's output layer.
pub const ACTION_COUNT: usize = 6;

} // verus!
