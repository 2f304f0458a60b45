use vstd::prelude::*;
use crate::entity::Action;
use crate::animal::{Animal, energy_after, energy_delta_fits};

verus! {

/// A grass eater. `id` is its index in the map's list of herbivores of the
/// current generation; `parent` is the `id`, in the previous generation, of
/// the herbivore it was bred from, if any.
#[derive(Clone, Copy, Debug)]
pub struct Herbivore {
    pub energy: i32,
    pub action: Action,
    pub pos_x: usize,
    pub pos_y: usize,
    pub id: usize,
    pub parent: Option<usize>,
}

impl Herbivore {
    /// A new herbivore with `start_energy` (read as an `i32`, as a cast
    /// does), resting, at `(pos_x, pos_y)`.
    pub fn new(start_energy: u32, pos_x: usize, pos_y: usize, id: usize) -> (ret: Herbivore)
        ensures
            ret == (Herbivore { energy: start_energy as i32, action: Action::Idle, pos_x, pos_y, id, parent: None }),
    {
        Herbivore { energy: start_energy as i32, action: Action::Idle, pos_x, pos_y, id, parent: None }
    }

    /// A herbivore bred from `parent`: it keeps the parent's action, and gets
    /// `start_energy`, the position `(pos_x, pos_y)` and the index `id`.
    pub fn new_from_parent(parent: &Herbivore, start_energy: u32, pos_x: usize, pos_y: usize, id: usize) -> (ret: Herbivore)
        ensures
            ret == (Herbivore {
                energy: start_energy as i32,
                action: parent.action,
                pos_x,
                pos_y,
                id,
                parent: Some(parent.id),
            }),
    {
        let mut ret: Herbivore = *parent;
        ret.set_position(pos_x, pos_y);
        ret.set_energy(start_energy as i32);
        ret.id = id;
        ret.parent = Some(parent.id);
        ret
    }
}

impl Animal for Herbivore {
    open spec fn energy_level(&self) -> i32 {
        self.energy
    }

    open spec fn chosen_action(&self) -> Action {
        self.action
    }

    open spec fn location(&self) -> (usize, usize) {
        (self.pos_x, self.pos_y)
    }

    open spec fn identity(&self) -> (usize, Option<usize>) {
        (self.id, self.parent)
    }

    fn get_action_ref_immutable(&self) -> (action: &Action) {
        &self.action
    }

    fn get_action_ref_mut(&mut self) -> (action: &mut Action) {
        &mut self.action
    }

    fn get_energy(&self) -> (energy: i32) {
        self.energy
    }

    fn set_energy(&mut self, energy: i32) {
        self.energy = energy;
    }

    fn add_to_energy(&mut self, energy: i32) {
        self.energy = self.energy + energy;
        if self.energy < 0 {
            self.energy = 0;
        }
    }

    fn set_position(&mut self, x: usize, y: usize) {
        self.pos_x = x;
        self.pos_y = y;
    }

    fn get_position(&self) -> (position: (usize, usize)) {
        (self.pos_x, self.pos_y)
    }
}

} // verus!
