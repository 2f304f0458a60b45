use vstd::prelude::*;
use crate::entity::Action;

verus! {

/// The energy an animal has after `delta` is added to `energy`: never below 0.
pub open spec fn energy_after(energy: i32, delta: int) -> i32 {
    if energy + delta < 0 {
        0
    } else {
        (energy + delta) as i32
    }
}

/// Whether `energy + delta` can be computed without overflow.
pub open spec fn energy_delta_fits(energy: i32, delta: int) -> bool {
    i32::MIN <= energy + delta <= i32::MAX
}

/// The body of an animal: its energy, the action it chose for this tick and
/// its position on the grid. Moving costs 3 energy, resting costs 1 and
/// eating gains 100; energy never drops below 0.
pub trait Animal: Sized {
    /// The animal's energy.
    spec fn energy_level(&self) -> i32;

    /// The action the animal chose.
    spec fn chosen_action(&self) -> Action;

    /// The animal's position `(x, y)`.
    spec fn location(&self) -> (usize, usize);

    /// Everything of the animal but its energy, action and position.
    spec fn identity(&self) -> (usize, Option<usize>);

    fn get_action_ref_immutable(&self) -> (action: &Action)
        ensures
            *action == self.chosen_action(),
    ;

    fn get_action_ref_mut(&mut self) -> (action: &mut Action)
        ensures
            *action == old(self).chosen_action(),
            final(self).chosen_action() == *final(action),
            final(self).energy_level() == old(self).energy_level(),
            final(self).location() == old(self).location(),
            final(self).identity() == old(self).identity(),
    ;

    fn get_energy(&self) -> (energy: i32)
        ensures
            energy == self.energy_level(),
    ;

    fn set_energy(&mut self, energy: i32)
        ensures
            final(self).energy_level() == energy,
            final(self).chosen_action() == old(self).chosen_action(),
            final(self).location() == old(self).location(),
            final(self).identity() == old(self).identity(),
    ;

    /// Adds `energy` (which may be negative); a result below 0 becomes 0.
    fn add_to_energy(&mut self, energy: i32)
        requires
            energy_delta_fits(old(self).energy_level(), energy as int),
        ensures
            final(self).energy_level() == energy_after(old(self).energy_level(), energy as int),
            final(self).chosen_action() == old(self).chosen_action(),
            final(self).location() == old(self).location(),
            final(self).identity() == old(self).identity(),
    ;

    fn set_position(&mut self, x: usize, y: usize)
        ensures
            final(self).location() == (x, y),
            final(self).energy_level() == old(self).energy_level(),
            final(self).chosen_action() == old(self).chosen_action(),
            final(self).identity() == old(self).identity(),
    ;

    fn get_position(&self) -> (position: (usize, usize))
        ensures
            position == self.location(),
    ;

    /// Pays for a walk (3 energy) or for resting (1 energy). An animal that
    /// chose to eat never takes this step.
    fn take_other_action(&mut self)
        requires
            old(self).chosen_action() != Action::Eat,
            energy_delta_fits(old(self).energy_level(), -3),
        ensures
            final(self).energy_level() == energy_after(
                old(self).energy_level(),
                if old(self).chosen_action() == Action::Idle { -1 } else { -3 },
            ),
            final(self).chosen_action() == old(self).chosen_action(),
            final(self).location() == old(self).location(),
            final(self).identity() == old(self).identity(),
    {
        match self.get_action_ref_immutable() {
            Action::WalkLeft | Action::WalkRight | Action::WalkUp | Action::WalkDown => {
                self.add_to_energy(-3);
            },
            Action::Eat => {
                assert(false);
            },
            Action::Idle => {
                self.add_to_energy(-1);
            },
        }
    }

    /// Gains 100 energy from a meal.
    fn take_eat_action(&mut self)
        requires
            energy_delta_fits(old(self).energy_level(), 100),
        ensures
            final(self).energy_level() == energy_after(old(self).energy_level(), 100),
            final(self).chosen_action() == old(self).chosen_action(),
            final(self).location() == old(self).location(),
            final(self).identity() == old(self).identity(),
    {
        self.add_to_energy(100);
    }
}

} // verus!
