//! Tracking which buttons or keys are held, were just pressed, or were just
//! released during the current frame.
use vstd::prelude::*;

use std::collections::HashSet;
use std::hash::Hash;

use vstd::std_specs::hash::obeys_key_model;

verus! {

broadcast use vstd::std_specs::hash::group_hash_axioms;

/// Input state over keys of type `T`.
#[derive(Debug)]
pub struct Input<T: Eq + Hash + Copy> {
    pressed: HashSet<T>,
    just_pressed: HashSet<T>,
    released: HashSet<T>,
}

impl<T: Eq + Hash + Copy> Input<T> {
    /// Keys that are held down.
    pub closed spec fn spec_pressed(&self) -> Set<T> {
        self.pressed@
    }

    /// Keys pressed since the last reset.
    pub closed spec fn spec_just_pressed(&self) -> Set<T> {
        self.just_pressed@
    }

    /// Keys released since the last reset.
    pub closed spec fn spec_released(&self) -> Set<T> {
        self.released@
    }

    pub fn new() -> (r: Self)
        ensures
            r.spec_pressed() == Set::<T>::empty(),
            r.spec_just_pressed() == Set::<T>::empty(),
            r.spec_released() == Set::<T>::empty(),
    {
        Input { pressed: HashSet::new(), just_pressed: HashSet::new(), released: HashSet::new() }
    }

    /// Records that `input` went down.
    pub fn add_pressed(&mut self, input: T)
        ensures
            obeys_key_model::<T>() ==> {
                &&& final(self).spec_pressed() == old(self).spec_pressed().insert(input)
                &&& final(self).spec_just_pressed() == old(self).spec_just_pressed().insert(input)
                &&& final(self).spec_released() == old(self).spec_released()
            },
    {
        self.pressed.insert(input);
        self.just_pressed.insert(input);
    }

    /// Records that `input` went up.
    pub fn remove_pressed(&mut self, input: T)
        ensures
            obeys_key_model::<T>() ==> {
                &&& final(self).spec_pressed() == old(self).spec_pressed().remove(input)
                &&& final(self).spec_just_pressed() == old(self).spec_just_pressed()
                &&& final(self).spec_released() == old(self).spec_released().insert(input)
            },
    {
        self.pressed.remove(&input);
        self.released.insert(input);
    }

    /// Starts a new frame: nothing has just been pressed or released.
    pub fn reset(&mut self)
        ensures
            final(self).spec_pressed() == old(self).spec_pressed(),
            final(self).spec_just_pressed() == Set::<T>::empty(),
            final(self).spec_released() == Set::<T>::empty(),
    {
        self.just_pressed.clear();
        self.released.clear();
    }

    pub fn pressed(&self, input: T) -> (r: bool)
        ensures
            obeys_key_model::<T>() ==> r == self.spec_pressed().contains(input),
    {
        self.pressed.contains(&input)
    }

    pub fn just_pressed(&self, input: T) -> (r: bool)
        ensures
            obeys_key_model::<T>() ==> r == self.spec_just_pressed().contains(input),
    {
        self.just_pressed.contains(&input)
    }

    pub fn _released(&self, input: T) -> (r: bool)
        ensures
            obeys_key_model::<T>() ==> r == self.spec_released().contains(input),
    {
        self.released.contains(&input)
    }
}

} // verus!
