//! A generic named entity: a components bundle together with the name and
//! the pool position it was instantiated under.

use vstd::prelude::*;

verus! {

/// An entity: component data plus its name and pool position.
#[derive(Clone)]
pub struct Entity<C> {
    pub name: String,
    pub pointer: usize,
    pub components: C,
}

impl<C> Entity<C> {
    /// Instantiates a new entity record.
    pub fn new(name: String, pointer: usize, components: C) -> (r: Self)
        ensures
            r.name@ == name@,
            r.pointer == pointer,
            r.components == components,
    {
        Entity { name, pointer, components }
    }

    /// Where this entity lives within the pool.
    pub fn pointer(&self) -> (r: usize)
        ensures
            r == self.pointer,
    {
        self.pointer
    }

    /// The name of this entity.
    pub fn name(&self) -> (r: &str)
        ensures
            r@ == self.name@,
    {
        self.name.as_str()
    }

    /// Overrides the name of this entity.
    pub fn change_name(&mut self, new_name: &str)
        ensures
            final(self).name@ == new_name@,
            final(self).pointer == old(self).pointer,
            final(self).components == old(self).components,
    {
        self.name = String::from_str(new_name);
    }
}

} // verus!
