//! A person with a name, an age and an email address.

use vstd::prelude::*;

verus! {

/// A named person whose age can be advanced one year at a time.
pub struct Person {
    pub name: String,
    pub age: u32,
    pub email: String,
}

impl Person {
    /// Builds a person from its three fields.
    pub fn new(name: String, age: u32, email: String) -> (p: Person)
        ensures
            p.name == name,
            p.age == age,
            p.email == email,
    {
        Person { name, age, email }
    }

    /// Advances the age by one year; name and email are untouched.
    pub fn have_birthday(&mut self)
        requires
            old(self).age < u32::MAX,
        ensures
            final(self).age == old(self).age + 1,
            final(self).name == old(self).name,
            final(self).email == old(self).email,
    {
        self.age = self.age + 1;
    }
}

} // verus!
