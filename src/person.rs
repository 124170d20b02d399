use vstd::prelude::*;

verus! {

/// A named person with an age.
pub struct Person {
    pub name: String,
    pub age: u32,
}

impl Person {
    pub fn new(name: String, age: u32) -> (p: Person)
        ensures
            p.name@ == name@,
            p.age == age,
    {
        Person { name, age }
    }

    /// The line a person greets with.
    pub fn greet(&self) -> (r: String)
        ensures
            r@ == "Hello, my name is "@ + self.name@,
    {
        String::from_str("Hello, my name is ").concat(self.name.as_str())
    }
}

/// The person "Alice", aged 30.
pub fn create_person() -> (p: Person)
    ensures
        p.name@ == "Alice"@,
        p.age == 30,
{
    Person::new(String::from_str("Alice"), 30)
}

} // verus!
