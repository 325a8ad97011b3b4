//! Function-system adapter: a named function run on the world each frame.

use vstd::prelude::*;

verus! {

/// Adapter that pairs a function with the name it runs under.
pub struct FnSystem<F> {
    func: F,
    name: String,
}

impl<F> FnSystem<F> {
    /// The name of the system.
    pub closed spec fn spec_name(&self) -> Seq<char> {
        self.name@
    }

    /// The wrapped function.
    pub closed spec fn spec_func(&self) -> F {
        self.func
    }

    /// A system named `name` that runs `func`.
    pub fn new(name: String, func: F) -> (s: Self)
        ensures
            s.spec_name() == name@,
            s.spec_func() == func,
    {
        FnSystem { func, name }
    }

    /// The name of the system.
    pub fn name(&self) -> (n: &str)
        ensures
            n@ == self.spec_name(),
    {
        self.name.as_str()
    }

    /// The wrapped function.
    pub fn func(&self) -> (f: &F)
        ensures
            *f == self.spec_func(),
    {
        &self.func
    }
}

} // verus!
