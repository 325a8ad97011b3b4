//! Schedule — ordered collection of systems executed each frame.

use vstd::prelude::*;

verus! {

/// A label for a set of systems. Systems in the same set run in an
/// undefined order, but sets themselves are ordered.
#[derive(Clone, Debug, PartialEq, Eq, Hash)]
pub struct SystemSet(pub String);

impl SystemSet {
    /// The set labelled `name`.
    pub fn new(name: String) -> (s: SystemSet)
        ensures
            s.0@ == name@,
    {
        SystemSet(name)
    }
}

/// The set labelled `name`.
impl From<&str> for SystemSet {
    fn from(name: &str) -> (s: SystemSet)
        ensures
            s.0@ == name@,
    {
        SystemSet(name.to_string())
    }
}

/// The label is a `String`, which no spec value pins down, so the
/// conversion is specified by the `ensures` of `from` above rather than by a
/// spec function.
impl vstd::std_specs::convert::FromSpecImpl<&str> for SystemSet {
    open spec fn obeys_from_spec() -> bool {
        false
    }

    open spec fn from_spec(name: &str) -> SystemSet {
        choose|s: SystemSet| s.0@ == name@
    }
}

/// A scheduled system with optional set assignment and ordering constraints.
struct ScheduledSystem<S> {
    system: S,
    set: Option<SystemSet>,
    before: Vec<String>,
    after: Vec<String>,
}

/// The execution order of `n` systems: insertion order.
pub open spec fn insertion_order(n: nat) -> Seq<usize> {
    Seq::new(n, |i: int| i as usize)
}

/// A schedule of systems that run in a defined order each frame.
pub struct Schedule<S> {
    systems: Vec<ScheduledSystem<S>>,
    /// Cached execution order (rebuilt when systems change).
    order: Vec<usize>,
    dirty: bool,
}

impl<S> Schedule<S> {
    /// The systems, in insertion order.
    pub closed spec fn systems(&self) -> Seq<S> {
        Seq::new(self.systems@.len(), |i: int| self.systems@[i].system)
    }

    /// The set each system was added to, in insertion order.
    pub closed spec fn sets(&self) -> Seq<Option<SystemSet>> {
        Seq::new(self.systems@.len(), |i: int| self.systems@[i].set)
    }

    /// Well-formedness: a clean cache holds the order of all systems.
    pub closed spec fn wf(&self) -> bool {
        !self.dirty ==> self.order@ == insertion_order(self.systems@.len())
    }

    /// An empty schedule.
    pub fn new() -> (s: Self)
        ensures
            s.wf(),
            s.systems() == Seq::<S>::empty(),
    {
        let s = Schedule { systems: Vec::new(), order: Vec::new(), dirty: true };
        assert(s.systems() =~= Seq::<S>::empty());
        s
    }

    /// Add a system to the schedule, outside any set.
    pub fn add_system(&mut self, system: S) -> (r: &mut Self)
        requires
            old(self).wf(),
        ensures
            r.wf(),
            r.systems() == old(self).systems().push(system),
            r.sets() == old(self).sets().push(None),
            *final(self) == *final(r),
    {
        self.systems.push(ScheduledSystem { system, set: None, before: Vec::new(), after: Vec::new() });
        self.dirty = true;
        assert(self.systems() =~= old(self).systems().push(system));
        assert(self.sets() =~= old(self).sets().push(None));
        self
    }

    /// Add a system to the set `set`.
    pub fn add_system_in_set(&mut self, system: S, set: SystemSet) -> (r: &mut Self)
        requires
            old(self).wf(),
        ensures
            r.wf(),
            r.systems() == old(self).systems().push(system),
            r.sets() == old(self).sets().push(Some(set)),
            *final(self) == *final(r),
    {
        self.systems.push(ScheduledSystem { system, set: Some(set), before: Vec::new(), after: Vec::new() });
        self.dirty = true;
        assert(self.systems() =~= old(self).systems().push(system));
        assert(self.sets() =~= old(self).sets().push(Some(set)));
        self
    }

    /// Number of systems.
    pub fn len(&self) -> (n: usize)
        ensures
            n == self.systems().len(),
    {
        self.systems.len()
    }

    /// True when the schedule holds no system.
    pub fn is_empty(&self) -> (b: bool)
        ensures
            b == (self.systems().len() == 0),
    {
        self.systems.len() == 0
    }

    /// Compute the execution order: systems run in insertion order.
    fn rebuild_order(&mut self)
        ensures
            final(self).wf(),
            !final(self).dirty,
            final(self).systems() == old(self).systems(),
            final(self).sets() == old(self).sets(),
    {
        let n = self.systems.len();
        let mut order: Vec<usize> = Vec::new();
        let mut i: usize = 0;
        while i < n
            invariant
                i <= n,
                order@ == insertion_order(i as nat),
            decreases n - i,
        {
            order.push(i);
            assert(order@ =~= insertion_order((i + 1) as nat));
            i = i + 1;
        }
        self.order = order;
        self.dirty = false;
    }

    /// The order in which the systems run this frame (rebuilding the cached
    /// order if systems changed): every system once, in insertion order.
    pub fn execution_order(&mut self) -> (order: Vec<usize>)
        requires
            old(self).wf(),
        ensures
            final(self).wf(),
            final(self).systems() == old(self).systems(),
            final(self).sets() == old(self).sets(),
            order@ == insertion_order(old(self).systems().len()),
    {
        if self.dirty {
            self.rebuild_order();
        }
        self.order.clone()
    }

    /// The system at position `index`.
    pub fn system(&self, index: usize) -> (s: &S)
        requires
            index < self.systems().len(),
        ensures
            *s == self.systems()[index as int],
    {
        &self.systems[index].system
    }

    /// Mutable access to the system at position `index`.
    pub fn system_mut(&mut self, index: usize) -> (s: &mut S)
        requires
            old(self).wf(),
            index < old(self).systems().len(),
        ensures
            *s == old(self).systems()[index as int],
            final(self).wf(),
            final(self).systems() == old(self).systems().update(index as int, *final(s)),
            final(self).sets() == old(self).sets(),
    {
        &mut self.systems[index].system
    }
}

} // verus!
