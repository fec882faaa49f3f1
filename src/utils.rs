use vstd::prelude::*;

verus! {

/// A labelled timer: the label names the measurement that the host's
/// console reports when the timer is started and when it is dropped.
pub struct Timer<'a> {
    name: &'a str,
}

impl<'a> Timer<'a> {
    /// The label, as a sequence of characters.
    pub closed spec fn label(&self) -> Seq<char> {
        self.name@
    }

    /// A timer that carries the label `name`.
    pub fn new(name: &'a str) -> (t: Timer<'a>)
        ensures
            t.label() == name@,
    {
        Timer { name }
    }

    /// The label of the timer.
    pub fn name(&self) -> (r: &'a str)
        ensures
            r@ == self.label(),
    {
        self.name
    }
}

} // verus!
