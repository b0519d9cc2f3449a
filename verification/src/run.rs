//! What a panic anywhere in the process left behind, for the event loop to find.

use vstd::prelude::*;

verus! {

/// The first panic's message, kept until the loop takes it. A panic in a spawned task unwinds
/// that task alone; this is how the loop learns of it.
#[derive(Debug, Default)]
pub struct Panics {
    pub slot: Option<String>,
}

/// What [`Panics::set`] leaves: the slot as it was when it already held a message, `message`
/// otherwise.
pub open spec fn set_spec(old: Option<String>, message: String, new: Option<String>) -> bool {
    new == if old is Some { old } else { Some(message) }
}

/// What [`Panics::take`] leaves and gives: the message it held, and an empty slot.
pub open spec fn take_spec(old: Option<String>, new: Option<String>, r: Option<String>) -> bool {
    r == old && new is None
}

impl Panics {
    /// An empty slot.
    pub fn new() -> (r: Panics)
        ensures
            r.slot is None,
    {
        Panics { slot: None }
    }

    /// Keeps `message` unless a panic is already kept: the first one is the one worth
    /// reporting, and the ones after it are usually its consequences.
    pub fn set(&mut self, message: String)
        ensures
            set_spec(old(self).slot, message, final(self).slot),
    {
        if self.slot.is_none() {
            self.slot = Some(message);
        }
    }

    /// The first panic's message, once.
    pub fn take(&mut self) -> (r: Option<String>)
        ensures
            take_spec(old(self).slot, final(self).slot, r),
    {
        self.slot.take()
    }
}

/// Of two panics the first is the one kept, and it is taken once: a second `take` finds nothing.
pub proof fn lemma_first_panic_taken_once(
    empty: Option<String>,
    first: String,
    second: String,
    s1: Option<String>,
    s2: Option<String>,
    s3: Option<String>,
    s4: Option<String>,
    t1: Option<String>,
    t2: Option<String>,
)
    requires
        empty is None,
        set_spec(empty, first, s1),
        set_spec(s1, second, s2),
        take_spec(s2, s3, t1),
        take_spec(s3, s4, t2),
    ensures
        t1 == Some(first),
        t2 is None,
        s4 is None,
{
}

} // verus!
