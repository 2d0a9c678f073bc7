use vstd::prelude::*;

verus! {

/// A process-lifetime-stable integer identifier bound to a URI string.
///
/// Zero is reserved: host-supplied tables use a zero key as their array
/// terminator, so a valid URID is never zero.
#[derive(Clone, Copy, PartialEq, Eq, Structural, Debug)]
pub struct Urid {
    value: u32,
}

impl Urid {
    /// The raw integer behind this URID.
    pub closed spec fn spec_get(self) -> u32 {
        self.value
    }

    #[verifier::type_invariant]
    spec fn type_inv(self) -> bool {
        self.value != 0
    }

    /// Wraps a raw integer; zero is not a URID.
    pub fn new(value: u32) -> (r: Option<Urid>)
        ensures
            match r {
                Some(u) => value != 0 && u.spec_get() == value,
                None => value == 0,
            },
    {
        if value != 0 {
            Some(Urid { value })
        } else {
            None
        }
    }

    /// Returns the raw integer, which is never zero.
    pub fn get(&self) -> (r: u32)
        ensures
            r == self.spec_get(),
            r != 0,
    {
        proof {
            use_type_invariant(self);
        }
        self.value
    }
}

} // verus!
