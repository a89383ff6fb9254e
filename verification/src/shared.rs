use vstd::prelude::*;

verus! {

/// The status line of any entity that is not reachable.
pub open spec fn disconnected_line(name: Seq<char>) -> Seq<char> {
    "\u{274c} "@ + name + " is disconnected"@
}

/// An entity that can present itself as a one-line status summary.
pub trait Information {
    /// What the summary line says, character for character.
    spec fn info_spec(&self) -> Seq<char>;

    /// Render the one-line status summary.
    fn information(&self) -> (r: String)
        ensures
            r@ == self.info_spec(),
    ;
}

} // verus!
