use vstd::prelude::*;

verus! {

/// A chat command: its name and the names it also answers to.
pub trait Command: Send + Sync {
    /// The name, as a sequence of characters.
    open spec fn spec_name(&self) -> Seq<char> {
        Seq::empty()
    }

    /// The one-line description, as a sequence of characters.
    open spec fn spec_description(&self) -> Seq<char> {
        Seq::empty()
    }

    fn name(&self) -> (r: &str)
        ensures
            r@ == self.spec_name(),
    ;

    fn description(&self) -> (r: &str)
        ensures
            r@ == self.spec_description(),
    ;

    /// The other names, each as a sequence of characters.
    open spec fn spec_aliases(&self) -> Seq<Seq<char>> {
        Seq::empty()
    }

    /// The other names the command answers to.
    fn aliases(&self) -> (r: &[&'static str])
        ensures
            r@.len() == self.spec_aliases().len(),
            forall|i: int| 0 <= i < r@.len() ==> #[trigger] r@[i]@ == self.spec_aliases()[i],
    ;
}

} // verus!
