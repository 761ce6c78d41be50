use vstd::prelude::*;

verus! {

/// Something that has a fixed name for messages.
pub trait Named {
    spec fn name_spec(&self) -> Seq<char>;

    fn name(&self) -> (r: &'static str)
        ensures
            r@ == self.name_spec(),
    ;
}

/// Name under which a value appears in messages.
pub fn type_name_of<T: Named>(value: T) -> (r: &'static str)
    ensures
        r@ == value.name_spec(),
{
    value.name()
}

} // verus!
