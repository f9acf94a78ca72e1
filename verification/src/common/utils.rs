use crate::text::{join, join_with, views};
use vstd::prelude::*;

verus! {

/// Lists already formatted items, separated by a comma and a space.
pub fn vec_str(items: &[String]) -> (res: String)
    ensures
        res@ == join_with(views(items@), ", "@),
{
    join(items, ", ")
}

} // verus!
