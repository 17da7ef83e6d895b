//! A listing as a plain list of names.

use crate::path_handler::names_of;
use crate::record::record_views;
use crate::record::PathRecord;
use crate::text::texts;
use vstd::prelude::*;

verus! {

/// The names of the records of a listing, in its order.
pub fn get_files_as_list(records: &Vec<PathRecord>) -> (names: Vec<String>)
    ensures
        texts(names@) == names_of(record_views(records@)),
{
    let mut names: Vec<String> = Vec::new();
    let mut i: usize = 0;
    while i < records.len()
        invariant
            i <= records.len(),
            names.len() == i,
            forall|k: int| 0 <= k < i ==> (#[trigger] names@[k])@ == records@[k]@.name,
        decreases records.len() - i,
    {
        names.push(records[i].name().to_owned());
        i = i + 1;
    }
    assert(texts(names@) =~= names_of(record_views(records@)));
    names
}

} // verus!
