//! Comparing and copying strings.

use vstd::prelude::*;
use vstd::string::*;

use crate::messages::views;

verus! {

/// Whether two strings hold the same text.
pub(crate) fn same_text(a: &String, b: &String) -> (same: bool)
    ensures
        same == (a@ == b@),
{
    *a == *b
}

/// Whether a string holds the text of a string slice.
pub(crate) fn same_as(text: &String, other: &str) -> (same: bool)
    ensures
        same == (text@ == other@),
{
    let owned = String::from_str(other);
    *text == owned
}

/// Whether `name` is among `names`.
pub(crate) fn contains_name(names: &Vec<String>, name: &String) -> (b: bool)
    ensures
        b == views(names@).contains(name@),
{
    let mut i: usize = 0;
    while i < names.len()
        invariant
            i <= names.len(),
            forall|j: int| 0 <= j < i ==> views(names@)[j] != name@,
        decreases names.len() - i,
    {
        if same_text(&names[i], name) {
            assert(views(names@)[i as int] == name@);
            return true;
        }
        i += 1;
    }
    false
}

/// A copy of the strings, in their order.
pub(crate) fn clone_strings(items: &Vec<String>) -> (res: Vec<String>)
    ensures
        views(res@) == views(items@),
{
    let mut res: Vec<String> = Vec::new();
    let mut i: usize = 0;
    while i < items.len()
        invariant
            i <= items.len(),
            res.len() == i,
            forall|j: int| 0 <= j < i ==> res[j]@ == items[j]@,
        decreases items.len() - i,
    {
        res.push(items[i].clone());
        i += 1;
    }
    assert(views(res@) =~= views(items@));
    res
}

} // verus!
