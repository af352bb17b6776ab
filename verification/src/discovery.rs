//! Device discovery: which of the connected devices is the controller.
//!
//! The devices are known by the product names that they report, in the order
//! in which the host lists them. A device that reports no name is no match.

use vstd::prelude::*;

verus! {

/// Whether a device with the given product name is the one looked for: it
/// reports a name, and the name is the target letter for letter.
pub open spec fn is_target(product: Option<String>, target: Seq<char>) -> bool {
    match product {
        Some(name) => name@ == target,
        None => false,
    }
}

/// Finds the device to open: the first in the list whose product name is the
/// target, or none where no device has that name.
pub fn find_target(products: &Vec<Option<String>>, target: &String) -> (found: Option<usize>)
    ensures
        match found {
            Some(index) => {
                &&& index < products@.len()
                &&& is_target(products@[index as int], target@)
                &&& forall|i: int| 0 <= i < index ==> !is_target(#[trigger] products@[i], target@)
            },
            None => forall|i: int|
                0 <= i < products@.len() ==> !is_target(#[trigger] products@[i], target@),
        },
{
    let mut index: usize = 0;
    while index < products.len()
        invariant
            index <= products@.len(),
            forall|i: int| 0 <= i < index ==> !is_target(#[trigger] products@[i], target@),
        decreases products@.len() - index,
    {
        match &products[index] {
            Some(name) => {
                if *name == *target {
                    return Some(index);
                }
            },
            None => {},
        }
        index += 1;
    }
    None
}

} // verus!
