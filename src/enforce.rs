//! What a thread-start event calls for.
use vstd::prelude::*;

use crate::level::PrioClass;
use crate::offsets::DiscoveredOffsets;
use crate::rules::{class_for_name, classes_of, last_match, matches_of, PriorityRule};

verus! {

/// The class to apply to a newly started thread named `name`, or `None` where
/// nothing is to be done: no rule matches the name, or discovery has not
/// found both offsets, so the thread's id cannot be resolved.
pub fn class_to_apply(rules: &Vec<PriorityRule>, offsets: &DiscoveredOffsets, name: &str) -> (r:
    Option<PrioClass>)
    ensures
        r == (if offsets.complete() {
            last_match(classes_of(rules@), matches_of(rules@, name@), rules.len() as int)
        } else {
            None
        }),
        !offsets.complete() ==> r is None,
{
    let class = class_for_name(rules, name);
    if offsets.is_complete() {
        class
    } else {
        None
    }
}

} // verus!
