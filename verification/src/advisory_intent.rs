//! Advisory prompt intent detection: prompts that ask for priorities,
//! roadmap, or next-work guidance.
use vstd::prelude::*;

use crate::text::{chars_of, contains, contains_vec, lower, lower_vec};

verus! {

/// The prompt asks what to work on next (on the ASCII-lower-cased prompt).
pub open spec fn is_advisory(prompt: Seq<char>) -> bool {
    let l = lower(prompt);
    ||| contains(l, "what should we do next"@)
    ||| contains(l, "what's next"@)
    ||| contains(l, "what to work on"@)
    ||| contains(l, "priorities"@)
    ||| contains(l, "roadmap"@)
    ||| contains(l, "next step"@)
}

/// True when the prompt asks for priorities, roadmap, or next-work guidance.
pub fn matches_advisory_intent(prompt: &str) -> (b: bool)
    ensures
        b == is_advisory(prompt@),
{
    let l = lower_vec(&chars_of(prompt));
    contains_vec(&l, &chars_of("what should we do next")) || contains_vec(
        &l,
        &chars_of("what's next"),
    ) || contains_vec(&l, &chars_of("what to work on")) || contains_vec(
        &l,
        &chars_of("priorities"),
    ) || contains_vec(&l, &chars_of("roadmap")) || contains_vec(&l, &chars_of("next step"))
}

/// Injected context already carries roadmap or priority signals.
pub open spec fn has_priority_markers(context: Seq<char>) -> bool {
    let l = lower(context);
    contains(l, "roadmap"@) || contains(l, "prioritization"@) || contains(l, "current focus"@)
}

/// True when injected daemon context already carries roadmap/priority signals.
pub fn context_has_priority_markers(context: &str) -> (b: bool)
    ensures
        b == has_priority_markers(context@),
{
    let l = lower_vec(&chars_of(context));
    contains_vec(&l, &chars_of("roadmap")) || contains_vec(&l, &chars_of("prioritization"))
        || contains_vec(&l, &chars_of("current focus"))
}

} // verus!
