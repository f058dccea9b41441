//! Session-scoped indexing over a shared checkpoint store.
//!
//! Many logical sessions share one content-addressable checkpoint store that
//! has no native notion of a session: the only channel available is the
//! free-text description attached to each checkpoint.  This crate provides
//! the verified core of a layer that multiplexes sessions over such a store:
//! a codec that embeds a session id and a message index in the description
//! string and recovers them later, a per-session index from message index to
//! checkpoint id, a project-wide metadata cache, a registry of per-session
//! managers, and the normalization of diff results for transport.
//!
//! The store itself (hashing, snapshots, restore, diff computation) is an
//! external collaborator doing file I/O; callers drive it and hand its plain
//! results to the functions here.

mod chars;
pub mod digits;
pub mod codec;
pub mod diff;
pub mod index;
pub mod manager;
pub mod registry;
pub mod records;
pub mod textscan;

use vstd::prelude::*;

verus! {

/// A digit character, `'0'` through `'9'`.
pub open spec fn spec_is_digit(c: char) -> bool {
    '0' <= c && c <= '9'
}

/// Numeric value of a digit character.
pub open spec fn spec_digit_val(c: char) -> nat
    recommends
        spec_is_digit(c),
{
    (c as nat - '0' as nat) as nat
}

/// Whether `c` counts as whitespace for trimming; the ASCII blank characters.
pub open spec fn spec_is_space(c: char) -> bool {
    c == ' ' || c == '\t' || c == '\n' || c == '\r'
}

/// Executable test for a digit character.
pub fn is_digit(c: char) -> (r: bool)
    ensures
        r == spec_is_digit(c),
{
    '0' <= c && c <= '9'
}

/// Executable test for a whitespace character.
pub fn is_space(c: char) -> (r: bool)
    ensures
        r == spec_is_space(c),
{
    c == ' ' || c == '\t' || c == '\n' || c == '\r'
}

} // verus!
