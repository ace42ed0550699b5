//! The kinds of command-line arguments.

use vstd::prelude::*;

verus! {

/// The kind of a command-line argument.
#[derive(Clone, Debug, PartialEq, Eq)]
pub enum ACArgKind {
    /// A boolean switch.
    Switch { long: &'static str, short: Option<&'static str> },
    /// A flag that accepts a single value.
    Flag {
        long: &'static str,
        short: Option<&'static str>,
        value_name: &'static str,
        possible_values: Vec<&'static str>,
    },
}

} // verus!
