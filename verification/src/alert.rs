//! Desktop notifications that the status readings call for.
use vstd::prelude::*;

verus! {

/// How urgent a notification is.
#[derive(Clone, Copy, Debug, PartialEq, Eq, Structural)]
pub enum Urgency {
    Low,
    Normal,
    Critical,
}

/// A notification to show: its summary line, its body and its urgency.
#[derive(Clone, Debug)]
pub struct Alert {
    pub summary: String,
    pub body: String,
    pub urgency: Urgency,
}

} // verus!
