//! Host-facing parameter identifiers of the companion median-filter effect.
//!
//! The median filter itself — a sliding-median over floating-point samples,
//! delegated to an external library — lives outside the verified core; only
//! its parameter bookkeeping is plain enough to carry a contract.

use vstd::prelude::*;

verus! {

/// The median filter's parameter space: the sliding-window length, plus a
/// catch-all for any out-of-range host index.
#[derive(Clone, Copy, Debug, PartialEq, Eq, Structural)]
pub enum ParameterType {
    WindowSize,
    Error,
}

/// The parameter addressed by a host index: index zero is the window size,
/// every other index the error marker.
pub open spec fn spec_parameter_of(index: i32) -> ParameterType {
    if index == 0 {
        ParameterType::WindowSize
    } else {
        ParameterType::Error
    }
}

impl From<i32> for ParameterType {
    fn from(i: i32) -> (r: ParameterType) {
        if i == 0 {
            ParameterType::WindowSize
        } else {
            ParameterType::Error
        }
    }
}

impl vstd::std_specs::convert::FromSpecImpl<i32> for ParameterType {
    open spec fn obeys_from_spec() -> bool {
        true
    }

    open spec fn from_spec(i: i32) -> ParameterType {
        spec_parameter_of(i)
    }
}

impl ParameterType {
    /// Whether the host may automate the parameter behind an index: every
    /// index that addresses a real parameter, that is, everything but the
    /// error marker.
    pub fn can_be_automated(index: i32) -> (r: bool)
        ensures
            r == (spec_parameter_of(index) != ParameterType::Error),
    {
        index == 0
    }
}

} // verus!
