//! Host-facing parameter identifiers of the stutter effect.
//!
//! The host addresses parameters by a small integer index; the engine side
//! works with this enum. The normalized parameter values themselves are
//! floating point and live with the unverified host glue; only the
//! identifier bookkeeping is the library's.

use vstd::prelude::*;

verus! {

/// The stutter effect's automatable parameters: the trigger gate, the loop
/// length, and the wet/dry blend ratio.
#[derive(Clone, Copy, Debug, PartialEq, Eq, Structural)]
pub enum ParameterType {
    Trigger,
    BufferSize,
    WetDry,
}

/// How many parameters the stutter effect exposes.
pub const PARAMETER_COUNT: usize = 3;

/// The host index of each parameter.
pub open spec fn spec_index_of(p: ParameterType) -> i32 {
    match p {
        ParameterType::WetDry => 0,
        ParameterType::Trigger => 1,
        ParameterType::BufferSize => 2,
    }
}

impl ParameterType {
    /// The parameter addressed by a host index, if the index is in range.
    pub fn from_index(index: i32) -> (r: Option<ParameterType>)
        ensures
            index == 0 ==> r == Some(ParameterType::WetDry),
            index == 1 ==> r == Some(ParameterType::Trigger),
            index == 2 ==> r == Some(ParameterType::BufferSize),
            !(0 <= index <= 2) ==> r is None,
            r matches Some(p) ==> spec_index_of(p) == index,
    {
        match index {
            0 => Some(ParameterType::WetDry),
            1 => Some(ParameterType::Trigger),
            2 => Some(ParameterType::BufferSize),
            _ => None,
        }
    }

    /// The host index of this parameter.
    pub fn index(self) -> (i: i32)
        ensures
            i == spec_index_of(self),
            0 <= i < PARAMETER_COUNT,
    {
        match self {
            ParameterType::WetDry => 0,
            ParameterType::Trigger => 1,
            ParameterType::BufferSize => 2,
        }
    }
}

} // verus!
