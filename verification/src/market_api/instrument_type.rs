//! The kind of an instrument.
use vstd::prelude::*;

verus! {

/// The kind of an instrument. Encoded as one byte; `NullVal` (255) stands for no value.
#[allow(non_camel_case_types)]
#[derive(Clone, Copy, Debug, PartialEq, Eq, Structural, Hash)]
pub enum InstrumentType {
    spot,
    future,
    inverse_future,
    NullVal,
}

impl InstrumentType {
    /// The byte that encodes the value.
    pub open spec fn spec_to_u8(self) -> u8 {
        match self {
            InstrumentType::spot => 0u8,
            InstrumentType::future => 1u8,
            InstrumentType::inverse_future => 2u8,
            InstrumentType::NullVal => 255u8,
        }
    }

    /// The value that a byte encodes: any byte without a value of its own is `NullVal`.
    pub open spec fn spec_from_u8(v: u8) -> InstrumentType {
        match v {
            0u8 => InstrumentType::spot,
            1u8 => InstrumentType::future,
            2u8 => InstrumentType::inverse_future,
            _ => InstrumentType::NullVal,
        }
    }

    /// The byte that encodes the value.
    pub fn to_u8(self) -> (v: u8)
        ensures
            v == self.spec_to_u8(),
    {
        match self {
            InstrumentType::spot => 0u8,
            InstrumentType::future => 1u8,
            InstrumentType::inverse_future => 2u8,
            InstrumentType::NullVal => 255u8,
        }
    }
}

/// Decoding a value's byte gives the value back.
pub proof fn lemma_instrument_type_roundtrip(x: InstrumentType)
    ensures
        InstrumentType::spec_from_u8(x.spec_to_u8()) == x,
{
}

impl Default for InstrumentType {
    fn default() -> (r: InstrumentType)
        ensures
            r == InstrumentType::NullVal,
    {
        InstrumentType::NullVal
    }
}

impl From<u8> for InstrumentType {
    fn from(v: u8) -> (r: InstrumentType) {
        match v {
            0u8 => InstrumentType::spot,
            1u8 => InstrumentType::future,
            2u8 => InstrumentType::inverse_future,
            _ => InstrumentType::NullVal,
        }
    }
}

impl vstd::std_specs::convert::FromSpecImpl<u8> for InstrumentType {
    open spec fn obeys_from_spec() -> bool {
        true
    }

    open spec fn from_spec(v: u8) -> InstrumentType {
        InstrumentType::spec_from_u8(v)
    }
}

} // verus!
