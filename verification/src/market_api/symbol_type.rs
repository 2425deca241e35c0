//! The kind of a symbol.
use vstd::prelude::*;

verus! {

/// The kind of a symbol. Encoded as one byte; `NullVal` (255) stands for no value.
#[allow(non_camel_case_types)]
#[derive(Clone, Copy, Debug, PartialEq, Eq, Structural, Hash)]
pub enum SymbolType {
    spot,
    future,
    inverse_future,
    NullVal,
}

impl SymbolType {
    /// The byte that encodes the value.
    pub open spec fn spec_to_u8(self) -> u8 {
        match self {
            SymbolType::spot => 0u8,
            SymbolType::future => 1u8,
            SymbolType::inverse_future => 2u8,
            SymbolType::NullVal => 255u8,
        }
    }

    /// The value that a byte encodes: any byte without a value of its own is `NullVal`.
    pub open spec fn spec_from_u8(v: u8) -> SymbolType {
        match v {
            0u8 => SymbolType::spot,
            1u8 => SymbolType::future,
            2u8 => SymbolType::inverse_future,
            _ => SymbolType::NullVal,
        }
    }

    /// The byte that encodes the value.
    pub fn to_u8(self) -> (v: u8)
        ensures
            v == self.spec_to_u8(),
    {
        match self {
            SymbolType::spot => 0u8,
            SymbolType::future => 1u8,
            SymbolType::inverse_future => 2u8,
            SymbolType::NullVal => 255u8,
        }
    }
}

/// Decoding a value's byte gives the value back.
pub proof fn lemma_symbol_type_roundtrip(x: SymbolType)
    ensures
        SymbolType::spec_from_u8(x.spec_to_u8()) == x,
{
}

impl Default for SymbolType {
    fn default() -> (r: SymbolType)
        ensures
            r == SymbolType::NullVal,
    {
        SymbolType::NullVal
    }
}

impl From<u8> for SymbolType {
    fn from(v: u8) -> (r: SymbolType) {
        match v {
            0u8 => SymbolType::spot,
            1u8 => SymbolType::future,
            2u8 => SymbolType::inverse_future,
            _ => SymbolType::NullVal,
        }
    }
}

impl vstd::std_specs::convert::FromSpecImpl<u8> for SymbolType {
    open spec fn obeys_from_spec() -> bool {
        true
    }

    open spec fn from_spec(v: u8) -> SymbolType {
        SymbolType::spec_from_u8(v)
    }
}

} // verus!
