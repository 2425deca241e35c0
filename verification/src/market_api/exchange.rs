//! An exchange.
use vstd::prelude::*;

verus! {

/// An exchange. Encoded as one byte; `NullVal` (255) stands for no value.
#[allow(non_camel_case_types)]
#[derive(Clone, Copy, Debug, PartialEq, Eq, Structural, Hash)]
pub enum Exchange {
    binance,
    ftx,
    NullVal,
}

impl Exchange {
    /// The byte that encodes the value.
    pub open spec fn spec_to_u8(self) -> u8 {
        match self {
            Exchange::binance => 0u8,
            Exchange::ftx => 1u8,
            Exchange::NullVal => 255u8,
        }
    }

    /// The value that a byte encodes: any byte without a value of its own is `NullVal`.
    pub open spec fn spec_from_u8(v: u8) -> Exchange {
        match v {
            0u8 => Exchange::binance,
            1u8 => Exchange::ftx,
            _ => Exchange::NullVal,
        }
    }

    /// The byte that encodes the value.
    pub fn to_u8(self) -> (v: u8)
        ensures
            v == self.spec_to_u8(),
    {
        match self {
            Exchange::binance => 0u8,
            Exchange::ftx => 1u8,
            Exchange::NullVal => 255u8,
        }
    }
}

/// Decoding a value's byte gives the value back.
pub proof fn lemma_exchange_roundtrip(x: Exchange)
    ensures
        Exchange::spec_from_u8(x.spec_to_u8()) == x,
{
}

impl Default for Exchange {
    fn default() -> (r: Exchange)
        ensures
            r == Exchange::NullVal,
    {
        Exchange::NullVal
    }
}

impl From<u8> for Exchange {
    fn from(v: u8) -> (r: Exchange) {
        match v {
            0u8 => Exchange::binance,
            1u8 => Exchange::ftx,
            _ => Exchange::NullVal,
        }
    }
}

impl vstd::std_specs::convert::FromSpecImpl<u8> for Exchange {
    open spec fn obeys_from_spec() -> bool {
        true
    }

    open spec fn from_spec(v: u8) -> Exchange {
        Exchange::spec_from_u8(v)
    }
}

} // verus!
