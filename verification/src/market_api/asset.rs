//! An asset (currency) of a symbol.
use vstd::prelude::*;

verus! {

/// An asset (currency) of a symbol. Encoded as one byte; `NullVal` (255) stands for no value.
#[allow(non_camel_case_types)]
#[derive(Clone, Copy, Debug, PartialEq, Eq, Structural, Hash)]
pub enum Asset {
    usd,
    btc,
    eth,
    usdt,
    NullVal,
}

impl Asset {
    /// The byte that encodes the value.
    pub open spec fn spec_to_u8(self) -> u8 {
        match self {
            Asset::usd => 0u8,
            Asset::btc => 1u8,
            Asset::eth => 2u8,
            Asset::usdt => 3u8,
            Asset::NullVal => 255u8,
        }
    }

    /// The value that a byte encodes: any byte without a value of its own is `NullVal`.
    pub open spec fn spec_from_u8(v: u8) -> Asset {
        match v {
            0u8 => Asset::usd,
            1u8 => Asset::btc,
            2u8 => Asset::eth,
            3u8 => Asset::usdt,
            _ => Asset::NullVal,
        }
    }

    /// The byte that encodes the value.
    pub fn to_u8(self) -> (v: u8)
        ensures
            v == self.spec_to_u8(),
    {
        match self {
            Asset::usd => 0u8,
            Asset::btc => 1u8,
            Asset::eth => 2u8,
            Asset::usdt => 3u8,
            Asset::NullVal => 255u8,
        }
    }
}

/// Decoding a value's byte gives the value back.
pub proof fn lemma_asset_roundtrip(x: Asset)
    ensures
        Asset::spec_from_u8(x.spec_to_u8()) == x,
{
}

impl Default for Asset {
    fn default() -> (r: Asset)
        ensures
            r == Asset::NullVal,
    {
        Asset::NullVal
    }
}

impl From<u8> for Asset {
    fn from(v: u8) -> (r: Asset) {
        match v {
            0u8 => Asset::usd,
            1u8 => Asset::btc,
            2u8 => Asset::eth,
            3u8 => Asset::usdt,
            _ => Asset::NullVal,
        }
    }
}

impl vstd::std_specs::convert::FromSpecImpl<u8> for Asset {
    open spec fn obeys_from_spec() -> bool {
        true
    }

    open spec fn from_spec(v: u8) -> Asset {
        Asset::spec_from_u8(v)
    }
}

} // verus!
