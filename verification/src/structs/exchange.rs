//! The exchanges that market data comes from.
use vstd::prelude::*;

verus! {

#[derive(Debug, PartialEq, Eq, Structural, Copy, Clone, Hash)]
pub enum Exchange {
    Binance,
    Ftx,
}

impl Exchange {
    /// The exchange of a message's exchange code; the code must name one.
    pub fn from_api(exchange: crate::market_api::exchange::Exchange) -> (e: Exchange)
        requires
            exchange != crate::market_api::exchange::Exchange::NullVal,
        ensures
            e.to_api_spec() == exchange,
    {
        match exchange {
            crate::market_api::exchange::Exchange::binance => Exchange::Binance,
            crate::market_api::exchange::Exchange::ftx => Exchange::Ftx,
            crate::market_api::exchange::Exchange::NullVal => vstd::pervasive::unreached(),
        }
    }

    pub open spec fn to_api_spec(self) -> crate::market_api::exchange::Exchange {
        match self {
            Exchange::Binance => crate::market_api::exchange::Exchange::binance,
            Exchange::Ftx => crate::market_api::exchange::Exchange::ftx,
        }
    }

    /// The message code of the exchange.
    pub fn to_api(self) -> (e: crate::market_api::exchange::Exchange)
        ensures
            e == self.to_api_spec(),
    {
        match self {
            Exchange::Binance => crate::market_api::exchange::Exchange::binance,
            Exchange::Ftx => crate::market_api::exchange::Exchange::ftx,
        }
    }

    pub open spec fn name_spec(self) -> Seq<char> {
        match self {
            Exchange::Binance => "binance"@,
            Exchange::Ftx => "ftx"@,
        }
    }

    /// The exchange's name, as it is displayed.
    pub fn name(&self) -> (s: &'static str)
        ensures
            s@ == self.name_spec(),
    {
        match self {
            Exchange::Binance => "binance",
            Exchange::Ftx => "ftx",
        }
    }

    /// The exchange of a name: `binance` or `ftx`.
    pub fn from_name(s: &str) -> (r: Option<Exchange>)
        ensures
            r == (if s@ == "binance"@ {
                Some(Exchange::Binance)
            } else if s@ == "ftx"@ {
                Some(Exchange::Ftx)
            } else {
                None
            }),
    {
        if crate::util::text::str_eq(s, "binance") {
            Some(Exchange::Binance)
        } else if crate::util::text::str_eq(s, "ftx") {
            Some(Exchange::Ftx)
        } else {
            None
        }
    }
}

/// Naming an exchange and reading the name back gives the exchange.
pub proof fn lemma_exchange_name_roundtrip(e: Exchange)
    ensures
        (if e.name_spec() == "binance"@ {
            Some(Exchange::Binance)
        } else if e.name_spec() == "ftx"@ {
            Some(Exchange::Ftx)
        } else {
            None
        }) == Some(e),
{
    reveal_strlit("binance");
    reveal_strlit("ftx");
    assert("binance"@ != "ftx"@) by {
        assert("binance"@.len() != "ftx"@.len());
    }
}

} // verus!
