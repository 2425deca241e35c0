//! One price level of a market-by-price book.
use crate::decimal::{decimal_text, decimal_to_string, Decimal};
use vstd::prelude::*;

verus! {

/// A price level. By convention a level priced above the mid price has a
/// negative size.
#[derive(Clone, Copy, Debug)]
pub struct MbpDepth {
    pub price: Decimal,
    pub size: Decimal,
}

/// Levels are equal when their prices are numerically equal, whatever their sizes.
impl PartialEq for MbpDepth {
    fn eq(&self, other: &MbpDepth) -> (r: bool) {
        self.price.compare(&other.price) == 0
    }
}

impl vstd::std_specs::cmp::PartialEqSpecImpl for MbpDepth {
    open spec fn obeys_eq_spec() -> bool {
        true
    }

    open spec fn eq_spec(&self, other: &MbpDepth) -> bool {
        self.price.key() == other.price.key()
    }
}

impl Eq for MbpDepth {
}

impl MbpDepth {
    /// The level as `[price,size]`, each number written as `rust_decimal` writes it.
    pub fn to_string(&self) -> (s: String)
        ensures
            s@ == seq!['['] + decimal_text(self.price.spec_mantissa() as int, self.price.spec_scale() as nat)
                + seq![','] + decimal_text(self.size.spec_mantissa() as int, self.size.spec_scale() as nat)
                + seq![']'],
    {
        let price = decimal_to_string(&self.price);
        let size = decimal_to_string(&self.size);
        let mut s = String::from_str("[");
        s.append(price.as_str());
        s.append(",");
        s.append(size.as_str());
        s.append("]");
        proof {
            reveal_strlit("[");
            reveal_strlit(",");
            reveal_strlit("]");
        }
        s
    }
}

} // verus!
