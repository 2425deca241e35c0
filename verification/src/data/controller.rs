//! Which instruments each exchange's streams serve.
use crate::market_api::exchange::Exchange;
use crate::structs::instrument::{Instrument, InstrumentType};
use vstd::prelude::*;

verus! {

/// The instruments of `exchange`, in their order.
pub fn instruments_of(insts: &[Instrument], exchange: Exchange) -> (r: Vec<Instrument>)
    ensures
        r@ == insts@.filter(|i: Instrument| i.exchange == exchange),
{
    let ghost pred = |i: Instrument| i.exchange == exchange;
    let mut r: Vec<Instrument> = Vec::new();
    let mut k: usize = 0;
    while k < insts.len()
        invariant
            k <= insts@.len(),
            pred == (|i: Instrument| i.exchange == exchange),
            r@ == insts@.take(k as int).filter(pred),
        decreases insts@.len() - k,
    {
        proof {
            reveal(Seq::filter);
            assert(insts@.take(k + 1).drop_last() =~= insts@.take(k as int));
            assert(insts@.take(k + 1).last() == insts@[k as int]);
        }
        if insts[k].exchange == exchange {
            r.push(insts[k]);
        }
        k += 1;
    }
    proof {
        assert(insts@.take(insts@.len() as int) =~= insts@);
    }
    r
}

/// The spot instruments, in their order.
pub fn spot_instruments(insts: &[Instrument]) -> (r: Vec<Instrument>)
    ensures
        r@ == insts@.filter(|i: Instrument| i.instrument_type == InstrumentType::Spot),
{
    let ghost pred = |i: Instrument| i.instrument_type == InstrumentType::Spot;
    let mut r: Vec<Instrument> = Vec::new();
    let mut k: usize = 0;
    while k < insts.len()
        invariant
            k <= insts@.len(),
            pred == (|i: Instrument| i.instrument_type == InstrumentType::Spot),
            r@ == insts@.take(k as int).filter(pred),
        decreases insts@.len() - k,
    {
        proof {
            reveal(Seq::filter);
            assert(insts@.take(k + 1).drop_last() =~= insts@.take(k as int));
            assert(insts@.take(k + 1).last() == insts@[k as int]);
        }
        if insts[k].instrument_type == InstrumentType::Spot {
            r.push(insts[k]);
        }
        k += 1;
    }
    proof {
        assert(insts@.take(insts@.len() as int) =~= insts@);
    }
    r
}

/// Whether two asset codes are the same bytes.
fn same_code(a: &[u8; 6], b: &[u8; 6]) -> (r: bool)
    ensures
        r == (*a == *b),
{
    let mut k: usize = 0;
    while k < 6
        invariant
            k <= 6,
            forall|j: int| 0 <= j < k ==> a[j] == b[j],
        decreases 6 - k,
    {
        if a[k] != b[k] {
            return false;
        }
        k += 1;
    }
    proof {
        assert(*a =~= *b);
    }
    true
}

/// Whether two instruments are the same.
fn same_instrument(a: &Instrument, b: &Instrument) -> (r: bool)
    ensures
        r == (*a == *b),
{
    a.exchange == b.exchange && same_code(&a.base, &b.base) && same_code(&a.quote, &b.quote)
        && a.instrument_type == b.instrument_type
}

/// Whether `x` is one of `v`.
fn has_instrument(v: &[Instrument], x: &Instrument) -> (r: bool)
    ensures
        r == v@.contains(*x),
{
    let mut k: usize = 0;
    while k < v.len()
        invariant
            k <= v@.len(),
            forall|j: int| 0 <= j < k ==> v@[j] != *x,
        decreases v@.len() - k,
    {
        if same_instrument(&v[k], x) {
            return true;
        }
        k += 1;
    }
    false
}

/// Whether every instrument of `a` is one of `b`.
fn all_within(a: &[Instrument], b: &[Instrument]) -> (r: bool)
    ensures
        r == (forall|j: int| 0 <= j < a@.len() ==> b@.contains(#[trigger] a@[j])),
{
    let mut k: usize = 0;
    while k < a.len()
        invariant
            k <= a@.len(),
            forall|j: int| 0 <= j < k ==> b@.contains(#[trigger] a@[j]),
        decreases a@.len() - k,
    {
        if !has_instrument(b, &a[k]) {
            return false;
        }
        k += 1;
    }
    true
}

/// Whether the streams of an exchange, running for `running`, must be started
/// again to serve `wanted`: exactly when the two hold different instruments,
/// whatever their order or repeats.
pub fn needs_restart(running: &[Instrument], wanted: &[Instrument]) -> (r: bool)
    ensures
        r == (running@.to_set() != wanted@.to_set()),
{
    let forward = all_within(running, wanted);
    let backward = all_within(wanted, running);
    proof {
        if forward && backward {
            assert forall|x: Instrument| running@.to_set().contains(x) == wanted@.to_set().contains(x) by {
                if running@.contains(x) {
                    let j = choose|j: int| 0 <= j < running@.len() && running@[j] == x;
                    assert(wanted@.contains(running@[j]));
                }
                if wanted@.contains(x) {
                    let j = choose|j: int| 0 <= j < wanted@.len() && wanted@[j] == x;
                    assert(running@.contains(wanted@[j]));
                }
            }
            assert(running@.to_set() =~= wanted@.to_set());
        } else if !forward {
            let j = choose|j: int| 0 <= j < running@.len() && !wanted@.contains(#[trigger] running@[j]);
            assert(running@.to_set().contains(running@[j]));
            assert(!wanted@.to_set().contains(running@[j]));
        } else {
            let j = choose|j: int| 0 <= j < wanted@.len() && !running@.contains(#[trigger] wanted@[j]);
            assert(wanted@.to_set().contains(wanted@[j]));
            assert(!running@.to_set().contains(wanted@[j]));
        }
    }
    !(forward && backward)
}

} // verus!
