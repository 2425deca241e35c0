use proper_market::data::orderbook::{verification_outcome, MbpFullbook, MbpUpdate, VerificationStatus};
use proper_market::decimal::Decimal;
use proper_market::util::orderbook::depth::MbpDepth;
use proper_market::util::orderbook::error::OrderbookError;
use proper_market::util::orderbook::orderbook::Orderbook;
use std::collections::hash_map::DefaultHasher;
use std::error::Error;
use std::hash::{Hash, Hasher};
use std::str::FromStr;

/// A decimal written as text, as `rust_decimal` reads it.
fn dec(s: &str) -> Decimal {
    let d = rust_decimal::Decimal::from_str(s).unwrap();
    Decimal::from_i128_with_scale(d.mantissa(), d.scale())
}

/// The text of a decimal, as `rust_decimal` writes it.
fn text(d: &Decimal) -> String {
    rust_decimal::Decimal::from_i128_with_scale(d.mantissa(), d.scale()).to_string()
}

/// A book whose updates must come one by one.
struct SeqNum {
    seqnum: u64,
}

impl VerificationStatus for SeqNum {
    type VerificationUpdate = SeqNum;
    fn verify(_orderbook: &[MbpDepth], status: &mut Self, update: &mut Self::VerificationUpdate) -> Option<bool> {
        if status.seqnum + 1 == update.seqnum {
            status.seqnum = update.seqnum;
            Some(true)
        } else {
            Some(false)
        }
    }
}

/// A book checked by the hash of its levels.
struct CheckSum {
    #[allow(dead_code)]
    hash: u64,
}

fn hashing(depths: &[MbpDepth]) -> u64 {
    let hash_content = depths
        .iter()
        .map(|d| d.to_string())
        .collect::<Vec<String>>()
        .join("");
    let mut hasher = DefaultHasher::new();
    hash_content.hash(&mut hasher);
    hasher.finish()
}

impl VerificationStatus for CheckSum {
    type VerificationUpdate = Self;
    fn verify(orderbook: &[MbpDepth], _status: &mut Self, update: &mut Self::VerificationUpdate) -> Option<bool> {
        Some(update.hash == hashing(orderbook))
    }
}

fn book_of_five<V>(status: V) -> MbpFullbook<V> {
    MbpFullbook {
        depths: vec![
            MbpDepth { price: dec("1.0"), size: dec("1.0") },
            MbpDepth { price: dec("2.0"), size: dec("1.0") },
            MbpDepth { price: dec("3.0"), size: dec("0.5") },
            MbpDepth { price: dec("4.0"), size: dec("-1.0") },
            MbpDepth { price: dec("5.0"), size: dec("-1.0") },
        ],
        verification_status: status,
    }
}

fn level(price: &str, size: &str) -> MbpDepth {
    MbpDepth { price: dec(price), size: dec(size) }
}

fn prices(book: &[MbpDepth]) -> Vec<String> {
    book.iter().map(|d| text(&d.price)).collect()
}

#[test]
fn test_seqnum_onebyone_success() -> Result<(), Box<dyn Error>> {
    let mut book = book_of_five(SeqNum { seqnum: 0 });
    let update = MbpUpdate {
        depths: vec![level("1.0", "2.0")],
        verification_update: SeqNum { seqnum: 1 },
    };
    book.update(update).map_err(|e| e.name())?;
    assert_eq!(book.depths[0].size, dec("2.0"));
    Ok(())
}

#[test]
fn test_seqnum_onebyone_jump() -> Result<(), Box<dyn Error>> {
    let mut book = book_of_five(SeqNum { seqnum: 0 });
    let update = MbpUpdate {
        depths: vec![level("1.0", "2.0")],
        verification_update: SeqNum { seqnum: 2 },
    };
    let rt = book.update(update);
    assert!(matches!(rt, Err(OrderbookError::InvalidUpdate)));
    Ok(())
}

#[test]
fn test_checksum() -> Result<(), Box<dyn Error>> {
    let mut book = book_of_five(CheckSum { hash: 0 });
    assert_eq!(hashing(&book.depths), 10157360891676294958);
    let update = MbpUpdate {
        depths: vec![level("1.0", "2.0")],
        verification_update: CheckSum { hash: 15655222248316742011 },
    };
    let rt = book.update(update);
    assert!(rt.is_ok());
    Ok(())
}

#[test]
fn update_inserts_a_new_price_in_order() {
    let mut book = book_of_five(SeqNum { seqnum: 0 });
    let rt = book.update_book(&[level("2.5", "3")]);
    assert!(rt.is_ok());
    assert_eq!(prices(&book.depths), vec!["1.0", "2.0", "2.5", "3.0", "4.0", "5.0"]);
    assert_eq!(text(&book.depths[2].size), "3");
}

#[test]
fn update_with_zero_size_removes_the_price() {
    let mut book = book_of_five(SeqNum { seqnum: 0 });
    let rt = book.update_book(&[level("3", "0")]);
    assert!(rt.is_ok());
    assert_eq!(prices(&book.depths), vec!["1.0", "2.0", "4.0", "5.0"]);
}

#[test]
fn update_replaces_a_price_numerically_equal() {
    let mut book = book_of_five(SeqNum { seqnum: 0 });
    let rt = book.update_book(&[level("4.00", "-7")]);
    assert!(rt.is_ok());
    assert_eq!(book.depths.len(), 5);
    assert_eq!(text(&book.depths[3].size), "-7");
}

#[test]
fn deleting_a_missing_price_is_refused_and_later_levels_still_apply() {
    let mut book = book_of_five(SeqNum { seqnum: 0 });
    let rt = book.update_book(&[level("2.5", "0"), level("6", "1")]);
    assert_eq!(rt, Err(OrderbookError::DeleteNonexistDepth));
    assert_eq!(prices(&book.depths), vec!["1.0", "2.0", "3.0", "4.0", "5.0", "6"]);
}

#[test]
fn refused_level_skips_the_check() {
    let mut book = book_of_five(SeqNum { seqnum: 0 });
    let update = MbpUpdate {
        depths: vec![level("9", "0")],
        verification_update: SeqNum { seqnum: 1 },
    };
    assert_eq!(book.update(update), Err(OrderbookError::DeleteNonexistDepth));
    assert_eq!(book.verification_status.seqnum, 0);
}

#[test]
fn only_a_failed_check_is_an_error() {
    assert_eq!(verification_outcome(None), Ok(()));
    assert_eq!(verification_outcome(Some(true)), Ok(()));
    assert_eq!(verification_outcome(Some(false)), Err(OrderbookError::InvalidUpdate));
}

#[test]
fn error_names() {
    assert_eq!(OrderbookError::DeleteNonexistDepth.name(), "DeleteNonexistDepth");
    assert_eq!(OrderbookError::InvalidUpdate.name(), "InvalidUpdate");
}

#[test]
fn decimal_comparison_goes_by_value() {
    assert_eq!(dec("1.50").compare(&dec("1.5")), 0);
    assert_eq!(dec("-2").compare(&dec("1")), -1);
    assert_eq!(dec("0.001").compare(&dec("0.0009")), 1);
    assert!(dec("2.0") == dec("2"));
}

#[test]
fn depth_text_writes_price_and_size() {
    assert_eq!(level("1.0", "-0.50").to_string(), "[1.0,-0.50]");
    assert_eq!(level("0", "12").to_string(), "[0,12]");
    assert_eq!(level("0.005", "-3").to_string(), "[0.005,-3]");
    assert_eq!(level("0.00", "100.25").to_string(), "[0.00,100.25]");
}
