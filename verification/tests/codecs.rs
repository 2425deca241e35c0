use proper_market::market_api::bbo_msg_codec::{BboMsgDecoder, BboMsgEncoder};
use proper_market::market_api::exchange::Exchange;
use proper_market::market_api::message_header_codec::MessageHeaderDecoder;
use proper_market::market_api::orderbook_flags::Orderbook_flags;
use proper_market::market_api::orderbook_msg_codec::{DepthsEncoder, OrderbookMsgDecoder, OrderbookMsgEncoder};
use proper_market::market_api::{Decoder, Encoder, ReadBuf, SbeErr, WriteBuf};

#[test]
fn bbo_fields_read_back_and_the_length_stays() {
    let mut e = BboMsgEncoder::default().wrap(WriteBuf::new(vec![0u8; 78]), 8);
    assert_eq!(e.encoded_length(), 70);
    let mut h = e.header(0);
    e = h.parent().unwrap();
    let mut ie = e.instrument_encoder();
    ie.exchange(Exchange::ftx);
    ie.quote(*b"usd\0\0\0");
    e = ie.parent().unwrap();
    e.market_timestamp(7);
    let mut pe = e.bid_price_encoder();
    pe.mantissa(-12345);
    pe.exponent(2);
    e = pe.parent().unwrap();
    assert_eq!(e.encoded_length(), 70);
    let bytes = e.into_buf().into_inner();

    let hd = MessageHeaderDecoder::default().wrap(ReadBuf::new(&bytes), 0);
    assert_eq!(hd.block_length(), 70);
    assert_eq!(hd.template_id(), 1);
    assert_eq!(hd.schema_id(), 1);
    assert_eq!(hd.version(), 1);

    let d = BboMsgDecoder::default().wrap(ReadBuf::new(&bytes), 8, 70, 1);
    let mut id = d.instrument_decoder();
    assert_eq!(id.exchange(), Exchange::ftx);
    assert_eq!(id.quote(), *b"usd\0\0\0");
    let d = id.parent().unwrap();
    assert_eq!(d.encoded_length(), 70);
    let pd = d.bid_price_decoder();
    assert_eq!(pd.mantissa(), -12345);
    assert_eq!(pd.exponent(), 2);
}

#[test]
fn orderbook_group_advances_and_reads_back() {
    let mut e = OrderbookMsgEncoder::default().wrap(WriteBuf::new(vec![0u8; 8 + 35 + 3 + 18 * 2]), 8);
    let mut h = e.header(0);
    e = h.parent().unwrap();
    let mut f = Orderbook_flags::new(0);
    f.set_is_snapshot(true);
    e.orderbook_flags(f);
    let mut g = e.depths_encoder(2, DepthsEncoder::default());
    assert_eq!(g.advance(), Ok(Some(0)));
    assert_eq!(g.advance(), Ok(Some(1)));
    assert_eq!(g.advance(), Ok(None));
    assert_eq!(g.advance(), Ok(None));
    let e = g.parent().unwrap();
    assert_eq!(e.encoded_length(), 35 + 3 + 18 * 2);
    assert!(matches!(g.parent(), Err(SbeErr::ParentNotSet)));
    let bytes = e.into_buf().into_inner();

    let hd = MessageHeaderDecoder::default().wrap(ReadBuf::new(&bytes), 0);
    assert_eq!((hd.block_length(), hd.template_id(), hd.schema_id(), hd.version()), (35, 3, 1, 1));
    let d = OrderbookMsgDecoder::default().wrap(ReadBuf::new(&bytes), 8, 35, 1);
    assert!(d.orderbook_flags().get_is_snapshot());
    assert_eq!(d.depths_decoder().count(), 2);
}

#[test]
fn a_group_without_its_parent_does_not_advance() {
    let e = OrderbookMsgEncoder::default().wrap(WriteBuf::new(vec![0u8; 8 + 35 + 3 + 18]), 8);
    let mut g = e.depths_encoder(1, DepthsEncoder::default());
    let _e = g.parent().unwrap();
    assert_eq!(g.advance(), Err(SbeErr::ParentNotSet));
}

#[test]
fn a_group_starts_at_the_limit_with_its_header() {
    let e = OrderbookMsgEncoder::default().wrap(WriteBuf::new(vec![0u8; 8 + 35 + 3 + 18]), 8);
    let mut g = e.depths_encoder(1, DepthsEncoder::default());
    assert_eq!(g.get_limit(), 46);
    assert_eq!(g.advance(), Ok(Some(0)));
    assert_eq!(g.get_limit(), 64);
    assert_eq!(g.advance(), Ok(None));
    let bytes = g.parent().unwrap().into_buf().into_inner();
    assert_eq!(&bytes[43..46], &[18, 0, 1]);
}

#[test]
fn a_decoded_group_steps_by_the_block_length_it_reads() {
    let mut b = [0u8; 78];
    b[35] = 20;
    b[37] = 2;
    let d = OrderbookMsgDecoder::default().wrap(ReadBuf::new(&b), 0, 35, 1);
    let mut g = d.depths_decoder();
    assert_eq!(g.get_limit(), 38);
    assert_eq!(g.count(), 2);
    assert_eq!(g.advance(), Ok(Some(0)));
    assert_eq!(g.advance(), Ok(Some(1)));
    assert_eq!(g.advance(), Ok(None));
    assert_eq!(g.get_limit(), 78);
}
