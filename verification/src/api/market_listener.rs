//! Listening to market messages: a listener is told of quotes and of trades.
use crate::message::Message;
use crate::structs::quotes::Quotes;
use crate::structs::trades::Trades;
use vstd::prelude::*;

verus! {

/// What a market listener does with each kind of message. The two spec
/// functions are the implementor's account of what being told does to the
/// listener: `after` is a state that the listener `self` may be in once told.
/// A listener that does not give its account promises nothing: any state may follow.
pub trait MarketListenerTrait {
    open spec fn hears_quotes(&self, msg: Quotes, after: &Self) -> bool {
        true
    }

    open spec fn hears_trades(&self, msg: Trades, after: &Self) -> bool {
        true
    }

    fn on_quotes(&mut self, msg: Quotes)
        ensures
            old(self).hears_quotes(msg, final(self)),
    ;

    fn on_trades(&mut self, msg: Trades)
        ensures
            old(self).hears_trades(msg, final(self)),
    ;
}

/// Hands each message to the listener inside, by its kind.
pub struct MarketListener<S: MarketListenerTrait> {
    pub inner: S,
}

impl<S: MarketListenerTrait> MarketListener<S> {
    /// Tells the listener of the message: quotes through `on_quotes`, trades
    /// through `on_trades`.
    pub fn on_msg(&mut self, msg: Message)
        ensures
            match msg {
                Message::QuotesMsg(m) => old(self).inner.hears_quotes(m, &final(self).inner),
                Message::TradesMsg(m) => old(self).inner.hears_trades(m, &final(self).inner),
            },
    {
        match msg {
            Message::QuotesMsg(m) => self.inner.on_quotes(m),
            Message::TradesMsg(m) => self.inner.on_trades(m),
        }
    }
}

} // verus!
