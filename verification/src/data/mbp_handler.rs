//! Caches that build a book from a snapshot and a stream of updates.
use crate::data::orderbook::{MbpFullbook, MbpUpdate, VerificationStatus};
use crate::util::orderbook::orderbook::is_sorted_book;
use vstd::prelude::*;

verus! {

/// Why a cache gives up on its book.
#[derive(Debug, Clone, Copy, PartialEq, Eq, Structural)]
pub enum CacheError {
    /// Too many updates accumulated while no snapshot came.
    TooManyUpdates,
    /// An update does not follow the book's sequence number.
    SeqNumMismatch,
    /// A snapshot is newer than the first cached update, but no cached update follows it.
    UpdateNotFound,
}

impl CacheError {
    /// The error's message.
    pub fn message(&self) -> (s: &'static str)
        ensures
            s@ == (match self {
                CacheError::TooManyUpdates => "accumulated updates without refresh"@,
                CacheError::SeqNumMismatch => "seq num mismatch"@,
                CacheError::UpdateNotFound => "cache.seq_num < resp.seq_num but not found"@,
            }),
    {
        match self {
            CacheError::TooManyUpdates => "accumulated updates without refresh",
            CacheError::SeqNumMismatch => "seq num mismatch",
            CacheError::UpdateNotFound => "cache.seq_num < resp.seq_num but not found",
        }
    }
}

/// A book under construction or built, fed with snapshots (responses) and updates.
pub trait MbpCache<VU, VS: VerificationStatus<VerificationUpdate = VU>>: Sized + Send + Sync {
    /// The cache's own consistency.
    spec fn wf(&self) -> bool;

    fn is_book_built(&self) -> bool;

    fn new_response(book: MbpFullbook<VS>) -> (c: Self)
        requires
            is_sorted_book(book.depths@),
        ensures
            c.wf(),
    ;

    fn new_update(update: MbpUpdate<VU>) -> (c: Self)
        ensures
            c.wf(),
    ;

    fn process_response(&self, book: MbpFullbook<VS>) -> (r: Result<Option<Self>, CacheError>)
        requires
            self.wf(),
            is_sorted_book(book.depths@),
        ensures
            r matches Ok(Some(c)) ==> c.wf(),
    ;

    fn process_update(&mut self, update: MbpUpdate<VU>) -> (r: Result<(), CacheError>)
        requires
            old(self).wf(),
        ensures
            final(self).wf(),
    ;
}

/// A source of books for a cache type.
pub trait MbpHandler<VU, VS: VerificationStatus<VerificationUpdate = VU>, T: MbpCache<VU, VS>>:
    Send + Sync {

}

} // verus!
