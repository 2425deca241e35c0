//! Full market-by-price books that check themselves after each update.
use crate::util::orderbook::depth::MbpDepth;
use crate::util::orderbook::error::OrderbookError;
use crate::util::orderbook::orderbook::{all_accepted, apply_all, is_sorted_book, Orderbook};
use vstd::prelude::*;

verus! {

/// The consistency check of a book (sequence numbers, checksums, ...), which
/// each exchange supplies. An implementation that states what its check answers
/// and leaves says so through `obeys_verify_spec`; others claim nothing.
pub trait VerificationStatus: Sized {
    type VerificationUpdate;

    /// Whether `verify` answers `verify_result` and leaves `verify_status`.
    open spec fn obeys_verify_spec() -> bool {
        false
    }

    /// What `verify` answers on the updated book, the status and the update.
    open spec fn verify_result(
        orderbook: Seq<MbpDepth>,
        status: Self,
        update: Self::VerificationUpdate,
    ) -> Option<bool> {
        None
    }

    /// The status that `verify` leaves.
    open spec fn verify_status(orderbook: Seq<MbpDepth>, status: Self, update: Self::VerificationUpdate) -> Self {
        status
    }

    /// Checks the updated book: `None` to do nothing, `Some(true)` when the book
    /// is consistent, `Some(false)` when it is not and a new snapshot is needed.
    fn verify(
        orderbook: &[MbpDepth],
        status: &mut Self,
        update: &mut Self::VerificationUpdate,
    ) -> (r: Option<bool>)
        ensures
            Self::obeys_verify_spec() ==> r == Self::verify_result(
                orderbook@,
                *old(status),
                *old(update),
            ),
            Self::obeys_verify_spec() ==> *final(status) == Self::verify_status(
                orderbook@,
                *old(status),
                *old(update),
            ),
    ;
}

#[derive(Debug, Clone)]
pub struct MbpUpdate<VUpdate> {
    pub depths: Vec<MbpDepth>,
    pub verification_update: VUpdate,
}

#[derive(Debug, Clone)]
pub struct MbpFullbook<VStatus> {
    pub depths: Vec<MbpDepth>,
    pub verification_status: VStatus,
}

impl<V> Orderbook for MbpFullbook<V> {
    open spec fn book(&self) -> Vec<MbpDepth> {
        self.depths
    }

    open spec fn with_book(&self, levels: Vec<MbpDepth>) -> Self {
        MbpFullbook { depths: levels, verification_status: self.verification_status }
    }

    proof fn lemma_with_book(&self, a: Vec<MbpDepth>, b: Vec<MbpDepth>) {
    }

    fn get_mut_book(&mut self) -> (levels: &mut Vec<MbpDepth>) {
        &mut self.depths
    }
}

/// What a book answers for the answer of its check: only `Some(false)` is an error.
pub open spec fn spec_verification_outcome(answer: Option<bool>) -> Result<(), OrderbookError> {
    match answer {
        Some(false) => Err(OrderbookError::InvalidUpdate),
        _ => Ok(()),
    }
}

/// What a book answers for the answer of its check: only `Some(false)` is an error.
pub fn verification_outcome(answer: Option<bool>) -> (r: Result<(), OrderbookError>)
    ensures
        r == spec_verification_outcome(answer),
{
    if let Some(no_need_snapshot) = answer {
        if !no_need_snapshot {
            return Err(OrderbookError::InvalidUpdate);
        }
    }
    Ok(())
}

impl<V: VerificationStatus> MbpFullbook<V> {
    /// Applies the update's levels to the book, then checks the book. A refused level
    /// makes the result `Err(DeleteNonexistDepth)` and skips the check (the other
    /// levels are applied all the same); a failed check makes it `Err(InvalidUpdate)`:
    /// which answer the check gives is stated where its implementation states it.
    pub fn update(&mut self, update: MbpUpdate<V::VerificationUpdate>) -> (r: Result<
        (),
        OrderbookError,
    >)
        requires
            is_sorted_book(old(self).depths@),
        ensures
            final(self).depths@ == apply_all(old(self).depths@, update.depths@),
            is_sorted_book(final(self).depths@),
            !all_accepted(old(self).depths@, update.depths@) ==> {
                &&& r == Err::<(), OrderbookError>(OrderbookError::DeleteNonexistDepth)
                &&& final(self).verification_status == old(self).verification_status
            },
            all_accepted(old(self).depths@, update.depths@) ==> r is Ok || r
                == Err::<(), OrderbookError>(OrderbookError::InvalidUpdate),
            all_accepted(old(self).depths@, update.depths@) && V::obeys_verify_spec() ==> {
                &&& r == spec_verification_outcome(
                    V::verify_result(
                        final(self).depths@,
                        old(self).verification_status,
                        update.verification_update,
                    ),
                )
                &&& final(self).verification_status == V::verify_status(
                    final(self).depths@,
                    old(self).verification_status,
                    update.verification_update,
                )
            },
    {
        let mut update = update;
        Orderbook::update_book(self, update.depths.as_slice())?;
        let answer = V::verify(
            self.depths.as_slice(),
            &mut self.verification_status,
            &mut update.verification_update,
        );
        verification_outcome(answer)
    }
}

} // verus!
