//! Binance depth streams: books checked by update sequence numbers.
use crate::data::mbp_handler::CacheError;
use crate::data::orderbook::{MbpFullbook, MbpUpdate, VerificationStatus};
use crate::util::orderbook::depth::MbpDepth;
use crate::util::orderbook::orderbook::{all_accepted, apply_all, is_sorted_book};
use vstd::prelude::*;

verus! {

/// The first and last update ids that a depth update carries.
#[derive(Clone, Copy, Debug)]
pub struct UpdateSeqNum {
    first: u64,
    last: u64,
}

impl UpdateSeqNum {
    pub closed spec fn spec_first(self) -> u64 {
        self.first
    }

    pub closed spec fn spec_last(self) -> u64 {
        self.last
    }

    pub fn new(first: u64, last: u64) -> (u: UpdateSeqNum)
        ensures
            u.spec_first() == first,
            u.spec_last() == last,
    {
        UpdateSeqNum { first, last }
    }

    pub fn first(&self) -> (r: u64)
        ensures
            r == self.spec_first(),
    {
        self.first
    }

    pub fn last(&self) -> (r: u64)
        ensures
            r == self.spec_last(),
    {
        self.last
    }
}

/// The last update id that a book reflects.
#[derive(Clone, Copy, Debug)]
pub struct FullbookSeqNum {
    seq_num: u64,
}

impl FullbookSeqNum {
    pub closed spec fn spec_seq_num(self) -> u64 {
        self.seq_num
    }

    pub fn new(seq_num: u64) -> (s: FullbookSeqNum)
        ensures
            s.spec_seq_num() == seq_num,
    {
        FullbookSeqNum { seq_num }
    }

    pub fn seq_num(&self) -> (r: u64)
        ensures
            r == self.spec_seq_num(),
    {
        self.seq_num
    }
}

impl VerificationStatus for FullbookSeqNum {
    type VerificationUpdate = UpdateSeqNum;

    open spec fn obeys_verify_spec() -> bool {
        true
    }

    /// The check fails when the book is not past the update's first id, does
    /// nothing while the book is behind the update's last id, and passes otherwise.
    open spec fn verify_result(
        orderbook: Seq<MbpDepth>,
        status: Self,
        update: UpdateSeqNum,
    ) -> Option<bool> {
        if status.spec_seq_num() <= update.spec_first() {
            Some(false)
        } else if status.spec_seq_num() < update.spec_last() {
            None
        } else {
            Some(true)
        }
    }

    /// A passing check sets the book's id to the update's last id.
    open spec fn verify_status(orderbook: Seq<MbpDepth>, status: Self, update: UpdateSeqNum) -> Self {
        if status.spec_seq_num() <= update.spec_first() || status.spec_seq_num()
            < update.spec_last() {
            status
        } else {
            FullbookSeqNum::new_spec(update.spec_last())
        }
    }

    fn verify(
        orderbook: &[MbpDepth],
        status: &mut Self,
        update: &mut UpdateSeqNum,
    ) -> (r: Option<bool>) {
        if status.seq_num <= update.first {
            return Some(false);
        }
        if status.seq_num < update.last {
            return None;
        }
        status.seq_num = update.last;
        Some(true)
    }
}

impl FullbookSeqNum {
    pub closed spec fn new_spec(seq_num: u64) -> FullbookSeqNum {
        FullbookSeqNum { seq_num }
    }
}

/// A book and its id as values.
pub type BookView = (Seq<MbpDepth>, FullbookSeqNum);

/// An update and its ids as values.
pub type UpdateView = (Seq<MbpDepth>, UpdateSeqNum);

/// The state of a cache as values.
pub enum CacheView {
    Built(Seq<MbpDepth>, FullbookSeqNum),
    Building(Seq<UpdateView>),
}

pub open spec fn update_view(u: MbpUpdate<UpdateSeqNum>) -> UpdateView {
    (u.depths@, u.verification_update)
}

/// A book being built from the cached updates until a snapshot comes, or built.
pub enum MbpCache {
    BuiltBook(MbpFullbook<FullbookSeqNum>),
    BuildingBook(Vec<MbpUpdate<UpdateSeqNum>>),
}

impl View for MbpCache {
    type V = CacheView;

    open spec fn view(&self) -> CacheView {
        match self {
            MbpCache::BuiltBook(b) => CacheView::Built(b.depths@, b.verification_status),
            MbpCache::BuildingBook(us) => CacheView::Building(us@.map_values(|u| update_view(u))),
        }
    }
}

/// A built book is sorted; a cache being built holds at least one update.
pub open spec fn cache_wf(c: CacheView) -> bool {
    match c {
        CacheView::Built(d, _) => is_sorted_book(d),
        CacheView::Building(us) => us.len() > 0,
    }
}

/// A built book after an update: its levels are updated, and its id as its check says.
pub open spec fn spec_book_update(d: Seq<MbpDepth>, s: FullbookSeqNum, u: UpdateView) -> BookView {
    let d2 = apply_all(d, u.0);
    if all_accepted(d, u.0) {
        (d2, FullbookSeqNum::verify_status(d2, s, u.1))
    } else {
        (d2, s)
    }
}

/// A cache after an update. A cache being built keeps the update (up to 1001 of them).
/// A built book discards an update no newer than itself, applies an update that
/// starts right after it or spans it, and refuses any other.
pub open spec fn spec_process_update(c: CacheView, u: UpdateView) -> (CacheView, Result<
    (),
    CacheError,
>) {
    match c {
        CacheView::Building(us) => {
            if us.len() > 1000 {
                (c, Err(CacheError::TooManyUpdates))
            } else {
                (CacheView::Building(us.push(u)), Ok(()))
            }
        },
        CacheView::Built(d, s) => {
            let p = u.1.spec_first();
            let l = u.1.spec_last();
            let b = s.spec_seq_num();
            if l <= b {
                (c, Ok(()))
            } else if b + 1 == p || (p <= b && b < l) {
                let nb = spec_book_update(d, s, u);
                (CacheView::Built(nb.0, nb.1), Ok(()))
            } else {
                (c, Err(CacheError::SeqNumMismatch))
            }
        },
    }
}

/// One step of replaying cached updates on a snapshot: updates are skipped until
/// the first one that spans the book's id, and applied from there on.
pub open spec fn replay_step(c: CacheView, found: bool, u: UpdateView) -> (CacheView, bool, Result<
    (),
    CacheError,
>) {
    let f = found || match c {
        CacheView::Built(_, s) => u.1.spec_first() <= s.spec_seq_num() && s.spec_seq_num()
            < u.1.spec_last(),
        CacheView::Building(_) => false,
    };
    if f {
        let (c2, r) = spec_process_update(c, u);
        (c2, f, r)
    } else {
        (c, f, Ok(()))
    }
}

/// The first `n` steps of the replay; it stops at the first error.
pub open spec fn replay(c: CacheView, us: Seq<UpdateView>, n: int) -> (CacheView, bool, Result<
    (),
    CacheError,
>)
    decreases n,
{
    if n <= 0 {
        (c, false, Ok(()))
    } else {
        let prev = replay(c, us, n - 1);
        if prev.2 is Err {
            prev
        } else {
            replay_step(prev.0, prev.1, us[n - 1])
        }
    }
}

/// A cache after a snapshot. A built book takes a strictly newer snapshot and
/// ignores others. A cache being built ignores a snapshot older than its first
/// update, takes a snapshot at least as new as its last update, and otherwise
/// replays its updates on the snapshot, which fails when none of them spans it.
pub open spec fn spec_process_response(c: CacheView, book: BookView) -> Result<
    Option<CacheView>,
    CacheError,
> {
    match c {
        CacheView::Built(_, s) => {
            if book.1.spec_seq_num() > s.spec_seq_num() {
                Ok(Some(CacheView::Built(book.0, book.1)))
            } else {
                Ok(None)
            }
        },
        CacheView::Building(us) => {
            let bs = book.1.spec_seq_num();
            if bs < us[0].1.spec_first() {
                Ok(None)
            } else if us.last().1.spec_last() <= bs {
                Ok(Some(CacheView::Built(book.0, book.1)))
            } else {
                let (c2, f, r) = replay(CacheView::Built(book.0, book.1), us, us.len() as int);
                match r {
                    Err(e) => Err(e),
                    Ok(_) => if f {
                        Ok(Some(c2))
                    } else {
                        Err(CacheError::UpdateNotFound)
                    },
                }
            }
        },
    }
}

/// Updating a book keeps it sorted.
pub proof fn lemma_book_update_sorted(d: Seq<MbpDepth>, s: FullbookSeqNum, u: UpdateView)
    requires
        is_sorted_book(d),
    ensures
        is_sorted_book(spec_book_update(d, s, u).0),
{
    crate::util::orderbook::orderbook::lemma_apply_all_sorted(d, u.0);
}

/// Every update keeps the cache well formed.
pub proof fn lemma_process_update_wf(c: CacheView, u: UpdateView)
    requires
        cache_wf(c),
    ensures
        cache_wf(spec_process_update(c, u).0),
{
    if let CacheView::Built(d, s) = c {
        lemma_book_update_sorted(d, s, u);
    }
}

proof fn lemma_replay_wf(c: CacheView, us: Seq<UpdateView>, n: int)
    requires
        cache_wf(c),
        c is Built,
    ensures
        cache_wf(replay(c, us, n).0),
        replay(c, us, n).0 is Built,
    decreases n,
{
    if n > 0 {
        lemma_replay_wf(c, us, n - 1);
        let prev = replay(c, us, n - 1);
        if prev.2 is Ok {
            lemma_process_update_wf(prev.0, us[n - 1]);
        }
    }
}

proof fn lemma_replay_stops(c: CacheView, us: Seq<UpdateView>, m: int, n: int)
    requires
        0 <= m <= n,
        replay(c, us, m).2 is Err,
    ensures
        replay(c, us, n) == replay(c, us, m),
    decreases n - m,
{
    if n > m {
        lemma_replay_stops(c, us, m, n - 1);
    }
}

fn copy_update(u: &MbpUpdate<UpdateSeqNum>) -> (r: MbpUpdate<UpdateSeqNum>)
    ensures
        update_view(r) == update_view(*u),
{
    MbpUpdate {
        depths: vstd::slice::slice_to_vec(u.depths.as_slice()),
        verification_update: u.verification_update,
    }
}

impl MbpCache {
    pub open spec fn wf(&self) -> bool {
        cache_wf(self@)
    }
}

impl crate::data::mbp_handler::MbpCache<UpdateSeqNum, FullbookSeqNum> for MbpCache {
    open spec fn wf(&self) -> bool {
        cache_wf(self@)
    }

    fn is_book_built(&self) -> (r: bool)
        ensures
            r == (self is BuiltBook),
    {
        match self {
            MbpCache::BuiltBook(_) => true,
            MbpCache::BuildingBook(_) => false,
        }
    }

    fn new_response(book: MbpFullbook<FullbookSeqNum>) -> (c: Self)
        ensures
            c@ == CacheView::Built(book.depths@, book.verification_status),
    {
        MbpCache::BuiltBook(book)
    }

    fn new_update(update: MbpUpdate<UpdateSeqNum>) -> (c: Self)
        ensures
            c@ == CacheView::Building(seq![update_view(update)]),
    {
        let ghost u = update;
        let v = vec![update];
        assert(v@.map_values(|x| update_view(x)) =~= seq![update_view(u)]);
        MbpCache::BuildingBook(v)
    }

    fn process_response(&self, book: MbpFullbook<FullbookSeqNum>) -> (r: Result<
        Option<Self>,
        CacheError,
    >)
        ensures
            match (r, spec_process_response(self@, (book.depths@, book.verification_status))) {
                (Ok(Some(c)), Ok(Some(v))) => c@ == v,
                (Ok(None), Ok(None)) => true,
                (Err(e), Err(f)) => e == f,
                _ => false,
            },
    {
        let ghost bv: BookView = (book.depths@, book.verification_status);
        match self {
            MbpCache::BuiltBook(b) => {
                if book.verification_status.seq_num > b.verification_status.seq_num {
                    Ok(Some(MbpCache::BuiltBook(book)))
                } else {
                    Ok(None)
                }
            },
            MbpCache::BuildingBook(updates) => {
                let ghost us = updates@.map_values(|x| update_view(x));
                assert(us.len() == updates@.len());
                let book_seq_num = book.verification_status.seq_num;
                let update_first_prev_seq_num = updates[0].verification_update.first;
                let update_last_seq_num = updates[updates.len() - 1].verification_update.last;
                assert(us[0] == update_view(updates@[0]));
                assert(us.last() == update_view(updates@[updates@.len() - 1]));
                if book_seq_num < update_first_prev_seq_num {
                    return Ok(None);
                }
                if update_last_seq_num <= book_seq_num {
                    return Ok(Some(MbpCache::BuiltBook(book)));
                }
                let mut mbp_book = MbpCache::BuiltBook(book);
                let mut found = false;
                let mut i: usize = 0;
                proof {
                    lemma_replay_wf(CacheView::Built(bv.0, bv.1), us, 0);
                }
                while i < updates.len()
                    invariant
                        0 <= i <= updates.len(),
                        us == updates@.map_values(|x| update_view(x)),
                        self@ == CacheView::Building(us),
                        bv == (book.depths@, book.verification_status),
                        bv.1.spec_seq_num() >= us[0].1.spec_first(),
                        us.last().1.spec_last() > bv.1.spec_seq_num(),
                        cache_wf(CacheView::Built(bv.0, bv.1)),
                        mbp_book@ == replay(CacheView::Built(bv.0, bv.1), us, i as int).0,
                        found == replay(CacheView::Built(bv.0, bv.1), us, i as int).1,
                        replay(CacheView::Built(bv.0, bv.1), us, i as int).2 is Ok,
                        mbp_book is BuiltBook,
                        cache_wf(mbp_book@),
                    decreases updates.len() - i,
                {
                    let update = &updates[i];
                    assert(us[i as int] == update_view(*update));
                    if let MbpCache::BuiltBook(mb) = &mbp_book {
                        let update_prev_seq_num = update.verification_update.first;
                        let update_seq_num = update.verification_update.last;
                        let cur_seq_num = mb.verification_status.seq_num;
                        if update_prev_seq_num <= cur_seq_num && cur_seq_num < update_seq_num {
                            found = true;
                        }
                    }
                    proof {
                        lemma_replay_wf(CacheView::Built(bv.0, bv.1), us, i as int);
                    }
                    let ghost prev = replay(CacheView::Built(bv.0, bv.1), us, i as int);
                    assert(found == replay_step(prev.0, prev.1, us[i as int]).1);
                    if found {
                        let r = mbp_book.process_update(copy_update(update));
                        assert(replay(CacheView::Built(bv.0, bv.1), us, i + 1) == replay_step(prev.0, prev.1, us[i as int]));
                        match r {
                            Ok(_) => {},
                            Err(e) => {
                                proof {
                                    lemma_replay_stops(
                                        CacheView::Built(bv.0, bv.1),
                                        us,
                                        i + 1,
                                        us.len() as int,
                                    );
                                    assert(replay(CacheView::Built(bv.0, bv.1), us, i + 1).2 == Err::<(), CacheError>(e));
                                    assert(replay(CacheView::Built(bv.0, bv.1), us, us.len() as int).2 == Err::<(), CacheError>(e));
                                    assert(spec_process_response(self@, bv) == Err::<Option<CacheView>, CacheError>(e));
                                }
                                return Err(e);
                            },
                        }
                    }
                    i = i + 1;
                }
                if !found {
                    return Err(CacheError::UpdateNotFound);
                }
                Ok(Some(mbp_book))
            },
        }
    }

    fn process_update(&mut self, update: MbpUpdate<UpdateSeqNum>) -> (r: Result<(), CacheError>)
        ensures
            (final(self)@, r) == spec_process_update(old(self)@, update_view(update)),
    {
        let ghost uv = update_view(update);
        proof {
            lemma_process_update_wf(self@, uv);
        }
        match self {
            MbpCache::BuildingBook(u) => {
                if u.len() > 1000 {
                    Err(CacheError::TooManyUpdates)
                } else {
                    let ghost old_u = u@;
                    u.push(update);
                    proof {
                        assert(u@.map_values(|x| update_view(x)) =~= old_u.map_values(
                            |x| update_view(x),
                        ).push(uv));
                    }
                    Ok(())
                }
            },
            MbpCache::BuiltBook(b) => {
                let update_prev_seq_num = update.verification_update.first;
                let update_seq_num = update.verification_update.last;
                let book_seq_num = b.verification_status.seq_num;
                if update_seq_num <= book_seq_num {
                    Ok(())
                } else if book_seq_num + 1 == update_prev_seq_num {
                    let _ = b.update(update);
                    Ok(())
                } else if update_prev_seq_num <= book_seq_num && book_seq_num < update_seq_num {
                    let _ = b.update(update);
                    Ok(())
                } else {
                    Err(CacheError::SeqNumMismatch)
                }
            },
        }
    }
}

} // verus!
