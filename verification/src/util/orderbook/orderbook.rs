//! Keeping a market-by-price book: a vector of levels, strictly ascending by price.
use crate::decimal::Decimal;
use crate::util::orderbook::depth::MbpDepth;
use crate::util::orderbook::error::OrderbookError;
use vstd::prelude::*;

verus! {

/// The levels are strictly ascending by (numeric) price.
pub open spec fn is_sorted_book(s: Seq<MbpDepth>) -> bool {
    forall|i: int, j: int|
        0 <= i < j < s.len() ==> #[trigger] s[i].price.key() < #[trigger] s[j].price.key()
}

/// How many leading levels are priced below `k`: in a sorted book, where a level
/// priced `k` stands or would be inserted.
pub open spec fn lower_bound(s: Seq<MbpDepth>, k: int) -> int
    decreases s.len(),
{
    if s.len() == 0 {
        0
    } else if s[0].price.key() < k {
        1 + lower_bound(s.drop_first(), k)
    } else {
        0
    }
}

/// Whether the book holds a level priced `k`.
pub open spec fn holds_price(s: Seq<MbpDepth>, k: int) -> bool {
    exists|i: int| 0 <= i < s.len() && #[trigger] s[i].price.key() == k
}

/// The book after one update: a level of size zero deletes the level at its price,
/// any other level replaces the level at its price or is inserted in price order.
pub open spec fn apply_depth(s: Seq<MbpDepth>, d: MbpDepth) -> Seq<MbpDepth> {
    let i = lower_bound(s, d.price.key());
    if holds_price(s, d.price.key()) {
        if d.size.spec_mantissa() == 0 {
            s.remove(i)
        } else {
            s.update(i, d)
        }
    } else if d.size.spec_mantissa() == 0 {
        s
    } else {
        s.insert(i, d)
    }
}

/// An update is refused only when it deletes a level that the book does not hold.
pub open spec fn depth_accepted(s: Seq<MbpDepth>, d: MbpDepth) -> bool {
    holds_price(s, d.price.key()) || d.size.spec_mantissa() != 0
}

/// The book after the updates, applied in order; refused ones change nothing.
pub open spec fn apply_all(s: Seq<MbpDepth>, ups: Seq<MbpDepth>) -> Seq<MbpDepth>
    decreases ups.len(),
{
    if ups.len() == 0 {
        s
    } else {
        apply_depth(apply_all(s, ups.drop_last()), ups.last())
    }
}

/// Whether every update of the sequence is accepted, each on the book its predecessors left.
pub open spec fn all_accepted(s: Seq<MbpDepth>, ups: Seq<MbpDepth>) -> bool
    decreases ups.len(),
{
    if ups.len() == 0 {
        true
    } else {
        all_accepted(s, ups.drop_last()) && depth_accepted(apply_all(s, ups.drop_last()), ups.last())
    }
}

/// The book as a map from price (as its key) to the level held at that price.
pub open spec fn book_levels(s: Seq<MbpDepth>) -> Map<int, MbpDepth> {
    Map::new(
        |k: int| holds_price(s, k),
        |k: int| s[choose|i: int| 0 <= i < s.len() && #[trigger] s[i].price.key() == k],
    )
}

proof fn lemma_sorted_drop_first(s: Seq<MbpDepth>)
    requires
        is_sorted_book(s),
        s.len() > 0,
    ensures
        is_sorted_book(s.drop_first()),
{
    let t = s.drop_first();
    assert forall|i: int, j: int| 0 <= i < j < t.len() implies #[trigger] t[i].price.key()
        < #[trigger] t[j].price.key() by {
        assert(t[i] == s[i + 1]);
        assert(t[j] == s[j + 1]);
    }
}

/// In a sorted book, the lower bound splits the levels priced below `k` from the others.
pub proof fn lemma_lower_bound(s: Seq<MbpDepth>, k: int)
    requires
        is_sorted_book(s),
    ensures
        0 <= lower_bound(s, k) <= s.len(),
        forall|j: int| 0 <= j < lower_bound(s, k) ==> #[trigger] s[j].price.key() < k,
        forall|j: int| lower_bound(s, k) <= j < s.len() ==> #[trigger] s[j].price.key() >= k,
    decreases s.len(),
{
    if s.len() > 0 {
        if s[0].price.key() < k {
            lemma_sorted_drop_first(s);
            lemma_lower_bound(s.drop_first(), k);
            let lb = lower_bound(s, k);
            assert forall|j: int| 0 <= j < lb implies #[trigger] s[j].price.key() < k by {
                if j > 0 {
                    assert(s[j] == s.drop_first()[j - 1]);
                }
            }
            assert forall|j: int| lb <= j < s.len() implies #[trigger] s[j].price.key() >= k by {
                assert(s[j] == s.drop_first()[j - 1]);
            }
        } else {
            assert forall|j: int| 0 <= j < s.len() implies #[trigger] s[j].price.key() >= k by {
                if j > 0 {
                    assert(s[0].price.key() < s[j].price.key());
                }
            }
        }
    }
}

/// Any split point of a sorted book at `k` is the lower bound.
proof fn lemma_lower_bound_unique(s: Seq<MbpDepth>, k: int, x: int)
    requires
        is_sorted_book(s),
        0 <= x <= s.len(),
        forall|j: int| 0 <= j < x ==> #[trigger] s[j].price.key() < k,
        forall|j: int| x <= j < s.len() ==> #[trigger] s[j].price.key() >= k,
    ensures
        x == lower_bound(s, k),
{
    lemma_lower_bound(s, k);
    let lb = lower_bound(s, k);
    if x < lb {
        assert(s[x].price.key() < k);
    } else if lb < x {
        assert(s[lb].price.key() < k);
    }
}

/// In a sorted book a level priced `k` is held exactly when it stands at the lower bound.
proof fn lemma_holds_at_lower_bound(s: Seq<MbpDepth>, k: int)
    requires
        is_sorted_book(s),
    ensures
        holds_price(s, k) == (lower_bound(s, k) < s.len() && s[lower_bound(s, k)].price.key()
            == k),
{
    lemma_lower_bound(s, k);
    let lb = lower_bound(s, k);
    if holds_price(s, k) {
        let i = choose|i: int| 0 <= i < s.len() && #[trigger] s[i].price.key() == k;
        if i < lb {
            assert(s[i].price.key() < k);
        } else if i > lb {
            assert(s[lb].price.key() < s[i].price.key());
        }
    }
    if lb < s.len() && s[lb].price.key() == k {
        assert(holds_price(s, k));
    }
}

/// The level of a sorted book at index `i` is the one its map holds at its price.
proof fn lemma_levels_at(s: Seq<MbpDepth>, i: int)
    requires
        is_sorted_book(s),
        0 <= i < s.len(),
    ensures
        book_levels(s).dom().contains(s[i].price.key()),
        book_levels(s)[s[i].price.key()] == s[i],
{
    let k = s[i].price.key();
    assert(holds_price(s, k));
    let j = choose|j: int| 0 <= j < s.len() && #[trigger] s[j].price.key() == k;
    if j < i {
        assert(s[j].price.key() < s[i].price.key());
    } else if i < j {
        assert(s[i].price.key() < s[j].price.key());
    }
}

proof fn lemma_remove_level(s: Seq<MbpDepth>, i: int)
    requires
        is_sorted_book(s),
        0 <= i < s.len(),
    ensures
        is_sorted_book(s.remove(i)),
        book_levels(s.remove(i)) =~= book_levels(s).remove(s[i].price.key()),
{
    let k = s[i].price.key();
    let t = s.remove(i);
    assert forall|a: int, b: int| 0 <= a < b < t.len() implies #[trigger] t[a].price.key()
        < #[trigger] t[b].price.key() by {
        let a0 = if a < i { a } else { a + 1 };
        let b0 = if b < i { b } else { b + 1 };
        assert(t[a] == s[a0]);
        assert(t[b] == s[b0]);
    }
    assert forall|kk: int| #![trigger holds_price(t, kk)] holds_price(t, kk) == (holds_price(s, kk) && kk != k) by {
        if holds_price(t, kk) {
            let j = choose|j: int| 0 <= j < t.len() && #[trigger] t[j].price.key() == kk;
            let j0 = if j < i { j } else { j + 1 };
            assert(t[j] == s[j0]);
            assert(holds_price(s, kk));
            if j0 < i {
                assert(s[j0].price.key() < k);
            } else {
                assert(s[i].price.key() < s[j0].price.key());
            }
        }
        if holds_price(s, kk) && kk != k {
            let j = choose|j: int| 0 <= j < s.len() && #[trigger] s[j].price.key() == kk;
            assert(j != i);
            let j1 = if j < i { j } else { j - 1 };
            assert(t[j1] == s[j]);
        }
    }
    assert forall|kk: int| #[trigger] book_levels(t).dom().contains(kk) implies book_levels(t)[kk]
        == book_levels(s)[kk] by {
        let j = choose|j: int| 0 <= j < t.len() && #[trigger] t[j].price.key() == kk;
        let j0 = if j < i { j } else { j + 1 };
        assert(t[j] == s[j0]);
        lemma_levels_at(t, j);
        lemma_levels_at(s, j0);
    }
}

proof fn lemma_replace_level(s: Seq<MbpDepth>, i: int, d: MbpDepth)
    requires
        is_sorted_book(s),
        0 <= i < s.len(),
        s[i].price.key() == d.price.key(),
    ensures
        is_sorted_book(s.update(i, d)),
        book_levels(s.update(i, d)) =~= book_levels(s).insert(d.price.key(), d),
{
    let k = d.price.key();
    let t = s.update(i, d);
    assert forall|a: int, b: int| 0 <= a < b < t.len() implies #[trigger] t[a].price.key()
        < #[trigger] t[b].price.key() by {
        assert(s[a].price.key() < s[b].price.key());
    }
    assert forall|kk: int| #![trigger holds_price(t, kk)] holds_price(t, kk) == (holds_price(s, kk) || kk == k) by {
        if holds_price(t, kk) {
            let j = choose|j: int| 0 <= j < t.len() && #[trigger] t[j].price.key() == kk;
            if j != i {
                assert(t[j] == s[j]);
            } else {
                assert(s[i].price.key() == kk);
            }
        }
        if holds_price(s, kk) {
            let j = choose|j: int| 0 <= j < s.len() && #[trigger] s[j].price.key() == kk;
            if j != i {
                assert(t[j] == s[j]);
            } else {
                assert(t[i].price.key() == kk);
            }
        }
        if kk == k {
            assert(t[i].price.key() == kk);
        }
    }
    assert forall|kk: int| #[trigger] book_levels(t).dom().contains(kk) implies book_levels(t)[kk]
        == book_levels(s).insert(k, d)[kk] by {
        let j = choose|j: int| 0 <= j < t.len() && #[trigger] t[j].price.key() == kk;
        lemma_levels_at(t, j);
        if j != i {
            assert(t[j] == s[j]);
            lemma_levels_at(s, j);
        }
    }
}

proof fn lemma_insert_level(s: Seq<MbpDepth>, i: int, d: MbpDepth)
    requires
        is_sorted_book(s),
        0 <= i <= s.len(),
        forall|j: int| 0 <= j < i ==> #[trigger] s[j].price.key() < d.price.key(),
        forall|j: int| i <= j < s.len() ==> #[trigger] s[j].price.key() > d.price.key(),
    ensures
        is_sorted_book(s.insert(i, d)),
        book_levels(s.insert(i, d)) =~= book_levels(s).insert(d.price.key(), d),
{
    let k = d.price.key();
    let t = s.insert(i, d);
    assert forall|a: int, b: int| 0 <= a < b < t.len() implies #[trigger] t[a].price.key()
        < #[trigger] t[b].price.key() by {
        if a < i {
            assert(t[a] == s[a]);
        } else if a > i {
            assert(t[a] == s[a - 1]);
        }
        if b < i {
            assert(t[b] == s[b]);
        } else if b > i {
            assert(t[b] == s[b - 1]);
        }
        if a > i {
            assert(s[a - 1].price.key() < s[b - 1].price.key());
        }
    }
    assert forall|kk: int| #![trigger holds_price(t, kk)] holds_price(t, kk) == (holds_price(s, kk) || kk == k) by {
        if holds_price(t, kk) {
            let j = choose|j: int| 0 <= j < t.len() && #[trigger] t[j].price.key() == kk;
            if j < i {
                assert(t[j] == s[j]);
            } else if j > i {
                assert(t[j] == s[j - 1]);
            }
        }
        if holds_price(s, kk) {
            let j = choose|j: int| 0 <= j < s.len() && #[trigger] s[j].price.key() == kk;
            let j1 = if j < i { j } else { j + 1 };
            assert(t[j1] == s[j]);
        }
        if kk == k {
            assert(t[i].price.key() == kk);
        }
    }
    assert forall|kk: int| #[trigger] book_levels(t).dom().contains(kk) implies book_levels(t)[kk]
        == book_levels(s).insert(k, d)[kk] by {
        let j = choose|j: int| 0 <= j < t.len() && #[trigger] t[j].price.key() == kk;
        lemma_levels_at(t, j);
        if j < i {
            assert(t[j] == s[j]);
            lemma_levels_at(s, j);
        } else if j > i {
            assert(t[j] == s[j - 1]);
            lemma_levels_at(s, j - 1);
        }
    }
}

/// One update keeps the book sorted, and does to its map what the update says:
/// a zero size removes the price, any other size sets the level at the price.
/// It is refused exactly when it removes a price that the book does not hold.
pub proof fn lemma_apply_depth(s: Seq<MbpDepth>, d: MbpDepth)
    requires
        is_sorted_book(s),
    ensures
        is_sorted_book(apply_depth(s, d)),
        book_levels(apply_depth(s, d)) == (if d.size.spec_mantissa() == 0 {
            book_levels(s).remove(d.price.key())
        } else {
            book_levels(s).insert(d.price.key(), d)
        }),
        depth_accepted(s, d) == (d.size.spec_mantissa() != 0 || book_levels(s).dom().contains(
            d.price.key(),
        )),
{
    let k = d.price.key();
    lemma_lower_bound(s, k);
    lemma_holds_at_lower_bound(s, k);
    let i = lower_bound(s, k);
    if holds_price(s, k) {
        if d.size.spec_mantissa() == 0 {
            lemma_remove_level(s, i);
        } else {
            lemma_replace_level(s, i, d);
        }
    } else if d.size.spec_mantissa() == 0 {
        assert(book_levels(s).remove(k) =~= book_levels(s));
    } else {
        lemma_insert_level(s, i, d);
    }
}

/// A sequence of updates keeps the book sorted.
pub proof fn lemma_apply_all_sorted(s: Seq<MbpDepth>, ups: Seq<MbpDepth>)
    requires
        is_sorted_book(s),
    ensures
        is_sorted_book(apply_all(s, ups)),
    decreases ups.len(),
{
    if ups.len() > 0 {
        lemma_apply_all_sorted(s, ups.drop_last());
        lemma_apply_depth(apply_all(s, ups.drop_last()), ups.last());
    }
}

/// Finds the level priced `price` in a sorted book: `Ok` with its index, or `Err`
/// with the index where such a level would be inserted.
fn search_price(page: &Vec<MbpDepth>, price: &Decimal) -> (r: Result<usize, usize>)
    requires
        is_sorted_book(page@),
    ensures
        match r {
            Ok(i) => i == lower_bound(page@, price.key()) && holds_price(page@, price.key()),
            Err(i) => i == lower_bound(page@, price.key()) && !holds_price(page@, price.key()),
        },
{
    let ghost k = price.key();
    let mut lo: usize = 0;
    let mut hi: usize = page.len();
    while lo < hi
        invariant
            0 <= lo <= hi <= page.len(),
            is_sorted_book(page@),
            k == price.key(),
            forall|j: int| 0 <= j < lo ==> #[trigger] page@[j].price.key() < k,
            forall|j: int| hi <= j < page.len() ==> #[trigger] page@[j].price.key() >= k,
        decreases hi - lo,
    {
        let mid = lo + (hi - lo) / 2;
        let c = page[mid].price.compare(price);
        if c < 0 {
            proof {
                assert forall|j: int| 0 <= j < mid + 1 implies #[trigger] page@[j].price.key() < k by {
                    if j < mid {
                        assert(page@[j].price.key() < page@[mid as int].price.key());
                    }
                }
            }
            lo = mid + 1;
        } else {
            proof {
                assert forall|j: int| mid <= j < page.len() implies #[trigger] page@[j].price.key() >= k by {
                    if j > mid {
                        assert(page@[mid as int].price.key() < page@[j].price.key());
                    }
                }
            }
            hi = mid;
        }
    }
    proof {
        lemma_lower_bound_unique(page@, k, lo as int);
        lemma_holds_at_lower_bound(page@, k);
    }
    if lo < page.len() && page[lo].price.compare(price) == 0 {
        Ok(lo)
    } else {
        Err(lo)
    }
}

/// Applies one update to a sorted book.
fn update_page(page: &mut Vec<MbpDepth>, depth: MbpDepth) -> (r: Result<(), OrderbookError>)
    requires
        is_sorted_book(old(page)@),
    ensures
        final(page)@ == apply_depth(old(page)@, depth),
        is_sorted_book(final(page)@),
        r is Ok <==> depth_accepted(old(page)@, depth),
        r is Err ==> r == Err::<(), OrderbookError>(OrderbookError::DeleteNonexistDepth),
{
    proof {
        lemma_apply_depth(old(page)@, depth);
        lemma_lower_bound(old(page)@, depth.price.key());
        lemma_holds_at_lower_bound(old(page)@, depth.price.key());
    }
    match search_price(page, &depth.price) {
        Ok(i) => {
            if depth.size.is_zero() {
                page.remove(i);
            } else {
                page.set(i, depth);
            }
        },
        Err(i) => {
            if depth.size.is_zero() {
                return Err(OrderbookError::DeleteNonexistDepth);
            } else {
                page.insert(i, depth);
            }
        },
    }
    Ok(())
}

/// A book that can be updated level by level.
pub trait Orderbook: Sized {
    /// The levels of the book.
    spec fn book(&self) -> Vec<MbpDepth>;

    /// This book with its levels replaced.
    spec fn with_book(&self, levels: Vec<MbpDepth>) -> Self;

    proof fn lemma_with_book(&self, a: Vec<MbpDepth>, b: Vec<MbpDepth>)
        ensures
            self.with_book(a).book() == a,
            self.with_book(a).with_book(b) == self.with_book(b),
            self.with_book(self.book()) == *self,
    ;

    fn get_mut_book(&mut self) -> (levels: &mut Vec<MbpDepth>)
        ensures
            *levels == old(self).book(),
            *final(self) == old(self).with_book(*final(levels)),
    ;

    /// Applies the updates in order. An update that deletes a price that the
    /// book does not hold changes nothing; the others are applied all the same,
    /// and the result is then `Err(DeleteNonexistDepth)`.
    fn update_book(&mut self, updates: &[MbpDepth]) -> (r: Result<(), OrderbookError>)
        requires
            is_sorted_book(old(self).book()@),
        ensures
            *final(self) == old(self).with_book(final(self).book()),
            final(self).book()@ == apply_all(old(self).book()@, updates@),
            is_sorted_book(final(self).book()@),
            r is Ok <==> all_accepted(old(self).book()@, updates@),
            r is Err ==> r == Err::<(), OrderbookError>(OrderbookError::DeleteNonexistDepth),
    {
        let ghost start = old(self).book()@;
        let mut delete_nonexist_depth = false;
        let mut n: usize = 0;
        proof {
            self.lemma_with_book(self.book(), self.book());
            assert(updates@.take(0) =~= Seq::<MbpDepth>::empty());
        }
        while n < updates.len()
            invariant
                0 <= n <= updates.len(),
                *self == old(self).with_book(self.book()),
                self.book()@ == apply_all(start, updates@.take(n as int)),
                start == old(self).book()@,
                is_sorted_book(self.book()@),
                delete_nonexist_depth == !all_accepted(start, updates@.take(n as int)),
            decreases updates.len() - n,
        {
            let ghost before = *self;
            let depth = updates[n];
            let self_book = self.get_mut_book();
            let res = update_page(self_book, depth);
            match res {
                Ok(_) => (),
                Err(_) => delete_nonexist_depth = true,
            }
            proof {
                before.lemma_with_book(*self_book, *self_book);
                old(self).lemma_with_book(before.book(), *self_book);
                assert(updates@.take(n + 1).drop_last() =~= updates@.take(n as int));
                assert(updates@.take(n + 1).last() == depth);
            }
            n = n + 1;
        }
        proof {
            assert(updates@.take(n as int) =~= updates@);
        }
        if delete_nonexist_depth {
            Err(OrderbookError::DeleteNonexistDepth)
        } else {
            Ok(())
        }
    }
}

} // verus!
