//! The per-token quote cache: a small association list from token id to
//! the latest top-of-book quote, owned by the monitor and read by the
//! simulation fill model.

use vstd::prelude::*;
use crate::market::{TokenPrice, str_eq};

verus! {

/// One token's latest top-of-book quote.
#[derive(Debug)]
pub struct PriceEntry {
    pub token_id: String,
    pub price: TokenPrice,
}

impl Clone for PriceEntry {
    fn clone(&self) -> (r: Self)
        ensures
            r == *self,
    {
        PriceEntry { token_id: self.token_id.clone(), price: self.price }
    }
}

/// The latest observed quote of every polled token.
#[derive(Debug)]
pub struct PriceBook {
    pub entries: Vec<PriceEntry>,
}

/// Whether the entries hold a quote for `id`.
pub open spec fn spec_has_quote(entries: Seq<PriceEntry>, id: Seq<char>) -> bool {
    exists|j: int| 0 <= j < entries.len() && entries[j].token_id@ == id
}

/// The index of the quote for `id` (unique under [`PriceBook::wf`]).
pub open spec fn spec_quote_index(entries: Seq<PriceEntry>, id: Seq<char>) -> int {
    choose|j: int| 0 <= j < entries.len() && entries[j].token_id@ == id
}

/// The quote recorded for `id`, if any.
pub open spec fn spec_lookup(entries: Seq<PriceEntry>, id: Seq<char>) -> Option<TokenPrice> {
    if spec_has_quote(entries, id) {
        Some(entries[spec_quote_index(entries, id)].price)
    } else {
        None
    }
}

impl PriceBook {
    /// Every token id appears at most once and every quote is a price in
    /// `[0, 1]`.
    pub open spec fn wf(self) -> bool {
        &&& forall|i: int, j: int|
            0 <= i < j < self.entries@.len() ==> self.entries@[i].token_id@
                != self.entries@[j].token_id@
        &&& forall|i: int| 0 <= i < self.entries@.len() ==> (#[trigger] self.entries@[i]).price.wf()
    }

    /// The quote recorded for `id`, if any.
    pub open spec fn spec_quote(self, id: Seq<char>) -> Option<TokenPrice> {
        spec_lookup(self.entries@, id)
    }

    /// An empty book.
    pub fn new() -> (b: PriceBook)
        ensures
            b.wf(),
            b.entries@.len() == 0,
            forall|id: Seq<char>| b.spec_quote(id) is None,
    {
        PriceBook { entries: Vec::new() }
    }

    /// Forget every quote (used when the market set is swapped).
    pub fn clear(&mut self)
        ensures
            final(self).wf(),
            final(self).entries@.len() == 0,
            forall|id: Seq<char>| final(self).spec_quote(id) is None,
    {
        self.entries.clear();
    }

    /// The latest quote for `token_id`, if one was recorded.
    pub fn lookup(&self, token_id: &str) -> (r: Option<TokenPrice>)
        requires
            self.wf(),
        ensures
            r == self.spec_quote(token_id@),
    {
        let mut i: usize = 0;
        while i < self.entries.len()
            invariant
                self.wf(),
                i <= self.entries@.len(),
                forall|j: int| 0 <= j < i ==> self.entries@[j].token_id@ != token_id@,
            decreases self.entries@.len() - i,
        {
            if str_eq(self.entries[i].token_id.as_str(), token_id) {
                proof {
                    assert(spec_has_quote(self.entries@, token_id@));
                    let k = spec_quote_index(self.entries@, token_id@);
                    assert(k == i);
                }
                return Some(self.entries[i].price);
            }
            i = i + 1;
        }
        None
    }

    /// Record the latest quote for `token_id`, replacing any earlier one.
    pub fn record(&mut self, token_id: String, price: TokenPrice)
        requires
            old(self).wf(),
            price.wf(),
        ensures
            final(self).wf(),
            final(self).spec_quote(token_id@) == Some(price),
            forall|id: Seq<char>|
                id != token_id@ ==> final(self).spec_quote(id) == old(self).spec_quote(id),
    {
        let ghost old_entries = self.entries@;
        let mut i: usize = 0;
        while i < self.entries.len()
            invariant
                self.wf(),
                self.entries@ == old_entries,
                old_entries == old(self).entries@,
                price.wf(),
                i <= self.entries@.len(),
                forall|j: int| 0 <= j < i ==> self.entries@[j].token_id@ != token_id@,
            decreases self.entries@.len() - i,
        {
            if str_eq(self.entries[i].token_id.as_str(), token_id.as_str()) {
                self.entries.set(i, PriceEntry { token_id, price });
                proof {
                    lemma_record_replace(old_entries, self.entries@, i as int, token_id@, price);
                    assert forall|j: int|
                        0 <= j < self.entries@.len() implies (#[trigger] self.entries@[j]).price.wf() by {
                        if j != i {
                            assert(self.entries@[j] == old_entries[j]);
                            assert(old_entries[j].price.wf());
                        }
                    }
                }
                return;
            }
            i = i + 1;
        }
        self.entries.push(PriceEntry { token_id, price });
        proof {
            lemma_record_push(old_entries, self.entries@, token_id@, price);
            assert forall|j: int|
                0 <= j < self.entries@.len() implies (#[trigger] self.entries@[j]).price.wf() by {
                if j < old_entries.len() {
                    assert(self.entries@[j] == old_entries[j]);
                    assert(old_entries[j].price.wf());
                }
            }
        }
    }
}

/// Replacing the entry that held `id` keeps every other lookup unchanged.
proof fn lemma_record_replace(
    before: Seq<PriceEntry>,
    after: Seq<PriceEntry>,
    k: int,
    id: Seq<char>,
    price: TokenPrice,
)
    requires
        forall|i: int, j: int|
            0 <= i < j < before.len() ==> before[i].token_id@ != before[j].token_id@,
        0 <= k < before.len(),
        before[k].token_id@ == id,
        after.len() == before.len(),
        after[k].token_id@ == id,
        after[k].price == price,
        forall|i: int| 0 <= i < before.len() && i != k ==> after[i] == before[i],
    ensures
        forall|i: int, j: int| 0 <= i < j < after.len() ==> after[i].token_id@ != after[j].token_id@,
        spec_lookup(after, id) == Some(price),
        forall|id2: Seq<char>| id2 != id ==> spec_lookup(after, id2) == spec_lookup(before, id2),
{
    assert forall|i: int, j: int| 0 <= i < j < after.len() implies after[i].token_id@
        != after[j].token_id@ by {
        assert(before[i].token_id@ != before[j].token_id@);
    }
    assert(spec_has_quote(after, id));
    let ka = spec_quote_index(after, id);
    assert(ka == k);
    assert forall|id2: Seq<char>| id2 != id implies spec_lookup(after, id2) == spec_lookup(
        before,
        id2,
    ) by {
        if spec_has_quote(before, id2) {
            let j = spec_quote_index(before, id2);
            assert(j != k);
            assert(after[j].token_id@ == id2);
            assert(spec_has_quote(after, id2));
            let ja = spec_quote_index(after, id2);
            assert(ja == j);
        } else {
            if spec_has_quote(after, id2) {
                let ja = spec_quote_index(after, id2);
                assert(ja != k);
                assert(before[ja].token_id@ == id2);
            }
        }
    }
}

/// Appending an entry for a fresh `id` keeps every other lookup unchanged.
proof fn lemma_record_push(
    before: Seq<PriceEntry>,
    after: Seq<PriceEntry>,
    id: Seq<char>,
    price: TokenPrice,
)
    requires
        forall|i: int, j: int|
            0 <= i < j < before.len() ==> before[i].token_id@ != before[j].token_id@,
        forall|j: int| 0 <= j < before.len() ==> before[j].token_id@ != id,
        after.len() == before.len() + 1,
        after[before.len() as int].token_id@ == id,
        after[before.len() as int].price == price,
        forall|i: int| 0 <= i < before.len() ==> after[i] == before[i],
    ensures
        forall|i: int, j: int| 0 <= i < j < after.len() ==> after[i].token_id@ != after[j].token_id@,
        spec_lookup(after, id) == Some(price),
        forall|id2: Seq<char>| id2 != id ==> spec_lookup(after, id2) == spec_lookup(before, id2),
{
    let n = before.len() as int;
    assert forall|i: int, j: int| 0 <= i < j < after.len() implies after[i].token_id@
        != after[j].token_id@ by {
        if j < n {
            assert(before[i].token_id@ != before[j].token_id@);
        } else {
            assert(after[i] == before[i]);
        }
    }
    assert(spec_has_quote(after, id));
    let ka = spec_quote_index(after, id);
    assert(ka == n);
    assert forall|id2: Seq<char>| id2 != id implies spec_lookup(after, id2) == spec_lookup(
        before,
        id2,
    ) by {
        if spec_has_quote(before, id2) {
            let j = spec_quote_index(before, id2);
            assert(after[j].token_id@ == id2);
            assert(spec_has_quote(after, id2));
            let ja = spec_quote_index(after, id2);
            assert(ja == j);
        } else {
            if spec_has_quote(after, id2) {
                let ja = spec_quote_index(after, id2);
                assert(ja != n);
                assert(before[ja].token_id@ == id2);
            }
        }
    }
}

} // verus!
