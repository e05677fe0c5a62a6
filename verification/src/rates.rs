use vstd::prelude::*;

verus! {

/// Whether a rate entry carries a positive rate; only such entries belong in
/// a well-formed table.
pub open spec fn entry_positive(e: (String, u64)) -> bool {
    e.1 > 0
}

/// `entry_positive` as a first-class predicate, for use with `Seq::filter`.
pub open spec fn positive_pred() -> spec_fn((String, u64)) -> bool {
    |e: (String, u64)| entry_positive(e)
}

/// The first rate paired with `code` in `entries`, if any.
pub open spec fn lookup_entries(entries: Seq<(String, u64)>, code: Seq<char>) -> Option<u64>
    decreases entries.len(),
{
    if entries.len() == 0 {
        None
    } else if entries[0].0@ == code {
        Some(entries[0].1)
    } else {
        lookup_entries(entries.drop_first(), code)
    }
}

/// A rate found among all-positive entries is positive.
pub proof fn lemma_lookup_entries_positive(entries: Seq<(String, u64)>, code: Seq<char>)
    requires
        forall|i: int| 0 <= i < entries.len() ==> entry_positive(#[trigger] entries[i]),
        lookup_entries(entries, code) is Some,
    ensures
        lookup_entries(entries, code)->0 > 0,
    decreases entries.len(),
{
    if entries.len() > 0 && !(entries[0].0@ == code) {
        assert(forall|i: int|
            0 <= i < entries.drop_first().len() ==> entry_positive(
                #[trigger] entries.drop_first()[i],
            ));
        lemma_lookup_entries_positive(entries.drop_first(), code);
    }
}

/// The exchange-rate table for one refresh cycle: currency code to positive
/// rate, in micro-units (1_000_000 = a rate of 1.0). Fetched fresh every
/// cycle and never persisted.
pub struct RateTable {
    pub entries: Vec<(String, u64)>,
}

impl RateTable {
    /// Every entry of the table carries a positive rate.
    pub open spec fn wf(self) -> bool {
        forall|i: int|
            0 <= i < self.entries@.len() ==> entry_positive(#[trigger] self.entries@[i])
    }

    /// The rate recorded for `code`, as a mathematical value.
    pub open spec fn spec_lookup(self, code: Seq<char>) -> Option<u64> {
        lookup_entries(self.entries@, code)
    }

    /// Builds a table from raw `(code, rate)` pairs, keeping exactly the
    /// entries with a positive rate, in their given order.
    pub fn from_entries(entries: Vec<(String, u64)>) -> (t: RateTable)
        ensures
            t.entries@ == entries@.filter(positive_pred()),
            t.wf(),
    {
        let ghost pred = positive_pred();
        let mut kept: Vec<(String, u64)> = Vec::new();
        let mut i: usize = 0;
        while i < entries.len()
            invariant
                i <= entries.len(),
                pred == positive_pred(),
                kept@ == entries@.subrange(0, i as int).filter(pred),
                forall|k: int| 0 <= k < kept@.len() ==> entry_positive(#[trigger] kept@[k]),
            decreases entries.len() - i,
        {
            let (code, rate) = (entries[i].0.clone(), entries[i].1);
            proof {
                assert((code, rate) == entries@[i as int]);
            }
            if rate > 0 {
                kept.push((code, rate));
            }
            proof {
                reveal_with_fuel(Seq::<_>::filter, 2);
                let e = entries@[i as int];
                let prefix = entries@.subrange(0, i as int);
                let single = seq![e];
                assert(entries@.subrange(0, i + 1 as int) =~= prefix + single);
                Seq::filter_distributes_over_add(prefix, single, pred);
                assert(single.drop_last() =~= Seq::<(String, u64)>::empty());
                assert(kept@ =~= entries@.subrange(0, i + 1 as int).filter(pred));
            }
            i += 1;
        }
        proof {
            assert(entries@.subrange(0, entries@.len() as int) =~= entries@);
        }
        RateTable { entries: kept }
    }

    /// Looks `code` up in the table; `Some` exactly when the table holds an
    /// entry for it, with the first such rate.
    pub fn lookup(&self, code: &String) -> (r: Option<u64>)
        ensures
            r == self.spec_lookup(code@),
            self.wf() && r is Some ==> r->0 > 0,
    {
        let mut i: usize = 0;
        proof {
            assert(self.entries@.skip(0) =~= self.entries@);
        }
        while i < self.entries.len()
            invariant
                i <= self.entries@.len(),
                lookup_entries(self.entries@, code@) == lookup_entries(
                    self.entries@.skip(i as int),
                    code@,
                ),
            decreases self.entries@.len() - i,
        {
            proof {
                assert(self.entries@.skip(i as int)[0] == self.entries@[i as int]);
            }
            if self.entries[i].0 == *code {
                return Some(self.entries[i].1);
            }
            proof {
                assert(self.entries@.skip(i as int).drop_first() =~= self.entries@.skip(
                    i + 1 as int,
                ));
            }
            i += 1;
        }
        proof {
            assert(self.entries@.skip(self.entries@.len() as int) =~= Seq::<(
                String,
                u64,
            )>::empty());
        }
        None
    }
}

} // verus!
