use vstd::prelude::*;
use crate::record::Country;
use crate::summary::CacheMetadata;

verus! {

/// Whether the record carries exactly the given name.
pub open spec fn name_matches(c: Country, name: Seq<char>) -> bool {
    c.name is Some && c.name->0@ == name
}

/// The first index in `s` whose record carries `name`, or -1 if none does.
pub open spec fn find_name(s: Seq<Country>, name: Seq<char>) -> int
    decreases s.len(),
{
    if s.len() == 0 {
        -1
    } else if name_matches(s[0], name) {
        0
    } else if find_name(s.drop_first(), name) == -1 {
        -1
    } else {
        find_name(s.drop_first(), name) + 1
    }
}

/// `find_name` returns -1 exactly when no record carries the name; otherwise
/// it returns the first index that does.
pub proof fn lemma_find_name(s: Seq<Country>, name: Seq<char>)
    ensures
        find_name(s, name) == -1 ==> forall|i: int|
            0 <= i < s.len() ==> !name_matches(#[trigger] s[i], name),
        find_name(s, name) != -1 ==> {
            &&& 0 <= find_name(s, name) < s.len()
            &&& name_matches(s[find_name(s, name)], name)
            &&& forall|i: int| 0 <= i < find_name(s, name) ==> !name_matches(#[trigger] s[i], name)
        },
    decreases s.len(),
{
    if s.len() > 0 {
        lemma_find_name(s.drop_first(), name);
        if find_name(s, name) == -1 {
            assert forall|i: int| 0 <= i < s.len() implies !name_matches(
                #[trigger] s[i],
                name,
            ) by {
                if i > 0 {
                    assert(s[i] == s.drop_first()[i - 1]);
                }
            }
        } else {
            let r = find_name(s, name);
            if !name_matches(s[0], name) {
                assert(s[r] == s.drop_first()[r - 1]);
                assert forall|i: int| 0 <= i < r implies !name_matches(#[trigger] s[i], name) by {
                    if i > 0 {
                        assert(s[i] == s.drop_first()[i - 1]);
                    }
                }
            }
        }
    }
}

/// No two records of `s` carry the same name; nameless records are not keyed
/// and may repeat.
pub open spec fn records_wf(s: Seq<Country>) -> bool {
    forall|i: int, j: int|
        0 <= i < j < s.len() && (#[trigger] s[i]).name is Some && (#[trigger] s[j]).name is Some
            ==> s[i].name->0@ != s[j].name->0@
}

/// What an upsert of `c` leaves behind: the row matched by `c`'s name is
/// replaced, and without a match — always, for a nameless record — a row is
/// appended.
pub open spec fn spec_upsert(s: Seq<Country>, c: Country) -> Seq<Country> {
    match c.name {
        Some(nm) => if find_name(s, nm@) >= 0 {
            s.update(find_name(s, nm@), c)
        } else {
            s.push(c)
        },
        None => s.push(c),
    }
}

/// The index at which an upsert of `c` leaves the record.
pub open spec fn upsert_pos(s: Seq<Country>, c: Country) -> int {
    match c.name {
        Some(nm) => if find_name(s, nm@) >= 0 {
            find_name(s, nm@)
        } else {
            s.len() as int
        },
        None => s.len() as int,
    }
}

/// What a delete by `name` leaves behind: the row carrying the name is
/// removed; without one, nothing changes.
pub open spec fn spec_delete(s: Seq<Country>, name: Seq<char>) -> Seq<Country> {
    if find_name(s, name) >= 0 {
        s.remove(find_name(s, name))
    } else {
        s
    }
}

/// In a well-formed record set, `find_name` finds exactly the one index that
/// carries the name.
pub proof fn lemma_find_name_unique(s: Seq<Country>, name: Seq<char>, p: int)
    requires
        records_wf(s),
        0 <= p < s.len(),
        name_matches(s[p], name),
    ensures
        find_name(s, name) == p,
{
    lemma_find_name(s, name);
}

/// An upsert of a named record leaves a well-formed set holding the record at
/// `upsert_pos`, the only row carrying its name, and every other row
/// unchanged.
pub proof fn lemma_upsert_named(s: Seq<Country>, c: Country, name: Seq<char>)
    requires
        records_wf(s),
        c.name is Some,
        c.name->0@ == name,
    ensures
        ({
            let t = spec_upsert(s, c);
            let q = upsert_pos(s, c);
            &&& records_wf(t)
            &&& 0 <= q < t.len()
            &&& t[q] == c
            &&& find_name(t, name) == q
            &&& forall|i: int| 0 <= i < t.len() && i != q ==> !name_matches(#[trigger] t[i], name)
            &&& forall|i: int| 0 <= i < s.len() && i != q ==> #[trigger] t[i] == s[i]
        }),
{
    let t = spec_upsert(s, c);
    let q = upsert_pos(s, c);
    lemma_find_name(s, name);
    assert forall|i: int| 0 <= i < t.len() && i != q implies !name_matches(
        #[trigger] t[i],
        name,
    ) by {
        if find_name(s, name) >= 0 {
            assert(t[i] == s[i]);
        } else {
            if i < s.len() {
                assert(t[i] == s[i]);
            }
        }
    }
    lemma_find_name_unique(t, name, q);
}

/// Upsert is idempotent on identity: two upserts carrying the same name leave
/// exactly one row with that name, and it holds the later record's values.
pub proof fn lemma_upsert_idempotent(s: Seq<Country>, c1: Country, c2: Country, name: Seq<char>)
    requires
        records_wf(s),
        c1.name is Some && c1.name->0@ == name,
        c2.name is Some && c2.name->0@ == name,
    ensures
        ({
            let t = spec_upsert(spec_upsert(s, c1), c2);
            let q = find_name(t, name);
            &&& records_wf(t)
            &&& 0 <= q < t.len()
            &&& t[q] == c2
            &&& forall|i: int| 0 <= i < t.len() && i != q ==> !name_matches(#[trigger] t[i], name)
            &&& t.len() == spec_upsert(s, c1).len()
        }),
{
    lemma_upsert_named(s, c1, name);
    lemma_upsert_named(spec_upsert(s, c1), c2, name);
}

/// After a delete by name, no row carries the name: a subsequent lookup
/// reports not-found.
pub proof fn lemma_delete_then_lookup(s: Seq<Country>, name: Seq<char>)
    requires
        records_wf(s),
    ensures
        find_name(spec_delete(s, name), name) == -1,
{
    let t = spec_delete(s, name);
    lemma_find_name(s, name);
    if find_name(s, name) >= 0 {
        let ix = find_name(s, name);
        assert forall|i: int| 0 <= i < t.len() implies !name_matches(#[trigger] t[i], name) by {
            let i0 = if i < ix {
                i
            } else {
                i + 1
            };
            assert(t[i] == s[i0]);
        }
    }
    lemma_find_name(t, name);
}

/// The persisted record set: one row per country, matched by the natural key
/// (the country name), plus the single summary-metadata row.
pub struct Store {
    pub records: Vec<Country>,
    pub summary: Option<CacheMetadata>,
}

impl Store {
    /// No two rows carry the same name. Rows without a name are not keyed and
    /// may repeat.
    pub open spec fn wf(self) -> bool {
        records_wf(self.records@)
    }

    pub fn new() -> (s: Store)
        ensures
            s.records@ =~= Seq::<Country>::empty(),
            s.summary is None,
            s.wf(),
    {
        Store { records: Vec::new(), summary: None }
    }

    /// The index of the row carrying `name`, if one does.
    fn find_index(&self, name: &String) -> (r: Option<usize>)
        ensures
            match r {
                Some(i) => i < self.records@.len() && find_name(self.records@, name@) == i as int
                    && name_matches(self.records@[i as int], name@),
                None => find_name(self.records@, name@) == -1,
            },
    {
        let mut i: usize = 0;
        while i < self.records.len()
            invariant
                i <= self.records@.len(),
                forall|j: int|
                    0 <= j < i ==> !name_matches(#[trigger] self.records@[j], name@),
            decreases self.records@.len() - i,
        {
            let hit = match &self.records[i].name {
                Some(nm) => *nm == *name,
                None => false,
            };
            if hit {
                proof {
                    lemma_find_name(self.records@, name@);
                }
                return Some(i);
            }
            i += 1;
        }
        proof {
            lemma_find_name(self.records@, name@);
        }
        None
    }

    /// Upsert matched by name: a row with the record's name is replaced by
    /// the record; otherwise, and always for a nameless record, a new row is
    /// appended. One row is written either way.
    pub fn insert_or_update_country(&mut self, country: Country) -> (n: usize)
        requires
            old(self).wf(),
        ensures
            final(self).wf(),
            final(self).summary == old(self).summary,
            n == 1,
            final(self).records@ == spec_upsert(old(self).records@, country),
    {
        let found: Option<usize> = match &country.name {
            Some(nm) => self.find_index(nm),
            None => None,
        };
        proof {
            if country.name is Some {
                lemma_find_name(self.records@, country.name->0@);
            }
        }
        match found {
            Some(i) => {
                self.records[i] = country;
                1
            },
            None => {
                self.records.push(country);
                1
            },
        }
    }

    /// All rows, in storage order.
    pub fn get_all_countries(&self) -> (r: Vec<Country>)
        ensures
            r@ == self.records@,
    {
        let mut out: Vec<Country> = Vec::new();
        let mut i: usize = 0;
        while i < self.records.len()
            invariant
                i <= self.records@.len(),
                out@ == self.records@.subrange(0, i as int),
            decreases self.records@.len() - i,
        {
            out.push(self.records[i].duplicate());
            proof {
                assert(out@ =~= self.records@.subrange(0, i + 1 as int));
            }
            i += 1;
        }
        proof {
            assert(self.records@.subrange(0, self.records@.len() as int) =~= self.records@);
        }
        out
    }

    /// The row carrying `name`, if one does.
    pub fn get_country_by_name(&self, name: &String) -> (r: Option<Country>)
        ensures
            match r {
                Some(c) => find_name(self.records@, name@) >= 0 && c == self.records@[find_name(
                    self.records@,
                    name@,
                )],
                None => find_name(self.records@, name@) == -1,
            },
    {
        match self.find_index(name) {
            Some(i) => Some(self.records[i].duplicate()),
            None => None,
        }
    }

    /// Removes the row carrying `name`; the count of removed rows tells
    /// whether one existed.
    pub fn delete_country_by_name(&mut self, name: &String) -> (n: usize)
        requires
            old(self).wf(),
        ensures
            final(self).wf(),
            final(self).summary == old(self).summary,
            final(self).records@ == spec_delete(old(self).records@, name@),
            n == 1 <==> find_name(old(self).records@, name@) >= 0,
            n == 1 || n == 0,
    {
        match self.find_index(name) {
            Some(i) => {
                let ghost pre = self.records@;
                self.records.remove(i);
                proof {
                    lemma_find_name(pre, name@);
                    assert forall|a: int, b: int|
                        0 <= a < b < self.records@.len() && (
                        #[trigger] self.records@[a]).name is Some && (
                        #[trigger] self.records@[b]).name is Some implies self.records@[a].name->0@
                        != self.records@[b].name->0@ by {
                        let a0 = if a < i { a } else { a + 1 };
                        let b0 = if b < i { b } else { b + 1 };
                        assert(self.records@[a] == pre[a0]);
                        assert(self.records@[b] == pre[b0]);
                    }
                }
                1
            },
            None => 0,
        }
    }

    /// Replaces the single summary-metadata row with a fresh one, leaving the
    /// country rows untouched.
    pub fn save_summary_metadata(&mut self, metadata: CacheMetadata)
        ensures
            final(self).summary == Some(metadata),
            final(self).records == old(self).records,
    {
        self.summary = Some(metadata);
    }
}

} // verus!
