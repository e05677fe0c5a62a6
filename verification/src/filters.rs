use vstd::prelude::*;
use crate::errors::ApiError;
use crate::errors::ErrorKind;
use crate::record::Country;

verus! {

/// A name for what `str::to_lowercase` returns: it depends on the characters
/// of its argument alone.
pub uninterp spec fn lower_of(s: Seq<char>) -> Seq<char>;

/// Relies on str::to_lowercase: the result is a function of the characters of
/// the argument alone.
#[verifier::external_body]
fn lowercase(s: &str) -> (r: String)
    ensures
        r@ == lower_of(s@),
{
    s.to_lowercase()
}

/// The one supported sort order.
#[derive(Debug, Clone, Copy, PartialEq, Eq, Structural)]
pub enum SortKind {
    GdpDesc,
}

/// One search filter, as a tagged union: filters compose region, then
/// currency, then sort.
#[derive(Debug, Clone)]
pub enum SearchFilter {
    RegionFilter(String),
    CurrencyFilter(String),
    SortFilter(SortKind),
}

/// The raw query: each part optional.
#[derive(Debug)]
pub struct SearchQuery {
    pub region: Option<String>,
    pub currency: Option<String>,
    pub sort: Option<SortKind>,
}

/// The filters a query selects, in the order they are applied: region, then
/// currency, then sort.
pub open spec fn spec_extract(q: SearchQuery) -> Seq<SearchFilter> {
    (match q.region {
        Some(r) => seq![SearchFilter::RegionFilter(r)],
        None => seq![],
    }) + (match q.currency {
        Some(c) => seq![SearchFilter::CurrencyFilter(c)],
        None => seq![],
    }) + (match q.sort {
        Some(s) => seq![SearchFilter::SortFilter(s)],
        None => seq![],
    })
}

/// Turns a raw query into its filter list.
pub fn extract_filters_from_query(query: &SearchQuery) -> (filters: Vec<SearchFilter>)
    ensures
        filters@ == spec_extract(*query),
{
    let mut filters: Vec<SearchFilter> = Vec::new();
    match &query.region {
        Some(r) => filters.push(SearchFilter::RegionFilter(r.clone())),
        None => (),
    }
    match &query.currency {
        Some(c) => filters.push(SearchFilter::CurrencyFilter(c.clone())),
        None => (),
    }
    match &query.sort {
        Some(s) => filters.push(SearchFilter::SortFilter(*s)),
        None => (),
    }
    proof {
        assert(filters@ =~= spec_extract(*query));
    }
    filters
}

/// Case-insensitive region match, through the lowercase folding.
pub open spec fn region_pred(region: Seq<char>) -> spec_fn(Country) -> bool {
    |c: Country| c.region is Some && lower_of(c.region->0@) == lower_of(region)
}

/// Exact currency-code match.
pub open spec fn currency_pred(code: Seq<char>) -> spec_fn(Country) -> bool {
    |c: Country|
        match c.currencies {
            Some(cur) => cur.code is Some && cur.code->0@ == code,
            None => false,
        }
}

/// The descending estimated-GDP order: a record with an absent metric ranks
/// below every record with a present one.
pub open spec fn gdp_ge(a: Country, b: Country) -> bool {
    match (a.estimated_gdp, b.estimated_gdp) {
        (Some(x), Some(y)) => x >= y,
        (Some(_), None) => true,
        (None, Some(_)) => false,
        (None, None) => true,
    }
}

/// Non-increasing in the descending estimated-GDP order.
pub open spec fn sorted_desc(s: Seq<Country>) -> bool {
    forall|i: int, j: int| 0 <= i < j < s.len() ==> gdp_ge(#[trigger] s[i], #[trigger] s[j])
}

/// Stable descending insertion: `c` goes after every element that ranks at
/// least as high.
pub open spec fn spec_insert_desc(s: Seq<Country>, c: Country) -> Seq<Country>
    decreases s.len(),
{
    if s.len() == 0 {
        seq![c]
    } else if gdp_ge(s[0], c) {
        seq![s[0]] + spec_insert_desc(s.drop_first(), c)
    } else {
        seq![c] + s
    }
}

/// Stable descending sort by estimated GDP: elements are inserted in their
/// given order, so equally-ranked records keep their relative order.
pub open spec fn spec_sort_desc(s: Seq<Country>) -> Seq<Country>
    decreases s.len(),
{
    if s.len() == 0 {
        Seq::<Country>::empty()
    } else {
        spec_insert_desc(spec_sort_desc(s.drop_last()), s.last())
    }
}

/// A filter's effect: region and currency keep the matching records and fail
/// (naming the filter) when nothing remains; the sort reorders only.
pub open spec fn spec_apply_one(s: Seq<Country>, f: SearchFilter) -> Result<
    Seq<Country>,
    SearchFilter,
> {
    match f {
        SearchFilter::RegionFilter(r) => {
            let t = s.filter(region_pred(r@));
            if t.len() == 0 {
                Err(f)
            } else {
                Ok(t)
            }
        },
        SearchFilter::CurrencyFilter(code) => {
            let t = s.filter(currency_pred(code@));
            if t.len() == 0 {
                Err(f)
            } else {
                Ok(t)
            }
        },
        SearchFilter::SortFilter(k) => Ok(spec_sort_desc(s)),
    }
}

/// Filters compose left to right, each applied to the previous output; the
/// first failing filter aborts the rest.
pub open spec fn spec_apply_filters(s: Seq<Country>, fs: Seq<SearchFilter>) -> Result<
    Seq<Country>,
    SearchFilter,
>
    decreases fs.len(),
{
    if fs.len() == 0 {
        Ok(s)
    } else {
        match spec_apply_one(s, fs[0]) {
            Ok(t) => spec_apply_filters(t, fs.drop_first()),
            Err(f) => Err(f),
        }
    }
}

/// A filter that keeps nothing of `s` keeps nothing.
pub proof fn lemma_filter_none<A>(s: Seq<A>, pred: spec_fn(A) -> bool)
    requires
        forall|i: int| 0 <= i < s.len() ==> !pred(#[trigger] s[i]),
    ensures
        s.filter(pred).len() == 0,
    decreases s.len(),
{
    reveal(Seq::filter);
    if s.len() > 0 {
        lemma_filter_none(s.drop_last(), pred);
    }
}

/// Extending the filtered prefix of `s` by one element.
pub proof fn lemma_filter_extend<A>(s: Seq<A>, i: int, pred: spec_fn(A) -> bool)
    requires
        0 <= i < s.len(),
    ensures
        s.subrange(0, i + 1).filter(pred) == if pred(s[i]) {
            s.subrange(0, i).filter(pred).push(s[i])
        } else {
            s.subrange(0, i).filter(pred)
        },
{
    reveal_with_fuel(Seq::<_>::filter, 2);
    let prefix = s.subrange(0, i);
    let single = seq![s[i]];
    assert(s.subrange(0, i + 1) =~= prefix + single);
    Seq::filter_distributes_over_add(prefix, single, pred);
    assert(single.drop_last() =~= Seq::<A>::empty());
    if pred(s[i]) {
        assert(s.subrange(0, i + 1).filter(pred) =~= prefix.filter(pred).push(s[i]));
    } else {
        assert(s.subrange(0, i + 1).filter(pred) =~= prefix.filter(pred));
    }
}

/// The records of `countries` whose region equals `region` up to case.
#[verifier::loop_isolation(false)]
fn filter_region(countries: &Vec<Country>, region: &String) -> (out: Vec<Country>)
    ensures
        out@ == countries@.filter(region_pred(region@)),
{
    let ghost pred = region_pred(region@);
    let target = lowercase(region.as_str());
    let mut out: Vec<Country> = Vec::new();
    let mut i: usize = 0;
    while i < countries.len()
        invariant
            i <= countries@.len(),
            out@ == countries@.subrange(0, i as int).filter(pred),
        decreases countries@.len() - i,
    {
        let keep = match &countries[i].region {
            Some(reg) => {
                let folded = lowercase(reg.as_str());
                folded == target
            },
            None => false,
        };
        proof {
            lemma_filter_extend(countries@, i as int, pred);
        }
        if keep {
            out.push(countries[i].duplicate());
        }
        i += 1;
    }
    proof {
        assert(countries@.subrange(0, countries@.len() as int) =~= countries@);
    }
    out
}

/// The records of `countries` whose currency code equals `code` exactly.
#[verifier::loop_isolation(false)]
fn filter_currency(countries: &Vec<Country>, code: &String) -> (out: Vec<Country>)
    ensures
        out@ == countries@.filter(currency_pred(code@)),
{
    let ghost pred = currency_pred(code@);
    let mut out: Vec<Country> = Vec::new();
    let mut i: usize = 0;
    while i < countries.len()
        invariant
            i <= countries@.len(),
            out@ == countries@.subrange(0, i as int).filter(pred),
        decreases countries@.len() - i,
    {
        let keep = match &countries[i].currencies {
            Some(cur) => match &cur.code {
                Some(c) => *c == *code,
                None => false,
            },
            None => false,
        };
        proof {
            lemma_filter_extend(countries@, i as int, pred);
        }
        if keep {
            out.push(countries[i].duplicate());
        }
        i += 1;
    }
    proof {
        assert(countries@.subrange(0, countries@.len() as int) =~= countries@);
    }
    out
}

/// The descending estimated-GDP order, decided.
fn gdp_ge_exec(a: &Country, b: &Country) -> (r: bool)
    ensures
        r == gdp_ge(*a, *b),
{
    match (a.estimated_gdp, b.estimated_gdp) {
        (Some(x), Some(y)) => x >= y,
        (Some(_), None) => true,
        (None, Some(_)) => false,
        (None, None) => true,
    }
}

/// Where a stable descending insertion places `c`: splitting `s` at the first
/// index that ranks strictly below `c`.
pub proof fn lemma_insert_desc_at(s: Seq<Country>, c: Country, p: int)
    requires
        sorted_desc(s),
        0 <= p <= s.len(),
        forall|k: int| p <= k < s.len() ==> !gdp_ge(#[trigger] s[k], c),
        p > 0 ==> gdp_ge(s[p - 1], c),
    ensures
        spec_insert_desc(s, c) =~= s.subrange(0, p) + seq![c] + s.subrange(p, s.len() as int),
    decreases s.len(),
{
    if p == 0 {
        if s.len() == 0 {
        } else {
            assert(!gdp_ge(s[0], c));
        }
    } else {
        assert(gdp_ge(s[0], c));
        let d = s.drop_first();
        assert(forall|i: int, j: int|
            0 <= i < j < d.len() ==> gdp_ge(#[trigger] d[i], #[trigger] d[j]));
        assert(forall|k: int| p - 1 <= k < d.len() ==> !gdp_ge(#[trigger] d[k], c));
        lemma_insert_desc_at(d, c, p - 1);
    }
}

/// A stable descending insertion keeps sortedness, grows the length by one,
/// and introduces only `c`.
pub proof fn lemma_insert_desc_sorted(s: Seq<Country>, c: Country)
    requires
        sorted_desc(s),
    ensures
        sorted_desc(spec_insert_desc(s, c)),
        spec_insert_desc(s, c).len() == s.len() + 1,
        forall|k: int|
            0 <= k < spec_insert_desc(s, c).len() ==> (#[trigger] spec_insert_desc(s, c)[k] == c
                || s.contains(spec_insert_desc(s, c)[k])),
    decreases s.len(),
{
    let t = spec_insert_desc(s, c);
    if s.len() == 0 {
    } else if gdp_ge(s[0], c) {
        let d = s.drop_first();
        assert(forall|i: int, j: int|
            0 <= i < j < d.len() ==> gdp_ge(#[trigger] d[i], #[trigger] d[j]));
        lemma_insert_desc_sorted(d, c);
        let u = spec_insert_desc(d, c);
        assert forall|k: int| 0 <= k < u.len() implies gdp_ge(s[0], u[k]) by {
            if u[k] != c {
                assert(d.contains(u[k]));
                let j = choose|j: int| 0 <= j < d.len() && d[j] == u[k];
                assert(d[j] == s[j + 1]);
            }
        }
        assert forall|k: int| 0 <= k < t.len() implies (t[k] == c || s.contains(t[k])) by {
            if k == 0 {
                assert(t[0] == s[0]);
            } else {
                assert(t[k] == u[k - 1]);
                if u[k - 1] != c {
                    assert(d.contains(u[k - 1]));
                    let j = choose|j: int| 0 <= j < d.len() && d[j] == u[k - 1];
                    assert(s[j + 1] == t[k]);
                }
            }
        }
        assert(sorted_desc(t)) by {
            assert forall|i: int, j: int| 0 <= i < j < t.len() implies gdp_ge(
                #[trigger] t[i],
                #[trigger] t[j],
            ) by {
                if i == 0 {
                    assert(t[j] == u[j - 1]);
                } else {
                    assert(t[i] == u[i - 1] && t[j] == u[j - 1]);
                }
            }
        }
    } else {
        assert(gdp_ge(c, s[0]));
        assert forall|i: int, j: int| 0 <= i < j < t.len() implies gdp_ge(
            #[trigger] t[i],
            #[trigger] t[j],
        ) by {
            if i == 0 {
                assert(t[j] == s[j - 1]);
                if j > 1 {
                    assert(gdp_ge(s[0], s[j - 1]));
                }
            } else {
                assert(t[i] == s[i - 1] && t[j] == s[j - 1]);
            }
        }
    }
}

/// A stable descending insertion adds exactly one copy of the inserted
/// record to the sequence's records.
pub proof fn lemma_insert_desc_multiset(s: Seq<Country>, c: Country)
    ensures
        spec_insert_desc(s, c).to_multiset() == s.to_multiset().insert(c),
    decreases s.len(),
{
    broadcast use vstd::seq_lib::group_to_multiset_ensures;
    broadcast use vstd::multiset::group_multiset_axioms;

    if s.len() == 0 {
        assert(seq![c] =~= Seq::<Country>::empty().push(c));
    } else if gdp_ge(s[0], c) {
        let d = s.drop_first();
        lemma_insert_desc_multiset(d, c);
        vstd::seq_lib::lemma_multiset_commutative(seq![s[0]], spec_insert_desc(d, c));
        vstd::seq_lib::lemma_multiset_commutative(seq![s[0]], d);
        assert(s =~= seq![s[0]] + d);
        assert(seq![s[0]] =~= Seq::<Country>::empty().push(s[0]));
        assert(spec_insert_desc(s, c).to_multiset() =~= s.to_multiset().insert(c));
    } else {
        vstd::seq_lib::lemma_multiset_commutative(seq![c], s);
        assert(seq![c] =~= Seq::<Country>::empty().push(c));
        assert(spec_insert_desc(s, c).to_multiset() =~= s.to_multiset().insert(c));
    }
}

/// The stable descending sort permutes its input: the same records, with the
/// same counts, and nothing else.
pub proof fn lemma_sort_desc_permutes(s: Seq<Country>)
    ensures
        spec_sort_desc(s).to_multiset() == s.to_multiset(),
    decreases s.len(),
{
    broadcast use vstd::seq_lib::group_to_multiset_ensures;

    if s.len() > 0 {
        lemma_sort_desc_permutes(s.drop_last());
        lemma_insert_desc_multiset(spec_sort_desc(s.drop_last()), s.last());
        assert(s =~= s.drop_last().push(s.last()));
    }
}

/// The stable descending sort leaves a sorted sequence of the same length.
pub proof fn lemma_sort_desc_sorted(s: Seq<Country>)
    ensures
        sorted_desc(spec_sort_desc(s)),
        spec_sort_desc(s).len() == s.len(),
    decreases s.len(),
{
    if s.len() > 0 {
        lemma_sort_desc_sorted(s.drop_last());
        lemma_insert_desc_sorted(spec_sort_desc(s.drop_last()), s.last());
    }
}

/// Sorts the records by estimated GDP, descending, absent metrics last,
/// equally-ranked records in their given order.
#[verifier::loop_isolation(false)]
pub fn sort_by_gdp_desc(countries: Vec<Country>) -> (out: Vec<Country>)
    ensures
        out@ == spec_sort_desc(countries@),
{
    let mut out: Vec<Country> = Vec::new();
    let mut i: usize = 0;
    while i < countries.len()
        invariant
            i <= countries@.len(),
            out@ == spec_sort_desc(countries@.subrange(0, i as int)),
            sorted_desc(out@),
        decreases countries@.len() - i,
    {
        let c = countries[i].duplicate();
        let mut p: usize = out.len();
        while p > 0 && !gdp_ge_exec(&out[p - 1], &c)
            invariant
                p <= out@.len(),
                forall|k: int| p <= k < out@.len() ==> !gdp_ge(#[trigger] out@[k], c),
            decreases p,
        {
            p -= 1;
        }
        let ghost pre = out@;
        out.insert(p, c);
        proof {
            lemma_insert_desc_at(pre, c, p as int);
            assert(out@ =~= pre.subrange(0, p as int) + seq![c] + pre.subrange(
                p as int,
                pre.len() as int,
            ));
            let next = countries@.subrange(0, i + 1 as int);
            assert(next.drop_last() =~= countries@.subrange(0, i as int));
            assert(next.last() == countries@[i as int]);
            lemma_insert_desc_sorted(pre, c);
        }
        i += 1;
    }
    proof {
        assert(countries@.subrange(0, countries@.len() as int) =~= countries@);
    }
    out
}

/// Applies the filters in order, each to the previous output. A region or
/// currency filter that leaves nothing yields a validation error naming the
/// offending part; an empty result is never a success.
#[verifier::loop_isolation(false)]
pub fn apply_filters(countries: Vec<Country>, filters: &Vec<SearchFilter>) -> (r: Result<
    Vec<Country>,
    ApiError,
>)
    ensures
        match r {
            Ok(out) => spec_apply_filters(countries@, filters@) == Ok::<_, SearchFilter>(out@),
            Err(e) => {
                &&& spec_apply_filters(countries@, filters@) is Err
                &&& e.kind == ErrorKind::ValidationError
                &&& match spec_apply_filters(countries@, filters@) {
                    Err(f) => match f {
                        SearchFilter::RegionFilter(_) => e.detail@ == "region is required"@,
                        SearchFilter::CurrencyFilter(_) => e.detail@
                            == "currency_code is required"@,
                        SearchFilter::SortFilter(_) => false,
                    },
                    Ok(_) => false,
                }
            },
        },
{
    let mut acc = countries;
    let ghost whole = acc@;
    let mut i: usize = 0;
    proof {
        assert(filters@.skip(0) =~= filters@);
    }
    while i < filters.len()
        invariant
            i <= filters@.len(),
            spec_apply_filters(whole, filters@) == spec_apply_filters(
                acc@,
                filters@.skip(i as int),
            ),
        decreases filters@.len() - i,
    {
        proof {
            assert(filters@.skip(i as int)[0] == filters@[i as int]);
            assert(filters@.skip(i as int).drop_first() =~= filters@.skip(i + 1 as int));
        }
        match &filters[i] {
            SearchFilter::RegionFilter(region) => {
                let kept = filter_region(&acc, region);
                if kept.len() == 0 {
                    return Err(
                        ApiError::new(ErrorKind::ValidationError, "region is required"),
                    );
                }
                acc = kept;
            },
            SearchFilter::CurrencyFilter(code) => {
                let kept = filter_currency(&acc, code);
                if kept.len() == 0 {
                    return Err(
                        ApiError::new(ErrorKind::ValidationError, "currency_code is required"),
                    );
                }
                acc = kept;
            },
            SearchFilter::SortFilter(kind) => {
                match kind {
                    SortKind::GdpDesc => {
                        acc = sort_by_gdp_desc(acc);
                    },
                }
            },
        }
        i += 1;
    }
    proof {
        assert(filters@.skip(filters@.len() as int) =~= Seq::<SearchFilter>::empty());
    }
    Ok(acc)
}

/// A region filter over records none of which lie in the region is a
/// validation failure, never an empty success.
pub proof fn lemma_region_filter_validation(s: Seq<Country>, f: SearchFilter)
    requires
        f is RegionFilter,
        forall|i: int| 0 <= i < s.len() ==> !(region_pred(f->RegionFilter_0@)(#[trigger] s[i])),
    ensures
        spec_apply_filters(s, seq![f]) == Err::<Seq<Country>, SearchFilter>(f),
{
    lemma_filter_none(s, region_pred(f->RegionFilter_0@));
    assert(seq![f].drop_first() =~= Seq::<SearchFilter>::empty());
}

} // verus!
