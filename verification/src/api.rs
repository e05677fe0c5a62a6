use vstd::prelude::*;
use vstd::string::StrSliceExecFns;
use crate::errors::ApiError;
use crate::errors::ErrorKind;
use crate::filters::SearchFilter;
use crate::filters::SearchQuery;
use crate::filters::spec_apply_filters;
use crate::filters::spec_extract;
use crate::filters::apply_filters;
use crate::filters::extract_filters_from_query;
use crate::record::Country;
use crate::store::Store;
use crate::store::find_name;
use crate::store::spec_delete;
use crate::summary::dec_str;
use crate::summary::spec_record_fields;

verus! {

/// Whether the character lies in Unicode's White_Space set, the set that
/// std's whitespace checks and trimming use.
pub open spec fn spec_is_space(c: char) -> bool {
    ||| c == ' '
    ||| c == '\t'
    ||| c == '\n'
    ||| c == '\u{0B}'
    ||| c == '\u{0C}'
    ||| c == '\r'
    ||| c == '\u{85}'
    ||| c == '\u{A0}'
    ||| c == '\u{1680}'
    ||| c == '\u{2000}'
    ||| c == '\u{2001}'
    ||| c == '\u{2002}'
    ||| c == '\u{2003}'
    ||| c == '\u{2004}'
    ||| c == '\u{2005}'
    ||| c == '\u{2006}'
    ||| c == '\u{2007}'
    ||| c == '\u{2008}'
    ||| c == '\u{2009}'
    ||| c == '\u{200A}'
    ||| c == '\u{2028}'
    ||| c == '\u{2029}'
    ||| c == '\u{202F}'
    ||| c == '\u{205F}'
    ||| c == '\u{3000}'
}

/// Decides membership in the White_Space set.
fn is_space_char(c: char) -> (r: bool)
    ensures
        r == spec_is_space(c),
{
    match c {
        ' ' | '\t' | '\n' | '\u{0B}' | '\u{0C}' | '\r' | '\u{85}' | '\u{A0}' | '\u{1680}'
            | '\u{2000}' | '\u{2001}' | '\u{2002}' | '\u{2003}' | '\u{2004}' | '\u{2005}'
            | '\u{2006}' | '\u{2007}' | '\u{2008}' | '\u{2009}' | '\u{200A}' | '\u{2028}'
            | '\u{2029}' | '\u{202F}' | '\u{205F}' | '\u{3000}' => true,
        _ => false,
    }
}

/// Whether the text is empty or all whitespace: such a name is rejected
/// before any store access.
pub open spec fn spec_is_blank(s: Seq<char>) -> bool {
    forall|i: int| 0 <= i < s.len() ==> spec_is_space(#[trigger] s[i])
}

/// Decides blankness, character by character.
pub fn is_blank(s: &str) -> (r: bool)
    ensures
        r == spec_is_blank(s@),
{
    let n = s.unicode_len();
    let mut i: usize = 0;
    while i < n
        invariant
            n == s@.len(),
            i <= n,
            forall|j: int| 0 <= j < i ==> spec_is_space(#[trigger] s@[j]),
        decreases n - i,
    {
        if !is_space_char(s.get_char(i)) {
            return false;
        }
        i += 1;
    }
    true
}

/// Single-record read by exact name: a blank name is a validation failure, a
/// missing name a not-found, distinct from each other; otherwise the stored
/// row is returned.
pub fn lookup_country(store: &Store, name: &String) -> (r: Result<Country, ApiError>)
    ensures
        match r {
            Ok(c) => {
                &&& !spec_is_blank(name@)
                &&& find_name(store.records@, name@) >= 0
                &&& c == store.records@[find_name(store.records@, name@)]
            },
            Err(e) => {
                &&& (e.kind == ErrorKind::ValidationError <==> spec_is_blank(name@))
                &&& (spec_is_blank(name@) ==> e.detail@ == ("name is required")@)
                &&& (!spec_is_blank(name@) ==> e.kind == ErrorKind::NotFoundError && find_name(
                    store.records@,
                    name@,
                ) == -1)
            },
        },
{
    if is_blank(name.as_str()) {
        return Err(ApiError::new(ErrorKind::ValidationError, "name is required"));
    }
    match store.get_country_by_name(name) {
        Some(c) => Ok(c),
        None => Err(ApiError::new(ErrorKind::NotFoundError, "no country found with that name")),
    }
}

/// Delete by exact name, with the same validation and not-found semantics as
/// the read: deleting a missing name is not-found, deleting an existing name
/// removes its one row.
pub fn delete_country(store: &mut Store, name: &String) -> (r: Result<(), ApiError>)
    requires
        old(store).wf(),
    ensures
        final(store).wf(),
        final(store).summary == old(store).summary,
        match r {
            Ok(()) => {
                &&& !spec_is_blank(name@)
                &&& find_name(old(store).records@, name@) >= 0
                &&& final(store).records@ == spec_delete(old(store).records@, name@)
            },
            Err(e) => {
                &&& final(store).records@ == old(store).records@
                &&& (e.kind == ErrorKind::ValidationError <==> spec_is_blank(name@))
                &&& (spec_is_blank(name@) ==> e.detail@ == ("name is required")@)
                &&& (!spec_is_blank(name@) ==> e.kind == ErrorKind::NotFoundError && find_name(
                    old(store).records@,
                    name@,
                ) == -1)
            },
        },
{
    if is_blank(name.as_str()) {
        return Err(ApiError::new(ErrorKind::ValidationError, "name is required"));
    }
    proof {
        crate::store::lemma_find_name(store.records@, name@);
    }
    let deleted = store.delete_country_by_name(name);
    if deleted > 0 {
        Ok(())
    } else {
        Err(ApiError::new(ErrorKind::NotFoundError, "no country found with that name"))
    }
}

/// The first index whose record carries a refresh timestamp, or -1 if none
/// does.
pub open spec fn first_stamped(s: Seq<Country>) -> int
    decreases s.len(),
{
    if s.len() == 0 {
        -1
    } else if s[0].last_refreshed_at is Some {
        0
    } else if first_stamped(s.drop_first()) == -1 {
        -1
    } else {
        first_stamped(s.drop_first()) + 1
    }
}

/// `first_stamped` returns -1 exactly when no record carries a timestamp;
/// otherwise it returns the first index that does.
pub proof fn lemma_first_stamped(s: Seq<Country>)
    ensures
        first_stamped(s) == -1 ==> forall|i: int|
            0 <= i < s.len() ==> (#[trigger] s[i]).last_refreshed_at is None,
        first_stamped(s) != -1 ==> {
            &&& 0 <= first_stamped(s) < s.len()
            &&& s[first_stamped(s)].last_refreshed_at is Some
            &&& forall|i: int|
                0 <= i < first_stamped(s) ==> (#[trigger] s[i]).last_refreshed_at is None
        },
    decreases s.len(),
{
    if s.len() > 0 {
        lemma_first_stamped(s.drop_first());
        if first_stamped(s) == -1 {
            assert forall|i: int| 0 <= i < s.len() implies (
            #[trigger] s[i]).last_refreshed_at is None by {
                if i > 0 {
                    assert(s[i] == s.drop_first()[i - 1]);
                }
            }
        } else {
            let r = first_stamped(s);
            if s[0].last_refreshed_at is None {
                assert(s[r] == s.drop_first()[r - 1]);
                assert forall|i: int| 0 <= i < r implies (
                #[trigger] s[i]).last_refreshed_at is None by {
                    if i > 0 {
                        assert(s[i] == s.drop_first()[i - 1]);
                    }
                }
            }
        }
    }
}

/// The status read: the persisted count and the refresh timestamp of the
/// first stamped record; not-found exactly while no record carries one.
pub fn get_countries_and_last_refreash(store: &Store) -> (r: Result<(u64, String), ApiError>)
    ensures
        match r {
            Ok((n, ts)) => {
                &&& n == store.records@.len()
                &&& first_stamped(store.records@) >= 0
                &&& store.records@[first_stamped(store.records@)].last_refreshed_at == Some(ts)
            },
            Err(e) => {
                &&& e.kind == ErrorKind::NotFoundError
                &&& forall|i: int|
                    0 <= i < store.records@.len() ==> (
                    #[trigger] store.records@[i]).last_refreshed_at is None
            },
        },
{
    let mut i: usize = 0;
    while i < store.records.len()
        invariant
            i <= store.records@.len(),
            forall|j: int|
                0 <= j < i ==> (#[trigger] store.records@[j]).last_refreshed_at is None,
        decreases store.records@.len() - i,
    {
        match &store.records[i].last_refreshed_at {
            Some(ts) => {
                proof {
                    lemma_first_stamped(store.records@);
                }
                return Ok((store.records.len() as u64, ts.clone()));
            },
            None => (),
        }
        i += 1;
    }
    Err(
        ApiError::new(ErrorKind::NotFoundError, "countries data might not have been refreshed yet"),
    )
}

/// One record as a JSON object carrying a one-based position.
pub open spec fn spec_record_json_with_id(c: Country, id: nat) -> Seq<char> {
    ("{\"id\":")@ + dec_str(id) + (",")@ + spec_record_fields(c) + ("}")@
}

/// The comma-separated listing items, each carrying its one-based position.
pub open spec fn spec_listing_items(s: Seq<Country>) -> Seq<char>
    decreases s.len(),
{
    if s.len() == 0 {
        Seq::<char>::empty()
    } else if s.len() == 1 {
        spec_record_json_with_id(s[0], 1)
    } else {
        spec_listing_items(s.drop_last()) + seq![','] + spec_record_json_with_id(
            s.last(),
            s.len() as nat,
        )
    }
}

/// The filtered listing as a JSON array.
pub open spec fn spec_listing_json(s: Seq<Country>) -> Seq<char> {
    seq!['['] + spec_listing_items(s) + seq![']']
}

/// The validation detail the listing owes for each failure: the failing
/// filter's own message, or the empty-store message.
pub open spec fn spec_listing_error_detail(s: Seq<Country>, q: SearchQuery, detail: Seq<char>) -> bool {
    if s.len() == 0 {
        detail == ("no countries found in database")@
    } else {
        match spec_apply_filters(s, spec_extract(q)) {
            Err(f) => match f {
                SearchFilter::RegionFilter(_) => detail == ("region is required")@,
                SearchFilter::CurrencyFilter(_) => detail == ("currency_code is required")@,
                SearchFilter::SortFilter(_) => false,
            },
            Ok(_) => false,
        }
    }
}

/// The read query: all records, filtered and ordered by the query, marshaled
/// as a JSON array with one-based positions. An empty store, like a filter
/// that leaves nothing, is a validation failure carrying that failure's
/// detail, never an empty success.
#[verifier::rlimit(50)]
pub fn get_countries_data(store: &Store, query: &SearchQuery) -> (r: Result<String, ApiError>)
    ensures
        match r {
            Ok(out) => {
                &&& store.records@.len() > 0
                &&& match spec_apply_filters(store.records@, spec_extract(*query)) {
                    Ok(f) => out@ == spec_listing_json(f),
                    Err(_) => false,
                }
            },
            Err(e) => {
                &&& e.kind == ErrorKind::ValidationError
                &&& (store.records@.len() == 0 || spec_apply_filters(
                    store.records@,
                    spec_extract(*query),
                ) is Err)
                &&& spec_listing_error_detail(store.records@, *query, e.detail@)
            },
        },
{
    let records = store.get_all_countries();
    if records.len() == 0 {
        return Err(ApiError::new(ErrorKind::ValidationError, "no countries found in database"));
    }
    let filters = extract_filters_from_query(query);
    let filtered = match apply_filters(records, &filters) {
        Ok(f) => f,
        Err(e) => {
            return Err(e);
        },
    };
    proof {
        reveal_strlit("[");
        reveal_strlit("]");
        reveal_strlit(",");
        assert(("[")@ =~= seq!['[']);
        assert(("]")@ =~= seq![']']);
        assert((",")@ =~= seq![',']);
    }
    let mut acc = ("[").to_owned();
    let mut i: usize = 0;
    while i < filtered.len()
        invariant
            i <= filtered@.len(),
            acc@ == seq!['['] + spec_listing_items(filtered@.subrange(0, i as int)),
            ("[")@ == seq!['['],
            ("]")@ == seq![']'],
            (",")@ == seq![','],
        decreases filtered@.len() - i,
    {
        if i > 0 {
            acc.append(",");
        }
        acc.append(filtered[i].structure_country_for_return(i + 1).as_str());
        proof {
            let next = filtered@.subrange(0, i + 1 as int);
            assert(next.drop_last() =~= filtered@.subrange(0, i as int));
            assert(next.last() == filtered@[i as int]);
            assert(acc@ =~= seq!['['] + spec_listing_items(next));
        }
        i += 1;
    }
    acc.append("]");
    proof {
        assert(filtered@.subrange(0, filtered@.len() as int) =~= filtered@);
        assert(acc@ =~= spec_listing_json(filtered@));
    }
    Ok(acc)
}

} // verus!
