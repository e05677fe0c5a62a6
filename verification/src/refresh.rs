use vstd::prelude::*;
use crate::errors::ApiError;
use crate::errors::ErrorKind;
use crate::json::catalog_array_of;
use crate::json::fetch_countries_data;
use crate::json::is_country_of_json;
use crate::merge::MULTIPLIER_MAX;
use crate::merge::MULTIPLIER_MIN;
use crate::merge::draw_multiplier;
use crate::merge::is_merge_of;
use crate::merge::merge_record;
use crate::merge::merged_from;
use crate::rates::RateTable;
use crate::rates::positive_pred;
use crate::record::Country;
use crate::record::duplicate_records;
use crate::store::Store;
use crate::store::spec_upsert;
use crate::summary::build_summary_metadata;
use crate::summary::spec_snapshot_json;
use crate::summary::spec_top_n;
use crate::summary::summary_image_lines;
use crate::summary::top_countries_by_gdp;

verus! {

/// What persisting the merged records one by one, in order, leaves in the
/// store.
pub open spec fn spec_persist_merged(s0: Seq<Country>, merged: Seq<Country>) -> Seq<Country>
    decreases merged.len(),
{
    if merged.len() == 0 {
        s0
    } else {
        spec_upsert(spec_persist_merged(s0, merged.drop_last()), merged.last())
    }
}

/// Merges every raw record against the cycle's rate table and upserts each
/// result, in order: one record merged and persisted per raw entry, each a
/// merge under some multiplier from the fixed band, all stamped with the one
/// shared timestamp.
pub fn merge_and_persist(
    store: &mut Store,
    raws: &Vec<Country>,
    rates: &RateTable,
    timestamp: &String,
) -> (merged: Vec<Country>)
    requires
        old(store).wf(),
        rates.wf(),
    ensures
        final(store).wf(),
        final(store).summary == old(store).summary,
        merged@.len() == raws@.len(),
        forall|k: int|
            0 <= k < raws@.len() ==> merged_from(#[trigger] merged@[k], raws@[k], *rates, *timestamp),
        final(store).records@ == spec_persist_merged(old(store).records@, merged@),
{
    let ghost s0 = store.records@;
    let mut merged: Vec<Country> = Vec::new();
    let mut i: usize = 0;
    while i < raws.len()
        invariant
            i <= raws@.len(),
            merged@.len() == i,
            store.wf(),
            store.summary == old(store).summary,
            rates.wf(),
            forall|k: int|
                0 <= k < i ==> merged_from(#[trigger] merged@[k], raws@[k], *rates, *timestamp),
            store.records@ == spec_persist_merged(s0, merged@),
            s0 == old(store).records@,
        decreases raws@.len() - i,
    {
        let ghost pre_merged = merged@;
        let mult = draw_multiplier();
        let m = merge_record(&raws[i], rates, mult, timestamp);
        let copy = m.duplicate();
        store.insert_or_update_country(m);
        merged.push(copy);
        proof {
            assert(merged@.drop_last() =~= pre_merged);
            assert(merged@.last() == copy);
            assert(store.records@ == spec_persist_merged(s0, merged@));
            assert forall|k: int| 0 <= k < i + 1 implies merged_from(
                #[trigger] merged@[k],
                raws@[k],
                *rates,
                *timestamp,
            ) by {
                if k == i {
                    assert(is_merge_of(merged@[k], raws@[k], *rates, mult, *timestamp));
                } else {
                    assert(merged@[k] == pre_merged[k]);
                }
            }
        }
        i += 1;
    }
    merged
}

/// One persisted record as the cycle makes it from one catalog entry: the
/// entry decoded defensively into a raw record, then merged under some
/// multiplier from the fixed band.
pub open spec fn merged_from_catalog(
    m: Country,
    item: serde_json::Value,
    rates: RateTable,
    timestamp: String,
) -> bool {
    exists|raw: Country| is_country_of_json(raw, item) && merged_from(m, raw, rates, timestamp)
}

/// What a successful cycle guarantees of the store and the report: the
/// catalog text decodes as a JSON array, and one merged record per array
/// entry — each decoded from its entry and merged against the table built
/// from the fetched rate entries, each well-formed and stamped with the one
/// shared timestamp — was upserted in order over the prior rows; the fresh
/// metadata row describes exactly that set.
pub open spec fn spec_refresh_success(
    pre: Seq<Country>,
    post: Store,
    report: RefreshReport,
    timestamp: String,
    text: Seq<char>,
    rate_entries: Seq<(String, u64)>,
) -> bool {
    &&& catalog_array_of(text) is Some
    &&& exists|merged: Seq<Country>|
        {
            &&& post.records@ == #[trigger] spec_persist_merged(pre, merged)
            &&& merged.len() == catalog_array_of(text)->0.len()
            &&& exists|rt: RateTable|
                (#[trigger] rt.entries@) == rate_entries.filter(positive_pred()) && forall|k: int|
                    0 <= k < merged.len() ==> merged_from_catalog(
                        #[trigger] merged[k],
                        catalog_array_of(text)->0[k],
                        rt,
                        timestamp,
                    )
            &&& forall|k: int|
                0 <= k < merged.len() ==> (#[trigger] merged[k]).wf()
                    && merged[k].last_refreshed_at == Some(timestamp)
            &&& report.merged_count == merged.len()
            &&& report.lines@.len() == 4 + spec_top_n(merged, 5).len()
            &&& match post.summary {
                Some(meta) => {
                    &&& meta.file_path@ == ("cache/summary.png")@
                    &&& meta.total_countries == merged.len()
                    &&& meta.top_countries_json@ == spec_snapshot_json(spec_top_n(merged, 5))
                    &&& meta.last_refreshed_at@ == timestamp@
                },
                None => false,
            }
        }
}

/// What one refresh cycle did, for the caller to render and report: the
/// artifact's text lines and the count of records persisted.
pub struct RefreshReport {
    pub lines: Vec<String>,
    pub merged_count: u64,
}

/// One refresh cycle over already-fetched source material: decode the
/// country catalog, merge every entry against the rate table, persist each
/// merged record, then replace the summary metadata and hand back the text
/// lines of the artifact for rendering.
///
/// A failed fetch of either source — the rate table is consulted first — or
/// an undecodable catalog aborts the cycle before any write: the store is
/// untouched and the failure passes through. On success the store holds the
/// merged records upserted in order, every one stamped with the one shared
/// timestamp, and the fresh metadata row carries the artifact path, the
/// count at generation time, the JSON snapshot of the top five by estimated
/// GDP, and the timestamp.
pub fn refresh_cycle(
    store: &mut Store,
    rates_fetch: Result<Vec<(String, u64)>, ApiError>,
    countries_fetch: Result<String, ApiError>,
    timestamp: &String,
) -> (r: Result<RefreshReport, ApiError>)
    requires
        old(store).wf(),
    ensures
        final(store).wf(),
        match r {
            Ok(report) => rates_fetch is Ok && countries_fetch is Ok && spec_refresh_success(
                old(store).records@,
                *final(store),
                report,
                *timestamp,
                countries_fetch->Ok_0@,
                rates_fetch->Ok_0@,
            ),
            Err(e) => {
                &&& final(store).records@ == old(store).records@
                &&& final(store).summary == old(store).summary
                &&& (rates_fetch is Err ==> e == rates_fetch->Err_0)
                &&& (rates_fetch is Ok && countries_fetch is Err ==> e == countries_fetch->Err_0)
                &&& (rates_fetch is Ok && countries_fetch is Ok ==> catalog_array_of(
                    countries_fetch->Ok_0@,
                ) is None && e.kind == ErrorKind::ParseError)
            },
        },
{
    let entries = match rates_fetch {
        Ok(entries) => entries,
        Err(e) => {
            return Err(e);
        },
    };
    let text = match countries_fetch {
        Ok(text) => text,
        Err(e) => {
            return Err(e);
        },
    };
    let raws = match fetch_countries_data(text.as_str()) {
        Ok(raws) => raws,
        Err(e) => {
            return Err(e);
        },
    };
    let ghost entries_view = entries@;
    let rates = RateTable::from_entries(entries);
    let merged = merge_and_persist(store, &raws, &rates, timestamp);
    let top = top_countries_by_gdp(duplicate_records(&merged));
    let lines = summary_image_lines(&merged, &top, timestamp);
    let meta = build_summary_metadata(&merged, &top, timestamp);
    let merged_count = merged.len() as u64;
    store.save_summary_metadata(meta);
    proof {
        assert forall|k: int| 0 <= k < merged@.len() implies (#[trigger] merged@[k]).wf()
            && merged@[k].last_refreshed_at == Some(*timestamp) by {
            assert(merged_from(merged@[k], raws@[k], rates, *timestamp));
            let mult = choose|mult: u64|
                MULTIPLIER_MIN <= mult <= MULTIPLIER_MAX && is_merge_of(
                    merged@[k],
                    raws@[k],
                    rates,
                    mult,
                    *timestamp,
                );
            assert(is_merge_of(merged@[k], raws@[k], rates, mult, *timestamp));
        }
        let arr = catalog_array_of(text@)->0;
        assert forall|k: int| 0 <= k < merged@.len() implies merged_from_catalog(
            #[trigger] merged@[k],
            arr[k],
            rates,
            *timestamp,
        ) by {
            assert(is_country_of_json(raws@[k], arr[k]));
            assert(merged_from(merged@[k], raws@[k], rates, *timestamp));
        }
        assert(rates.entries@ == entries_view.filter(positive_pred()));
    }
    Ok(RefreshReport { lines, merged_count })
}

/// Relies on chrono::Utc::now and DateTime::to_rfc3339_opts for the cycle's
/// shared timestamp, taken once at cycle start; nothing is assumed of the
/// clock's value.
#[verifier::external_body]
pub fn now_rfc3339() -> (ts: String) {
    chrono::Utc::now().to_rfc3339_opts(chrono::SecondsFormat::Millis, true)
}

/// A whole refresh over already-fetched source material, stamped with the
/// clock's timestamp, taken once at cycle start and shared by every record
/// of the cycle.
pub fn refresh_countries_data(
    store: &mut Store,
    rates_fetch: Result<Vec<(String, u64)>, ApiError>,
    countries_fetch: Result<String, ApiError>,
) -> (r: Result<RefreshReport, ApiError>)
    requires
        old(store).wf(),
    ensures
        final(store).wf(),
        match r {
            Ok(report) => rates_fetch is Ok && countries_fetch is Ok && exists|ts: String|
                #[trigger] spec_refresh_success(
                    old(store).records@,
                    *final(store),
                    report,
                    ts,
                    countries_fetch->Ok_0@,
                    rates_fetch->Ok_0@,
                ),
            Err(e) => {
                &&& final(store).records@ == old(store).records@
                &&& final(store).summary == old(store).summary
                &&& (rates_fetch is Err ==> e == rates_fetch->Err_0)
                &&& (rates_fetch is Ok && countries_fetch is Err ==> e == countries_fetch->Err_0)
                &&& (rates_fetch is Ok && countries_fetch is Ok ==> catalog_array_of(
                    countries_fetch->Ok_0@,
                ) is None && e.kind == ErrorKind::ParseError)
            },
        },
{
    let timestamp = now_rfc3339();
    refresh_cycle(store, rates_fetch, countries_fetch, &timestamp)
}

} // verus!
