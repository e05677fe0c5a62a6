use vstd::prelude::*;
use crate::rates::RateTable;
use crate::record::Country;
use vstd::arithmetic::div_mod::lemma_div_is_ordered;
use vstd::arithmetic::mul::lemma_mul_inequality;

verus! {

/// Smallest multiplier the derived-metric noise may take.
pub const MULTIPLIER_MIN: u64 = 1000;

/// Largest multiplier the derived-metric noise may take.
pub const MULTIPLIER_MAX: u64 = 2000;

/// The estimated GDP in micro-units: `population * multiplier / rate`, where
/// the rate is itself in micro-units. The factor 10^12 turns the plain
/// quotient into micro-units while cancelling the rate's own scale.
pub open spec fn spec_gdp_micro(pop: u64, multiplier: u64, rate_micro: u64) -> int
    recommends
        rate_micro > 0,
{
    (pop * multiplier * 1_000_000_000_000) / (rate_micro as int)
}

/// Relies on rand::random_range: a uniform sample from the given range, so
/// the result lies within it.
#[verifier::external_body]
pub fn draw_multiplier() -> (m: u64)
    ensures
        MULTIPLIER_MIN <= m <= MULTIPLIER_MAX,
{
    rand::random_range(1000u64..=2000u64)
}

/// Computes the estimated GDP exactly, in micro-units, without overflow.
pub fn estimated_gdp_micro(pop: u64, multiplier: u64, rate_micro: u64) -> (g: u128)
    requires
        multiplier <= MULTIPLIER_MAX,
        rate_micro > 0,
    ensures
        g == spec_gdp_micro(pop, multiplier, rate_micro),
{
    proof {
        lemma_mul_inequality(pop as int, u64::MAX as int, multiplier as int);
        lemma_mul_inequality(
            pop as int * multiplier as int,
            u64::MAX as int * 2000,
            1_000_000_000_000,
        );
    }
    let noisy: u128 = (pop as u128) * (multiplier as u128) * 1_000_000_000_000u128;
    noisy / (rate_micro as u128)
}

/// For a fixed population and rate, the estimated GDP of a merge lies within
/// the band spanned by the extreme multipliers, whatever multiplier the merge
/// drew: re-running a merge changes the metric only within this band.
pub proof fn lemma_gdp_within_band(pop: u64, multiplier: u64, rate_micro: u64)
    requires
        MULTIPLIER_MIN <= multiplier <= MULTIPLIER_MAX,
        rate_micro > 0,
    ensures
        spec_gdp_micro(pop, MULTIPLIER_MIN, rate_micro) <= spec_gdp_micro(
            pop,
            multiplier,
            rate_micro,
        ),
        spec_gdp_micro(pop, multiplier, rate_micro) <= spec_gdp_micro(
            pop,
            MULTIPLIER_MAX,
            rate_micro,
        ),
{
    let lo = pop as int * (MULTIPLIER_MIN as int);
    let mid = pop as int * (multiplier as int);
    let hi = pop as int * (MULTIPLIER_MAX as int);
    assert(lo <= mid && mid <= hi) by (nonlinear_arith)
        requires
            MULTIPLIER_MIN <= multiplier <= MULTIPLIER_MAX,
            lo == pop as int * (MULTIPLIER_MIN as int),
            mid == pop as int * (multiplier as int),
            hi == pop as int * (MULTIPLIER_MAX as int),
    ;
    lemma_mul_inequality(lo, mid, 1_000_000_000_000);
    lemma_mul_inequality(mid, hi, 1_000_000_000_000);
    lemma_div_is_ordered(lo * 1_000_000_000_000, mid * 1_000_000_000_000, rate_micro as int);
    lemma_div_is_ordered(mid * 1_000_000_000_000, hi * 1_000_000_000_000, rate_micro as int);
}

/// The whole merge relation: `m` is what merging `raw` against `rates` with
/// this `multiplier` and cycle `timestamp` yields. The identity and
/// descriptive fields carry over unchanged; the record is stamped with the
/// cycle's shared timestamp. The derived fields follow the missing-data
/// policy: without a currency code, or with a code the table does not know,
/// both the exchange rate and the estimated GDP are absent; with a known
/// code, the rate is recorded and the estimated GDP is derived exactly when a
/// population is present.
pub open spec fn is_merge_of(
    m: Country,
    raw: Country,
    rates: RateTable,
    multiplier: u64,
    timestamp: String,
) -> bool {
    &&& m.name == raw.name
    &&& m.capital == raw.capital
    &&& m.region == raw.region
    &&& m.population == raw.population
    &&& m.currencies == raw.currencies
    &&& m.independent == raw.independent
    &&& m.flag_url == raw.flag_url
    &&& m.last_refreshed_at == Some(timestamp)
    &&& match raw.spec_currency_code() {
        None => m.exchange_rate is None && m.estimated_gdp is None,
        Some(code) => match rates.spec_lookup(code) {
            None => m.exchange_rate is None && m.estimated_gdp is None,
            Some(rate) => {
                &&& m.exchange_rate == Some(rate)
                &&& match raw.population {
                    Some(pop) => m.estimated_gdp is Some && m.estimated_gdp->0 == spec_gdp_micro(
                        pop,
                        multiplier,
                        rate,
                    ),
                    None => m.estimated_gdp is None,
                }
            },
        },
    }
    &&& m.wf()
}

/// Whether `m` is a merge of `raw` under some multiplier from the fixed
/// band: what one refresh cycle may make of a raw entry, the drawn noise
/// abstracted away.
pub open spec fn merged_from(m: Country, raw: Country, rates: RateTable, timestamp: String) -> bool {
    exists|mult: u64|
        MULTIPLIER_MIN <= mult <= MULTIPLIER_MAX && is_merge_of(m, raw, rates, mult, timestamp)
}

/// Re-running a merge of the same record against the same rate table yields a
/// metric within the same bound: whenever the currency code is known and a
/// population is present, any merge's estimated GDP lies between the metrics
/// of the extreme multipliers.
pub proof fn lemma_merge_gdp_in_band(m: Country, raw: Country, rates: RateTable, timestamp: String)
    requires
        rates.wf(),
        merged_from(m, raw, rates, timestamp),
        raw.spec_currency_code() is Some,
        rates.spec_lookup(raw.spec_currency_code()->0) is Some,
        raw.population is Some,
    ensures
        ({
            let rate = rates.spec_lookup(raw.spec_currency_code()->0)->0;
            &&& m.estimated_gdp is Some
            &&& spec_gdp_micro(raw.population->0, MULTIPLIER_MIN, rate) <= m.estimated_gdp->0
            &&& m.estimated_gdp->0 <= spec_gdp_micro(raw.population->0, MULTIPLIER_MAX, rate)
        }),
{
    let rate = rates.spec_lookup(raw.spec_currency_code()->0)->0;
    crate::rates::lemma_lookup_entries_positive(rates.entries@, raw.spec_currency_code()->0);
    let mult = choose|mult: u64|
        MULTIPLIER_MIN <= mult <= MULTIPLIER_MAX && is_merge_of(m, raw, rates, mult, timestamp);
    lemma_gdp_within_band(raw.population->0, mult, rate);
}

/// Merges one raw country entry with the cycle's rate table: pure, total, and
/// never a hard error for the record (see [`is_merge_of`] for the policy).
pub fn merge_record(raw: &Country, rates: &RateTable, multiplier: u64, timestamp: &String) -> (m:
    Country)
    requires
        rates.wf(),
        MULTIPLIER_MIN <= multiplier <= MULTIPLIER_MAX,
    ensures
        is_merge_of(m, *raw, *rates, multiplier, *timestamp),
{
    let mut merged = raw.duplicate();
    let code = raw.get_currency_code_owned();
    match code {
        Some(c) => {
            match rates.lookup(&c) {
                Some(rate) => {
                    merged.set_exchange_rate(rate);
                    match raw.population {
                        Some(pop) => {
                            let gdp = estimated_gdp_micro(pop, multiplier, rate);
                            merged.set_estimated_gdp(gdp);
                        },
                        None => {
                            merged.estimated_gdp = None;
                        },
                    }
                },
                None => {
                    merged.exchange_rate = None;
                    merged.estimated_gdp = None;
                },
            }
        },
        None => {
            merged.exchange_rate = None;
            merged.estimated_gdp = None;
        },
    }
    merged.set_last_refreshed_at(timestamp.clone());
    merged
}

} // verus!
