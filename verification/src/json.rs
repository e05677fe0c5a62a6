use vstd::prelude::*;
use crate::errors::ApiError;
use crate::errors::ErrorKind;
use crate::record::Country;
use crate::record::Currency;

verus! {

#[verifier::external_type_specification]
#[verifier::external_body]
pub struct ExValue(serde_json::Value);

/// A name for what serde_json makes of JSON text: the decoded value tree, or
/// nothing when the text is not JSON; a function of the characters alone.
pub uninterp spec fn json_of(s: Seq<char>) -> Option<serde_json::Value>;

/// A name for the member a JSON value holds under a string key, if the value
/// is an object that has one.
pub uninterp spec fn json_member_of(v: serde_json::Value, key: Seq<char>) -> Option<
    serde_json::Value,
>;

/// A name for the text of a JSON string value, if it is one.
pub uninterp spec fn json_str_val(v: serde_json::Value) -> Option<Seq<char>>;

/// A name for the value of a JSON non-negative integer, if it is one.
pub uninterp spec fn json_u64_val(v: serde_json::Value) -> Option<u64>;

/// A name for the value of a JSON boolean, if it is one.
pub uninterp spec fn json_bool_val(v: serde_json::Value) -> Option<bool>;

/// A name for the elements of a JSON array, if the value is one.
pub uninterp spec fn json_array_of(v: serde_json::Value) -> Option<Seq<serde_json::Value>>;

/// Relies on serde_json::from_str for a value tree: decodes JSON text or
/// reports that the text is not JSON; a function of the text alone.
#[verifier::external_body]
fn parse_json(text: &str) -> (r: Option<serde_json::Value>)
    ensures
        r == json_of(text@),
{
    serde_json::from_str::<serde_json::Value>(text).ok()
}

/// Relies on serde_json::Value::get with a string key: the named member, if
/// the value is an object that has one.
#[verifier::external_body]
fn json_get<'a>(v: &'a serde_json::Value, key: &str) -> (r: Option<&'a serde_json::Value>)
    ensures
        match r {
            Some(m) => json_member_of(*v, key@) == Some(*m),
            None => json_member_of(*v, key@) is None,
        },
{
    v.get(key)
}

/// Relies on serde_json::Value::as_str: the text of a JSON string value.
#[verifier::external_body]
fn json_as_str(v: &serde_json::Value) -> (r: Option<&str>)
    ensures
        match r {
            Some(s) => json_str_val(*v) == Some(s@),
            None => json_str_val(*v) is None,
        },
{
    v.as_str()
}

/// Relies on serde_json::Value::as_u64: the value of a JSON non-negative
/// integer.
#[verifier::external_body]
fn json_as_u64(v: &serde_json::Value) -> (r: Option<u64>)
    ensures
        r == json_u64_val(*v),
{
    v.as_u64()
}

/// Relies on serde_json::Value::as_bool: the value of a JSON boolean.
#[verifier::external_body]
fn json_as_bool(v: &serde_json::Value) -> (r: Option<bool>)
    ensures
        r == json_bool_val(*v),
{
    v.as_bool()
}

/// Relies on serde_json::Value::as_array: the elements of a JSON array.
#[verifier::external_body]
fn json_as_array<'a>(v: &'a serde_json::Value) -> (r: Option<&'a Vec<serde_json::Value>>)
    ensures
        match r {
            Some(a) => json_array_of(*v) == Some(a@),
            None => json_array_of(*v) is None,
        },
{
    v.as_array()
}

/// The string member a JSON value holds under a key, if both exist.
pub open spec fn spec_member_str(v: serde_json::Value, key: Seq<char>) -> Option<Seq<char>> {
    match json_member_of(v, key) {
        Some(m) => json_str_val(m),
        None => None,
    }
}

/// Whether an optional owned string carries exactly the given optional text.
pub open spec fn opt_str_matches(o: Option<String>, s: Option<Seq<char>>) -> bool {
    match s {
        Some(text) => o is Some && o->0@ == text,
        None => o is None,
    }
}

/// The named member as an owned string, if it is a string.
fn get_str_field(v: &serde_json::Value, key: &str) -> (r: Option<String>)
    ensures
        opt_str_matches(r, spec_member_str(*v, key@)),
{
    match json_get(v, key) {
        Some(f) => match json_as_str(f) {
            Some(s) => Some(s.to_owned()),
            None => None,
        },
        None => None,
    }
}

/// The whole decode relation for one catalog entry: `c` is what reading the
/// JSON value defensively yields. Each of name, capital, region and the flag
/// is the entry's string member or absent; the population is its non-negative
/// integer member or absent; the currency is the first element of a nonempty
/// currency list, its own three string members read the same way; the derived
/// fields and the timestamp start absent.
pub open spec fn is_country_of_json(c: Country, json: serde_json::Value) -> bool {
    &&& opt_str_matches(c.name, spec_member_str(json, ("name")@))
    &&& opt_str_matches(c.capital, spec_member_str(json, ("capital")@))
    &&& opt_str_matches(c.region, spec_member_str(json, ("region")@))
    &&& opt_str_matches(c.flag_url, spec_member_str(json, ("flag")@))
    &&& c.population == (match json_member_of(json, ("population")@) {
        Some(m) => json_u64_val(m),
        None => None,
    })
    &&& c.independent == (match json_member_of(json, ("independent")@) {
        Some(m) => json_bool_val(m),
        None => None,
    })
    &&& match json_member_of(json, ("currencies")@) {
        Some(m) => match json_array_of(m) {
            Some(arr) => if arr.len() > 0 {
                &&& c.currencies is Some
                &&& opt_str_matches(c.currencies->0.code, spec_member_str(arr[0], ("code")@))
                &&& opt_str_matches(c.currencies->0.name, spec_member_str(arr[0], ("name")@))
                &&& opt_str_matches(c.currencies->0.symbol, spec_member_str(arr[0], ("symbol")@))
            } else {
                c.currencies is None
            },
            None => c.currencies is None,
        },
        None => c.currencies is None,
    }
    &&& c.exchange_rate is None
    &&& c.estimated_gdp is None
    &&& c.last_refreshed_at is None
    &&& c.wf()
}

impl Country {
    /// Builds a record from one upstream JSON entry, defensively: any absent
    /// or malformed field becomes an absent optional, never a hard error (see
    /// [`is_country_of_json`] for the whole relation).
    pub fn new_from_json(json: &serde_json::Value) -> (c: Country)
        ensures
            is_country_of_json(c, *json),
    {
        let name = get_str_field(json, "name");
        let capital = get_str_field(json, "capital");
        let region = get_str_field(json, "region");
        let population = match json_get(json, "population") {
            Some(p) => json_as_u64(p),
            None => None,
        };
        let flag_url = get_str_field(json, "flag");
        let currencies = match json_get(json, "currencies") {
            Some(v) => match json_as_array(v) {
                Some(arr) => {
                    if arr.len() > 0 {
                        let first = &arr[0];
                        Some(
                            Currency {
                                code: get_str_field(first, "code"),
                                name: get_str_field(first, "name"),
                                symbol: get_str_field(first, "symbol"),
                            },
                        )
                    } else {
                        None
                    }
                },
                None => None,
            },
            None => None,
        };
        let independent = match json_get(json, "independent") {
            Some(b) => json_as_bool(b),
            None => None,
        };
        Country {
            name,
            capital,
            region,
            population,
            flag_url,
            currencies,
            independent,
            last_refreshed_at: None,
            exchange_rate: None,
            estimated_gdp: None,
        }
    }
}

/// Whether catalog text decodes as a JSON array: exactly then the catalog is
/// readable and the decode below succeeds.
pub open spec fn catalog_array_of(text: Seq<char>) -> Option<Seq<serde_json::Value>> {
    match json_of(text) {
        Some(v) => json_array_of(v),
        None => None,
    }
}

/// Decodes the country-catalog response: JSON text in, one fresh record per
/// array entry out, in order. Text that is not a JSON array is a parse
/// failure — exactly then; the fields of each entry are read defensively and
/// never fail the record.
pub fn fetch_countries_data(text: &str) -> (r: Result<Vec<Country>, ApiError>)
    ensures
        match r {
            Ok(out) => {
                &&& catalog_array_of(text@) is Some
                &&& out@.len() == catalog_array_of(text@)->0.len()
                &&& forall|k: int|
                    0 <= k < out@.len() ==> is_country_of_json(
                        #[trigger] out@[k],
                        catalog_array_of(text@)->0[k],
                    )
            },
            Err(e) => {
                &&& catalog_array_of(text@) is None
                &&& e.kind == ErrorKind::ParseError
                &&& e.detail@ == ("failed to parse countries JSON response")@
            },
        },
{
    let parsed = match parse_json(text) {
        Some(v) => v,
        None => {
            return Err(
                ApiError::new(ErrorKind::ParseError, "failed to parse countries JSON response"),
            );
        },
    };
    let arr = match json_as_array(&parsed) {
        Some(a) => a,
        None => {
            return Err(
                ApiError::new(ErrorKind::ParseError, "failed to parse countries JSON response"),
            );
        },
    };
    let mut out: Vec<Country> = Vec::new();
    let mut i: usize = 0;
    while i < arr.len()
        invariant
            i <= arr@.len(),
            out@.len() == i,
            catalog_array_of(text@) == Some(arr@),
            forall|k: int|
                0 <= k < out@.len() ==> is_country_of_json(#[trigger] out@[k], arr@[k]),
        decreases arr@.len() - i,
    {
        out.push(Country::new_from_json(&arr[i]));
        i += 1;
    }
    Ok(out)
}

/// Picks the rates container out of the decoded exchange-rate response — the
/// member is handed back exactly when it exists; its absence is the
/// missing-field failure, distinct from a parse failure.
pub fn extract_rates_container<'a>(v: &'a serde_json::Value) -> (r: Result<
    &'a serde_json::Value,
    ApiError,
>)
    ensures
        match r {
            Ok(m) => json_member_of(*v, ("rates")@) == Some(*m),
            Err(e) => {
                &&& json_member_of(*v, ("rates")@) is None
                &&& e.kind == ErrorKind::MissingField
                &&& e.detail@ == ("no rates field found in exchange rate response")@
            },
        },
{
    match json_get(v, "rates") {
        Some(rates) => Ok(rates),
        None => Err(
            ApiError::new(ErrorKind::MissingField, "no rates field found in exchange rate response"),
        ),
    }
}

/// Decodes the exchange-rate response far enough to classify it, succeeding
/// exactly when the text is JSON with the rates container: not JSON is a
/// parse failure; JSON without the container is a missing-field failure;
/// otherwise the decoded value is handed back for numeric extraction.
pub fn parse_rates_response(text: &str) -> (r: Result<serde_json::Value, ApiError>)
    ensures
        match r {
            Ok(v) => json_of(text@) == Some(v) && json_member_of(v, ("rates")@) is Some,
            Err(e) => match json_of(text@) {
                Some(v) => {
                    &&& json_member_of(v, ("rates")@) is None
                    &&& e.kind == ErrorKind::MissingField
                },
                None => e.kind == ErrorKind::ParseError,
            },
        },
{
    let parsed = match parse_json(text) {
        Some(v) => v,
        None => {
            return Err(
                ApiError::new(ErrorKind::ParseError, "failed to parse exchange rate JSON response"),
            );
        },
    };
    match extract_rates_container(&parsed) {
        Ok(_) => (),
        Err(e) => {
            return Err(e);
        },
    }
    Ok(parsed)
}

} // verus!
