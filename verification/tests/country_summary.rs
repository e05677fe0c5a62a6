use country_summary::ApiError;
use country_summary::Country;
use country_summary::Currency;
use country_summary::ErrorKind;
use country_summary::RateTable;
use country_summary::SearchFilter;
use country_summary::SearchQuery;
use country_summary::SortKind;
use country_summary::Store;
use country_summary::apply_filters;
use country_summary::delete_country;
use country_summary::draw_multiplier;
use country_summary::extract_filters_from_query;
use country_summary::fetch_countries_data;
use country_summary::fmt_micro;
use country_summary::fmt_u128;
use country_summary::get_countries_and_last_refreash;
use country_summary::get_countries_data;
use country_summary::lookup_country;
use country_summary::merge_record;
use country_summary::parse_rates_response;
use country_summary::record_json;
use country_summary::refresh_cycle;
use country_summary::refresh_countries_data;
use country_summary::snapshot_json;
use country_summary::sort_by_gdp_desc;
use country_summary::top_countries_by_gdp;

fn bare(name: &str) -> Country {
    Country {
        name: Some(name.to_string()),
        capital: None,
        region: None,
        population: None,
        currencies: None,
        independent: None,
        exchange_rate: None,
        estimated_gdp: None,
        flag_url: None,
        last_refreshed_at: None,
    }
}

fn with_gdp(name: &str, gdp: Option<u128>) -> Country {
    let mut c = bare(name);
    c.estimated_gdp = gdp;
    c
}

fn with_currency(name: &str, code: &str, population: Option<u64>) -> Country {
    let mut c = bare(name);
    c.population = population;
    c.currencies = Some(Currency {
        code: Some(code.to_string()),
        name: None,
        symbol: None,
    });
    c
}

fn table(entries: Vec<(&str, u64)>) -> RateTable {
    RateTable::from_entries(entries.into_iter().map(|(c, r)| (c.to_string(), r)).collect())
}

#[test]
fn merge_without_currency_list_leaves_rate_and_gdp_absent() {
    let rates = table(vec![("USD", 1_000_000)]);
    let raw = bare("Atlantis");
    let ts = "2024-01-01T00:00:00.000Z".to_string();
    let m = merge_record(&raw, &rates, 1500, &ts);
    assert!(m.exchange_rate.is_none());
    assert!(m.estimated_gdp.is_none());
    assert_eq!(m.name.as_deref(), Some("Atlantis"));
    assert_eq!(m.last_refreshed_at.as_deref(), Some("2024-01-01T00:00:00.000Z"));
}

#[test]
fn merge_with_unknown_code_leaves_rate_and_gdp_absent() {
    let rates = table(vec![("USD", 1_000_000)]);
    let raw = with_currency("Erewhon", "XYZ", Some(500));
    let ts = "t".to_string();
    let m = merge_record(&raw, &rates, 1500, &ts);
    assert!(m.exchange_rate.is_none());
    assert!(m.estimated_gdp.is_none());
}

#[test]
fn merge_with_known_code_follows_the_formula_exactly() {
    // rate 2.0, population 1000, multiplier 1500: gdp = 1000 * 1500 / 2.0
    let rates = table(vec![("WKD", 2_000_000)]);
    let raw = with_currency("Wakanda", "WKD", Some(1000));
    let ts = "t".to_string();
    let m = merge_record(&raw, &rates, 1500, &ts);
    assert_eq!(m.exchange_rate, Some(2_000_000));
    assert_eq!(m.estimated_gdp, Some(750_000_000_000)); // 750000.00 in micro-units
}

#[test]
fn merge_without_population_records_rate_but_no_gdp() {
    let rates = table(vec![("WKD", 2_000_000)]);
    let raw = with_currency("Wakanda", "WKD", None);
    let ts = "t".to_string();
    let m = merge_record(&raw, &rates, 1500, &ts);
    assert_eq!(m.exchange_rate, Some(2_000_000));
    assert!(m.estimated_gdp.is_none());
}

#[test]
fn rerunning_merge_stays_within_the_multiplier_band() {
    // For population 1000 and rate 2.0 the metric lies in
    // [1000*1000/2, 1000*2000/2] = [500000, 1000000], whatever was drawn.
    let rates = table(vec![("WKD", 2_000_000)]);
    let raw = with_currency("Wakanda", "WKD", Some(1000));
    let ts = "t".to_string();
    for _ in 0..20 {
        let m = merge_record(&raw, &rates, draw_multiplier(), &ts);
        let gdp = m.estimated_gdp.expect("metric must be present");
        assert!(gdp >= 500_000_000_000 && gdp <= 1_000_000_000_000);
    }
}

#[test]
fn multiplier_draws_stay_in_range() {
    for _ in 0..50 {
        let m = draw_multiplier();
        assert!((1000..=2000).contains(&m));
    }
}

#[test]
fn upsert_is_idempotent_on_identity() {
    let mut store = Store::new();
    let mut first = bare("Wakanda");
    first.capital = Some("Birnin Zana".to_string());
    let mut second = bare("Wakanda");
    second.capital = Some("New Capital".to_string());
    assert_eq!(store.insert_or_update_country(first), 1);
    assert_eq!(store.insert_or_update_country(second), 1);
    let all = store.get_all_countries();
    assert_eq!(all.len(), 1);
    assert_eq!(all[0].capital.as_deref(), Some("New Capital"));
}

#[test]
fn upsert_keeps_distinct_names_apart() {
    let mut store = Store::new();
    store.insert_or_update_country(bare("A"));
    store.insert_or_update_country(bare("B"));
    store.insert_or_update_country(bare("A"));
    assert_eq!(store.get_all_countries().len(), 2);
}

#[test]
fn top_selection_is_capped_sorted_and_absent_last() {
    let records = vec![
        with_gdp("a", Some(5_000_000)),
        with_gdp("b", None),
        with_gdp("c", Some(9_000_000)),
        with_gdp("d", Some(1_000_000)),
        with_gdp("e", None),
        with_gdp("f", Some(7_000_000)),
        with_gdp("g", Some(3_000_000)),
    ];
    let top = top_countries_by_gdp(records);
    assert_eq!(top.len(), 5);
    let names: Vec<&str> = top.iter().map(|c| c.name.as_deref().unwrap()).collect();
    assert_eq!(names, vec!["c", "f", "a", "g", "d"]);
    for w in top.windows(2) {
        let hi = w[0].estimated_gdp.unwrap_or(0);
        let lo = w[1].estimated_gdp.unwrap_or(0);
        assert!(hi >= lo);
        if w[0].estimated_gdp.is_none() {
            assert!(w[1].estimated_gdp.is_none());
        }
    }
}

#[test]
fn sort_keeps_equal_records_in_their_given_order() {
    let records = vec![
        with_gdp("first", Some(5_000_000)),
        with_gdp("second", Some(5_000_000)),
        with_gdp("third", Some(8_000_000)),
    ];
    let sorted = sort_by_gdp_desc(records);
    let names: Vec<&str> = sorted.iter().map(|c| c.name.as_deref().unwrap()).collect();
    assert_eq!(names, vec!["third", "first", "second"]);
}

#[test]
fn region_filter_with_no_matches_is_a_validation_error() {
    let mut asia = bare("Nippon");
    asia.region = Some("Asia".to_string());
    let filters = vec![SearchFilter::RegionFilter("Europe".to_string())];
    let r = apply_filters(vec![asia], &filters);
    match r {
        Ok(_) => panic!("an empty result must not be a success"),
        Err(e) => {
            assert_eq!(e.kind, ErrorKind::ValidationError);
            assert_eq!(e.detail, "region is required");
        },
    }
}

#[test]
fn region_filter_matches_case_insensitively() {
    let mut shouting = bare("Ruritania");
    shouting.region = Some("EUROPE".to_string());
    let filters = vec![SearchFilter::RegionFilter("Europe".to_string())];
    let r = apply_filters(vec![shouting], &filters).expect("one record matches up to case");
    assert_eq!(r.len(), 1);
    assert_eq!(r[0].name.as_deref(), Some("Ruritania"));
}

#[test]
fn currency_filter_matches_exactly() {
    let a = with_currency("A", "USD", None);
    let b = with_currency("B", "usd", None);
    let filters = vec![SearchFilter::CurrencyFilter("USD".to_string())];
    let r = apply_filters(vec![a, b], &filters).expect("one exact match");
    assert_eq!(r.len(), 1);
    assert_eq!(r[0].name.as_deref(), Some("A"));
}

#[test]
fn filters_compose_region_then_currency_then_sort() {
    let mut a = with_currency("A", "EUR", None);
    a.region = Some("Europe".to_string());
    a.estimated_gdp = Some(1_000_000);
    let mut b = with_currency("B", "EUR", None);
    b.region = Some("Europe".to_string());
    b.estimated_gdp = Some(9_000_000);
    let mut c = with_currency("C", "CHF", None);
    c.region = Some("Europe".to_string());
    let query = SearchQuery {
        region: Some("europe".to_string()),
        currency: Some("EUR".to_string()),
        sort: Some(SortKind::GdpDesc),
    };
    let filters = extract_filters_from_query(&query);
    assert_eq!(filters.len(), 3);
    assert!(matches!(filters[0], SearchFilter::RegionFilter(_)));
    assert!(matches!(filters[1], SearchFilter::CurrencyFilter(_)));
    assert!(matches!(filters[2], SearchFilter::SortFilter(SortKind::GdpDesc)));
    let r = apply_filters(vec![a, b, c], &filters).expect("two records survive");
    let names: Vec<&str> = r.iter().map(|x| x.name.as_deref().unwrap()).collect();
    assert_eq!(names, vec!["B", "A"]);
}

#[test]
fn end_to_end_refresh_persists_and_summarizes() {
    let mut store = Store::new();
    let countries = r#"[{"name":"Wakanda","population":1000,"currencies":[{"code":"WKD"}]}]"#;
    let ts = "2024-06-01T12:00:00.000Z".to_string();
    let report = refresh_cycle(
        &mut store,
        Ok(vec![("WKD".to_string(), 2_000_000)]),
        Ok(countries.to_string()),
        &ts,
    )
    .expect("the cycle succeeds");
    assert_eq!(report.merged_count, 1);
    assert_eq!(report.lines.len(), 5);
    assert_eq!(report.lines[0], "Country Summary Report");
    assert_eq!(report.lines[1], "Total Countries: 1");
    assert_eq!(report.lines[4], "Last Refreshed: 2024-06-01T12:00:00.000Z");
    let all = store.get_all_countries();
    assert_eq!(all.len(), 1);
    let rec = &all[0];
    assert_eq!(rec.name.as_deref(), Some("Wakanda"));
    assert_eq!(rec.exchange_rate, Some(2_000_000));
    let gdp = rec.estimated_gdp.expect("metric present");
    assert!(gdp >= 500_000_000_000 && gdp <= 1_000_000_000_000);
    assert_eq!(rec.last_refreshed_at.as_deref(), Some("2024-06-01T12:00:00.000Z"));
    let meta = store.summary.as_ref().expect("metadata row written");
    assert_eq!(meta.total_countries, 1);
    assert_eq!(meta.file_path, "cache/summary.png");
    assert_eq!(meta.last_refreshed_at, "2024-06-01T12:00:00.000Z");
    assert!(meta.top_countries_json.contains("\"name\":\"Wakanda\""));
}

#[test]
fn refresh_with_clock_timestamp_stamps_every_record() {
    let mut store = Store::new();
    let countries = r#"[{"name":"Wakanda","population":1000,"currencies":[{"code":"WKD"}]}]"#;
    let report = refresh_countries_data(
        &mut store,
        Ok(vec![("WKD".to_string(), 2_000_000)]),
        Ok(countries.to_string()),
    )
    .expect("the cycle succeeds");
    assert_eq!(report.merged_count, 1);
    let all = store.get_all_countries();
    let ts = all[0].last_refreshed_at.as_deref().expect("stamped");
    assert!(!ts.is_empty());
}

#[test]
fn failed_rate_fetch_aborts_before_any_write() {
    let mut store = Store::new();
    let e = ApiError::new(ErrorKind::FetchError, "failed to fetch exchange rate data");
    let r = refresh_cycle(&mut store, Err(e), Ok("[]".to_string()), &"t".to_string());
    match r {
        Ok(_) => panic!("a failed source fetch must fail the cycle"),
        Err(e) => assert_eq!(e.kind, ErrorKind::FetchError),
    }
    assert_eq!(store.get_all_countries().len(), 0);
    assert!(store.summary.is_none());
}

#[test]
fn failed_country_fetch_aborts_before_any_write() {
    let mut store = Store::new();
    let e = ApiError::new(ErrorKind::FetchError, "failed to fetch countries data");
    let r = refresh_cycle(
        &mut store,
        Ok(vec![("USD".to_string(), 1_000_000)]),
        Err(e),
        &"t".to_string(),
    );
    match r {
        Ok(_) => panic!("a failed source fetch must fail the cycle"),
        Err(e) => assert_eq!(e.kind, ErrorKind::FetchError),
    }
    assert_eq!(store.get_all_countries().len(), 0);
    assert!(store.summary.is_none());
}

#[test]
fn undecodable_catalog_is_a_parse_error_and_writes_nothing() {
    let mut store = Store::new();
    let r = refresh_cycle(
        &mut store,
        Ok(vec![("USD".to_string(), 1_000_000)]),
        Ok("not json at all".to_string()),
        &"t".to_string(),
    );
    match r {
        Ok(_) => panic!("bad JSON must fail the cycle"),
        Err(e) => assert_eq!(e.kind, ErrorKind::ParseError),
    }
    assert_eq!(store.get_all_countries().len(), 0);
}

#[test]
fn catalog_that_is_not_an_array_is_a_parse_error() {
    let r = fetch_countries_data(r#"{"name":"Wakanda"}"#);
    match r {
        Ok(_) => panic!("a non-array catalog must not parse"),
        Err(e) => assert_eq!(e.kind, ErrorKind::ParseError),
    }
}

#[test]
fn catalog_fields_are_read_defensively() {
    let text = r#"[
        {"name":"Full","capital":"Cap","region":"Reg","population":42,
         "flag":"https://example.test/f.png","independent":true,
         "currencies":[{"code":"AAA","name":"A coin","symbol":"a"},{"code":"BBB"}]},
        {"population":"not a number","currencies":[]},
        {}
    ]"#;
    let out = fetch_countries_data(text).expect("the catalog parses");
    assert_eq!(out.len(), 3);
    assert_eq!(out[0].name.as_deref(), Some("Full"));
    assert_eq!(out[0].capital.as_deref(), Some("Cap"));
    assert_eq!(out[0].region.as_deref(), Some("Reg"));
    assert_eq!(out[0].population, Some(42));
    assert_eq!(out[0].flag_url.as_deref(), Some("https://example.test/f.png"));
    assert_eq!(out[0].independent, Some(true));
    let cur = out[0].currencies.as_ref().expect("first currency kept");
    assert_eq!(cur.code.as_deref(), Some("AAA"));
    assert_eq!(cur.name.as_deref(), Some("A coin"));
    assert_eq!(cur.symbol.as_deref(), Some("a"));
    assert!(out[1].name.is_none());
    assert!(out[1].population.is_none());
    assert!(out[1].currencies.is_none());
    assert!(out[2].name.is_none());
}

#[test]
fn rates_without_container_is_a_missing_field_error() {
    let r = parse_rates_response(r#"{"result":"ok"}"#);
    match r {
        Ok(_) => panic!("a response without rates must not pass"),
        Err(e) => assert_eq!(e.kind, ErrorKind::MissingField),
    }
    let r2 = parse_rates_response("garbage");
    match r2 {
        Ok(_) => panic!("non-JSON must not pass"),
        Err(e) => assert_eq!(e.kind, ErrorKind::ParseError),
    }
    assert!(parse_rates_response(r#"{"rates":{"USD":1.0}}"#).is_ok());
}

#[test]
fn lookup_validates_and_distinguishes_not_found() {
    let mut store = Store::new();
    store.insert_or_update_country(bare("Wakanda"));
    let blank = lookup_country(&store, &"   ".to_string());
    match blank {
        Ok(_) => panic!("a blank name must be rejected"),
        Err(e) => {
            assert_eq!(e.kind, ErrorKind::ValidationError);
            assert_eq!(e.detail, "name is required");
        },
    }
    let missing = lookup_country(&store, &"Erewhon".to_string());
    match missing {
        Ok(_) => panic!("a missing name is not found"),
        Err(e) => assert_eq!(e.kind, ErrorKind::NotFoundError),
    }
    let hit = lookup_country(&store, &"Wakanda".to_string()).expect("the row exists");
    assert_eq!(hit.name.as_deref(), Some("Wakanda"));
}

#[test]
fn delete_of_missing_name_is_not_found_and_delete_removes() {
    let mut store = Store::new();
    store.insert_or_update_country(bare("Wakanda"));
    let missing = delete_country(&mut store, &"Erewhon".to_string());
    match missing {
        Ok(_) => panic!("deleting a missing name must report not-found"),
        Err(e) => assert_eq!(e.kind, ErrorKind::NotFoundError),
    }
    delete_country(&mut store, &"Wakanda".to_string()).expect("the row exists");
    let gone = lookup_country(&store, &"Wakanda".to_string());
    match gone {
        Ok(_) => panic!("a deleted row must not be found"),
        Err(e) => assert_eq!(e.kind, ErrorKind::NotFoundError),
    }
    let blank = delete_country(&mut store, &"".to_string());
    match blank {
        Ok(_) => panic!("a blank name must be rejected"),
        Err(e) => assert_eq!(e.kind, ErrorKind::ValidationError),
    }
}

#[test]
fn status_reports_count_and_timestamp_or_not_found() {
    let mut store = Store::new();
    match get_countries_and_last_refreash(&store) {
        Ok(_) => panic!("an empty store has no status"),
        Err(e) => assert_eq!(e.kind, ErrorKind::NotFoundError),
    }
    store.insert_or_update_country(bare("NoStamp"));
    match get_countries_and_last_refreash(&store) {
        Ok(_) => panic!("no record carries a timestamp yet"),
        Err(e) => assert_eq!(e.kind, ErrorKind::NotFoundError),
    }
    let mut stamped = bare("NoStamp");
    stamped.last_refreshed_at = Some("t1".to_string());
    store.insert_or_update_country(stamped);
    let (n, ts) = get_countries_and_last_refreash(&store).expect("status present");
    assert_eq!(n, 1);
    assert_eq!(ts, "t1");
}

#[test]
fn status_finds_a_timestamp_past_unstamped_rows() {
    // The first row carries no timestamp; a later row does: the status must
    // still report it, since some record carries one.
    let mut store = Store::new();
    store.insert_or_update_country(bare("NoStamp"));
    let mut stamped = bare("Stamped");
    stamped.last_refreshed_at = Some("t2".to_string());
    store.insert_or_update_country(stamped);
    let (n, ts) = get_countries_and_last_refreash(&store).expect("a record carries a timestamp");
    assert_eq!(n, 2);
    assert_eq!(ts, "t2");
}

#[test]
fn blank_names_cover_unicode_whitespace() {
    let mut store = Store::new();
    store.insert_or_update_country(bare("Wakanda"));
    // A no-break space is whitespace: the name is blank, a validation error,
    // not a not-found.
    match lookup_country(&store, &"\u{00A0}".to_string()) {
        Ok(_) => panic!("a blank name must be rejected"),
        Err(e) => assert_eq!(e.kind, ErrorKind::ValidationError),
    }
    match lookup_country(&store, &"\u{2003}\t ".to_string()) {
        Ok(_) => panic!("a blank name must be rejected"),
        Err(e) => assert_eq!(e.kind, ErrorKind::ValidationError),
    }
}

#[test]
fn listing_is_a_validation_error_on_an_empty_store() {
    let store = Store::new();
    let query = SearchQuery { region: None, currency: None, sort: None };
    match get_countries_data(&store, &query) {
        Ok(_) => panic!("an empty store must not list"),
        Err(e) => assert_eq!(e.kind, ErrorKind::ValidationError),
    }
}

#[test]
fn listing_marshals_with_one_based_positions() {
    let mut store = Store::new();
    let mut a = with_currency("A", "EUR", Some(10));
    a.estimated_gdp = Some(1_500_000);
    a.exchange_rate = Some(2_000_000);
    store.insert_or_update_country(a);
    store.insert_or_update_country(bare("B"));
    let query = SearchQuery { region: None, currency: None, sort: None };
    let out = get_countries_data(&store, &query).expect("two rows list");
    assert!(out.starts_with("[{\"id\":1,\"name\":\"A\""));
    assert!(out.contains("{\"id\":2,\"name\":\"B\""));
    assert!(out.contains("\"exchange_rate\":2.00"));
    assert!(out.contains("\"estimated_gdp\":1.50"));
    assert!(out.ends_with("}]"));
}

#[test]
fn decimal_formatting_is_exact() {
    assert_eq!(fmt_u128(0), "0");
    assert_eq!(fmt_u128(7), "7");
    assert_eq!(fmt_u128(1234), "1234");
    assert_eq!(fmt_u128(1000000), "1000000");
    assert_eq!(fmt_micro(0), "0.00");
    assert_eq!(fmt_micro(2_000_000), "2.00");
    assert_eq!(fmt_micro(123_456_789), "123.45");
    assert_eq!(fmt_micro(750_000_000_000), "750000.00");
    assert_eq!(fmt_micro(1_009_999), "1.00");
}

#[test]
fn record_json_is_exact() {
    let mut c = with_currency("X", "USD", Some(10));
    c.region = Some("Y".to_string());
    c.exchange_rate = Some(1_500_000);
    c.estimated_gdp = Some(2_000_000);
    c.last_refreshed_at = Some("T".to_string());
    let expected = "{\"name\":\"X\",\"capital\":null,\"region\":\"Y\",\"population\":10,\"currency_code\":\"USD\",\"exchange_rate\":1.50,\"estimated_gdp\":2.00,\"flag_url\":null,\"last_refreshed_at\":\"T\"}";
    assert_eq!(record_json(&c), expected);
    assert_eq!(c.structure_country_for_return(3), format!("{{\"id\":3,{}", &expected[1..]));
}

#[test]
fn snapshot_json_escapes_names() {
    let odd = bare("Wa\"kanda");
    let json = snapshot_json(&vec![odd]);
    assert!(json.starts_with('['));
    assert!(json.ends_with(']'));
    assert!(json.contains("Wa\\\"kanda"));
}

#[test]
fn constructors_and_accessors_carry_fields() {
    let mut c = Country::new(
        "Wakanda".to_string(),
        "Birnin Zana".to_string(),
        "Africa".to_string(),
        1000,
        "https://example.test/w.png".to_string(),
        Currency {
            code: Some("WKD".to_string()),
            name: Some("Wakandan dollar".to_string()),
            symbol: Some("w".to_string()),
        },
        Some(true),
    );
    assert_eq!(c.get_currency_code().map(|s| s.as_str()), Some("WKD"));
    assert_eq!(c.get_currency_code_owned().as_deref(), Some("WKD"));
    assert!(c.exchange_rate.is_none());
    c.set_exchange_rate(2_000_000);
    c.set_estimated_gdp(750_000_000_000);
    c.set_last_refreshed_at("t".to_string());
    assert_eq!(c.exchange_rate, Some(2_000_000));
    assert_eq!(c.estimated_gdp, Some(750_000_000_000));
    assert_eq!(c.last_refreshed_at.as_deref(), Some("t"));
    assert!(bare("x").get_currency_code().is_none());
}

#[test]
fn rate_table_keeps_only_positive_rates() {
    let rates = table(vec![("USD", 1_000_000), ("BAD", 0), ("EUR", 900_000)]);
    assert_eq!(rates.lookup(&"USD".to_string()), Some(1_000_000));
    assert_eq!(rates.lookup(&"BAD".to_string()), None);
    assert_eq!(rates.lookup(&"EUR".to_string()), Some(900_000));
    assert_eq!(rates.lookup(&"GBP".to_string()), None);
}
