pub mod api;
pub mod errors;
pub mod filters;
pub mod json;
pub mod merge;
pub mod rates;
pub mod record;
pub mod refresh;
pub mod store;
pub mod summary;

pub use api::delete_country;
pub use api::get_countries_and_last_refreash;
pub use api::get_countries_data;
pub use api::is_blank;
pub use api::lookup_country;
pub use errors::ApiError;
pub use errors::ErrorKind;
pub use filters::SearchFilter;
pub use filters::SearchQuery;
pub use filters::SortKind;
pub use filters::apply_filters;
pub use filters::extract_filters_from_query;
pub use filters::sort_by_gdp_desc;
pub use json::extract_rates_container;
pub use json::fetch_countries_data;
pub use json::parse_rates_response;
pub use merge::MULTIPLIER_MAX;
pub use merge::MULTIPLIER_MIN;
pub use merge::draw_multiplier;
pub use merge::estimated_gdp_micro;
pub use merge::merge_record;
pub use rates::RateTable;
pub use record::Country;
pub use record::Currency;
pub use refresh::RefreshReport;
pub use refresh::merge_and_persist;
pub use refresh::now_rfc3339;
pub use refresh::refresh_countries_data;
pub use refresh::refresh_cycle;
pub use store::Store;
pub use summary::CacheMetadata;
pub use summary::build_summary_metadata;
pub use summary::fmt_micro;
pub use summary::fmt_u128;
pub use summary::record_json;
pub use summary::snapshot_json;
pub use summary::summary_image_lines;
pub use summary::summary_line;
pub use summary::top_countries_by_gdp;
