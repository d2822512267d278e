//! Client-side HTTP and WebSocket failover over the several A/AAAA records of
//! one hostname: a TTL-aware DNS cache, latency ranking of the addresses,
//! sequential failover on transport errors and WebSocket reconnect rotation.
//!
//! This crate holds the decisions; the network work (DNS lookups, TCP probes,
//! HTTP requests, WebSocket handshakes) is performed by the caller, which
//! feeds each outcome back into the state machines defined here.

mod cache;
mod config;
mod context;
mod endpoint;
mod error;
mod http;
mod ip;
mod lookup;
mod policy;
mod probe;
mod resolve;
mod text;
mod ws;

pub use cache::{
    expiry, fresh_lookup, keys_distinct, law_cache_expiry, law_cache_put_keeps_others, law_cache_put_then_lookup, law_cache_remove,
    law_cache_touch, slot_lookup, slots_put, slots_remove, slots_touch, slots_wf, stored_entry,
    with_ws_state, CacheEntry, CacheEntryView, CacheKey, CacheSlots, DnsCache, HostPort,
};
pub use config::{
    all_ascii_digits, config_after_env, digits_value, env_lookup, env_setting, flag_off, flag_on, is_ascii_digit,
    is_default_config, law_env_single_variable, numeric_setting, unsigned_decimal, without_plus, Config,
};
pub use context::{millis_duration, secs_to_millis, Context};
pub use endpoint::{
    endpoint_from_url, endpoint_result_for, law_endpoint_port, parse_endpoint, parsed_url, scheme_default_port,
    scheme_named, url_verdict, Endpoint, Scheme, UrlParts, UrlPartsView, UrlVerdict,
};
pub use error::Error;
pub use http::{
    header_usable, header_view, http_verdict, law_http_failover_only_on_transport_or_gateway,
    request_header_list, request_headers, usable_headers, valid_header_name, valid_header_value,
    HttpAttemptOutcome, HttpExhausted, HttpFailover, HttpResponse, HttpVerdict,
};
pub use ip::{contains_address, copy_addresses, IpAddress};
pub use lookup::{
    bytes_lt, finish_lookup, is_sorted_selection, is_sorted_unique, keys_consistent,
    law_lookup_addresses_distinct, selects_address, sorted_unique_addresses,
};
pub use policy::{
    reports_body, reports_connect, reports_decode, reports_timeout, should_failover_gateway,
    should_failover_transport, transport_error_warrants_failover,
};
pub use probe::{
    bucket_computable, distinct_addresses, first_n, is_latency_order, is_latency_ranking,
    keep_count, latency_bucket, latency_bucket_fits, law_latency_bucket_monotone,
    law_latency_bucket_rounds_up, law_latency_order_faster_first, law_latency_ranking_monotone, law_latency_ranking_shape,
    law_race_ranking_shape, probe_after_race, probe_start, race_ranking, rank_after_race,
    rank_by_latency, ranks_before, without, ProbeStep,
};
pub use resolve::{
    entry_view, entry_well_ranked, law_refresh_keeps_present_in_order, law_latency_ranking_fits, law_race_ranking_fits, ranking_fits,
    slots_well_ranked, well_ranked, keeps_stale_rank, law_refresh_keeps_ws_state, law_resolution_served_from_cache,
    law_ws_state_round_trip, retain_present, retain_present_addresses, AfterLookup, ResolveBegin,
    ResolveResult,
};
pub use text::{append_decimal, decimal_digits, digit_char, string_is};
pub use ws::{
    first_index, ips_for_mode, law_reconnect_after_connect_tries_connected,
    law_reconnect_tries_same_then_next, law_reconnect_cycle, law_reconnect_index_in_range, position_of,
    prepare_ws_reconnect, reconnect_after, reconnect_step, reconnect_target, record_ws_connection,
    ws_attempts, ws_exhausted_error, ws_exhausted_message, ws_plan, ws_state_after_connect, WsPlan,
    WsReconnectMode, WsReconnectState,
};
