use cryptocurrency_tracker::errors::Error;
use cryptocurrency_tracker::errors::TemplateError;
use cryptocurrency_tracker::index::RecordIndex;
use cryptocurrency_tracker::options::default_format;
use cryptocurrency_tracker::options::default_separator;
use cryptocurrency_tracker::record::normalize_record;
use cryptocurrency_tracker::record::RawRecord;
use cryptocurrency_tracker::run_from_body;
use cryptocurrency_tracker::run_query;
use cryptocurrency_tracker::template::substitute;

fn raw(fields: &[(&str, Option<&str>)]) -> RawRecord {
    RawRecord {
        fields: fields
            .iter()
            .map(|(k, v)| (k.to_string(), v.map(|s| s.to_string())))
            .collect(),
    }
}

fn strings(items: &[&str]) -> Vec<String> {
    items.iter().map(|s| s.to_string()).collect()
}

#[test]
fn normalize_absent_value_gets_placeholder() {
    let r = raw(&[("symbol", Some("BTC")), ("price_usd", None)]);
    let n = normalize_record(&r);
    assert_eq!(n.get(&"price_usd".to_string()), Some(&"not found".to_string()));
    assert_eq!(n.get(&"symbol".to_string()), Some(&"BTC".to_string()));
}

#[test]
fn index_lookup_returns_record_with_that_symbol() {
    let records = vec![
        raw(&[("symbol", Some("BTC")), ("rank", Some("1"))]),
        raw(&[("symbol", Some("ETH")), ("rank", Some("2"))]),
    ];
    let index = RecordIndex::build(&records).unwrap();
    let rec = index.get(&"ETH".to_string()).unwrap();
    assert_eq!(rec.get(&"symbol".to_string()), Some(&"ETH".to_string()));
    assert_eq!(rec.get(&"rank".to_string()), Some(&"2".to_string()));
    assert!(index.get(&"DOGE".to_string()).is_none());
}

#[test]
fn index_later_record_wins_on_symbol_collision() {
    let records = vec![
        raw(&[("symbol", Some("BTC")), ("rank", Some("1"))]),
        raw(&[("symbol", Some("BTC")), ("rank", Some("9"))]),
    ];
    let index = RecordIndex::build(&records).unwrap();
    let rec = index.get(&"BTC".to_string()).unwrap();
    assert_eq!(rec.get(&"rank".to_string()), Some(&"9".to_string()));
}

#[test]
fn substitution_output_has_no_braces() {
    let r = raw(&[("symbol", Some("BTC")), ("price_usd", Some("50000"))]);
    let n = normalize_record(&r);
    let out = substitute("{symbol}:{price_usd}", &n).unwrap();
    assert_eq!(out, "BTC:50000");
    assert!(!out.contains('{'));
    assert!(!out.contains('}'));
}

#[test]
fn substitution_unknown_field_names_it() {
    let n = normalize_record(&raw(&[("symbol", Some("BTC"))]));
    match substitute("{nope}", &n) {
        Err(TemplateError::MissingField(name)) => assert_eq!(name, "nope"),
        other => panic!("expected a missing-field fault, got {:?}", other.is_ok()),
    }
}

#[test]
fn substitution_rejects_unclosed_placeholder() {
    let n = normalize_record(&raw(&[("symbol", Some("BTC"))]));
    assert!(matches!(substitute("{symbol", &n), Err(TemplateError::UnmatchedOpen)));
    assert!(matches!(substitute("{sym{bol}", &n), Err(TemplateError::UnmatchedOpen)));
}

#[test]
fn substitution_rejects_stray_close() {
    let n = normalize_record(&raw(&[("symbol", Some("BTC"))]));
    assert!(matches!(substitute("sym}bol", &n), Err(TemplateError::UnmatchedClose)));
}

#[test]
fn render_joins_n_segments_with_n_minus_one_separators() {
    let records = vec![
        raw(&[("symbol", Some("BTC"))]),
        raw(&[("symbol", Some("ETH"))]),
        raw(&[("symbol", Some("XRP"))]),
    ];
    let out = run_query(&records, &strings(&["BTC", "ETH", "XRP"]), "{symbol}", ", ").unwrap();
    assert_eq!(out, "BTC, ETH, XRP\n");
    assert_eq!(out.matches(", ").count(), 2);
    assert!(out.ends_with('\n'));
}

#[test]
fn render_duplicate_requests_repeat_the_record() {
    let records = vec![raw(&[("symbol", Some("BTC"))])];
    let out = run_query(&records, &strings(&["BTC", "BTC"]), "{symbol}", " | ").unwrap();
    assert_eq!(out, "BTC | BTC\n");
}

#[test]
fn render_empty_request_list_is_empty() {
    let records = vec![raw(&[("symbol", Some("BTC"))])];
    let out = run_query(&records, &strings(&[]), "{symbol}", " | ").unwrap();
    assert_eq!(out, "");
}

#[test]
fn absent_identifier_fails_naming_it() {
    let records = vec![raw(&[("symbol", Some("BTC"))])];
    let err = run_query(&records, &strings(&["BTC", "DOGE"]), "{symbol}", " | ").unwrap_err();
    assert!(matches!(&err, Error::Lookup(name) if name == "DOGE"));
    assert_eq!(err.message(), "unable to get DOGE value");
    assert!(err.cause().is_none());
}

#[test]
fn format_fault_reports_unknown_field_as_cause() {
    let records = vec![raw(&[("symbol", Some("BTC"))])];
    let err = run_query(&records, &strings(&["BTC"]), "{price_usd}", " | ").unwrap_err();
    assert!(matches!(&err, Error::Format(TemplateError::MissingField(_))));
    assert_eq!(err.message(), "unable to format value");
    assert_eq!(err.cause(), Some("unknown field price_usd".to_string()));
}

#[test]
fn record_without_symbol_fails_the_run() {
    let records = vec![raw(&[("name", Some("Mystery"))])];
    let err = run_query(&records, &strings(&["BTC"]), "{name}", " | ").unwrap_err();
    assert!(matches!(err, Error::MissingSymbol));
    assert_eq!(err.message(), "record has no symbol field");
}

#[test]
fn scenario_two_records_formats_both() {
    let body = r#"[{"symbol":"BTC","price_usd":"50000"},{"symbol":"ETH","price_usd":"3000"}]"#;
    let out =
        run_from_body(body, &strings(&["BTC", "ETH"]), "{symbol}:{price_usd}", ", ").unwrap();
    assert_eq!(out, "BTC:50000, ETH:3000\n");
}

#[test]
fn scenario_absent_identifier_yields_lookup_error() {
    let body = r#"[{"symbol":"BTC","price_usd":"50000"},{"symbol":"ETH","price_usd":"3000"}]"#;
    let err = run_from_body(body, &strings(&["DOGE"]), "{symbol}:{price_usd}", ", ").unwrap_err();
    assert!(matches!(&err, Error::Lookup(name) if name == "DOGE"));
    assert!(format!("error: {}", err.message()).starts_with("error: unable to get DOGE value"));
}

#[test]
fn scenario_null_value_prints_placeholder() {
    let body = r#"[{"symbol":"BTC","price_usd":null}]"#;
    let out = run_from_body(body, &strings(&["BTC"]), "{price_usd}", " | ").unwrap();
    assert_eq!(out, "not found\n");
}

#[test]
fn body_that_is_not_a_record_array_fails_to_parse() {
    for body in ["not json at all", "{\"symbol\":\"BTC\"}", "[1,2,3]"] {
        let err = run_from_body(body, &strings(&["BTC"]), "{symbol}", " | ").unwrap_err();
        assert!(matches!(&err, Error::Parse(_)));
        assert_eq!(err.message(), "unable to parse API response");
        assert!(!err.cause().unwrap().is_empty());
    }
}

#[test]
fn default_options_match_the_documented_values() {
    assert_eq!(default_separator(), " | ");
    assert_eq!(
        default_format(),
        "{name}, {symbol}, {rank}, {price_usd}, {price_btc}, {24h_volume_usd}, \
         {market_cap_usd}, {available_supply}, {total_supply}, {percent_change_1h}, \
         {percent_change_24h}, {percent_change_7d}, {last_updated}"
    );
}

#[test]
fn default_format_renders_every_field() {
    let body = r#"[{"symbol":"BTC","name":"Bitcoin","rank":"1","price_usd":"50000",
        "price_btc":"1.0","24h_volume_usd":"1000","market_cap_usd":"2000",
        "available_supply":"19","total_supply":"21","percent_change_1h":"0.1",
        "percent_change_24h":"0.2","percent_change_7d":"0.3","last_updated":null}]"#;
    let fmt = default_format();
    let sep = default_separator();
    let out = run_from_body(body, &strings(&["BTC"]), &fmt, &sep).unwrap();
    assert_eq!(
        out,
        "Bitcoin, BTC, 1, 50000, 1.0, 1000, 2000, 19, 21, 0.1, 0.2, 0.3, not found\n"
    );
}
