use std::collections::HashMap;

use qstudio::frame_query::ast::{ActionSection, Calc, DrawCommand, TimeSpec, TradeType};
use qstudio::frame_query::lexer::{Keyword, Lexer, TokenKind};
use qstudio::frame_query::ordering::{calc_outputs, is_numeric_literal, order_calcs_by_waves, order_calcs_flat};
use qstudio::frame_query::parser::parse;
use qstudio::frame_query::provider_queries::yyyymmdd_to_iso8601_z;
use qstudio::keyed::KeyedList;

fn strings(v: &[&str]) -> Vec<String> {
    v.iter().map(|s| s.to_string()).collect()
}

fn calc(inputs: &[&str], operation: Keyword, alias: &str) -> Calc {
    Calc { inputs: strings(inputs), operation, alias: alias.to_string() }
}

fn aliases(cs: &[Calc]) -> Vec<String> {
    cs.iter().map(|c| c.alias.clone()).collect()
}

const FULL_QUERY: &str = "# prices and a spread
PROVIDER px
    USING yahoo_finance
    TICKER AAPL
    FROM 20240101 TO 20240301
    PARAM region = us

FRAME prices
    PROVIDER px
    PULL close, open
    CALC spread, 2 MULTIPLY CALLED doubled
    CALC close, open DIFFERENCE CALLED spread

GRAPH
    XAXIS timestamp
    LINE close, open FOR prices
    BAR volume FOR prices
    CANDLE open, high, low, close FOR prices

TRADE
    STOCK
    OVER prices
    ENTRY spread, 0.5
    EXIT spread, 0.1
    LIMIT 0.05
    HOLD 10
";

#[test]
fn test_query_build_provider_queries_pairs() {
    let src = "PROVIDER sec_aapl
    PROVIDER sec_edgar
    TICKER AAPL
    FROM 20250104 TO 20251005

PROVIDER yf_nvda
    PROVIDER yahoo_finance
    TICKER NVDA
    FROM 20250905 TO 20251005
";

    let q = parse(src).unwrap();
    let pairs = q.build_provider_queries().unwrap();
    let map: HashMap<String, String> = pairs.into_iter().collect();

    assert_eq!(
        map.get("sec_aapl").unwrap(),
        "provider sec_edgar search ticker=AAPL date=2025-01-04T00:00:00Z..2025-10-05T00:00:00Z"
    );
    assert_eq!(
        map.get("yf_nvda").unwrap(),
        "provider yahoo_finance search ticker=NVDA date=2025-09-05T00:00:00Z..2025-10-05T00:00:00Z"
    );
}

#[test]
fn full_query_parses_every_section() {
    let q = parse(FULL_QUERY).unwrap();

    let px = q.providers.get("px").unwrap();
    assert_eq!(px.name, "px");
    assert_eq!(px.backend.as_deref(), Some("yahoo_finance"));
    assert_eq!(px.ticker.as_deref(), Some("AAPL"));
    assert_eq!(
        px.time_spec,
        Some(TimeSpec::DateRange { from: "20240101".to_string(), to: "20240301".to_string() })
    );
    assert_eq!(px.params, vec![("region".to_string(), "us".to_string())]);

    let frame = q.frame.get("prices").unwrap();
    assert_eq!(frame.provider, "px");
    assert_eq!(frame.actions.fields, strings(&["close", "open"]));
    let calcs = frame.actions.calc.as_ref().unwrap();
    assert_eq!(aliases(calcs), strings(&["spread", "doubled"]));
    assert_eq!(calcs[0].operation, Keyword::Difference);
    assert_eq!(calcs[1].inputs, strings(&["spread", "2"]));

    let graph = q.graph.as_ref().unwrap();
    assert_eq!(graph.xaxis, "timestamp");
    assert_eq!(graph.commands.len(), 4);
    match &graph.commands[0] {
        DrawCommand::Line { name, series, frame } => {
            assert_eq!(name, "close");
            assert_eq!(series, &strings(&["close", "open"]));
            assert_eq!(frame, "prices");
        },
        other => panic!("unexpected {:?}", other),
    }
    match &graph.commands[1] {
        DrawCommand::Line { name, .. } => assert_eq!(name, "open"),
        other => panic!("unexpected {:?}", other),
    }
    match &graph.commands[2] {
        DrawCommand::Bar { name, y, frame } => {
            assert_eq!((name.as_str(), y.as_str(), frame.as_str()), ("volume", "volume", "prices"));
        },
        other => panic!("unexpected {:?}", other),
    }
    match &graph.commands[3] {
        DrawCommand::Candle { name, open, high, low, close, frame } => {
            assert_eq!(name, "Candle");
            assert_eq!((open.as_str(), high.as_str(), low.as_str(), close.as_str()), ("open", "high", "low", "close"));
            assert_eq!(frame, "prices");
        },
        other => panic!("unexpected {:?}", other),
    }
    assert_eq!(graph.commands[3].get_frame(), "prices");

    let trade = q.trade.as_ref().unwrap();
    assert_eq!(trade.trade_type, TradeType::Stock);
    assert_eq!(trade.over_frame, "prices");
    assert_eq!(trade.entry, strings(&["spread"]));
    assert_eq!(trade.within_entry, "0.5");
    assert_eq!(trade.exit, strings(&["spread"]));
    assert_eq!(trade.within_exit, "0.1");
    assert_eq!(trade.stop_loss, "0.05");
    assert_eq!(trade.hold, 10);
}

#[test]
fn trade_with_a_bad_hold_is_dropped() {
    let src = FULL_QUERY.replace("HOLD 10", "HOLD ten");
    let q = parse(&src).unwrap();
    assert!(q.trade.is_none());
    assert!(q.graph.is_some());
}

#[test]
fn trade_without_a_threshold_is_dropped() {
    let src = FULL_QUERY.replace("ENTRY spread, 0.5", "ENTRY spread, high");
    let q = parse(&src).unwrap();
    assert!(q.trade.is_none());
}

#[test]
fn option_trades_are_read() {
    let src = FULL_QUERY.replace("    STOCK\n", "    OPTION_PUT\n");
    let q = parse(&src).unwrap();
    assert_eq!(q.trade.unwrap().trade_type, TradeType::OptionPut);
}

#[test]
fn live_provider_block() {
    let src = "PROVIDER feed\nUSING ws\nTICKER BTC\nLIVE TICK 00000001 FOR 00000060\n";
    let q = parse(src).unwrap();
    let feed = q.providers.get("feed").unwrap();
    assert_eq!(
        feed.time_spec,
        Some(TimeSpec::LiveSpec { interval: "00000001".to_string(), duration: "00000060".to_string() })
    );
    // a live provider sends no search request
    assert_eq!(q.build_provider_queries().unwrap(), Vec::<(String, String)>::new());
}

#[test]
fn provider_named_twice_is_refused() {
    let err = parse("PROVIDER a\nUSING x\nPROVIDER a\nUSING y\n").unwrap_err();
    assert_eq!(err.message, "provider \"a\" is already defined");
    assert_eq!(err.line, 4);
}

#[test]
fn repeated_calc_alias_is_refused() {
    let src = "FRAME f\nPROVIDER p\nPULL a\nCALC a, a SUM CALLED sa\nCALC a, 3 MULTIPLY CALLED sa\n";
    let err = parse(src).unwrap_err();
    assert_eq!(err.message, "duplicate CALC alias: 'sa'");
    assert_eq!((err.line, err.column), (0, 0));
}

#[test]
fn unknown_calc_operation_is_refused() {
    let err = parse("FRAME f\nPROVIDER p\nPULL a\nCALC a, b PULL CALLED s\n").unwrap_err();
    assert_eq!((err.line, err.column), (4, 11));
    assert!(err.message.starts_with("expected CALC op"));
}

#[test]
fn invalid_dates_are_reported_with_the_provider() {
    let q = parse("PROVIDER p\nUSING b\nTICKER T\nFROM 20241301 TO 20241231\n").unwrap();
    let err = q.build_provider_queries().unwrap_err();
    assert_eq!(err.message, "provider \"p\": invalid date components");
    assert_eq!((err.line, err.column), (0, 0));
}

#[test]
fn dates_are_rewritten_in_iso_form() {
    assert_eq!(yyyymmdd_to_iso8601_z("20250104").unwrap(), "2025-01-04T00:00:00Z");
    assert_eq!(yyyymmdd_to_iso8601_z("2025014"), Err("invalid date literal (expected YYYYMMDD)"));
    assert_eq!(yyyymmdd_to_iso8601_z("2025a104"), Err("invalid date literal (expected YYYYMMDD)"));
    assert_eq!(yyyymmdd_to_iso8601_z("20250004"), Err("invalid date components"));
    assert_eq!(yyyymmdd_to_iso8601_z("20250132"), Err("invalid date components"));
    assert_eq!(yyyymmdd_to_iso8601_z("20251231").unwrap(), "2025-12-31T00:00:00Z");
}

#[test]
fn lexer_reads_comments_and_equals() {
    let mut lexer = Lexer::new("PARAM k = v # note\nover");
    assert_eq!(lexer.next_token().unwrap().kind, TokenKind::Keyword(Keyword::Param));
    assert_eq!(lexer.next_token().unwrap().kind, TokenKind::Identifier("k".to_string()));
    assert_eq!(lexer.next_token().unwrap().kind, TokenKind::Identifier("=".to_string()));
    assert_eq!(lexer.next_token().unwrap().kind, TokenKind::Identifier("v".to_string()));
    assert_eq!(lexer.next_token().unwrap().kind, TokenKind::Comment(" note".to_string()));
    assert_eq!(lexer.next_token().unwrap().kind, TokenKind::Newline);
    let over = lexer.next_token().unwrap();
    assert_eq!(over.kind, TokenKind::Keyword(Keyword::OverFrame));
    assert_eq!((over.line, over.column), (2, 1));
    assert_eq!(lexer.next_token().unwrap().kind, TokenKind::EOF);
}

#[test]
fn frame_keyword_spellings_read_back() {
    let all = [
        (Keyword::Provider, "PROVIDER"), (Keyword::Using, "USING"), (Keyword::Param, "PARAM"),
        (Keyword::Ticker, "TICKER"), (Keyword::Live, "LIVE"), (Keyword::DoubleVolatility, "DOUBLE_VOLATILITY"),
        (Keyword::LinearRegression, "LINEAR_REGRESSION"), (Keyword::OptionCall, "OPTION_CALL"),
        (Keyword::OverFrame, "OVER"), (Keyword::Hold, "HOLD"),
    ];
    for (k, spelled) in all {
        assert_eq!(Keyword::from_str(spelled), Some(k));
    }
    assert_eq!(Keyword::from_str("over"), None);
}

#[test]
fn numeric_literals() {
    assert!(is_numeric_literal("2"));
    assert!(is_numeric_literal(" '1.5e3' "));
    assert!(is_numeric_literal("\"-0.25\""));
    assert!(!is_numeric_literal("close"));
    assert!(!is_numeric_literal(""));
    assert!(!is_numeric_literal("1x"));
}

#[test]
fn volatility_has_three_outputs() {
    let v = calc(&["close"], Keyword::Volatility, "vol");
    assert_eq!(calc_outputs(&v), strings(&["vol", "vol_pos", "vol_neg"]));
    let s = calc(&["close"], Keyword::Sum, "total");
    assert_eq!(calc_outputs(&s), strings(&["total"]));
}

#[test]
fn waves_follow_dependencies() {
    let action = ActionSection {
        fields: strings(&["close"]),
        calc: Some(vec![
            calc(&["vol_pos", "base"], Keyword::Sum, "both"),
            calc(&["close"], Keyword::Volatility, "vol"),
            calc(&["close", "1"], Keyword::Multiply, "base"),
            calc(&["missing"], Keyword::Sma, "never"),
        ]),
    };
    let waves = order_calcs_by_waves(&action).unwrap();
    let names: Vec<Vec<String>> = waves.iter().map(|w| aliases(w)).collect();
    assert_eq!(
        names,
        vec![strings(&["vol", "base"]), strings(&["both"]), strings(&["never"])]
    );
    let flat = order_calcs_flat(&action).unwrap();
    assert_eq!(aliases(&flat), strings(&["vol", "base", "both", "never"]));
}

#[test]
fn no_calcs_give_no_waves() {
    let action = ActionSection { fields: strings(&["a"]), calc: None };
    assert_eq!(order_calcs_by_waves(&action).unwrap().len(), 0);
}

#[test]
fn repeated_alias_is_refused_by_ordering() {
    let action = ActionSection {
        fields: strings(&["a"]),
        calc: Some(vec![calc(&["a"], Keyword::Sum, "x"), calc(&["a"], Keyword::Sum, "x")]),
    };
    let err = order_calcs_flat(&action).unwrap_err();
    assert_eq!(err.message, "duplicate CALC alias: 'x'");
}

#[test]
fn requests_and_date_errors_name_the_provider_by_its_name() {
    let q = parse("PROVIDER p\nUSING b\nTICKER T\nFROM 20240101 TO 20241231\n").unwrap();
    let mut prov = q.providers.get("p").unwrap().clone();
    prov.name = "named".to_string();
    let mut renamed = q.clone();
    renamed.providers = KeyedList::new();
    renamed.providers.insert("key".to_string(), prov.clone());
    let pairs = renamed.build_provider_queries().unwrap();
    assert_eq!(pairs.len(), 1);
    assert_eq!(pairs[0].0, "named");

    prov.time_spec = Some(TimeSpec::DateRange { from: "20241301".into(), to: "20241231".into() });
    renamed.providers.insert("key".to_string(), prov);
    let err = renamed.build_provider_queries().unwrap_err();
    assert_eq!(err.message, "provider \"named\": invalid date components");
}
