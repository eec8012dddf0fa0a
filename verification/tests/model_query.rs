use qstudio::model_query::lexer::{Keyword, Lexer, TokenKind};
use qstudio::model_query::parser::{parse, DrawCommand, ModelType, ShowType, TimeSpec};

#[test]
fn test_lexer() {
    let input = "LIVE HISTORICAL FUNDAMENTAL TICKER aapl";
    let mut lexer = Lexer::new(input);
    assert_eq!(lexer.next_token().unwrap().kind, TokenKind::Keyword(Keyword::Live));
    assert_eq!(lexer.next_token().unwrap().kind, TokenKind::Keyword(Keyword::Historical));
    assert_eq!(lexer.next_token().unwrap().kind, TokenKind::Keyword(Keyword::Fundamental));
    assert_eq!(lexer.next_token().unwrap().kind, TokenKind::Keyword(Keyword::Ticker));
    assert_eq!(lexer.next_token().unwrap().kind, TokenKind::Identifier("aapl".to_string()));
    assert_eq!(lexer.next_token().unwrap().kind, TokenKind::EOF);
}

#[test]
fn test_historical_query() {
    let src = r#"
            HISTORICAL 
            TICKER aapl
            FROM 20220101 TO 20221231
            PULL field1, field2, field3
            CALC field1, field2 DIFFERENCE CALLED diff_field
            SHOW
        "#;

    let query = parse(&src.replace("\n", " ")).unwrap();
    assert_eq!(query.model.model_type, ModelType::Historical);
    assert_eq!(query.model.ticker, "aapl");
    assert_eq!(
        query.model.time_spec,
        TimeSpec::DateRange {
            from: "20220101".to_string(),
            to: "20221231".to_string()
        }
    );
    assert_eq!(query.actions.fields, vec!["field1", "field2", "field3"]);
    assert!(query.actions.calc.is_some());
    assert_eq!(query.actions.calc.unwrap().operation, Keyword::Difference);
}

#[test]
fn lexer_reads_keywords_in_any_case() {
    let mut lexer = Lexer::new("historical Ticker pull");
    assert_eq!(lexer.next_token().unwrap().kind, TokenKind::Keyword(Keyword::Historical));
    assert_eq!(lexer.next_token().unwrap().kind, TokenKind::Keyword(Keyword::Ticker));
    assert_eq!(lexer.next_token().unwrap().kind, TokenKind::Keyword(Keyword::Pull));
    assert_eq!(lexer.next_token().unwrap().kind, TokenKind::EOF);
}

#[test]
fn lexer_reads_dates_intervals_commas_and_newlines() {
    let mut lexer = Lexer::new("20240131 5m, x\ny");
    assert_eq!(lexer.next_token().unwrap().kind, TokenKind::Literal("20240131".to_string()));
    assert_eq!(lexer.next_token().unwrap().kind, TokenKind::Interval("5m".to_string()));
    assert_eq!(lexer.next_token().unwrap().kind, TokenKind::Comma);
    assert_eq!(lexer.next_token().unwrap().kind, TokenKind::Identifier("x".to_string()));
    assert_eq!(lexer.next_token().unwrap().kind, TokenKind::Newline);
    let y = lexer.next_token().unwrap();
    assert_eq!(y.kind, TokenKind::Identifier("y".to_string()));
    assert_eq!((y.line, y.column), (2, 1));
}

#[test]
fn lexer_reports_a_character_that_starts_no_token() {
    let mut lexer = Lexer::new("TICKER $");
    assert_eq!(lexer.next_token().unwrap().kind, TokenKind::Keyword(Keyword::Ticker));
    let err = lexer.next_token().unwrap_err();
    assert_eq!((err.line, err.column), (1, 8));
}

#[test]
fn iterator_stops_at_the_end() {
    let mut lexer = Lexer::new("LIVE");
    assert!(lexer.next().is_some());
    assert!(lexer.next().is_none());
}

#[test]
fn keyword_spellings_read_back() {
    let all = [
        Keyword::Live, Keyword::Historical, Keyword::Fundamental, Keyword::Ticker,
        Keyword::From, Keyword::To, Keyword::Tick, Keyword::For, Keyword::Pull, Keyword::Calc,
        Keyword::Called, Keyword::ShowTable, Keyword::Difference, Keyword::Sum, Keyword::Multiply,
        Keyword::Divide, Keyword::Graph, Keyword::Line, Keyword::Candle, Keyword::Bar,
    ];
    for k in all {
        let spelled = k.name().to_uppercase();
        assert_eq!(Keyword::from_str(&spelled), Some(k));
    }
    assert_eq!(Keyword::from_str("SHOW"), Some(Keyword::ShowTable));
    assert_eq!(Keyword::from_str("show"), None);
    assert_eq!(Keyword::from_str("SMA"), None);
    assert_eq!(Keyword::from_str("VOLATILITY"), None);
}

#[test]
fn live_query_takes_literal_tick_and_duration() {
    let src = "LIVE TICKER msft TICK 00000060 FOR 00003600 PULL close SHOWTABLE";
    let query = parse(src).unwrap();
    assert_eq!(query.model.model_type, ModelType::Live);
    assert_eq!(query.model.ticker, "msft");
    assert_eq!(
        query.model.time_spec,
        TimeSpec::LiveSpec { interval: "00000060".to_string(), duration: "00003600".to_string() }
    );
    assert_eq!(query.actions.fields, vec!["close"]);
    assert!(query.actions.calc.is_none());
    assert_eq!(query.actions.show, ShowType::Table);
    assert_eq!(query.graph.unwrap().commands.len(), 0);
}

#[test]
fn live_query_with_an_interval_word_is_refused() {
    let err = parse("LIVE TICKER msft TICK 1m FOR 1h PULL close SHOWTABLE").unwrap_err();
    assert_eq!((err.line, err.column), (1, 23));
}

#[test]
fn graph_commands_follow_a_graph_show() {
    let src = "FUNDAMENTAL TICKER ibm FROM 20200101 TO 20201231 PULL close, open GRAPH LINE close, open BAR volume CANDLE op, hi, lo, cl";
    let query = parse(src).unwrap();
    assert_eq!(query.model.model_type, ModelType::Fundamental);
    assert_eq!(query.actions.show, ShowType::Graph);
    let graph = query.graph.unwrap();
    assert_eq!(graph.commands.len(), 3);
    match &graph.commands[0] {
        DrawCommand::Line(fields) => assert_eq!(fields, &vec!["close".to_string(), "open".to_string()]),
        other => panic!("unexpected {:?}", other),
    }
    match &graph.commands[1] {
        DrawCommand::Bar(y) => assert_eq!(y, "volume"),
        other => panic!("unexpected {:?}", other),
    }
    match &graph.commands[2] {
        DrawCommand::Candle { open, high, low, close } => {
            assert_eq!((open.as_str(), high.as_str(), low.as_str(), close.as_str()), ("op", "hi", "lo", "cl"));
        },
        other => panic!("unexpected {:?}", other),
    }
}

#[test]
fn a_lone_unit_letter_is_an_interval() {
    let mut lexer = Lexer::new("h x");
    assert_eq!(lexer.next_token().unwrap().kind, TokenKind::Interval("h".to_string()));
    assert_eq!(lexer.next_token().unwrap().kind, TokenKind::Identifier("x".to_string()));
}

#[test]
fn calc_needs_a_known_operation() {
    let err = parse("HISTORICAL TICKER a FROM 20200101 TO 20200102 PULL x CALC x, y PULL CALLED z SHOWTABLE").unwrap_err();
    assert_eq!((err.line, err.column), (1, 64));
}

#[test]
fn query_without_model_type_is_refused() {
    let err = parse("TICKER aapl").unwrap_err();
    assert_eq!((err.line, err.column), (1, 1));
}

#[test]
fn query_cut_short_reports_the_end() {
    let err = parse("HISTORICAL TICKER").unwrap_err();
    assert!(err.message.contains("EOF") || err.message.contains("identifier"));
}
