use qstudio::engine::{analyze_source, load_query, Published};

#[test]
fn a_query_that_parses_is_accepted() {
    let src = "PROVIDER p\nUSING b\nTICKER T\nFROM 20240101 TO 20241231\n";
    assert!(analyze_source(src).is_ok());
    let q = load_query(src, "Failed to parse query").unwrap();
    assert_eq!(q.build_provider_queries().unwrap().len(), 1);
}

#[test]
fn parse_failures_name_the_place() {
    let src = "PROVIDER a\nUSING x\nPROVIDER a\nUSING y\n";
    let err = analyze_source(src).unwrap_err();
    assert!(err.starts_with("Failed to analyze query: provider \"a\" is already defined, line 4, column "));
    let err = load_query("FRAME f\nPROVIDER p\nPULL a\nCALC a, b PULL CALLED s\n", "Failed to parse updated code")
        .err()
        .unwrap();
    assert!(err.starts_with("Failed to parse updated code: expected CALC op"));
    assert!(err.ends_with(", line 4, column 11"));
}

#[test]
fn a_published_output_is_reported_once() {
    let mut p: Published<u32> = Published::new();
    assert!(!p.output_changed());
    assert!(p.get_output().is_none());
    p.publish(7);
    assert!(p.output_changed());
    assert!(!p.output_changed());
    assert_eq!(*p.get_output(), Some(7));
    p.publish(8);
    assert!(p.output_changed());
}

use qstudio::engine::{run_step, EngineStatus, RunAction, RunEvent};
use qstudio::frame_query::ast::ParseError;

fn fail_text(a: RunAction) -> String {
    match a {
        RunAction::Fail(m) => m,
        RunAction::Continue => panic!("the run went on"),
    }
}

#[test]
fn a_run_moves_through_its_statuses() {
    let mut st = EngineStatus::Stopped;
    assert!(matches!(run_step(&mut st, RunEvent::Started), RunAction::Continue));
    assert!(matches!(st, EngineStatus::Running));
    assert!(matches!(run_step(&mut st, RunEvent::Analyzed(Ok(()))), RunAction::Continue));
    assert!(matches!(run_step(&mut st, RunEvent::GraphBuilt(Ok(()))), RunAction::Continue));
    assert!(matches!(run_step(&mut st, RunEvent::Finished), RunAction::Continue));
    assert!(matches!(st, EngineStatus::Stopped));
    let m = fail_text(run_step(&mut st, RunEvent::TradeFrame { frame: "f".into(), found: false }));
    assert_eq!(m, "Frame 'f' not found for trades");
    assert!(matches!(st, EngineStatus::Stopped));
}

#[test]
fn early_failures_put_the_status_in_error() {
    let mut st = EngineStatus::Running;
    let m = fail_text(run_step(&mut st, RunEvent::Analyzed(Err("bad \"x\"\n".into()))));
    assert_eq!(m, format!("Failed to analyze code: {:?}", "bad \"x\"\n"));
    assert!(matches!(st, EngineStatus::Error(ref e) if e == "bad \"x\"\n"));

    let mut st = EngineStatus::Running;
    let pe = ParseError { message: "provider \"p\": invalid date components".into(), line: 0, column: 0 };
    let expected = format!("Failed to build queries: {:?}", pe);
    let m = fail_text(run_step(&mut st, RunEvent::QueriesBuilt(Err(pe))));
    assert_eq!(m, expected);
    assert!(matches!(st, EngineStatus::Error(ref e) if *e == expected));

    let mut st = EngineStatus::Running;
    let m = fail_text(run_step(&mut st, RunEvent::DataFetched { result: Err("refused".into()), detail: "[q]".into() }));
    assert_eq!(m, "Failed to get data: refused for [q]");
    assert!(matches!(st, EngineStatus::Error(ref e) if e == "Failed to get data: refused"));
}

#[test]
fn late_failures_leave_the_status() {
    let mut st = EngineStatus::Running;
    let m = fail_text(run_step(&mut st, RunEvent::FrameProvider { frame: "f".into(), provider: "p".into(), found: false }));
    assert_eq!(m, "Provider : p not found for frame: f");
    assert!(matches!(st, EngineStatus::Running));
    let m = fail_text(run_step(&mut st, RunEvent::TradesBuilt(Err("no rows".into()))));
    assert_eq!(m, "Failed to build trades: no rows");
    assert!(matches!(st, EngineStatus::Running));
}
