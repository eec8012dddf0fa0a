//! The engine's bookkeeping around a run: its status and what it reports at
//! each step of a run, how a query that does not parse is reported, and
//! the output it publishes.

use vstd::prelude::*;
use crate::frame_query::ast::{ParseError, Query, SpecParseError};
use crate::frame_query::parser::{parse, spec_parse};
use crate::text::concat;
use crate::trading::{decimal, decimal_text};

verus! {

/// Whether the engine is running, idle, or stopped by an error.
#[derive(Debug, Clone)]
pub enum EngineStatus {
    Running,
    Stopped,
    Error(String),
}

/// How a parse error is reported after `what`: its message, then the line
/// and column where it was found.
pub open spec fn failure_text(what: Seq<char>, e: SpecParseError) -> Seq<char> {
    what + ": "@ + e.message + ", line "@ + decimal(e.line) + ", column "@ + decimal(e.column)
}

/// The report of the parse error `e` after `what`; see `failure_text`.
pub fn describe_failure(what: &str, e: &ParseError) -> (r: String)
    ensures
        r@ == failure_text(what@, e@),
{
    let a = concat(what, ": ");
    let b = concat(a.as_str(), e.message.as_str());
    let c = concat(b.as_str(), ", line ");
    let d = concat(c.as_str(), decimal_text(e.line).as_str());
    let f = concat(d.as_str(), ", column ");
    concat(f.as_str(), decimal_text(e.column).as_str())
}

/// The query of the source `src`, or the report, after `what`, of why it
/// does not parse.
pub fn load_query(src: &str, what: &str) -> (r: Result<Query, String>)
    requires
        src@.len() < usize::MAX,
    ensures
        match spec_parse(src@) {
            Ok(q) => r matches Ok(p) && p@ == q && p.wf(),
            Err(e) => r matches Err(m) && m@ == failure_text(what@, e),
        },
{
    match parse(src) {
        Ok(q) => Ok(q),
        Err(e) => Err(describe_failure(what, &e)),
    }
}

/// Whether the source `src` parses; when it does not, why, after "Failed
/// to analyze query".
pub fn analyze_source(src: &str) -> (r: Result<(), String>)
    requires
        src@.len() < usize::MAX,
    ensures
        match spec_parse(src@) {
            Ok(_) => r is Ok,
            Err(e) => r matches Err(m) && m@ == failure_text("Failed to analyze query"@, e),
        },
{
    match load_query(src, "Failed to analyze query") {
        Ok(_) => Ok(()),
        Err(m) => Err(m),
    }
}

/// The output of the engine's last run, and whether it has been reported
/// since.
pub struct Published<O> {
    pub output: Option<O>,
    pub new_output: bool,
}

/// Whether asking reports a new output: there is one, not yet reported.
pub open spec fn reports<O>(p: Published<O>) -> bool {
    p.output is Some && p.new_output
}

/// The state after asking: a present output counts as reported.
pub open spec fn asked<O>(p: Published<O>) -> Published<O> {
    Published { output: p.output, new_output: p.output is None && p.new_output }
}

impl<O> Published<O> {
    /// Nothing published yet.
    pub fn new() -> (r: Self)
        ensures
            r.output is None,
            !r.new_output,
    {
        Published { output: None, new_output: false }
    }

    /// A run finished with `output`: it replaces the last one and is new.
    pub fn publish(&mut self, output: O)
        ensures
            *final(self) == (Published { output: Some(output), new_output: true }),
    {
        self.output = Some(output);
        self.new_output = true;
    }

    /// Whether there is an output not yet reported; asking reports it. With
    /// no output at all, the answer is no and nothing changes.
    pub fn output_changed(&mut self) -> (r: bool)
        ensures
            r == reports(*old(self)),
            *final(self) == asked(*old(self)),
    {
        if self.output.is_none() {
            return false;
        }
        let ret = self.new_output;
        self.new_output = false;
        ret
    }

    /// The last output, if any.
    pub fn get_output(&self) -> (r: &Option<O>)
        ensures
            *r == self.output,
    {
        &self.output
    }
}

/// A published output is reported as changed exactly once: the first
/// question after it is published answers yes, the next one no.
pub proof fn law_new_output_reported_once<O>(o: O)
    ensures
        reports(Published { output: Some(o), new_output: true }),
        !reports(asked(Published { output: Some(o), new_output: true })),
{
}

/* --------------------------------- a run --------------------------------- */

/// What `format!("{:?}", s)` writes for the string `s`: `s` in double
/// quotes with its special characters escaped.
pub uninterp spec fn debug_quoted(s: Seq<char>) -> Seq<char>;

/// The `Debug` text of a string (`<str as Debug>::fmt`); see
/// `debug_quoted`. It depends on the string alone.
#[verifier::external_body]
fn debug_text(s: &str) -> (r: String)
    ensures
        r@ == debug_quoted(s@),
{
    format!("{:?}", s)
}

/// The `Debug` text of a parse error, as the derived `Debug` writes it.
pub open spec fn parse_error_debug(e: SpecParseError) -> Seq<char> {
    "ParseError { message: "@ + debug_quoted(e.message) + ", line: "@ + decimal(e.line) + ", column: "@
        + decimal(e.column) + " }"@
}

fn parse_error_text(e: &ParseError) -> (r: String)
    ensures
        r@ == parse_error_debug(e@),
{
    let a = concat("ParseError { message: ", debug_text(e.message.as_str()).as_str());
    let b = concat(a.as_str(), ", line: ");
    let c = concat(b.as_str(), decimal_text(e.line).as_str());
    let d = concat(c.as_str(), ", column: ");
    let f = concat(d.as_str(), decimal_text(e.column).as_str());
    concat(f.as_str(), " }")
}

/// What a run of the engine has just come to. The data, actions, graph
/// and trades are computed outside the library; their failures arrive here
/// with their reasons, and, for a failed fetch or decoding, with the text
/// of what was being fetched or decoded.
#[derive(Debug)]
pub enum RunEvent {
    /// The run begins.
    Started,
    /// The source was analyzed.
    Analyzed(Result<(), String>),
    /// The providers' search requests were built, or refused.
    QueriesBuilt(Result<(), ParseError>),
    /// The providers answered, or the fetch failed.
    DataFetched { result: Result<(), String>, detail: String },
    /// A provider's answer was decoded into a table, or not.
    DataDecoded { result: Result<(), String>, detail: String },
    /// Frame `frame` draws on provider `provider`, whose table is there or
    /// not.
    FrameProvider { frame: String, provider: String, found: bool },
    /// A frame's actions were applied, or failed.
    ActionsApplied(Result<(), String>),
    /// The graph was built, or failed.
    GraphBuilt(Result<(), String>),
    /// The trades were built, or failed.
    TradesBuilt(Result<(), String>),
    /// Every table, graph and trade is built.
    Finished,
    /// The frame the trades run over is there, or not.
    TradeFrame { frame: String, found: bool },
}

/// What the run does next.
#[derive(Debug)]
pub enum RunAction {
    /// Go on with the next step.
    Continue,
    /// Stop the run with this error.
    Fail(String),
}

/// How the status changes and what the run does on `e`, from status `st`:
/// the run starts `Running`; a failed analysis, query building, fetch or
/// decoding puts the status in error and stops the run; a missing provider
/// table, failed actions, graph or trades, or a missing trade frame stops
/// the run and leaves the status as it is; the end of the computations
/// stops the engine (`Stopped`); anything else goes on.
pub open spec fn run_step_ok(st: EngineStatus, e: RunEvent, st2: EngineStatus, a: RunAction) -> bool {
    match e {
        RunEvent::Started => st2 == EngineStatus::Running && a == RunAction::Continue,
        RunEvent::Analyzed(Err(why)) => {
            &&& st2 matches EngineStatus::Error(m) && m@ == why@
            &&& a matches RunAction::Fail(m) && m@ == "Failed to analyze code: "@ + debug_quoted(why@)
        },
        RunEvent::QueriesBuilt(Err(pe)) => {
            &&& st2 matches EngineStatus::Error(m) && m@ == "Failed to build queries: "@ + parse_error_debug(pe@)
            &&& a matches RunAction::Fail(m) && m@ == "Failed to build queries: "@ + parse_error_debug(pe@)
        },
        RunEvent::DataFetched { result: Err(why), detail } => {
            &&& st2 matches EngineStatus::Error(m) && m@ == "Failed to get data: "@ + why@
            &&& a matches RunAction::Fail(m) && m@ == "Failed to get data: "@ + why@ + " for "@ + detail@
        },
        RunEvent::DataDecoded { result: Err(why), detail } => {
            &&& st2 matches EngineStatus::Error(m) && m@ == "Failed to deserialize data: "@ + why@
            &&& a matches RunAction::Fail(m) && m@ == "Failed to deserialize data: "@ + why@ + " for "@ + detail@
        },
        RunEvent::FrameProvider { frame, provider, found } => st2 == st && if found {
            a == RunAction::Continue
        } else {
            a matches RunAction::Fail(m) && m@ == "Provider : "@ + provider@ + " not found for frame: "@ + frame@
        },
        RunEvent::ActionsApplied(Err(why)) => st2 == st
            && (a matches RunAction::Fail(m) && m@ == "Failed to apply actions for frame: "@ + why@),
        RunEvent::GraphBuilt(Err(why)) => st2 == st
            && (a matches RunAction::Fail(m) && m@ == "Failed to build graph: "@ + why@),
        RunEvent::TradesBuilt(Err(why)) => st2 == st
            && (a matches RunAction::Fail(m) && m@ == "Failed to build trades: "@ + why@),
        RunEvent::Finished => st2 == EngineStatus::Stopped && a == RunAction::Continue,
        RunEvent::TradeFrame { frame, found } => st2 == st && if found {
            a == RunAction::Continue
        } else {
            a matches RunAction::Fail(m) && m@ == "Frame '"@ + frame@ + "' not found for trades"@
        },
        _ => st2 == st && a == RunAction::Continue,
    }
}

/// One step of a run: updates `status` and says what the run does next;
/// see `run_step_ok`.
pub fn run_step(status: &mut EngineStatus, e: RunEvent) -> (a: RunAction)
    ensures
        run_step_ok(*old(status), e, *final(status), a),
{
    match e {
        RunEvent::Started => {
            *status = EngineStatus::Running;
            RunAction::Continue
        },
        RunEvent::Analyzed(Err(why)) => {
            let m = concat("Failed to analyze code: ", debug_text(why.as_str()).as_str());
            *status = EngineStatus::Error(why);
            RunAction::Fail(m)
        },
        RunEvent::QueriesBuilt(Err(pe)) => {
            let m = concat("Failed to build queries: ", parse_error_text(&pe).as_str());
            *status = EngineStatus::Error(m.clone());
            RunAction::Fail(m)
        },
        RunEvent::DataFetched { result: Err(why), detail } => {
            let m = concat("Failed to get data: ", why.as_str());
            let f = concat(concat(m.as_str(), " for ").as_str(), detail.as_str());
            *status = EngineStatus::Error(m);
            RunAction::Fail(f)
        },
        RunEvent::DataDecoded { result: Err(why), detail } => {
            let m = concat("Failed to deserialize data: ", why.as_str());
            let f = concat(concat(m.as_str(), " for ").as_str(), detail.as_str());
            *status = EngineStatus::Error(m);
            RunAction::Fail(f)
        },
        RunEvent::FrameProvider { frame, provider, found } => {
            if found {
                RunAction::Continue
            } else {
                let a = concat("Provider : ", provider.as_str());
                let b = concat(a.as_str(), " not found for frame: ");
                RunAction::Fail(concat(b.as_str(), frame.as_str()))
            }
        },
        RunEvent::ActionsApplied(Err(why)) => RunAction::Fail(concat("Failed to apply actions for frame: ", why.as_str())),
        RunEvent::GraphBuilt(Err(why)) => RunAction::Fail(concat("Failed to build graph: ", why.as_str())),
        RunEvent::TradesBuilt(Err(why)) => RunAction::Fail(concat("Failed to build trades: ", why.as_str())),
        RunEvent::Finished => {
            *status = EngineStatus::Stopped;
            RunAction::Continue
        },
        RunEvent::TradeFrame { frame, found } => {
            if found {
                RunAction::Continue
            } else {
                let a = concat("Frame '", frame.as_str());
                RunAction::Fail(concat(a.as_str(), "' not found for trades"))
            }
        },
        _ => RunAction::Continue,
    }
}

/// A run that fails leaves the status in error exactly when the failure
/// came while analyzing, building the requests, fetching or decoding.
pub proof fn law_failures_that_mark_an_error(st: EngineStatus, e: RunEvent, st2: EngineStatus, a: RunAction)
    requires
        run_step_ok(st, e, st2, a),
        a is Fail,
        !(st is Error),
    ensures
        st2 is Error <==> (e is Analyzed || e is QueriesBuilt || e is DataFetched || e is DataDecoded),
{
}

} // verus!
