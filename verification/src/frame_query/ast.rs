//! The syntax tree of frame QQL, with the values that contracts speak of.

use vstd::prelude::*;
use crate::keyed::KeyedList;
use crate::text::{concat, owned};
use crate::frame_query::lexer::{Keyword, Token, SpecToken, describe_kind};

verus! {

pub open spec fn strings_view(v: Seq<String>) -> Seq<Seq<char>> {
    v.map_values(|s: String| s@)
}

/// A frame: the provider it pulls from and what it pulls and derives.
#[derive(Debug, Clone)]
pub struct Frame {
    pub provider: String,
    pub actions: ActionSection,
}

/// A parsed query: provider instances and frames by name, an optional
/// graph and an optional trade rule.
#[derive(Debug, Clone)]
pub struct Query {
    pub providers: KeyedList<ProviderInstance>,
    pub frame: KeyedList<Frame>,
    pub graph: Option<GraphSection>,
    pub trade: Option<TradeSection>,
}

/// A date range, or the interval and duration of a live feed.
#[derive(Debug, Clone, PartialEq)]
pub enum TimeSpec {
    DateRange { from: String, to: String },
    LiveSpec { interval: String, duration: String },
}

/// A named data source: its backend, ticker, time span and extra
/// parameters.
#[derive(Debug, Clone, PartialEq)]
pub struct ProviderInstance {
    pub name: String,
    pub backend: Option<String>,
    pub ticker: Option<String>,
    pub time_spec: Option<TimeSpec>,
    pub params: Vec<(String, String)>,
}

/// How a frame is shown.
#[derive(Debug, Clone)]
pub enum ShowType {
    Table,
    Graph(GraphSection),
}

/// The fields a frame pulls and the calculations it derives, the latter in
/// dependency order.
#[derive(Debug, Clone)]
pub struct ActionSection {
    pub fields: Vec<String>,
    pub calc: Option<Vec<Calc>>,
}

/// A calculation over some inputs (fields, other aliases or numeric
/// literals), stored under an alias.
#[derive(Debug, Clone)]
pub struct Calc {
    pub inputs: Vec<String>,
    pub operation: Keyword,
    pub alias: String,
}

/// The x axis of a graph and its drawing commands.
#[derive(Debug, Clone)]
pub struct GraphSection {
    pub xaxis: String,
    pub commands: Vec<DrawCommand>,
}

/// One drawing command, over the columns of one frame.
#[derive(Debug, Clone)]
pub enum DrawCommand {
    Line { name: String, series: Vec<String>, frame: String },
    Bar { name: String, y: String, frame: String },
    Candle { name: String, open: String, high: String, low: String, close: String, frame: String },
}

/// The kind of instrument traded.
#[derive(Debug, Clone, Copy, PartialEq, Eq, Structural)]
pub enum TradeType {
    OptionCall,
    OptionPut,
    Stock,
}

/// A trade rule over a frame. The thresholds are kept as the text of the
/// numbers written, each of which `f64::from_str` accepts.
#[derive(Debug, Clone)]
pub struct TradeSection {
    pub trade_type: TradeType,
    pub over_frame: String,
    pub entry: Vec<String>,
    pub within_entry: String,
    pub exit: Vec<String>,
    pub within_exit: String,
    pub stop_loss: String,
    pub hold: i32,
}

/* ------------------------------- Views ----------------------------------- */

pub enum SpecTimeSpec {
    DateRange { from: Seq<char>, to: Seq<char> },
    LiveSpec { interval: Seq<char>, duration: Seq<char> },
}

impl View for TimeSpec {
    type V = SpecTimeSpec;

    open spec fn view(&self) -> SpecTimeSpec {
        match self {
            TimeSpec::DateRange { from, to } => SpecTimeSpec::DateRange { from: from@, to: to@ },
            TimeSpec::LiveSpec { interval, duration } => SpecTimeSpec::LiveSpec {
                interval: interval@,
                duration: duration@,
            },
        }
    }
}

pub open spec fn pairs_view(v: Seq<(String, String)>) -> Seq<(Seq<char>, Seq<char>)> {
    v.map_values(|p: (String, String)| (p.0@, p.1@))
}

pub open spec fn opt_string_view(o: Option<String>) -> Option<Seq<char>> {
    match o {
        Some(s) => Some(s@),
        None => None,
    }
}

pub struct SpecProviderInstance {
    pub name: Seq<char>,
    pub backend: Option<Seq<char>>,
    pub ticker: Option<Seq<char>>,
    pub time_spec: Option<SpecTimeSpec>,
    pub params: Seq<(Seq<char>, Seq<char>)>,
}

impl View for ProviderInstance {
    type V = SpecProviderInstance;

    open spec fn view(&self) -> SpecProviderInstance {
        SpecProviderInstance {
            name: self.name@,
            backend: opt_string_view(self.backend),
            ticker: opt_string_view(self.ticker),
            time_spec: match self.time_spec {
                Some(t) => Some(t@),
                None => None,
            },
            params: pairs_view(self.params@),
        }
    }
}

pub struct SpecCalc {
    pub inputs: Seq<Seq<char>>,
    pub operation: Keyword,
    pub alias: Seq<char>,
}

impl View for Calc {
    type V = SpecCalc;

    open spec fn view(&self) -> SpecCalc {
        SpecCalc { inputs: strings_view(self.inputs@), operation: self.operation, alias: self.alias@ }
    }
}

pub open spec fn calcs_view(v: Seq<Calc>) -> Seq<SpecCalc> {
    v.map_values(|c: Calc| c@)
}

pub struct SpecActionSection {
    pub fields: Seq<Seq<char>>,
    pub calc: Option<Seq<SpecCalc>>,
}

impl View for ActionSection {
    type V = SpecActionSection;

    open spec fn view(&self) -> SpecActionSection {
        SpecActionSection {
            fields: strings_view(self.fields@),
            calc: match self.calc {
                Some(c) => Some(calcs_view(c@)),
                None => None,
            },
        }
    }
}

pub struct SpecFrame {
    pub provider: Seq<char>,
    pub actions: SpecActionSection,
}

impl View for Frame {
    type V = SpecFrame;

    open spec fn view(&self) -> SpecFrame {
        SpecFrame { provider: self.provider@, actions: self.actions@ }
    }
}

pub enum SpecDrawCommand {
    Line { name: Seq<char>, series: Seq<Seq<char>>, frame: Seq<char> },
    Bar { name: Seq<char>, y: Seq<char>, frame: Seq<char> },
    Candle { name: Seq<char>, open: Seq<char>, high: Seq<char>, low: Seq<char>, close: Seq<char>, frame: Seq<char> },
}

impl View for DrawCommand {
    type V = SpecDrawCommand;

    open spec fn view(&self) -> SpecDrawCommand {
        match self {
            DrawCommand::Line { name, series, frame } => SpecDrawCommand::Line {
                name: name@,
                series: strings_view(series@),
                frame: frame@,
            },
            DrawCommand::Bar { name, y, frame } => SpecDrawCommand::Bar { name: name@, y: y@, frame: frame@ },
            DrawCommand::Candle { name, open, high, low, close, frame } => SpecDrawCommand::Candle {
                name: name@,
                open: open@,
                high: high@,
                low: low@,
                close: close@,
                frame: frame@,
            },
        }
    }
}

pub struct SpecGraphSection {
    pub xaxis: Seq<char>,
    pub commands: Seq<SpecDrawCommand>,
}

impl View for GraphSection {
    type V = SpecGraphSection;

    open spec fn view(&self) -> SpecGraphSection {
        SpecGraphSection { xaxis: self.xaxis@, commands: self.commands@.map_values(|c: DrawCommand| c@) }
    }
}

pub struct SpecTradeSection {
    pub trade_type: TradeType,
    pub over_frame: Seq<char>,
    pub entry: Seq<Seq<char>>,
    pub within_entry: Seq<char>,
    pub exit: Seq<Seq<char>>,
    pub within_exit: Seq<char>,
    pub stop_loss: Seq<char>,
    pub hold: i32,
}

impl View for TradeSection {
    type V = SpecTradeSection;

    open spec fn view(&self) -> SpecTradeSection {
        SpecTradeSection {
            trade_type: self.trade_type,
            over_frame: self.over_frame@,
            entry: strings_view(self.entry@),
            within_entry: self.within_entry@,
            exit: strings_view(self.exit@),
            within_exit: self.within_exit@,
            stop_loss: self.stop_loss@,
            hold: self.hold,
        }
    }
}

pub struct SpecQuery {
    pub providers: Map<Seq<char>, SpecProviderInstance>,
    pub frame: Map<Seq<char>, SpecFrame>,
    pub graph: Option<SpecGraphSection>,
    pub trade: Option<SpecTradeSection>,
}

impl View for Query {
    type V = SpecQuery;

    open spec fn view(&self) -> SpecQuery {
        SpecQuery {
            providers: self.providers.view().map_values(|p: ProviderInstance| p@),
            frame: self.frame.view().map_values(|f: Frame| f@),
            graph: match self.graph {
                Some(g) => Some(g@),
                None => None,
            },
            trade: match self.trade {
                Some(t) => Some(t@),
                None => None,
            },
        }
    }
}

impl Query {
    /// Both name tables keep their keys distinct.
    pub open spec fn wf(&self) -> bool {
        self.providers.wf() && self.frame.wf()
    }
}

impl DrawCommand {
    pub open spec fn spec_frame(&self) -> Seq<char> {
        match self {
            DrawCommand::Line { frame, .. } => frame@,
            DrawCommand::Bar { frame, .. } => frame@,
            DrawCommand::Candle { frame, .. } => frame@,
        }
    }

    /// The frame whose columns the command draws.
    pub fn get_frame(&self) -> (r: String)
        ensures
            r@ == self.spec_frame(),
    {
        match self {
            DrawCommand::Line { frame, .. } => frame.clone(),
            DrawCommand::Bar { frame, .. } => frame.clone(),
            DrawCommand::Candle { frame, .. } => frame.clone(),
        }
    }
}

/* ------------------------------- ParseError ------------------------------ */

/// Why a query was rejected, and where (line and column of the offending
/// token; both 0 when the input ended early or no token is to blame).
#[derive(Debug, Clone)]
pub struct ParseError {
    pub message: String,
    pub line: usize,
    pub column: usize,
}

pub struct SpecParseError {
    pub message: Seq<char>,
    pub line: nat,
    pub column: nat,
}

impl View for ParseError {
    type V = SpecParseError;

    open spec fn view(&self) -> SpecParseError {
        SpecParseError { message: self.message@, line: self.line as nat, column: self.column as nat }
    }
}

pub open spec fn result_view<T: View>(r: Result<T, ParseError>) -> Result<T::V, SpecParseError> {
    match r {
        Ok(v) => Ok(v@),
        Err(e) => Err(e@),
    }
}

/// The error for a token other than the one expected.
pub open spec fn expected_error(t: SpecToken, what: Seq<char>) -> SpecParseError {
    SpecParseError {
        message: "expected "@ + what + " but found "@ + describe_kind(t.kind),
        line: t.line,
        column: t.column,
    }
}

/// An error with no position.
pub open spec fn eof_error(what: Seq<char>) -> SpecParseError {
    SpecParseError { message: what, line: 0, column: 0 }
}

impl ParseError {
    /// An error with the given message and position.
    pub fn new(msg: String, line: usize, column: usize) -> (r: Self)
        ensures
            r.message == msg,
            r.line == line,
            r.column == column,
    {
        Self { message: msg, line, column }
    }

    pub fn eof(msg: &str) -> (r: Self)
        ensures
            r@ == eof_error(msg@),
    {
        Self { message: owned(msg), line: 0, column: 0 }
    }

    pub fn expected(found: &Token, expected: &str) -> (r: Self)
        ensures
            r@ == expected_error(found@, expected@),
    {
        let a = concat("expected ", expected);
        let b = concat(a.as_str(), " but found ");
        let d = found.kind.describe();
        let m = concat(b.as_str(), d.as_str());
        Self::new(m, found.line, found.column)
    }
}

} // verus!
