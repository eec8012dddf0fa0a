//! Recursive-descent parser for single-model QQL.
//!
//! A query reads
//! `(LIVE | HISTORICAL | FUNDAMENTAL) TICKER <symbol>` followed by either
//! `TICK <literal> FOR <literal>` (live) or `FROM <literal> TO <literal>`, then
//! `PULL <field>, ...`, an optional `CALC <field>, ... <operation> CALLED
//! <alias>`, `SHOWTABLE` (or `SHOW`) or `GRAPH`, and an optional graph block
//! of `LINE`, `BAR` and `CANDLE` commands. Newlines between sections are
//! skipped.

use vstd::prelude::*;
use crate::text::{concat, owned};
use crate::model_query::lexer::{
    Keyword, Lexer, Token, TokenKind, LexError, SpecToken, SpecTokenKind, SpecLexError,
    lexed_view, lex_items, lex_step, lemma_lex_step, describe_kind, keyword_name,
};

verus! {

pub type Item = Result<SpecToken, SpecLexError>;

/* ------------------------------- AST types ------------------------------- */

/// A parsed query.
#[derive(Debug, Clone)]
pub struct Query {
    pub model: ModelSection,
    pub actions: ActionSection,
    pub graph: Option<GraphSection>,
}

/// Where the data comes from.
#[derive(Debug, Clone, Copy, PartialEq, Eq, Structural)]
pub enum ModelType {
    Live,
    Historical,
    Fundamental,
}

/// The model: its type, ticker and time range or live feed.
#[derive(Debug, Clone)]
pub struct ModelSection {
    pub model_type: ModelType,
    pub ticker: String,
    pub time_spec: TimeSpec,
}

/// A date range, or the interval and duration of a live feed.
#[derive(Debug, Clone, PartialEq, Eq)]
pub enum TimeSpec {
    DateRange { from: String, to: String },
    LiveSpec { interval: String, duration: String },
}

/// How the result is shown.
#[derive(Debug, Clone, Copy, PartialEq, Eq, Structural)]
pub enum ShowType {
    Table,
    Graph,
}

/// The fields pulled, an optional calculation, and how to show them.
#[derive(Debug, Clone)]
pub struct ActionSection {
    pub fields: Vec<String>,
    pub calc: Option<Calc>,
    pub show: ShowType,
}

/// A calculation over some inputs, stored under an alias.
#[derive(Debug, Clone)]
pub struct Calc {
    pub inputs: Vec<String>,
    pub operation: Keyword,
    pub alias: String,
}

/// The drawing commands of a graph.
#[derive(Debug, Clone)]
pub struct GraphSection {
    pub commands: Vec<DrawCommand>,
}

/// One drawing command.
#[derive(Debug, Clone)]
pub enum DrawCommand {
    Line(Vec<String>),
    Bar(String),
    Candle { open: String, high: String, low: String, close: String },
}

/* ------------------------------- Views ----------------------------------- */

pub open spec fn strings_view(v: Seq<String>) -> Seq<Seq<char>> {
    v.map_values(|s: String| s@)
}

pub enum SpecTimeSpec {
    DateRange { from: Seq<char>, to: Seq<char> },
    LiveSpec { interval: Seq<char>, duration: Seq<char> },
}

impl View for TimeSpec {
    type V = SpecTimeSpec;

    open spec fn view(&self) -> SpecTimeSpec {
        match self {
            TimeSpec::DateRange { from, to } => SpecTimeSpec::DateRange { from: from@, to: to@ },
            TimeSpec::LiveSpec { interval, duration } => SpecTimeSpec::LiveSpec {
                interval: interval@,
                duration: duration@,
            },
        }
    }
}

pub struct SpecModelSection {
    pub model_type: ModelType,
    pub ticker: Seq<char>,
    pub time_spec: SpecTimeSpec,
}

impl View for ModelSection {
    type V = SpecModelSection;

    open spec fn view(&self) -> SpecModelSection {
        SpecModelSection { model_type: self.model_type, ticker: self.ticker@, time_spec: self.time_spec@ }
    }
}

pub struct SpecCalc {
    pub inputs: Seq<Seq<char>>,
    pub operation: Keyword,
    pub alias: Seq<char>,
}

impl View for Calc {
    type V = SpecCalc;

    open spec fn view(&self) -> SpecCalc {
        SpecCalc { inputs: strings_view(self.inputs@), operation: self.operation, alias: self.alias@ }
    }
}

pub struct SpecActionSection {
    pub fields: Seq<Seq<char>>,
    pub calc: Option<SpecCalc>,
    pub show: ShowType,
}

impl View for ActionSection {
    type V = SpecActionSection;

    open spec fn view(&self) -> SpecActionSection {
        SpecActionSection {
            fields: strings_view(self.fields@),
            calc: match self.calc {
                Some(c) => Some(c@),
                None => None,
            },
            show: self.show,
        }
    }
}

pub enum SpecDrawCommand {
    Line(Seq<Seq<char>>),
    Bar(Seq<char>),
    Candle { open: Seq<char>, high: Seq<char>, low: Seq<char>, close: Seq<char> },
}

impl View for DrawCommand {
    type V = SpecDrawCommand;

    open spec fn view(&self) -> SpecDrawCommand {
        match self {
            DrawCommand::Line(v) => SpecDrawCommand::Line(strings_view(v@)),
            DrawCommand::Bar(y) => SpecDrawCommand::Bar(y@),
            DrawCommand::Candle { open, high, low, close } => SpecDrawCommand::Candle {
                open: open@,
                high: high@,
                low: low@,
                close: close@,
            },
        }
    }
}

pub struct SpecGraphSection {
    pub commands: Seq<SpecDrawCommand>,
}

impl View for GraphSection {
    type V = SpecGraphSection;

    open spec fn view(&self) -> SpecGraphSection {
        SpecGraphSection { commands: self.commands@.map_values(|c: DrawCommand| c@) }
    }
}

pub struct SpecQuery {
    pub model: SpecModelSection,
    pub actions: SpecActionSection,
    pub graph: Option<SpecGraphSection>,
}

impl View for Query {
    type V = SpecQuery;

    open spec fn view(&self) -> SpecQuery {
        SpecQuery {
            model: self.model@,
            actions: self.actions@,
            graph: match self.graph {
                Some(g) => Some(g@),
                None => None,
            },
        }
    }
}

/* ------------------------------- ParseError ------------------------------ */

/// Why a query was rejected, and where (line and column of the offending
/// token; both 0 when the input ended early).
#[derive(Debug, Clone)]
pub struct ParseError {
    pub message: String,
    pub line: usize,
    pub column: usize,
}

pub struct SpecParseError {
    pub message: Seq<char>,
    pub line: nat,
    pub column: nat,
}

impl View for ParseError {
    type V = SpecParseError;

    open spec fn view(&self) -> SpecParseError {
        SpecParseError { message: self.message@, line: self.line as nat, column: self.column as nat }
    }
}

pub open spec fn result_view<T: View>(r: Result<T, ParseError>) -> Result<T::V, SpecParseError> {
    match r {
        Ok(v) => Ok(v@),
        Err(e) => Err(e@),
    }
}

/// The error for a token other than the one expected.
pub open spec fn expected_error(t: SpecToken, what: Seq<char>) -> SpecParseError {
    SpecParseError {
        message: "expected "@ + what + " but found "@ + describe_kind(t.kind),
        line: t.line,
        column: t.column,
    }
}

/// The error for input that ended early.
pub open spec fn eof_error(what: Seq<char>) -> SpecParseError {
    SpecParseError { message: what, line: 0, column: 0 }
}

impl ParseError {
    fn new(msg: String, line: usize, column: usize) -> (r: Self)
        ensures
            r.message == msg,
            r.line == line,
            r.column == column,
    {
        Self { message: msg, line, column }
    }

    fn eof(msg: &str) -> (r: Self)
        ensures
            r@ == eof_error(msg@),
    {
        Self { message: owned(msg), line: 0, column: 0 }
    }

    fn expected(found_tok: &Token, expected: &str) -> (r: Self)
        ensures
            r@ == expected_error(found_tok@, expected@),
    {
        let a = concat("expected ", expected);
        let b = concat(a.as_str(), " but found ");
        let d = found_tok.kind.describe();
        let m = concat(b.as_str(), d.as_str());
        Self::new(m, found_tok.line, found_tok.column)
    }
}

/* ---------------------------- token stream ------------------------------- */

pub open spec fn lex_error_view(e: SpecLexError) -> SpecParseError {
    SpecParseError { message: e.message, line: e.line, column: e.column }
}

/// Consuming one item at `p`: its token, or its error, or the end of input.
pub open spec fn spec_next(its: Seq<Item>, p: int) -> (Result<SpecToken, SpecParseError>, int) {
    if 0 <= p < its.len() {
        match its[p] {
            Ok(t) => (Ok(t), p + 1),
            Err(e) => (Err(lex_error_view(e)), p + 1),
        }
    } else {
        (Err(eof_error("unexpected EOF"@)), p)
    }
}

pub open spec fn token_at(its: Seq<Item>, p: int) -> Option<SpecToken> {
    if 0 <= p < its.len() {
        match its[p] {
            Ok(t) => Some(t),
            Err(_) => None,
        }
    } else {
        None
    }
}

pub open spec fn is_kind_at(its: Seq<Item>, p: int, k: SpecTokenKind) -> bool {
    token_at(its, p) matches Some(t) && t.kind == k
}

/// The first position at or after `p` whose item is not a newline token.
pub open spec fn skip_newlines(its: Seq<Item>, p: int) -> int
    decreases its.len() - p,
{
    if 0 <= p < its.len() && is_kind_at(its, p, SpecTokenKind::Newline) {
        skip_newlines(its, p + 1)
    } else {
        p
    }
}

/// Line and column of the last token consumed before `p`, or (0, 0).
pub open spec fn last_pos_at(its: Seq<Item>, p: int) -> (nat, nat)
    decreases p,
{
    if p <= 0 || p > its.len() {
        (0, 0)
    } else {
        match its[p - 1] {
            Ok(t) => (t.line, t.column),
            Err(_) => last_pos_at(its, p - 1),
        }
    }
}

pub open spec fn spec_expect_keyword(its: Seq<Item>, p: int, kw: Keyword) -> (Result<SpecToken, SpecParseError>, int) {
    let (r, q) = spec_next(its, p);
    match r {
        Ok(t) => if t.kind == SpecTokenKind::Keyword(kw) {
            (Ok(t), q)
        } else {
            (Err(expected_error(t, "keyword "@ + keyword_name(kw))), q)
        },
        Err(e) => (Err(e), q),
    }
}

pub open spec fn spec_expect_identifier(its: Seq<Item>, p: int) -> (Result<Seq<char>, SpecParseError>, int) {
    let (r, q) = spec_next(its, p);
    match r {
        Ok(t) => match t.kind {
            SpecTokenKind::Identifier(id) => (Ok(id), q),
            _ => (Err(expected_error(t, "identifier"@)), q),
        },
        Err(e) => (Err(e), q),
    }
}

pub open spec fn spec_expect_literal(its: Seq<Item>, p: int) -> (Result<Seq<char>, SpecParseError>, int) {
    let (r, q) = spec_next(its, p);
    match r {
        Ok(t) => match t.kind {
            SpecTokenKind::Literal(l) => (Ok(l), q),
            _ => (Err(expected_error(t, "literal"@)), q),
        },
        Err(e) => (Err(e), q),
    }
}

pub open spec fn spec_comma_or_newline(its: Seq<Item>, p: int) -> (Result<(), SpecParseError>, int) {
    let (r, q) = spec_next(its, p);
    match r {
        Ok(t) => match t.kind {
            SpecTokenKind::Comma | SpecTokenKind::Newline => (Ok(()), q),
            _ => (Err(expected_error(t, ", or newline"@)), q),
        },
        Err(e) => (Err(e), q),
    }
}

/// `EOF` expected: only the end of input (an error at line 0) is accepted.
pub open spec fn spec_expect_eof(its: Seq<Item>, p: int) -> (Result<(), SpecParseError>, int) {
    let (r, q) = spec_next(its, p);
    match r {
        Err(e) => if e.line == 0 { (Ok(()), q) } else { (Err(e), q) },
        Ok(t) => (Err(expected_error(t, "EOF"@)), q),
    }
}

/* ------------------------------ grammar ---------------------------------- */

pub open spec fn model_type_of(k: SpecTokenKind) -> Option<ModelType> {
    match k {
        SpecTokenKind::Keyword(Keyword::Live) => Some(ModelType::Live),
        SpecTokenKind::Keyword(Keyword::Historical) => Some(ModelType::Historical),
        SpecTokenKind::Keyword(Keyword::Fundamental) => Some(ModelType::Fundamental),
        _ => None,
    }
}

/// `TICK <literal> FOR <literal>`.
pub open spec fn spec_live_spec(its: Seq<Item>, p: int) -> (Result<SpecTimeSpec, SpecParseError>, int) {
    let (r1, p1) = spec_expect_keyword(its, p, Keyword::Tick);
    if r1 is Err { (Err(r1->Err_0), p1) } else {
    let (r2, p2) = spec_expect_literal(its, p1);
    if r2 is Err { (Err(r2->Err_0), p2) } else {
    let (r3, p3) = spec_expect_keyword(its, p2, Keyword::For);
    if r3 is Err { (Err(r3->Err_0), p3) } else {
    let (r4, p4) = spec_expect_literal(its, p3);
    if r4 is Err { (Err(r4->Err_0), p4) } else {
    (Ok(SpecTimeSpec::LiveSpec { interval: r2->Ok_0, duration: r4->Ok_0 }), p4)
    }}}}
}

/// `FROM <literal> TO <literal>`.
pub open spec fn spec_date_range(its: Seq<Item>, p: int) -> (Result<SpecTimeSpec, SpecParseError>, int) {
    let (r1, p1) = spec_expect_keyword(its, p, Keyword::From);
    if r1 is Err { (Err(r1->Err_0), p1) } else {
    let (r2, p2) = spec_expect_literal(its, p1);
    if r2 is Err { (Err(r2->Err_0), p2) } else {
    let (r3, p3) = spec_expect_keyword(its, p2, Keyword::To);
    if r3 is Err { (Err(r3->Err_0), p3) } else {
    let (r4, p4) = spec_expect_literal(its, p3);
    if r4 is Err { (Err(r4->Err_0), p4) } else {
    (Ok(SpecTimeSpec::DateRange { from: r2->Ok_0, to: r4->Ok_0 }), p4)
    }}}}
}

/// Newlines, the model type, `TICKER <identifier>`, then the time spec
/// (live spec for `LIVE`, date range otherwise), then newlines.
pub open spec fn spec_model_section(its: Seq<Item>, p: int) -> (Result<SpecModelSection, SpecParseError>, int) {
    let p0 = skip_newlines(its, p);
    let (r1, p1) = spec_next(its, p0);
    if r1 is Err { (Err(r1->Err_0), p1) } else {
    let t = r1->Ok_0;
    if model_type_of(t.kind) is None {
        (Err(expected_error(t, "model type (LIVE | HISTORICAL | FUNDAMENTAL)"@)), p1)
    } else {
    let mt = model_type_of(t.kind)->Some_0;
    let p2 = skip_newlines(its, p1);
    let (r3, p3) = spec_expect_keyword(its, p2, Keyword::Ticker);
    if r3 is Err { (Err(r3->Err_0), p3) } else {
    let (r4, p4) = spec_expect_identifier(its, p3);
    if r4 is Err { (Err(r4->Err_0), p4) } else {
    let p5 = skip_newlines(its, p4);
    let (r6, p6) = if mt == ModelType::Live { spec_live_spec(its, p5) } else { spec_date_range(its, p5) };
    if r6 is Err { (Err(r6->Err_0), p6) } else {
    (Ok(SpecModelSection { model_type: mt, ticker: r4->Ok_0, time_spec: r6->Ok_0 }), skip_newlines(its, p6))
    }}}}}
}

/// The rest of a comma-separated identifier list, after `acc`.
pub open spec fn spec_field_list_from(its: Seq<Item>, p: int, acc: Seq<Seq<char>>) -> (Result<Seq<Seq<char>>, SpecParseError>, int)
    decreases its.len() - p,
{
    let (r, q) = spec_expect_identifier(its, p);
    match r {
        Err(e) => (Err(e), q),
        Ok(id) => if q < its.len() && p < q && is_kind_at(its, q, SpecTokenKind::Comma) {
            spec_field_list_from(its, q + 1, acc.push(id))
        } else {
            (Ok(acc.push(id)), q)
        },
    }
}

/// `<identifier> (, <identifier>)*`.
pub open spec fn spec_field_list(its: Seq<Item>, p: int) -> (Result<Seq<Seq<char>>, SpecParseError>, int) {
    spec_field_list_from(its, p, Seq::empty())
}

pub open spec fn is_calc_operation(k: SpecTokenKind) -> bool {
    match k {
        SpecTokenKind::Keyword(Keyword::Difference) | SpecTokenKind::Keyword(Keyword::Sum)
        | SpecTokenKind::Keyword(Keyword::Multiply) | SpecTokenKind::Keyword(Keyword::Divide)
        | SpecTokenKind::Keyword(Keyword::Sma) | SpecTokenKind::Keyword(Keyword::Volatility) => true,
        _ => false,
    }
}

/// `CALC <fields> <operation> CALLED <identifier>`.
pub open spec fn spec_calc(its: Seq<Item>, p: int) -> (Result<SpecCalc, SpecParseError>, int) {
    let (r1, p1) = spec_expect_keyword(its, p, Keyword::Calc);
    if r1 is Err { (Err(r1->Err_0), p1) } else {
    let (r2, p2) = spec_field_list(its, p1);
    if r2 is Err { (Err(r2->Err_0), p2) } else {
    let (r3, p3) = spec_next(its, p2);
    if r3 is Err { (Err(r3->Err_0), p3) } else {
    let t = r3->Ok_0;
    if !is_calc_operation(t.kind) {
        (Err(expected_error(t, "CALC operation (DIFFERENCE | SUM | MULTIPLY | DIVIDE | SMA | VOLATILITY)"@)), p3)
    } else {
    let (r4, p4) = spec_expect_keyword(its, p3, Keyword::Called);
    if r4 is Err { (Err(r4->Err_0), p4) } else {
    let (r5, p5) = spec_expect_identifier(its, p4);
    if r5 is Err { (Err(r5->Err_0), p5) } else {
    (Ok(SpecCalc { inputs: r2->Ok_0, operation: t.kind->Keyword_0, alias: r5->Ok_0 }), p5)
    }}}}}}
}

/// `PULL <fields>`, newlines, an optional calculation, newlines, then
/// `SHOWTABLE` or `GRAPH`.
pub open spec fn spec_action_section(its: Seq<Item>, p: int) -> (Result<SpecActionSection, SpecParseError>, int) {
    let (r1, p1) = spec_expect_keyword(its, p, Keyword::Pull);
    if r1 is Err { (Err(r1->Err_0), p1) } else {
    let (r2, p2) = spec_field_list(its, p1);
    if r2 is Err { (Err(r2->Err_0), p2) } else {
    let p3 = skip_newlines(its, p2);
    let (r4, p4) = if is_kind_at(its, p3, SpecTokenKind::Keyword(Keyword::Calc)) {
        let (c, q) = spec_calc(its, p3);
        match c {
            Ok(c) => (Ok(Some(c)), q),
            Err(e) => (Err(e), q),
        }
    } else {
        (Ok(None), p3)
    };
    if r4 is Err { (Err(r4->Err_0), p4) } else {
    let p5 = skip_newlines(its, p4);
    let (r6, p6) = spec_next(its, p5);
    if r6 is Err { (Err(r6->Err_0), p6) } else {
    let t = r6->Ok_0;
    if t.kind == SpecTokenKind::Keyword(Keyword::ShowTable) {
        (Ok(SpecActionSection { fields: r2->Ok_0, calc: r4->Ok_0, show: ShowType::Table }), p6)
    } else if t.kind == SpecTokenKind::Keyword(Keyword::Graph) {
        (Ok(SpecActionSection { fields: r2->Ok_0, calc: r4->Ok_0, show: ShowType::Graph }), p6)
    } else {
        (Err(expected_error(t, "SHOWTABLE or GRAPH"@)), p6)
    }
    }}}}
}

/// `CANDLE` already consumed: four identifiers separated by commas or
/// newlines.
pub open spec fn spec_candle(its: Seq<Item>, p: int) -> (Result<SpecDrawCommand, SpecParseError>, int) {
    let (r1, p1) = spec_expect_identifier(its, p);
    if r1 is Err { (Err(r1->Err_0), p1) } else {
    let (s1, q1) = spec_comma_or_newline(its, p1);
    if s1 is Err { (Err(s1->Err_0), q1) } else {
    let (r2, p2) = spec_expect_identifier(its, q1);
    if r2 is Err { (Err(r2->Err_0), p2) } else {
    let (s2, q2) = spec_comma_or_newline(its, p2);
    if s2 is Err { (Err(s2->Err_0), q2) } else {
    let (r3, p3) = spec_expect_identifier(its, q2);
    if r3 is Err { (Err(r3->Err_0), p3) } else {
    let (s3, q3) = spec_comma_or_newline(its, p3);
    if s3 is Err { (Err(s3->Err_0), q3) } else {
    let (r4, p4) = spec_expect_identifier(its, q3);
    if r4 is Err { (Err(r4->Err_0), p4) } else {
    (Ok(SpecDrawCommand::Candle { open: r1->Ok_0, high: r2->Ok_0, low: r3->Ok_0, close: r4->Ok_0 }), p4)
    }}}}}}}
}

/// The rest of a graph block after the commands `acc`: `LINE <fields>`,
/// `BAR <identifier>` and `CANDLE ...` commands and newlines, until any
/// other item.
pub open spec fn spec_graph_from(its: Seq<Item>, p: int, acc: Seq<SpecDrawCommand>) -> (Result<SpecGraphSection, SpecParseError>, int)
    decreases its.len() - p,
{
    if !(0 <= p < its.len()) {
        (Ok(SpecGraphSection { commands: acc }), p)
    } else if is_kind_at(its, p, SpecTokenKind::Keyword(Keyword::Line)) {
        let (r, q) = spec_field_list(its, p + 1);
        match r {
            Err(e) => (Err(e), q),
            Ok(fields) => if p < q && q <= its.len() { spec_graph_from(its, q, acc.push(SpecDrawCommand::Line(fields))) } else { (Ok(SpecGraphSection { commands: acc }), p) },
        }
    } else if is_kind_at(its, p, SpecTokenKind::Keyword(Keyword::Bar)) {
        let (r, q) = spec_expect_identifier(its, p + 1);
        match r {
            Err(e) => (Err(e), q),
            Ok(y) => if p < q && q <= its.len() { spec_graph_from(its, q, acc.push(SpecDrawCommand::Bar(y))) } else { (Ok(SpecGraphSection { commands: acc }), p) },
        }
    } else if is_kind_at(its, p, SpecTokenKind::Keyword(Keyword::Candle)) {
        let (r, q) = spec_candle(its, p + 1);
        match r {
            Err(e) => (Err(e), q),
            Ok(c) => if p < q && q <= its.len() { spec_graph_from(its, q, acc.push(c)) } else { (Ok(SpecGraphSection { commands: acc }), p) },
        }
    } else if is_kind_at(its, p, SpecTokenKind::Newline) {
        spec_graph_from(its, p + 1, acc)
    } else {
        (Ok(SpecGraphSection { commands: acc }), p)
    }
}

/// Newlines, then the graph commands.
pub open spec fn spec_graph_section(its: Seq<Item>, p: int) -> (Result<SpecGraphSection, SpecParseError>, int) {
    spec_graph_from(its, skip_newlines(its, p), Seq::empty())
}

/// A whole query from position `p`: the model section, the action section,
/// and a graph block (kept only when it parses).
pub open spec fn spec_query(its: Seq<Item>, p: int) -> Result<SpecQuery, SpecParseError> {
    let (m, p1) = spec_model_section(its, p);
    if m is Err { Err(m->Err_0) } else {
    let (a, p2) = spec_action_section(its, p1);
    if a is Err { Err(a->Err_0) } else {
    let (g, _p3) = spec_graph_section(its, p2);
    Ok(SpecQuery {
        model: m->Ok_0,
        actions: a->Ok_0,
        graph: match g {
            Ok(g) => Some(g),
            Err(_) => None,
        },
    })
    }}
}

/// What `parse` gives for the source text `src`.
pub open spec fn spec_parse(src: Seq<char>) -> Result<SpecQuery, SpecParseError> {
    spec_query(lex_items(src, 0), 0)
}

/* -------------------------------- Parser -------------------------------- */

pub open spec fn strings_result(r: Result<Vec<String>, ParseError>) -> Result<Seq<Seq<char>>, SpecParseError> {
    match r {
        Ok(v) => Ok(strings_view(v@)),
        Err(e) => Err(e@),
    }
}

pub open spec fn unit_result(r: Result<(), ParseError>) -> Result<(), SpecParseError> {
    match r {
        Ok(_) => Ok(()),
        Err(e) => Err(e@),
    }
}

/// Reads a query from the tokens of its source.
pub struct Parser {
    iter: Vec<Result<Token, LexError>>,
    pos: usize,
    last_pos: (usize, usize),
}

impl Parser {
    /// Everything the lexer yields for the source.
    pub closed spec fn items(&self) -> Seq<Item> {
        self.iter@.map_values(|r: Result<Token, LexError>| lexed_view(r))
    }

    /// How many items have been consumed.
    pub closed spec fn position(&self) -> int {
        self.pos as int
    }

    pub closed spec fn wf(&self) -> bool {
        &&& self.pos <= self.iter@.len()
        &&& (self.last_pos.0 as nat, self.last_pos.1 as nat) == last_pos_at(self.items(), self.pos as int)
    }

    /// A parser at the start of `src`.
    pub fn new(src: &str) -> (r: Self)
        requires
            src@.len() < usize::MAX,
        ensures
            r.wf(),
            r.items() == lex_items(src@, 0),
            r.position() == 0,
    {
        let mut lexer = Lexer::new(src);
        let mut iter: Vec<Result<Token, LexError>> = Vec::new();
        let ghost s = src@;
        loop
            invariant
                lexer.wf(),
                lexer.source() == s,
                0 <= lexer.position() <= s.len(),
                iter@.map_values(|r: Result<Token, LexError>| lexed_view(r)) + lex_items(s, lexer.position())
                    == lex_items(s, 0),
            ensures
                iter@.map_values(|r: Result<Token, LexError>| lexed_view(r)) == lex_items(s, 0),
            decreases s.len() - lexer.position(),
        {
            let ghost p = lexer.position();
            proof {
                lemma_lex_step(s, p);
            }
            match lexer.next() {
                Some(x) => {
                    let ghost old_iter = iter@;
                    iter.push(x);
                    proof {
                        assert(lex_items(s, p) == seq![lexed_view(x)] + lex_items(s, lexer.position()));
                        assert(iter@.map_values(|r: Result<Token, LexError>| lexed_view(r))
                            =~= old_iter.map_values(|r: Result<Token, LexError>| lexed_view(r)).push(lexed_view(x)));
                        assert(iter@.map_values(|r: Result<Token, LexError>| lexed_view(r)) + lex_items(s, lexer.position())
                            =~= old_iter.map_values(|r: Result<Token, LexError>| lexed_view(r)) + lex_items(s, p));
                    }
                },
                None => {
                    proof {
                        assert(lex_items(s, p) =~= Seq::<Item>::empty());
                        assert(iter@.map_values(|r: Result<Token, LexError>| lexed_view(r)) =~= lex_items(s, 0));
                    }
                    break;
                },
            }
        }
        Parser { iter, pos: 0, last_pos: (0, 0) }
    }

    /// Parses a whole query from the current position.
    pub fn parse(&mut self) -> (r: Result<Query, ParseError>)
        requires
            old(self).wf(),
        ensures
            final(self).wf(),
            final(self).items() == old(self).items(),
            result_view(r) == spec_query(old(self).items(), old(self).position()),
    {
        let model = self.parse_model_section()?;
        let actions = self.parse_action_section()?;
        let graph = self.parse_graph_section().ok();
        Ok(Query { model, actions, graph })
    }

    /* --------------------------- token helpers -------------------------- */

    fn next_token(&mut self) -> (r: Result<Token, ParseError>)
        requires
            old(self).wf(),
        ensures
            final(self).wf(),
            final(self).items() == old(self).items(),
            (result_view(r), final(self).position()) == spec_next(old(self).items(), old(self).position()),
    {
        if self.pos < self.iter.len() {
            let ghost its = self.items();
            let item = clone_item(&self.iter[self.pos]);
            self.pos = self.pos + 1;
            match item {
                Ok(tok) => {
                    self.last_pos = (tok.line, tok.column);
                    Ok(tok)
                },
                Err(e) => {
                    proof {
                        assert(its[self.pos - 1] == lexed_view(self.iter@[self.pos - 1]));
                    }
                    Err(ParseError::new(e.message, e.line, e.column))
                },
            }
        } else {
            Err(ParseError::eof("unexpected EOF"))
        }
    }

    fn peek_token(&self) -> (r: Option<Result<&Token, ParseError>>)
        requires
            self.wf(),
        ensures
            match r {
                None => self.position() >= self.items().len(),
                Some(Ok(t)) => self.position() < self.items().len() && self.items()[self.position()] == Ok::<SpecToken, SpecLexError>(t@),
                Some(Err(e)) => self.position() < self.items().len() && self.items()[self.position()] is Err
                    && e@ == lex_error_view(self.items()[self.position()]->Err_0),
            },
    {
        if self.pos < self.iter.len() {
            match &self.iter[self.pos] {
                Ok(tok) => Some(Ok(tok)),
                Err(e) => Some(Err(ParseError::new(e.message.clone(), e.line, e.column))),
            }
        } else {
            None
        }
    }

    fn consume_newlines(&mut self) -> (r: Result<(), ParseError>)
        requires
            old(self).wf(),
        ensures
            final(self).wf(),
            final(self).items() == old(self).items(),
            r is Ok,
            final(self).position() == skip_newlines(old(self).items(), old(self).position()),
    {
        let ghost its = self.items();
        let ghost p0 = self.position();
        loop
            invariant
                self.wf(),
                self.items() == its,
                its == old(self).items(),
                p0 == old(self).position(),
                p0 <= self.position() <= its.len(),
                skip_newlines(its, self.position()) == skip_newlines(its, p0),
            ensures
                self.wf(),
                self.items() == its,
                self.position() == skip_newlines(its, p0),
            decreases its.len() - self.position(),
        {
            match self.peek_token() {
                Some(Ok(tok)) if matches!(tok.kind, TokenKind::Newline) => {
                    let _ = self.next_token();
                },
                _ => break,
            }
        }
        Ok(())
    }

    fn expect_keyword(&mut self, kw: Keyword) -> (r: Result<Token, ParseError>)
        requires
            old(self).wf(),
        ensures
            final(self).wf(),
            final(self).items() == old(self).items(),
            (result_view(r), final(self).position()) == spec_expect_keyword(old(self).items(), old(self).position(), kw),
    {
        let tok = self.next_token()?;
        match &tok.kind {
            TokenKind::Keyword(k) if *k == kw => Ok(tok),
            _ => {
                let what = concat("keyword ", kw.name());
                Err(ParseError::expected(&tok, what.as_str()))
            },
        }
    }

    fn expect_identifier(&mut self) -> (r: Result<String, ParseError>)
        requires
            old(self).wf(),
        ensures
            final(self).wf(),
            final(self).items() == old(self).items(),
            (result_view(r), final(self).position()) == spec_expect_identifier(old(self).items(), old(self).position()),
    {
        let tok = self.next_token()?;
        match tok.kind {
            TokenKind::Identifier(id) => Ok(id),
            _ => Err(ParseError::expected(&tok, "identifier")),
        }
    }

    fn expect_literal(&mut self) -> (r: Result<String, ParseError>)
        requires
            old(self).wf(),
        ensures
            final(self).wf(),
            final(self).items() == old(self).items(),
            (result_view(r), final(self).position()) == spec_expect_literal(old(self).items(), old(self).position()),
    {
        let tok = self.next_token()?;
        match tok.kind {
            TokenKind::Literal(lit) => Ok(lit),
            _ => Err(ParseError::expected(&tok, "literal")),
        }
    }

    fn _expect_comma_or_newline(&mut self) -> (r: Result<(), ParseError>)
        requires
            old(self).wf(),
        ensures
            final(self).wf(),
            final(self).items() == old(self).items(),
            (unit_result(r), final(self).position()) == spec_comma_or_newline(old(self).items(), old(self).position()),
    {
        let tok = self.next_token()?;
        match tok.kind {
            TokenKind::Comma | TokenKind::Newline => Ok(()),
            _ => Err(ParseError::expected(&tok, ", or newline")),
        }
    }

    fn expect_eof(&mut self) -> (r: Result<(), ParseError>)
        requires
            old(self).wf(),
        ensures
            final(self).wf(),
            final(self).items() == old(self).items(),
            (unit_result(r), final(self).position()) == spec_expect_eof(old(self).items(), old(self).position()),
    {
        match self.next_token() {
            Err(e) => if e.line == 0 { Ok(()) } else { Err(e) },
            Ok(tok) => Err(ParseError::expected(&tok, "EOF")),
        }
    }

    /* ---------------------- model-section parsing ---------------------- */

    fn parse_model_section(&mut self) -> (r: Result<ModelSection, ParseError>)
        requires
            old(self).wf(),
        ensures
            final(self).wf(),
            final(self).items() == old(self).items(),
            (result_view(r), final(self).position()) == spec_model_section(old(self).items(), old(self).position()),
    {
        self.consume_newlines()?;
        let tok = self.next_token()?;
        let model_type = match tok.kind {
            TokenKind::Keyword(Keyword::Live) => ModelType::Live,
            TokenKind::Keyword(Keyword::Historical) => ModelType::Historical,
            TokenKind::Keyword(Keyword::Fundamental) => ModelType::Fundamental,
            _ => {
                return Err(ParseError::expected(&tok, "model type (LIVE | HISTORICAL | FUNDAMENTAL)"));
            },
        };
        self.consume_newlines()?;
        self.expect_keyword(Keyword::Ticker)?;
        let ticker = self.expect_identifier()?;
        self.consume_newlines()?;
        let time_spec = match model_type {
            ModelType::Live => self.parse_live_spec()?,
            _ => self.parse_date_range()?,
        };
        self.consume_newlines()?;
        Ok(ModelSection { model_type, ticker, time_spec })
    }

    fn parse_live_spec(&mut self) -> (r: Result<TimeSpec, ParseError>)
        requires
            old(self).wf(),
        ensures
            final(self).wf(),
            final(self).items() == old(self).items(),
            (result_view(r), final(self).position()) == spec_live_spec(old(self).items(), old(self).position()),
    {
        self.expect_keyword(Keyword::Tick)?;
        let interval = self.expect_literal()?;
        self.expect_keyword(Keyword::For)?;
        let duration = self.expect_literal()?;
        Ok(TimeSpec::LiveSpec { interval, duration })
    }

    fn parse_date_range(&mut self) -> (r: Result<TimeSpec, ParseError>)
        requires
            old(self).wf(),
        ensures
            final(self).wf(),
            final(self).items() == old(self).items(),
            (result_view(r), final(self).position()) == spec_date_range(old(self).items(), old(self).position()),
    {
        self.expect_keyword(Keyword::From)?;
        let from = self.expect_literal()?;
        self.expect_keyword(Keyword::To)?;
        let to = self.expect_literal()?;
        Ok(TimeSpec::DateRange { from, to })
    }

    /* ---------------------- action-section parsing --------------------- */

    fn parse_action_section(&mut self) -> (r: Result<ActionSection, ParseError>)
        requires
            old(self).wf(),
        ensures
            final(self).wf(),
            final(self).items() == old(self).items(),
            (result_view(r), final(self).position()) == spec_action_section(old(self).items(), old(self).position()),
    {
        self.expect_keyword(Keyword::Pull)?;
        let fields = self.parse_field_list()?;
        self.consume_newlines()?;
        let calc = match self.peek_token() {
            Some(Ok(tok)) if matches!(tok.kind, TokenKind::Keyword(Keyword::Calc)) => Some(self.parse_calc()?),
            _ => None,
        };
        self.consume_newlines()?;
        let tok = self.next_token()?;
        let show = match tok.kind {
            TokenKind::Keyword(Keyword::ShowTable) => ShowType::Table,
            TokenKind::Keyword(Keyword::Graph) => ShowType::Graph,
            _ => {
                return Err(ParseError::expected(&tok, "SHOWTABLE or GRAPH"));
            },
        };
        Ok(ActionSection { fields, calc, show })
    }

    fn parse_field_list(&mut self) -> (r: Result<Vec<String>, ParseError>)
        requires
            old(self).wf(),
        ensures
            final(self).wf(),
            final(self).items() == old(self).items(),
            (strings_result(r), final(self).position()) == spec_field_list(old(self).items(), old(self).position()),
            r is Ok ==> old(self).position() < final(self).position() <= old(self).items().len(),
    {
        let ghost its = self.items();
        let ghost p0 = self.position();
        let mut fields: Vec<String> = Vec::new();
        assert(strings_view(fields@) =~= Seq::<Seq<char>>::empty());
        loop
            invariant_except_break
                spec_field_list_from(its, self.position(), strings_view(fields@)) == spec_field_list(its, p0),
            invariant
                self.wf(),
                self.items() == its,
                its == old(self).items(),
                p0 == old(self).position(),
                p0 <= self.position() <= its.len(),
                fields@.len() > 0 ==> p0 < self.position(),
            ensures
                self.wf(),
                self.items() == its,
                p0 < self.position() <= its.len(),
                (Ok::<Seq<Seq<char>>, SpecParseError>(strings_view(fields@)), self.position()) == spec_field_list(its, p0),
            decreases its.len() - self.position(),
        {
            let ghost p = self.position();
            let ghost acc = strings_view(fields@);
            let id = self.expect_identifier()?;
            fields.push(id);
            proof {
                assert(strings_view(fields@) =~= acc.push(id@));
            }
            match self.peek_token() {
                Some(Ok(tok)) if matches!(tok.kind, TokenKind::Comma) => {
                    let _ = self.next_token();
                },
                _ => break,
            }
        }
        Ok(fields)
    }

    fn parse_calc(&mut self) -> (r: Result<Calc, ParseError>)
        requires
            old(self).wf(),
        ensures
            final(self).wf(),
            final(self).items() == old(self).items(),
            (result_view(r), final(self).position()) == spec_calc(old(self).items(), old(self).position()),
    {
        self.expect_keyword(Keyword::Calc)?;
        let inputs = self.parse_field_list()?;
        let op_tok = self.next_token()?;
        let op = match &op_tok.kind {
            TokenKind::Keyword(k) => match k {
                Keyword::Difference | Keyword::Sum | Keyword::Multiply | Keyword::Divide
                | Keyword::Sma | Keyword::Volatility => Some(*k),
                _ => None,
            },
            _ => None,
        };
        let operation = match op {
            Some(k) => k,
            None => {
                return Err(ParseError::expected(&op_tok,
                    "CALC operation (DIFFERENCE | SUM | MULTIPLY | DIVIDE | SMA | VOLATILITY)"));
            },
        };
        self.expect_keyword(Keyword::Called)?;
        let alias = self.expect_identifier()?;
        Ok(Calc { inputs, operation, alias })
    }

    fn parse_graph_section(&mut self) -> (r: Result<GraphSection, ParseError>)
        requires
            old(self).wf(),
        ensures
            final(self).wf(),
            final(self).items() == old(self).items(),
            (result_view(r), final(self).position()) == spec_graph_section(old(self).items(), old(self).position()),
    {
        let ghost its = self.items();
        let mut commands: Vec<DrawCommand> = Vec::new();
        self.consume_newlines()?;
        let ghost p0 = self.position();
        assert(commands@.map_values(|c: DrawCommand| c@) =~= Seq::<SpecDrawCommand>::empty());
        loop
            invariant
                self.wf(),
                self.items() == its,
                its == old(self).items(),
                p0 == skip_newlines(its, old(self).position()),
                p0 <= self.position() <= its.len(),
                spec_graph_from(its, self.position(), commands@.map_values(|c: DrawCommand| c@)) == spec_graph_from(its, p0, Seq::empty()),
            ensures
                self.wf(),
                self.items() == its,
                (Ok::<SpecGraphSection, SpecParseError>(SpecGraphSection { commands: commands@.map_values(|c: DrawCommand| c@) }), self.position())
                    == spec_graph_from(its, p0, Seq::empty()),
            decreases its.len() - self.position(),
        {
            let ghost p = self.position();
            let ghost acc = commands@.map_values(|c: DrawCommand| c@);
            match self.peek_token() {
                Some(Ok(tok)) => {
                    match &tok.kind {
                        TokenKind::Keyword(Keyword::Line) => {
                            let _ = self.next_token();
                            let fields = self.parse_field_list()?;
                            let cmd = DrawCommand::Line(fields);
                            commands.push(cmd);
                            proof {
                                assert(commands@.map_values(|c: DrawCommand| c@) =~= acc.push(cmd@));
                            }
                        },
                        TokenKind::Keyword(Keyword::Bar) => {
                            let _ = self.next_token();
                            let y = self.expect_identifier()?;
                            let cmd = DrawCommand::Bar(y);
                            commands.push(cmd);
                            proof {
                                assert(commands@.map_values(|c: DrawCommand| c@) =~= acc.push(cmd@));
                            }
                        },
                        TokenKind::Keyword(Keyword::Candle) => {
                            let _ = self.next_token();
                            let open = self.expect_identifier()?;
                            self._expect_comma_or_newline()?;
                            let high = self.expect_identifier()?;
                            self._expect_comma_or_newline()?;
                            let low = self.expect_identifier()?;
                            self._expect_comma_or_newline()?;
                            let close = self.expect_identifier()?;
                            let cmd = DrawCommand::Candle { open, high, low, close };
                            commands.push(cmd);
                            proof {
                                assert(commands@.map_values(|c: DrawCommand| c@) =~= acc.push(cmd@));
                            }
                        },
                        TokenKind::Newline => {
                            let _ = self.next_token();
                        },
                        _ => break,
                    }
                },
                _ => break,
            }
        }
        Ok(GraphSection { commands })
    }
}

/// A copy of one lexed item.
fn clone_item(x: &Result<Token, LexError>) -> (r: Result<Token, LexError>)
    ensures
        lexed_view(r) == lexed_view(*x),
{
    match x {
        Ok(t) => Ok(clone_token(t)),
        Err(e) => Err(LexError { message: e.message.clone(), line: e.line, column: e.column }),
    }
}

fn clone_token(t: &Token) -> (r: Token)
    ensures
        r@ == t@,
{
    let kind = match &t.kind {
        TokenKind::Keyword(k) => TokenKind::Keyword(*k),
        TokenKind::Identifier(s) => TokenKind::Identifier(s.clone()),
        TokenKind::Date(s) => TokenKind::Date(s.clone()),
        TokenKind::Interval(s) => TokenKind::Interval(s.clone()),
        TokenKind::Literal(s) => TokenKind::Literal(s.clone()),
        TokenKind::Comma => TokenKind::Comma,
        TokenKind::Newline => TokenKind::Newline,
        TokenKind::EOF => TokenKind::EOF,
    };
    Token { kind, line: t.line, column: t.column }
}

/// Parses the QQL source `src` into its query.
pub fn parse(src: &str) -> (r: Result<Query, ParseError>)
    requires
        src@.len() < usize::MAX,
    ensures
        result_view(r) == spec_parse(src@),
{
    Parser::new(src).parse()
}

/* --------------------------------- laws --------------------------------- */

/// The identifiers from item `i` on, read across commas, up to the first
/// item that is neither an identifier nor a comma.
pub open spec fn identifiers_from(its: Seq<Item>, i: int) -> Seq<Seq<char>>
    decreases its.len() - i,
{
    if !(0 <= i < its.len()) {
        Seq::empty()
    } else {
        match token_at(its, i) {
            Some(t) => match t.kind {
                SpecTokenKind::Identifier(x) => seq![x] + identifiers_from(its, i + 1),
                SpecTokenKind::Comma => identifiers_from(its, i + 1),
                _ => Seq::empty(),
            },
            None => Seq::empty(),
        }
    }
}

proof fn lemma_field_list_identifiers(its: Seq<Item>, p: int, acc: Seq<Seq<char>>)
    requires
        0 <= p,
    ensures
        spec_field_list_from(its, p, acc).0 matches Ok(v) ==>
            acc + identifiers_from(its, p) == v + identifiers_from(its, spec_field_list_from(its, p, acc).1),
    decreases its.len() - p,
{
    let (r, q) = spec_expect_identifier(its, p);
    if let Ok(id) = r {
        assert(token_at(its, p) matches Some(t) && t.kind == SpecTokenKind::Identifier(id));
        assert(q == p + 1);
        assert(identifiers_from(its, p) == seq![id] + identifiers_from(its, p + 1));
        if q < its.len() && p < q && is_kind_at(its, q, SpecTokenKind::Comma) {
            lemma_field_list_identifiers(its, q + 1, acc.push(id));
            assert(identifiers_from(its, p + 1) == identifiers_from(its, p + 2));
            assert(acc + (seq![id] + identifiers_from(its, p + 2)) =~= acc.push(id) + identifiers_from(its, p + 2));
        } else {
            assert(acc + (seq![id] + identifiers_from(its, p + 1)) =~= acc.push(id) + identifiers_from(its, p + 1));
        }
    }
}

/// The inputs of a parsed calculation are all the identifiers written
/// between `CALC` and its operation, in order, commas left out.
pub proof fn law_calc_keeps_every_input(its: Seq<Item>, p: int)
    requires
        0 <= p,
        spec_calc(its, p).0 is Ok,
    ensures
        spec_calc(its, p).0->Ok_0.inputs == identifiers_from(its, p + 1),
{
    let (r1, p1) = spec_expect_keyword(its, p, Keyword::Calc);
    assert(p1 == p + 1);
    let (r2, p2) = spec_field_list(its, p1);
    lemma_field_list_identifiers(its, p1, Seq::empty());
    let (r3, p3) = spec_next(its, p2);
    let t = r3->Ok_0;
    assert(token_at(its, p2) == Some(t));
    assert(t.kind is Keyword);
    assert(identifiers_from(its, p2) =~= Seq::<Seq<char>>::empty());
    assert(Seq::<Seq<char>>::empty() + identifiers_from(its, p1) =~= identifiers_from(its, p1));
    assert(r2->Ok_0 + identifiers_from(its, p2) =~= r2->Ok_0);
}

} // verus!
