//! Tokens of frame QQL and the lexer that produces them. Besides the
//! tokens of single-model QQL it reads `#` comments to the end of the line
//! and `=` (as an identifier of its own).

use vstd::prelude::*;
use crate::text::{is_digit, is_alnum, all_digits, upper_seq, str_eq, chars_of, string_of, owned, push_char, concat, alnum, alpha, digit, upper};
use crate::numbers::all_digits_in;
use crate::scan::{skip_blanks, word_end, line_at, col_at, is_date_word, is_interval_word, lemma_skip_blanks, lemma_word_end, line_end, lemma_line_end, lemma_line_col_bounds};

verus! {

/// The reserved words of frame QQL.
#[derive(Debug, Clone, Copy, PartialEq, Eq, Structural)]
pub enum Keyword {
    Provider,
    Using,
    Param,
    Ticker,
    From,
    To,
    Live,
    Tick,
    For,
    Frame,
    Pull,
    Calc,
    Called,
    Difference,
    Sum,
    Multiply,
    Divide,
    Sma,
    Volatility,
    DoubleVolatility,
    Constant,
    LinearRegression,
    Graph,
    Xaxis,
    Line,
    Bar,
    Candle,
    Trade,
    OptionCall,
    OptionPut,
    Stock,
    OverFrame,
    Entry,
    Exit,
    Limit,
    Hold,
}

/// The upper-case spelling of each keyword.
pub open spec fn keyword_text(k: Keyword) -> Seq<char> {
    match k {
        Keyword::Provider => "PROVIDER"@,
        Keyword::Using => "USING"@,
        Keyword::Param => "PARAM"@,
        Keyword::Ticker => "TICKER"@,
        Keyword::From => "FROM"@,
        Keyword::To => "TO"@,
        Keyword::Live => "LIVE"@,
        Keyword::Tick => "TICK"@,
        Keyword::For => "FOR"@,
        Keyword::Frame => "FRAME"@,
        Keyword::Pull => "PULL"@,
        Keyword::Calc => "CALC"@,
        Keyword::Called => "CALLED"@,
        Keyword::Difference => "DIFFERENCE"@,
        Keyword::Sum => "SUM"@,
        Keyword::Multiply => "MULTIPLY"@,
        Keyword::Divide => "DIVIDE"@,
        Keyword::Sma => "SMA"@,
        Keyword::Volatility => "VOLATILITY"@,
        Keyword::DoubleVolatility => "DOUBLE_VOLATILITY"@,
        Keyword::Constant => "CONSTANT"@,
        Keyword::LinearRegression => "LINEAR_REGRESSION"@,
        Keyword::Graph => "GRAPH"@,
        Keyword::Xaxis => "XAXIS"@,
        Keyword::Line => "LINE"@,
        Keyword::Bar => "BAR"@,
        Keyword::Candle => "CANDLE"@,
        Keyword::Trade => "TRADE"@,
        Keyword::OptionCall => "OPTION_CALL"@,
        Keyword::OptionPut => "OPTION_PUT"@,
        Keyword::Stock => "STOCK"@,
        Keyword::OverFrame => "OVER"@,
        Keyword::Entry => "ENTRY"@,
        Keyword::Exit => "EXIT"@,
        Keyword::Limit => "LIMIT"@,
        Keyword::Hold => "HOLD"@,
    }
}

/// The keyword spelled by the upper-case word `w`.
pub open spec fn keyword_of(w: Seq<char>) -> Option<Keyword> {
    if w == "PROVIDER"@ { Some(Keyword::Provider) }
    else if w == "USING"@ { Some(Keyword::Using) }
    else if w == "PARAM"@ { Some(Keyword::Param) }
    else if w == "TICKER"@ { Some(Keyword::Ticker) }
    else if w == "FROM"@ { Some(Keyword::From) }
    else if w == "TO"@ { Some(Keyword::To) }
    else if w == "LIVE"@ { Some(Keyword::Live) }
    else if w == "TICK"@ { Some(Keyword::Tick) }
    else if w == "FOR"@ { Some(Keyword::For) }
    else if w == "FRAME"@ { Some(Keyword::Frame) }
    else if w == "PULL"@ { Some(Keyword::Pull) }
    else if w == "CALC"@ { Some(Keyword::Calc) }
    else if w == "CALLED"@ { Some(Keyword::Called) }
    else if w == "DIFFERENCE"@ { Some(Keyword::Difference) }
    else if w == "SUM"@ { Some(Keyword::Sum) }
    else if w == "MULTIPLY"@ { Some(Keyword::Multiply) }
    else if w == "DIVIDE"@ { Some(Keyword::Divide) }
    else if w == "SMA"@ { Some(Keyword::Sma) }
    else if w == "VOLATILITY"@ { Some(Keyword::Volatility) }
    else if w == "DOUBLE_VOLATILITY"@ { Some(Keyword::DoubleVolatility) }
    else if w == "CONSTANT"@ { Some(Keyword::Constant) }
    else if w == "LINEAR_REGRESSION"@ { Some(Keyword::LinearRegression) }
    else if w == "GRAPH"@ { Some(Keyword::Graph) }
    else if w == "XAXIS"@ { Some(Keyword::Xaxis) }
    else if w == "LINE"@ { Some(Keyword::Line) }
    else if w == "BAR"@ { Some(Keyword::Bar) }
    else if w == "CANDLE"@ { Some(Keyword::Candle) }
    else if w == "TRADE"@ { Some(Keyword::Trade) }
    else if w == "OPTION_CALL"@ { Some(Keyword::OptionCall) }
    else if w == "OPTION_PUT"@ { Some(Keyword::OptionPut) }
    else if w == "STOCK"@ { Some(Keyword::Stock) }
    else if w == "OVER"@ { Some(Keyword::OverFrame) }
    else if w == "ENTRY"@ { Some(Keyword::Entry) }
    else if w == "EXIT"@ { Some(Keyword::Exit) }
    else if w == "LIMIT"@ { Some(Keyword::Limit) }
    else if w == "HOLD"@ { Some(Keyword::Hold) }
    else { None }
}

/// The name under which a keyword is printed in messages.
pub open spec fn keyword_name(k: Keyword) -> Seq<char> {
    match k {
        Keyword::Provider => "Provider"@,
        Keyword::Using => "Using"@,
        Keyword::Param => "Param"@,
        Keyword::Ticker => "Ticker"@,
        Keyword::From => "From"@,
        Keyword::To => "To"@,
        Keyword::Live => "Live"@,
        Keyword::Tick => "Tick"@,
        Keyword::For => "For"@,
        Keyword::Frame => "Frame"@,
        Keyword::Pull => "Pull"@,
        Keyword::Calc => "Calc"@,
        Keyword::Called => "Called"@,
        Keyword::Difference => "Difference"@,
        Keyword::Sum => "Sum"@,
        Keyword::Multiply => "Multiply"@,
        Keyword::Divide => "Divide"@,
        Keyword::Sma => "Sma"@,
        Keyword::Volatility => "Volatility"@,
        Keyword::DoubleVolatility => "DoubleVolatility"@,
        Keyword::Constant => "Constant"@,
        Keyword::LinearRegression => "LinearRegression"@,
        Keyword::Graph => "Graph"@,
        Keyword::Xaxis => "Xaxis"@,
        Keyword::Line => "Line"@,
        Keyword::Bar => "Bar"@,
        Keyword::Candle => "Candle"@,
        Keyword::Trade => "Trade"@,
        Keyword::OptionCall => "OptionCall"@,
        Keyword::OptionPut => "OptionPut"@,
        Keyword::Stock => "Stock"@,
        Keyword::OverFrame => "OverFrame"@,
        Keyword::Entry => "Entry"@,
        Keyword::Exit => "Exit"@,
        Keyword::Limit => "Limit"@,
        Keyword::Hold => "Hold"@,
    }
}

impl Keyword {
    /// The keyword spelled exactly (upper case) by `s`.
    pub fn from_str(s: &str) -> (r: Option<Self>)
        ensures
            r == keyword_of(s@),
    {
        if str_eq(s, "PROVIDER") { Some(Keyword::Provider) }
        else if str_eq(s, "USING") { Some(Keyword::Using) }
        else if str_eq(s, "PARAM") { Some(Keyword::Param) }
        else if str_eq(s, "TICKER") { Some(Keyword::Ticker) }
        else if str_eq(s, "FROM") { Some(Keyword::From) }
        else if str_eq(s, "TO") { Some(Keyword::To) }
        else if str_eq(s, "LIVE") { Some(Keyword::Live) }
        else if str_eq(s, "TICK") { Some(Keyword::Tick) }
        else if str_eq(s, "FOR") { Some(Keyword::For) }
        else if str_eq(s, "FRAME") { Some(Keyword::Frame) }
        else if str_eq(s, "PULL") { Some(Keyword::Pull) }
        else if str_eq(s, "CALC") { Some(Keyword::Calc) }
        else if str_eq(s, "CALLED") { Some(Keyword::Called) }
        else if str_eq(s, "DIFFERENCE") { Some(Keyword::Difference) }
        else if str_eq(s, "SUM") { Some(Keyword::Sum) }
        else if str_eq(s, "MULTIPLY") { Some(Keyword::Multiply) }
        else if str_eq(s, "DIVIDE") { Some(Keyword::Divide) }
        else if str_eq(s, "SMA") { Some(Keyword::Sma) }
        else if str_eq(s, "VOLATILITY") { Some(Keyword::Volatility) }
        else if str_eq(s, "DOUBLE_VOLATILITY") { Some(Keyword::DoubleVolatility) }
        else if str_eq(s, "CONSTANT") { Some(Keyword::Constant) }
        else if str_eq(s, "LINEAR_REGRESSION") { Some(Keyword::LinearRegression) }
        else if str_eq(s, "GRAPH") { Some(Keyword::Graph) }
        else if str_eq(s, "XAXIS") { Some(Keyword::Xaxis) }
        else if str_eq(s, "LINE") { Some(Keyword::Line) }
        else if str_eq(s, "BAR") { Some(Keyword::Bar) }
        else if str_eq(s, "CANDLE") { Some(Keyword::Candle) }
        else if str_eq(s, "TRADE") { Some(Keyword::Trade) }
        else if str_eq(s, "OPTION_CALL") { Some(Keyword::OptionCall) }
        else if str_eq(s, "OPTION_PUT") { Some(Keyword::OptionPut) }
        else if str_eq(s, "STOCK") { Some(Keyword::Stock) }
        else if str_eq(s, "OVER") { Some(Keyword::OverFrame) }
        else if str_eq(s, "ENTRY") { Some(Keyword::Entry) }
        else if str_eq(s, "EXIT") { Some(Keyword::Exit) }
        else if str_eq(s, "LIMIT") { Some(Keyword::Limit) }
        else if str_eq(s, "HOLD") { Some(Keyword::Hold) }
        else { None }
    }

    /// The name under which the keyword is printed in messages.
    pub fn name(&self) -> (r: &'static str)
        ensures
            r@ == keyword_name(*self),
    {
        match self {
            Keyword::Provider => "Provider",
            Keyword::Using => "Using",
            Keyword::Param => "Param",
            Keyword::Ticker => "Ticker",
            Keyword::From => "From",
            Keyword::To => "To",
            Keyword::Live => "Live",
            Keyword::Tick => "Tick",
            Keyword::For => "For",
            Keyword::Frame => "Frame",
            Keyword::Pull => "Pull",
            Keyword::Calc => "Calc",
            Keyword::Called => "Called",
            Keyword::Difference => "Difference",
            Keyword::Sum => "Sum",
            Keyword::Multiply => "Multiply",
            Keyword::Divide => "Divide",
            Keyword::Sma => "Sma",
            Keyword::Volatility => "Volatility",
            Keyword::DoubleVolatility => "DoubleVolatility",
            Keyword::Constant => "Constant",
            Keyword::LinearRegression => "LinearRegression",
            Keyword::Graph => "Graph",
            Keyword::Xaxis => "Xaxis",
            Keyword::Line => "Line",
            Keyword::Bar => "Bar",
            Keyword::Candle => "Candle",
            Keyword::Trade => "Trade",
            Keyword::OptionCall => "OptionCall",
            Keyword::OptionPut => "OptionPut",
            Keyword::Stock => "Stock",
            Keyword::OverFrame => "OverFrame",
            Keyword::Entry => "Entry",
            Keyword::Exit => "Exit",
            Keyword::Limit => "Limit",
            Keyword::Hold => "Hold",
        }
    }
}

/// The letters of each keyword's spelling.
proof fn lemma_keyword_spellings()
    ensures
        "PROVIDER"@ =~= seq!['P', 'R', 'O', 'V', 'I', 'D', 'E', 'R'] && "PROVIDER"@.len() == 8,
        "USING"@ =~= seq!['U', 'S', 'I', 'N', 'G'] && "USING"@.len() == 5,
        "PARAM"@ =~= seq!['P', 'A', 'R', 'A', 'M'] && "PARAM"@.len() == 5,
        "TICKER"@ =~= seq!['T', 'I', 'C', 'K', 'E', 'R'] && "TICKER"@.len() == 6,
        "FROM"@ =~= seq!['F', 'R', 'O', 'M'] && "FROM"@.len() == 4,
        "TO"@ =~= seq!['T', 'O'] && "TO"@.len() == 2,
        "LIVE"@ =~= seq!['L', 'I', 'V', 'E'] && "LIVE"@.len() == 4,
        "TICK"@ =~= seq!['T', 'I', 'C', 'K'] && "TICK"@.len() == 4,
        "FOR"@ =~= seq!['F', 'O', 'R'] && "FOR"@.len() == 3,
        "FRAME"@ =~= seq!['F', 'R', 'A', 'M', 'E'] && "FRAME"@.len() == 5,
        "PULL"@ =~= seq!['P', 'U', 'L', 'L'] && "PULL"@.len() == 4,
        "CALC"@ =~= seq!['C', 'A', 'L', 'C'] && "CALC"@.len() == 4,
        "CALLED"@ =~= seq!['C', 'A', 'L', 'L', 'E', 'D'] && "CALLED"@.len() == 6,
        "DIFFERENCE"@ =~= seq!['D', 'I', 'F', 'F', 'E', 'R', 'E', 'N', 'C', 'E'] && "DIFFERENCE"@.len() == 10,
        "SUM"@ =~= seq!['S', 'U', 'M'] && "SUM"@.len() == 3,
        "MULTIPLY"@ =~= seq!['M', 'U', 'L', 'T', 'I', 'P', 'L', 'Y'] && "MULTIPLY"@.len() == 8,
        "DIVIDE"@ =~= seq!['D', 'I', 'V', 'I', 'D', 'E'] && "DIVIDE"@.len() == 6,
        "SMA"@ =~= seq!['S', 'M', 'A'] && "SMA"@.len() == 3,
        "VOLATILITY"@ =~= seq!['V', 'O', 'L', 'A', 'T', 'I', 'L', 'I', 'T', 'Y'] && "VOLATILITY"@.len() == 10,
        "DOUBLE_VOLATILITY"@ =~= seq!['D', 'O', 'U', 'B', 'L', 'E', '_', 'V', 'O', 'L', 'A', 'T', 'I', 'L', 'I', 'T', 'Y'] && "DOUBLE_VOLATILITY"@.len() == 17,
        "CONSTANT"@ =~= seq!['C', 'O', 'N', 'S', 'T', 'A', 'N', 'T'] && "CONSTANT"@.len() == 8,
        "LINEAR_REGRESSION"@ =~= seq!['L', 'I', 'N', 'E', 'A', 'R', '_', 'R', 'E', 'G', 'R', 'E', 'S', 'S', 'I', 'O', 'N'] && "LINEAR_REGRESSION"@.len() == 17,
        "GRAPH"@ =~= seq!['G', 'R', 'A', 'P', 'H'] && "GRAPH"@.len() == 5,
        "XAXIS"@ =~= seq!['X', 'A', 'X', 'I', 'S'] && "XAXIS"@.len() == 5,
        "LINE"@ =~= seq!['L', 'I', 'N', 'E'] && "LINE"@.len() == 4,
        "BAR"@ =~= seq!['B', 'A', 'R'] && "BAR"@.len() == 3,
        "CANDLE"@ =~= seq!['C', 'A', 'N', 'D', 'L', 'E'] && "CANDLE"@.len() == 6,
        "TRADE"@ =~= seq!['T', 'R', 'A', 'D', 'E'] && "TRADE"@.len() == 5,
        "OPTION_CALL"@ =~= seq!['O', 'P', 'T', 'I', 'O', 'N', '_', 'C', 'A', 'L', 'L'] && "OPTION_CALL"@.len() == 11,
        "OPTION_PUT"@ =~= seq!['O', 'P', 'T', 'I', 'O', 'N', '_', 'P', 'U', 'T'] && "OPTION_PUT"@.len() == 10,
        "STOCK"@ =~= seq!['S', 'T', 'O', 'C', 'K'] && "STOCK"@.len() == 5,
        "OVER"@ =~= seq!['O', 'V', 'E', 'R'] && "OVER"@.len() == 4,
        "ENTRY"@ =~= seq!['E', 'N', 'T', 'R', 'Y'] && "ENTRY"@.len() == 5,
        "EXIT"@ =~= seq!['E', 'X', 'I', 'T'] && "EXIT"@.len() == 4,
        "LIMIT"@ =~= seq!['L', 'I', 'M', 'I', 'T'] && "LIMIT"@.len() == 5,
        "HOLD"@ =~= seq!['H', 'O', 'L', 'D'] && "HOLD"@.len() == 4,
{
    reveal_strlit("PROVIDER");
    reveal_strlit("USING");
    reveal_strlit("PARAM");
    reveal_strlit("TICKER");
    reveal_strlit("FROM");
    reveal_strlit("TO");
    reveal_strlit("LIVE");
    reveal_strlit("TICK");
    reveal_strlit("FOR");
    reveal_strlit("FRAME");
    reveal_strlit("PULL");
    reveal_strlit("CALC");
    reveal_strlit("CALLED");
    reveal_strlit("DIFFERENCE");
    reveal_strlit("SUM");
    reveal_strlit("MULTIPLY");
    reveal_strlit("DIVIDE");
    reveal_strlit("SMA");
    reveal_strlit("VOLATILITY");
    reveal_strlit("DOUBLE_VOLATILITY");
    reveal_strlit("CONSTANT");
    reveal_strlit("LINEAR_REGRESSION");
    reveal_strlit("GRAPH");
    reveal_strlit("XAXIS");
    reveal_strlit("LINE");
    reveal_strlit("BAR");
    reveal_strlit("CANDLE");
    reveal_strlit("TRADE");
    reveal_strlit("OPTION_CALL");
    reveal_strlit("OPTION_PUT");
    reveal_strlit("STOCK");
    reveal_strlit("OVER");
    reveal_strlit("ENTRY");
    reveal_strlit("EXIT");
    reveal_strlit("LIMIT");
    reveal_strlit("HOLD");
}

/// Every keyword is read back from its spelling.
pub proof fn law_keyword_spelling_round_trip(k: Keyword)
    ensures
        keyword_of(keyword_text(k)) == Some(k),
{
    lemma_keyword_spellings();
    match k {
        Keyword::Provider => assert(keyword_of("PROVIDER"@) == Some(Keyword::Provider)),
        Keyword::Using => assert(keyword_of("USING"@) == Some(Keyword::Using)),
        Keyword::Param => assert(keyword_of("PARAM"@) == Some(Keyword::Param)),
        Keyword::Ticker => assert(keyword_of("TICKER"@) == Some(Keyword::Ticker)),
        Keyword::From => assert(keyword_of("FROM"@) == Some(Keyword::From)),
        Keyword::To => assert(keyword_of("TO"@) == Some(Keyword::To)),
        Keyword::Live => assert(keyword_of("LIVE"@) == Some(Keyword::Live)),
        Keyword::Tick => assert(keyword_of("TICK"@) == Some(Keyword::Tick)),
        Keyword::For => assert(keyword_of("FOR"@) == Some(Keyword::For)),
        Keyword::Frame => assert(keyword_of("FRAME"@) == Some(Keyword::Frame)),
        Keyword::Pull => assert(keyword_of("PULL"@) == Some(Keyword::Pull)),
        Keyword::Calc => assert(keyword_of("CALC"@) == Some(Keyword::Calc)),
        Keyword::Called => assert(keyword_of("CALLED"@) == Some(Keyword::Called)),
        Keyword::Difference => assert(keyword_of("DIFFERENCE"@) == Some(Keyword::Difference)),
        Keyword::Sum => assert(keyword_of("SUM"@) == Some(Keyword::Sum)),
        Keyword::Multiply => assert(keyword_of("MULTIPLY"@) == Some(Keyword::Multiply)),
        Keyword::Divide => assert(keyword_of("DIVIDE"@) == Some(Keyword::Divide)),
        Keyword::Sma => assert(keyword_of("SMA"@) == Some(Keyword::Sma)),
        Keyword::Volatility => assert(keyword_of("VOLATILITY"@) == Some(Keyword::Volatility)),
        Keyword::DoubleVolatility => assert(keyword_of("DOUBLE_VOLATILITY"@) == Some(Keyword::DoubleVolatility)),
        Keyword::Constant => assert(keyword_of("CONSTANT"@) == Some(Keyword::Constant)),
        Keyword::LinearRegression => assert(keyword_of("LINEAR_REGRESSION"@) == Some(Keyword::LinearRegression)),
        Keyword::Graph => assert(keyword_of("GRAPH"@) == Some(Keyword::Graph)),
        Keyword::Xaxis => assert(keyword_of("XAXIS"@) == Some(Keyword::Xaxis)),
        Keyword::Line => assert(keyword_of("LINE"@) == Some(Keyword::Line)),
        Keyword::Bar => assert(keyword_of("BAR"@) == Some(Keyword::Bar)),
        Keyword::Candle => assert(keyword_of("CANDLE"@) == Some(Keyword::Candle)),
        Keyword::Trade => assert(keyword_of("TRADE"@) == Some(Keyword::Trade)),
        Keyword::OptionCall => assert(keyword_of("OPTION_CALL"@) == Some(Keyword::OptionCall)),
        Keyword::OptionPut => assert(keyword_of("OPTION_PUT"@) == Some(Keyword::OptionPut)),
        Keyword::Stock => assert(keyword_of("STOCK"@) == Some(Keyword::Stock)),
        Keyword::OverFrame => assert(keyword_of("OVER"@) == Some(Keyword::OverFrame)),
        Keyword::Entry => assert(keyword_of("ENTRY"@) == Some(Keyword::Entry)),
        Keyword::Exit => assert(keyword_of("EXIT"@) == Some(Keyword::Exit)),
        Keyword::Limit => assert(keyword_of("LIMIT"@) == Some(Keyword::Limit)),
        Keyword::Hold => assert(keyword_of("HOLD"@) == Some(Keyword::Hold)),
    }
}

/// What a token is.
#[derive(Debug, Clone, PartialEq)]
pub enum TokenKind {
    Keyword(Keyword),
    Identifier(String),
    Date(String),
    Interval(String),
    Literal(String),
    Comma,
    Newline,
    EOF,
    Comment(String),
}

/// A token kind with its text as a character sequence.
pub enum SpecTokenKind {
    Keyword(Keyword),
    Identifier(Seq<char>),
    Date(Seq<char>),
    Interval(Seq<char>),
    Literal(Seq<char>),
    Comma,
    Newline,
    EOF,
    Comment(Seq<char>),
}

impl View for TokenKind {
    type V = SpecTokenKind;

    open spec fn view(&self) -> SpecTokenKind {
        match self {
            TokenKind::Keyword(k) => SpecTokenKind::Keyword(*k),
            TokenKind::Identifier(s) => SpecTokenKind::Identifier(s@),
            TokenKind::Date(s) => SpecTokenKind::Date(s@),
            TokenKind::Interval(s) => SpecTokenKind::Interval(s@),
            TokenKind::Literal(s) => SpecTokenKind::Literal(s@),
            TokenKind::Comma => SpecTokenKind::Comma,
            TokenKind::Newline => SpecTokenKind::Newline,
            TokenKind::EOF => SpecTokenKind::EOF,
            TokenKind::Comment(s) => SpecTokenKind::Comment(s@),
        }
    }
}

/// A token and where it starts (line from 1, column from 1).
#[derive(Debug, Clone, PartialEq)]
pub struct Token {
    pub kind: TokenKind,
    pub line: usize,
    pub column: usize,
}

pub struct SpecToken {
    pub kind: SpecTokenKind,
    pub line: nat,
    pub column: nat,
}

impl View for Token {
    type V = SpecToken;

    open spec fn view(&self) -> SpecToken {
        SpecToken { kind: self.kind@, line: self.line as nat, column: self.column as nat }
    }
}

/// A character that starts no token, and where it stands.
#[derive(Debug)]
pub struct LexError {
    pub message: String,
    pub line: usize,
    pub column: usize,
}

pub struct SpecLexError {
    pub message: Seq<char>,
    pub line: nat,
    pub column: nat,
}

impl View for LexError {
    type V = SpecLexError;

    open spec fn view(&self) -> SpecLexError {
        SpecLexError { message: self.message@, line: self.line as nat, column: self.column as nat }
    }
}

/// How a token kind is printed in messages.
pub open spec fn describe_kind(k: SpecTokenKind) -> Seq<char> {
    match k {
        SpecTokenKind::Keyword(kw) => "Keyword("@ + keyword_name(kw) + ")"@,
        SpecTokenKind::Identifier(s) => "Identifier(\""@ + s + "\")"@,
        SpecTokenKind::Date(s) => "Date(\""@ + s + "\")"@,
        SpecTokenKind::Interval(s) => "Interval(\""@ + s + "\")"@,
        SpecTokenKind::Literal(s) => "Literal(\""@ + s + "\")"@,
        SpecTokenKind::Comma => "Comma"@,
        SpecTokenKind::Newline => "Newline"@,
        SpecTokenKind::EOF => "EOF"@,
        SpecTokenKind::Comment(s) => "Comment(\""@ + s + "\")"@,
    }
}

impl TokenKind {
    /// How the kind is printed in messages: the variant, and its keyword
    /// or quoted text.
    pub fn describe(&self) -> (r: String)
        ensures
            r@ == describe_kind(self@),
    {
        match self {
            TokenKind::Keyword(kw) => {
                let a = concat("Keyword(", kw.name());
                concat(a.as_str(), ")")
            },
            TokenKind::Identifier(s) => {
                let a = concat("Identifier(\"", s.as_str());
                concat(a.as_str(), "\")")
            },
            TokenKind::Date(s) => {
                let a = concat("Date(\"", s.as_str());
                concat(a.as_str(), "\")")
            },
            TokenKind::Interval(s) => {
                let a = concat("Interval(\"", s.as_str());
                concat(a.as_str(), "\")")
            },
            TokenKind::Literal(s) => {
                let a = concat("Literal(\"", s.as_str());
                concat(a.as_str(), "\")")
            },
            TokenKind::Comma => owned("Comma"),
            TokenKind::Newline => owned("Newline"),
            TokenKind::EOF => owned("EOF"),
            TokenKind::Comment(s) => {
                let a = concat("Comment(\"", s.as_str());
                concat(a.as_str(), "\")")
            },
        }
    }
}

/// One lexing outcome, as values.
pub open spec fn lexed_view(r: Result<Token, LexError>) -> Result<SpecToken, SpecLexError> {
    match r {
        Ok(t) => Ok(t@),
        Err(e) => Err(e@),
    }
}

/// The kind of the word `w` (which starts with a letter or digit): a date
/// literal, an interval, a keyword in any letter case, or an identifier.
pub open spec fn word_kind(w: Seq<char>) -> SpecTokenKind {
    if is_date_word(w) {
        SpecTokenKind::Literal(w)
    } else if is_interval_word(w) {
        SpecTokenKind::Interval(w)
    } else {
        match keyword_of(upper_seq(w)) {
            Some(k) => SpecTokenKind::Keyword(k),
            None => SpecTokenKind::Identifier(w),
        }
    }
}

/// The message for a character that starts no token.
pub open spec fn unexpected_message(c: char) -> Seq<char> {
    "Unexpected character '"@ + seq![c] + seq!['\'']
}

/// One step of the lexer from position `pos` of `s`: the token or error it
/// yields and the position after it. Blanks are skipped first; the end of
/// the input yields `EOF` without moving.
pub open spec fn lex_step(s: Seq<char>, pos: int) -> (Result<SpecToken, SpecLexError>, int) {
    let p = skip_blanks(s, pos);
    let line = line_at(s, p);
    let column = col_at(s, p) + 1;
    if p >= s.len() {
        (Ok(SpecToken { kind: SpecTokenKind::EOF, line, column }), p)
    } else {
        let c = s[p];
        if c == ',' {
            (Ok(SpecToken { kind: SpecTokenKind::Comma, line, column }), p + 1)
        } else if c == '\n' {
            (Ok(SpecToken { kind: SpecTokenKind::Newline, line, column }), p + 1)
        } else if c == '#' {
            let e = line_end(s, p + 1);
            (Ok(SpecToken { kind: SpecTokenKind::Comment(s.subrange(p + 1, e)), line, column }), e)
        } else if c == '=' {
            (Ok(SpecToken { kind: SpecTokenKind::Identifier(seq!['=']), line, column }), p + 1)
        } else if is_alnum(c) {
            let e = word_end(s, p + 1);
            (Ok(SpecToken { kind: word_kind(s.subrange(p, e)), line, column }), e)
        } else {
            (Err(SpecLexError { message: unexpected_message(c), line, column }), p + 1)
        }
    }
}

pub proof fn lemma_lex_step(s: Seq<char>, pos: int)
    requires
        0 <= pos <= s.len(),
    ensures
        pos <= lex_step(s, pos).1 <= s.len(),
        lex_step(s, pos).0 matches Ok(t) && t.kind is EOF <==> lex_step(s, pos).1 == s.len() && skip_blanks(s, pos) == s.len(),
        !(lex_step(s, pos).0 matches Ok(t) && t.kind is EOF) ==> pos < lex_step(s, pos).1,
{
    lemma_skip_blanks(s, pos);
    let p = skip_blanks(s, pos);
    if p < s.len() {
        lemma_word_end(s, p + 1);
        lemma_line_end(s, p + 1);
    }
}

/// Everything the lexer yields from `pos` on, up to but not including the
/// end of input: tokens and errors in order.
pub open spec fn lex_items(s: Seq<char>, pos: int) -> Seq<Result<SpecToken, SpecLexError>>
    decreases s.len() - pos,
{
    if pos < 0 || pos > s.len() {
        Seq::empty()
    } else {
        let (r, next) = lex_step(s, pos);
        if r matches Ok(t) && t.kind is EOF {
            Seq::empty()
        } else {
            proof {
                lemma_lex_step(s, pos);
            }
            seq![r] + lex_items(s, next)
        }
    }
}

/// Turns the characters of a frame query into tokens.
pub struct Lexer {
    chars: Vec<char>,
    pos: usize,
    current_line: usize,
    current_col: usize,
}

impl Lexer {
    /// The characters being lexed.
    pub closed spec fn source(&self) -> Seq<char> {
        self.chars@
    }

    /// How many characters have been consumed.
    pub closed spec fn position(&self) -> int {
        self.pos as int
    }

    pub closed spec fn wf(&self) -> bool {
        &&& self.pos <= self.chars@.len() < usize::MAX
        &&& self.current_line == line_at(self.chars@, self.pos as int)
        &&& self.current_col == col_at(self.chars@, self.pos as int)
    }

    /// A lexer at the start of `source`.
    pub fn new(source: &str) -> (r: Self)
        requires
            source@.len() < usize::MAX,
        ensures
            r.wf(),
            r.source() == source@,
            r.position() == 0,
    {
        Lexer { chars: chars_of(source), pos: 0, current_line: 1, current_col: 0 }
    }

    /// Consumes one character, keeping line and column up to date.
    fn advance(&mut self) -> (r: Option<char>)
        requires
            old(self).wf(),
        ensures
            final(self).wf(),
            final(self).source() == old(self).source(),
            old(self).position() < old(self).source().len() ==> r == Some(old(self).source()[old(self).position()])
                && final(self).position() == old(self).position() + 1,
            old(self).position() >= old(self).source().len() ==> r is None
                && final(self).position() == old(self).position(),
    {
        if self.pos < self.chars.len() {
            let c = self.chars[self.pos];
            proof {
                lemma_line_col_bounds(self.chars@, self.pos as int);
            }
            if c == '\n' {
                self.current_line = self.current_line + 1;
                self.current_col = 0;
            } else {
                self.current_col = self.current_col + 1;
            }
            self.pos = self.pos + 1;
            Some(c)
        } else {
            None
        }
    }

    /// The next character, not consumed.
    fn _peek(&self) -> (r: Option<char>)
        requires
            self.wf(),
        ensures
            self.position() < self.source().len() ==> r == Some(self.source()[self.position()]),
            self.position() >= self.source().len() ==> r is None,
    {
        if self.pos < self.chars.len() {
            Some(self.chars[self.pos])
        } else {
            None
        }
    }

    /// Reads the rest of a word whose first character `first` was just
    /// consumed, and classifies it.
    fn lex_word_like(&mut self, first: char) -> (r: TokenKind)
        requires
            old(self).wf(),
            1 <= old(self).position() <= old(self).source().len(),
            old(self).source()[old(self).position() - 1] == first,
        ensures
            final(self).wf(),
            final(self).source() == old(self).source(),
            final(self).position() == word_end(old(self).source(), old(self).position()),
            r@ == word_kind(old(self).source().subrange(old(self).position() - 1, final(self).position())),
    {
        let start = self.pos - 1;
        let ghost s = self.chars@;
        proof {
            lemma_word_end(s, self.pos as int);
        }
        while self.pos < self.chars.len() && (alnum(self.chars[self.pos]) || self.chars[self.pos] == '.' || self.chars[self.pos] == '_')
            invariant
                self.wf(),
                self.chars@ == s,
                start < self.pos <= s.len(),
                word_end(s, self.pos as int) == word_end(s, start + 1),
            decreases s.len() - self.pos,
        {
            self.advance();
        }
        let end = self.pos;
        let ghost ws = s.subrange(start as int, end as int);
        let buf = string_of(self.chars.as_slice(), start, end);
        if end - start == 8 && all_digits_in(self.chars.as_slice(), start, end) {
            return TokenKind::Literal(buf);
        }
        let last = self.chars[end - 1];
        let body_digits = all_digits_in(self.chars.as_slice(), start, end - 1);
        proof {
            assert(s.subrange(start as int, end - 1) =~= ws.drop_last());
        }
        if alpha(last) && body_digits && (last == 's' || last == 'm' || last == 'h' || last == 'd') {
            return TokenKind::Interval(buf);
        }
        let up = upper_slice(self.chars.as_slice(), start, end);
        let ups = string_of(up.as_slice(), 0, up.len());
        proof {
            assert(up@.subrange(0, up@.len() as int) =~= up@);
        }
        match Keyword::from_str(ups.as_str()) {
            Some(k) => TokenKind::Keyword(k),
            None => TokenKind::Identifier(buf),
        }
    }

    /// Reads the rest of a comment, up to but not including the newline.
    fn lex_comment(&mut self) -> (r: String)
        requires
            old(self).wf(),
            old(self).position() <= old(self).source().len(),
        ensures
            final(self).wf(),
            final(self).source() == old(self).source(),
            final(self).position() == line_end(old(self).source(), old(self).position()),
            r@ == old(self).source().subrange(old(self).position(), final(self).position()),
    {
        let start = self.pos;
        let ghost s = self.chars@;
        proof {
            lemma_line_end(s, self.pos as int);
        }
        while self.pos < self.chars.len() && self.chars[self.pos] != '\n'
            invariant
                self.wf(),
                self.chars@ == s,
                start <= self.pos <= s.len(),
                line_end(s, self.pos as int) == line_end(s, start as int),
            decreases s.len() - self.pos,
        {
            self.advance();
        }
        string_of(self.chars.as_slice(), start, self.pos)
    }

    /// Consumes blanks.
    fn skip_whitespace(&mut self)
        requires
            old(self).wf(),
        ensures
            final(self).wf(),
            final(self).source() == old(self).source(),
            final(self).position() == skip_blanks(old(self).source(), old(self).position()),
    {
        let ghost s = self.chars@;
        let ghost p0 = self.pos as int;
        while self.pos < self.chars.len() && (self.chars[self.pos] == ' ' || self.chars[self.pos] == '\t' || self.chars[self.pos] == '\r')
            invariant
                self.wf(),
                self.chars@ == s,
                p0 <= self.pos <= s.len(),
                skip_blanks(s, self.pos as int) == skip_blanks(s, p0),
            decreases s.len() - self.pos,
        {
            self.advance();
        }
    }

    /// The next token, or an error for a character that starts none; at the
    /// end of input, `EOF` (again on every later call).
    pub fn next_token(&mut self) -> (r: Result<Token, LexError>)
        requires
            old(self).wf(),
        ensures
            final(self).wf(),
            final(self).source() == old(self).source(),
            (lexed_view(r), final(self).position()) == lex_step(old(self).source(), old(self).position()),
    {
        self.skip_whitespace();
        proof {
            lemma_line_col_bounds(self.chars@, self.pos as int);
        }
        let line = self.current_line;
        let column = self.current_col + 1;
        match self.advance() {
            Some(c) => {
                if c == ',' {
                    Ok(Token { kind: TokenKind::Comma, line, column })
                } else if c == '\n' {
                    Ok(Token { kind: TokenKind::Newline, line, column })
                } else if c == '#' {
                    let text = self.lex_comment();
                    Ok(Token { kind: TokenKind::Comment(text), line, column })
                } else if c == '=' {
                    let mut eq = String::new();
                    push_char(&mut eq, '=');
                    assert(eq@ =~= seq!['=']);
                    Ok(Token { kind: TokenKind::Identifier(eq), line, column })
                } else if alnum(c) {
                    let kind = self.lex_word_like(c);
                    Ok(Token { kind, line, column })
                } else {
                    let mut message = owned("Unexpected character '");
                    push_char(&mut message, c);
                    push_char(&mut message, '\'');
                    assert(message@ =~= unexpected_message(c));
                    Err(LexError { message, line, column })
                }
            },
            None => Ok(Token { kind: TokenKind::EOF, line, column }),
        }
    }

    /// The next token or error, or `None` at the end of input.
    pub fn next(&mut self) -> (r: Option<Result<Token, LexError>>)
        requires
            old(self).wf(),
        ensures
            final(self).wf(),
            final(self).source() == old(self).source(),
            final(self).position() == lex_step(old(self).source(), old(self).position()).1,
            match r {
                None => lex_step(old(self).source(), old(self).position()).0 matches Ok(t) && t.kind is EOF,
                Some(x) => lexed_view(x) == lex_step(old(self).source(), old(self).position()).0
                    && !(lexed_view(x) matches Ok(t) && t.kind is EOF),
            },
    {
        let res = self.next_token();
        match res {
            Ok(tok) => {
                if let TokenKind::EOF = tok.kind {
                    None
                } else {
                    Some(Ok(tok))
                }
            },
            Err(e) => Some(Err(e)),
        }
    }
}

/// The ASCII upper-casing of `cs[from..to]`.
fn upper_slice(cs: &[char], from: usize, to: usize) -> (v: Vec<char>)
    requires
        from <= to <= cs@.len(),
    ensures
        v@ == upper_seq(cs@.subrange(from as int, to as int)),
{
    let mut v: Vec<char> = Vec::new();
    let mut i = from;
    while i < to
        invariant
            from <= i <= to <= cs@.len(),
            v@ =~= upper_seq(cs@.subrange(from as int, i as int)),
        decreases to - i,
    {
        v.push(upper(cs[i]));
        i = i + 1;
        assert(cs@.subrange(from as int, i as int) =~= cs@.subrange(from as int, i - 1).push(cs@[i - 1]));
    }
    v
}

/// Whether every character of `w` is a digit.
pub fn all_digit_chars(w: &[char]) -> (r: bool)
    ensures
        r == all_digits(w@),
{
    let mut i: usize = 0;
    while i < w.len()
        invariant
            i <= w@.len(),
            forall|j: int| 0 <= j < i ==> is_digit(w@[j]),
        decreases w.len() - i,
    {
        if !digit(w[i]) {
            return false;
        }
        i = i + 1;
    }
    true
}

} // verus!
