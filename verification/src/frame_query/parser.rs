//! Recursive-descent parser for frame QQL.
//!
//! A query is a list of provider blocks
//! (`PROVIDER <name>` with `PROVIDER`/`USING <backend>`, `TICKER <symbol>`,
//! `FROM <date> TO <date>` or `LIVE TICK <interval> FOR <duration>`, and
//! `PARAM <key> = <value>` lines), then frames
//! (`FRAME <name> PROVIDER <provider> PULL <fields>` and `CALC` lines), an
//! optional `GRAPH XAXIS <column>` block of `LINE`, `BAR` and `CANDLE`
//! commands each `FOR <frame>`, and an optional `TRADE` rule. Newlines and
//! comments between lines are skipped.

use vstd::prelude::*;
use crate::text::{concat, owned};
use crate::keyed::KeyedList;
use crate::numbers::{is_float_text, float_text, i32_text_value, parse_i32};
use crate::frame_query::lexer::{
    Keyword, Lexer, Token, TokenKind, LexError, SpecToken, SpecTokenKind, SpecLexError,
    lexed_view, lex_items, lemma_lex_step, keyword_name,
};
use crate::frame_query::ast::{
    Query, SpecQuery, Frame, SpecFrame, TimeSpec, SpecTimeSpec, ProviderInstance,
    SpecProviderInstance, ActionSection, SpecActionSection, Calc, SpecCalc, GraphSection,
    SpecGraphSection, DrawCommand, SpecDrawCommand, TradeType, TradeSection, SpecTradeSection,
    ParseError, SpecParseError, result_view, expected_error, eof_error, strings_view, calcs_view,
    pairs_view,
};
use crate::frame_query::ordering::{order_calcs_flat, spec_order_flat};

verus! {

pub type Item = Result<SpecToken, SpecLexError>;

/* ---------------------------- token stream ------------------------------- */

pub open spec fn lex_error_view(e: SpecLexError) -> SpecParseError {
    SpecParseError { message: e.message, line: e.line, column: e.column }
}

/// Consuming one item at `p`: its token, or its error, or the end of input.
pub open spec fn spec_next(its: Seq<Item>, p: int) -> (Result<SpecToken, SpecParseError>, int) {
    if 0 <= p < its.len() {
        match its[p] {
            Ok(t) => (Ok(t), p + 1),
            Err(e) => (Err(lex_error_view(e)), p + 1),
        }
    } else {
        (Err(eof_error("unexpected EOF"@)), p)
    }
}

pub open spec fn token_at(its: Seq<Item>, p: int) -> Option<SpecToken> {
    if 0 <= p < its.len() {
        match its[p] {
            Ok(t) => Some(t),
            Err(_) => None,
        }
    } else {
        None
    }
}

pub open spec fn is_kind_at(its: Seq<Item>, p: int, k: SpecTokenKind) -> bool {
    token_at(its, p) matches Some(t) && t.kind == k
}

pub open spec fn is_keyword_at(its: Seq<Item>, p: int, k: Keyword) -> bool {
    is_kind_at(its, p, SpecTokenKind::Keyword(k))
}

pub open spec fn is_skippable(k: SpecTokenKind) -> bool {
    k is Newline || k is Comment
}

/// The first position at or after `p` whose item is neither a newline nor a
/// comment token.
pub open spec fn skip_newlines(its: Seq<Item>, p: int) -> int
    decreases its.len() - p,
{
    if 0 <= p < its.len() && (token_at(its, p) matches Some(t) && is_skippable(t.kind)) {
        skip_newlines(its, p + 1)
    } else {
        p
    }
}

pub proof fn lemma_skip_newlines(its: Seq<Item>, p: int)
    requires
        0 <= p <= its.len(),
    ensures
        p <= skip_newlines(its, p) <= its.len(),
    decreases its.len() - p,
{
    if 0 <= p < its.len() && (token_at(its, p) matches Some(t) && is_skippable(t.kind)) {
        lemma_skip_newlines(its, p + 1);
    }
}

/// Line and column of the last token consumed before `p`, or (0, 0).
pub open spec fn last_pos_at(its: Seq<Item>, p: int) -> (nat, nat)
    decreases p,
{
    if p <= 0 || p > its.len() {
        (0, 0)
    } else {
        match its[p - 1] {
            Ok(t) => (t.line, t.column),
            Err(_) => last_pos_at(its, p - 1),
        }
    }
}

pub open spec fn spec_expect_keyword(its: Seq<Item>, p: int, kw: Keyword) -> (Result<SpecToken, SpecParseError>, int) {
    let (r, q) = spec_next(its, p);
    match r {
        Ok(t) => if t.kind == SpecTokenKind::Keyword(kw) {
            (Ok(t), q)
        } else {
            (Err(expected_error(t, "keyword "@ + keyword_name(kw))), q)
        },
        Err(e) => (Err(e), q),
    }
}

pub open spec fn spec_expect_identifier(its: Seq<Item>, p: int) -> (Result<Seq<char>, SpecParseError>, int) {
    let (r, q) = spec_next(its, p);
    match r {
        Ok(t) => match t.kind {
            SpecTokenKind::Identifier(id) => (Ok(id), q),
            _ => (Err(expected_error(t, "identifier"@)), q),
        },
        Err(e) => (Err(e), q),
    }
}

pub open spec fn spec_expect_literal(its: Seq<Item>, p: int) -> (Result<Seq<char>, SpecParseError>, int) {
    let (r, q) = spec_next(its, p);
    match r {
        Ok(t) => match t.kind {
            SpecTokenKind::Literal(l) => (Ok(l), q),
            _ => (Err(expected_error(t, "literal"@)), q),
        },
        Err(e) => (Err(e), q),
    }
}

pub open spec fn spec_comma_or_newline(its: Seq<Item>, p: int) -> (Result<(), SpecParseError>, int) {
    let (r, q) = spec_next(its, p);
    match r {
        Ok(t) => match t.kind {
            SpecTokenKind::Comma | SpecTokenKind::Newline => (Ok(()), q),
            _ => (Err(expected_error(t, ", or newline"@)), q),
        },
        Err(e) => (Err(e), q),
    }
}

/* ---------------------------- provider blocks ---------------------------- */

/// What a provider block has gathered so far.
pub struct BlockState {
    pub backend: Option<Seq<char>>,
    pub ticker: Option<Seq<char>>,
    pub time_spec: Option<SpecTimeSpec>,
    pub params: Seq<(Seq<char>, Seq<char>)>,
}

/// `PARAM` already consumed: `<key> = <value>` where `=` and the value are
/// identifiers or literals.
pub open spec fn spec_param(its: Seq<Item>, p: int) -> (Result<(Seq<char>, Seq<char>), SpecParseError>, int) {
    let (r1, p1) = spec_expect_identifier(its, p);
    if r1 is Err { (Err(r1->Err_0), p1) } else {
    let (r2, p2) = spec_next(its, p1);
    if r2 is Err { (Err(r2->Err_0), p2) } else {
    let eq = r2->Ok_0;
    if !(eq.kind == SpecTokenKind::Identifier(seq!['=']) || eq.kind == SpecTokenKind::Literal(seq!['='])) {
        (Err(expected_error(eq, "'='"@)), p2)
    } else {
    let (r3, p3) = spec_next(its, p2);
    if r3 is Err { (Err(r3->Err_0), p3) } else {
    let vt = r3->Ok_0;
    match vt.kind {
        SpecTokenKind::Identifier(v) => (Ok((r1->Ok_0, v)), p3),
        SpecTokenKind::Literal(v) => (Ok((r1->Ok_0, v)), p3),
        _ => (Err(expected_error(vt, "value"@)), p3),
    }
    }}}}
}

/// `LIVE` already consumed: `TICK <literal> FOR <literal>`.
pub open spec fn spec_live(its: Seq<Item>, p: int) -> (Result<SpecTimeSpec, SpecParseError>, int) {
    let (r1, p1) = spec_expect_keyword(its, p, Keyword::Tick);
    if r1 is Err { (Err(r1->Err_0), p1) } else {
    let (r2, p2) = spec_expect_literal(its, p1);
    if r2 is Err { (Err(r2->Err_0), p2) } else {
    let (r3, p3) = spec_expect_keyword(its, p2, Keyword::For);
    if r3 is Err { (Err(r3->Err_0), p3) } else {
    let (r4, p4) = spec_expect_literal(its, p3);
    if r4 is Err { (Err(r4->Err_0), p4) } else {
    (Ok(SpecTimeSpec::LiveSpec { interval: r2->Ok_0, duration: r4->Ok_0 }), p4)
    }}}}
}

/// `FROM` already consumed: `<literal> TO <literal>`.
pub open spec fn spec_range(its: Seq<Item>, p: int) -> (Result<SpecTimeSpec, SpecParseError>, int) {
    let (r1, p1) = spec_expect_literal(its, p);
    if r1 is Err { (Err(r1->Err_0), p1) } else {
    let (r2, p2) = spec_expect_keyword(its, p1, Keyword::To);
    if r2 is Err { (Err(r2->Err_0), p2) } else {
    let (r3, p3) = spec_expect_literal(its, p2);
    if r3 is Err { (Err(r3->Err_0), p3) } else {
    (Ok(SpecTimeSpec::DateRange { from: r1->Ok_0, to: r3->Ok_0 }), p3)
    }}}
}

/// The lines of a provider block from `p`, given what was gathered so far:
/// a second `PROVIDER` once the backend is known ends the block, as does
/// any other item than the block's keywords and newlines.
pub open spec fn spec_block_from(its: Seq<Item>, p: int, st: BlockState) -> (Result<BlockState, SpecParseError>, int)
    decreases its.len() - p,
{
    if !(0 <= p < its.len()) || token_at(its, p) is None {
        (Ok(st), p)
    } else if is_keyword_at(its, p, Keyword::Provider) || is_keyword_at(its, p, Keyword::Using) {
        if is_keyword_at(its, p, Keyword::Provider) && st.backend is Some {
            (Ok(st), p)
        } else {
            let (r, q) = spec_expect_identifier(its, p + 1);
            match r {
                Err(e) => (Err(e), q),
                Ok(b) => if p < q <= its.len() {
                    proof { lemma_skip_newlines(its, q); }
                    spec_block_from(its, skip_newlines(its, q), BlockState { backend: Some(b), ..st })
                } else { (Ok(st), p) },
            }
        }
    } else if is_keyword_at(its, p, Keyword::Ticker) {
        let (r, q) = spec_expect_identifier(its, p + 1);
        match r {
            Err(e) => (Err(e), q),
            Ok(t) => if p < q <= its.len() {
                proof { lemma_skip_newlines(its, q); }
                spec_block_from(its, skip_newlines(its, q), BlockState { ticker: Some(t), ..st })
            } else { (Ok(st), p) },
        }
    } else if is_keyword_at(its, p, Keyword::From) {
        let (r, q) = spec_range(its, p + 1);
        match r {
            Err(e) => (Err(e), q),
            Ok(ts) => if p < q <= its.len() {
                proof { lemma_skip_newlines(its, q); }
                spec_block_from(its, skip_newlines(its, q), BlockState { time_spec: Some(ts), ..st })
            } else { (Ok(st), p) },
        }
    } else if is_keyword_at(its, p, Keyword::Live) {
        let (r, q) = spec_live(its, p + 1);
        match r {
            Err(e) => (Err(e), q),
            Ok(ts) => if p < q <= its.len() {
                proof { lemma_skip_newlines(its, q); }
                spec_block_from(its, skip_newlines(its, q), BlockState { time_spec: Some(ts), ..st })
            } else { (Ok(st), p) },
        }
    } else if is_keyword_at(its, p, Keyword::Param) {
        let (r, q) = spec_param(its, p + 1);
        match r {
            Err(e) => (Err(e), q),
            Ok(kv) => if p < q <= its.len() {
                proof { lemma_skip_newlines(its, q); }
                spec_block_from(its, skip_newlines(its, q), BlockState { params: st.params.push(kv), ..st })
            } else { (Ok(st), p) },
        }
    } else if is_kind_at(its, p, SpecTokenKind::Newline) {
        spec_block_from(its, p + 1, st)
    } else {
        (Ok(st), p)
    }
}

/// `PROVIDER <name>`, newlines, then the block's lines.
pub open spec fn spec_provider_block(its: Seq<Item>, p: int) -> (Result<SpecProviderInstance, SpecParseError>, int) {
    let (r1, p1) = spec_expect_keyword(its, p, Keyword::Provider);
    if r1 is Err { (Err(r1->Err_0), p1) } else {
    let (r2, p2) = spec_expect_identifier(its, p1);
    if r2 is Err { (Err(r2->Err_0), p2) } else {
    finish_provider(r2->Ok_0, spec_block_from(its, skip_newlines(its, p2), empty_block()))
    }}
}

pub open spec fn empty_block() -> BlockState {
    BlockState { backend: None, ticker: None, time_spec: None, params: Seq::empty() }
}

/// The provider named `name` made of what its block gathered.
pub open spec fn finish_provider(name: Seq<char>, block: (Result<BlockState, SpecParseError>, int))
    -> (Result<SpecProviderInstance, SpecParseError>, int)
{
    match block.0 {
        Err(e) => (Err(e), block.1),
        Ok(st) => (Ok(SpecProviderInstance {
            name: name,
            backend: st.backend,
            ticker: st.ticker,
            time_spec: st.time_spec,
            params: st.params,
        }), block.1),
    }
}

/// The error for a provider name used twice, at the last token read.
pub open spec fn duplicate_provider_error(name: Seq<char>, at: (nat, nat)) -> SpecParseError {
    SpecParseError { message: "provider \""@ + name + "\" is already defined"@, line: at.0, column: at.1 }
}

/// Provider blocks and newlines from `p`, added to `acc`.
pub open spec fn spec_providers_from(its: Seq<Item>, p: int, acc: Map<Seq<char>, SpecProviderInstance>)
    -> (Result<Map<Seq<char>, SpecProviderInstance>, SpecParseError>, int)
    decreases its.len() - p,
{
    if !(0 <= p < its.len()) {
        (Ok(acc), p)
    } else if is_keyword_at(its, p, Keyword::Provider) {
        let (r, q) = spec_provider_block(its, p);
        match r {
            Err(e) => (Err(e), q),
            Ok(inst) => if acc.contains_key(inst.name) {
                (Err(duplicate_provider_error(inst.name, last_pos_at(its, q))), q)
            } else if p < q <= its.len() {
                spec_providers_from(its, q, acc.insert(inst.name, inst))
            } else {
                (Ok(acc), p)
            },
        }
    } else if is_kind_at(its, p, SpecTokenKind::Newline) {
        spec_providers_from(its, p + 1, acc)
    } else {
        (Ok(acc), p)
    }
}

/// Newlines, then the provider blocks; an error for a name used twice.
pub open spec fn spec_provider_sections(its: Seq<Item>, p: int) -> (Result<Map<Seq<char>, SpecProviderInstance>, SpecParseError>, int) {
    spec_providers_from(its, skip_newlines(its, p), Map::empty())
}

/* ---------------------------- frames and calcs --------------------------- */

/// The rest of a comma-separated identifier list, after `acc`.
pub open spec fn spec_field_list_from(its: Seq<Item>, p: int, acc: Seq<Seq<char>>) -> (Result<Seq<Seq<char>>, SpecParseError>, int)
    decreases its.len() - p,
{
    let (r, q) = spec_expect_identifier(its, p);
    match r {
        Err(e) => (Err(e), q),
        Ok(id) => if q < its.len() && p < q && is_kind_at(its, q, SpecTokenKind::Comma) {
            spec_field_list_from(its, q + 1, acc.push(id))
        } else {
            (Ok(acc.push(id)), q)
        },
    }
}

/// `<identifier> (, <identifier>)*`.
pub open spec fn spec_field_list(its: Seq<Item>, p: int) -> (Result<Seq<Seq<char>>, SpecParseError>, int) {
    spec_field_list_from(its, p, Seq::empty())
}

pub open spec fn is_calc_operation(k: Keyword) -> bool {
    match k {
        Keyword::Difference | Keyword::Sum | Keyword::Multiply | Keyword::Divide | Keyword::Sma
        | Keyword::Volatility | Keyword::DoubleVolatility | Keyword::Constant
        | Keyword::LinearRegression => true,
        _ => false,
    }
}

/// `CALC <fields> <operation> CALLED <identifier>`.
pub open spec fn spec_calc(its: Seq<Item>, p: int) -> (Result<SpecCalc, SpecParseError>, int) {
    let (r1, p1) = spec_expect_keyword(its, p, Keyword::Calc);
    if r1 is Err { (Err(r1->Err_0), p1) } else {
    let (r2, p2) = spec_field_list(its, p1);
    if r2 is Err { (Err(r2->Err_0), p2) } else {
    let (r3, p3) = spec_next(its, p2);
    if r3 is Err { (Err(r3->Err_0), p3) } else {
    let t = r3->Ok_0;
    if !(t.kind is Keyword && is_calc_operation(t.kind->Keyword_0)) {
        (Err(expected_error(t, "CALC op (DIFFERENCE|SUM|MULTIPLY|DIVIDE|SMA|VOLATILITY|DOUBLE_VOLATILITY|CONSTANT|LINEAR_REGRESSION)"@)), p3)
    } else {
    let (r4, p4) = spec_expect_keyword(its, p3, Keyword::Called);
    if r4 is Err { (Err(r4->Err_0), p4) } else {
    let (r5, p5) = spec_expect_identifier(its, p4);
    if r5 is Err { (Err(r5->Err_0), p5) } else {
    (Ok(SpecCalc { inputs: r2->Ok_0, operation: t.kind->Keyword_0, alias: r5->Ok_0 }), p5)
    }}}}}}
}

/// `CALC` lines (each followed by newlines) from `p`, after `acc`.
pub open spec fn spec_calcs_from(its: Seq<Item>, p: int, acc: Seq<SpecCalc>) -> (Result<Seq<SpecCalc>, SpecParseError>, int)
    decreases its.len() - p,
{
    if is_keyword_at(its, p, Keyword::Calc) {
        let (r, q) = spec_calc(its, p);
        match r {
            Err(e) => (Err(e), q),
            Ok(c) => if p < q <= its.len() {
                proof { lemma_skip_newlines(its, q); }
                spec_calcs_from(its, skip_newlines(its, q), acc.push(c))
            } else {
                (Ok(acc), p)
            },
        }
    } else {
        (Ok(acc), p)
    }
}

/// `PULL <fields>`, newlines, the `CALC` lines, newlines. The calculations
/// are put in dependency order, which fails on a repeated alias.
pub open spec fn spec_action_section(its: Seq<Item>, p: int) -> (Result<SpecActionSection, SpecParseError>, int) {
    let (r1, p1) = spec_expect_keyword(its, p, Keyword::Pull);
    if r1 is Err { (Err(r1->Err_0), p1) } else {
    let (r2, p2) = spec_field_list(its, p1);
    if r2 is Err { (Err(r2->Err_0), p2) } else {
    finish_action(its, r2->Ok_0, spec_calcs_from(its, skip_newlines(its, p2), Seq::empty()))
    }}
}

/// The action section made of its fields and what the `CALC` lines gave:
/// the calculations in dependency order, then newlines.
pub open spec fn finish_action(its: Seq<Item>, fields: Seq<Seq<char>>, calcs: (Result<Seq<SpecCalc>, SpecParseError>, int))
    -> (Result<SpecActionSection, SpecParseError>, int)
{
    let (r3, p3) = calcs;
    if r3 is Err { (Err(r3->Err_0), p3) } else {
    let cs = r3->Ok_0;
    if cs.len() == 0 {
        (Ok(SpecActionSection { fields, calc: None }), skip_newlines(its, p3))
    } else {
        match spec_order_flat(SpecActionSection { fields, calc: Some(cs) }) {
            Err(e) => (Err(e), p3),
            Ok(ordered) => (Ok(SpecActionSection { fields, calc: Some(ordered) }), skip_newlines(its, p3)),
        }
    }
    }
}

/// `FRAME` already consumed: `<name>`, newlines, `PROVIDER <provider>`,
/// newlines, then the action section.
pub open spec fn spec_frame(its: Seq<Item>, p: int) -> (Result<(Seq<char>, SpecFrame), SpecParseError>, int) {
    let (r1, p1) = spec_expect_identifier(its, p);
    if r1 is Err { (Err(r1->Err_0), p1) } else {
    let (r2, p2) = spec_expect_keyword(its, skip_newlines(its, p1), Keyword::Provider);
    if r2 is Err { (Err(r2->Err_0), p2) } else {
    let (r3, p3) = spec_expect_identifier(its, p2);
    if r3 is Err { (Err(r3->Err_0), p3) } else {
    let (r4, p4) = spec_action_section(its, skip_newlines(its, p3));
    if r4 is Err { (Err(r4->Err_0), p4) } else {
    (Ok((r1->Ok_0, SpecFrame { provider: r3->Ok_0, actions: r4->Ok_0 })), p4)
    }}}}
}

/// Frames and newlines from `p`, added to `acc`; a later frame replaces an
/// earlier one of the same name.
pub open spec fn spec_frames_from(its: Seq<Item>, p: int, acc: Map<Seq<char>, SpecFrame>)
    -> (Result<Map<Seq<char>, SpecFrame>, SpecParseError>, int)
    decreases its.len() - p,
{
    if !(0 <= p < its.len()) {
        (Ok(acc), p)
    } else if is_keyword_at(its, p, Keyword::Frame) {
        let (r, q) = spec_frame(its, p + 1);
        match r {
            Err(e) => (Err(e), q),
            Ok(nf) => if p < q <= its.len() {
                spec_frames_from(its, q, acc.insert(nf.0, nf.1))
            } else {
                (Ok(acc), p)
            },
        }
    } else if is_kind_at(its, p, SpecTokenKind::Newline) {
        spec_frames_from(its, p + 1, acc)
    } else {
        (Ok(acc), p)
    }
}

/// Newlines, then the frames.
pub open spec fn spec_frame_section(its: Seq<Item>, p: int) -> (Result<Map<Seq<char>, SpecFrame>, SpecParseError>, int) {
    spec_frames_from(its, skip_newlines(its, p), Map::empty())
}

/* --------------------------------- graph --------------------------------- */

/// One line per field, each naming its field and listing all of them.
pub open spec fn line_commands(fields: Seq<Seq<char>>, frame: Seq<char>) -> Seq<SpecDrawCommand> {
    Seq::new(fields.len(), |i: int| SpecDrawCommand::Line { name: fields[i], series: fields, frame })
}

/// `LINE` already consumed: `<fields> FOR <frame>`.
pub open spec fn spec_line(its: Seq<Item>, p: int) -> (Result<Seq<SpecDrawCommand>, SpecParseError>, int) {
    let (r1, p1) = spec_field_list(its, p);
    if r1 is Err { (Err(r1->Err_0), p1) } else {
    let (r2, p2) = spec_expect_keyword(its, p1, Keyword::For);
    if r2 is Err { (Err(r2->Err_0), p2) } else {
    let (r3, p3) = spec_expect_identifier(its, p2);
    if r3 is Err { (Err(r3->Err_0), p3) } else {
    (Ok(line_commands(r1->Ok_0, r3->Ok_0)), p3)
    }}}
}

/// `BAR` already consumed: `<column> FOR <frame>`.
pub open spec fn spec_bar(its: Seq<Item>, p: int) -> (Result<SpecDrawCommand, SpecParseError>, int) {
    let (r1, p1) = spec_expect_identifier(its, p);
    if r1 is Err { (Err(r1->Err_0), p1) } else {
    let (r2, p2) = spec_expect_keyword(its, p1, Keyword::For);
    if r2 is Err { (Err(r2->Err_0), p2) } else {
    let (r3, p3) = spec_expect_identifier(its, p2);
    if r3 is Err { (Err(r3->Err_0), p3) } else {
    (Ok(SpecDrawCommand::Bar { name: r1->Ok_0, y: r1->Ok_0, frame: r3->Ok_0 }), p3)
    }}}
}

/// `CANDLE` already consumed: four columns separated by commas or
/// newlines, then `FOR <frame>`.
pub open spec fn spec_candle(its: Seq<Item>, p: int) -> (Result<SpecDrawCommand, SpecParseError>, int) {
    let (r1, p1) = spec_expect_identifier(its, p);
    if r1 is Err { (Err(r1->Err_0), p1) } else {
    let (s1, q1) = spec_comma_or_newline(its, p1);
    if s1 is Err { (Err(s1->Err_0), q1) } else {
    let (r2, p2) = spec_expect_identifier(its, q1);
    if r2 is Err { (Err(r2->Err_0), p2) } else {
    let (s2, q2) = spec_comma_or_newline(its, p2);
    if s2 is Err { (Err(s2->Err_0), q2) } else {
    let (r3, p3) = spec_expect_identifier(its, q2);
    if r3 is Err { (Err(r3->Err_0), p3) } else {
    let (s3, q3) = spec_comma_or_newline(its, p3);
    if s3 is Err { (Err(s3->Err_0), q3) } else {
    let (r4, p4) = spec_expect_identifier(its, q3);
    if r4 is Err { (Err(r4->Err_0), p4) } else {
    let (r5, p5) = spec_expect_keyword(its, p4, Keyword::For);
    if r5 is Err { (Err(r5->Err_0), p5) } else {
    let (r6, p6) = spec_expect_identifier(its, p5);
    if r6 is Err { (Err(r6->Err_0), p6) } else {
    (Ok(SpecDrawCommand::Candle {
        name: "Candle"@,
        open: r1->Ok_0,
        high: r2->Ok_0,
        low: r3->Ok_0,
        close: r4->Ok_0,
        frame: r6->Ok_0,
    }), p6)
    }}}}}}}}}
}

/// The drawing commands from `p`, after `acc`.
pub open spec fn spec_commands_from(its: Seq<Item>, p: int, acc: Seq<SpecDrawCommand>) -> (Result<Seq<SpecDrawCommand>, SpecParseError>, int)
    decreases its.len() - p,
{
    if !(0 <= p < its.len()) {
        (Ok(acc), p)
    } else if is_keyword_at(its, p, Keyword::Line) {
        let (r, q) = spec_line(its, p + 1);
        match r {
            Err(e) => (Err(e), q),
            Ok(cs) => if p < q <= its.len() { spec_commands_from(its, q, acc + cs) } else { (Ok(acc), p) },
        }
    } else if is_keyword_at(its, p, Keyword::Bar) {
        let (r, q) = spec_bar(its, p + 1);
        match r {
            Err(e) => (Err(e), q),
            Ok(c) => if p < q <= its.len() { spec_commands_from(its, q, acc.push(c)) } else { (Ok(acc), p) },
        }
    } else if is_keyword_at(its, p, Keyword::Candle) {
        let (r, q) = spec_candle(its, p + 1);
        match r {
            Err(e) => (Err(e), q),
            Ok(c) => if p < q <= its.len() { spec_commands_from(its, q, acc.push(c)) } else { (Ok(acc), p) },
        }
    } else if is_kind_at(its, p, SpecTokenKind::Newline) {
        spec_commands_from(its, p + 1, acc)
    } else {
        (Ok(acc), p)
    }
}

/// Newlines, then, when the next token is `GRAPH`: newlines,
/// `XAXIS <column>`, newlines and the drawing commands. No graph otherwise.
pub open spec fn spec_graph_section(its: Seq<Item>, p: int) -> (Result<Option<SpecGraphSection>, SpecParseError>, int) {
    let p0 = skip_newlines(its, p);
    if !is_keyword_at(its, p0, Keyword::Graph) {
        (Ok(None), p0)
    } else {
    let (r1, p1) = spec_expect_keyword(its, skip_newlines(its, p0 + 1), Keyword::Xaxis);
    if r1 is Err { (Err(r1->Err_0), p1) } else {
    let (r2, p2) = spec_expect_identifier(its, p1);
    if r2 is Err { (Err(r2->Err_0), p2) } else {
    finish_graph(r2->Ok_0, spec_commands_from(its, skip_newlines(its, p2), Seq::empty()))
    }}}
}

/// The graph with x axis `xaxis` made of what the drawing commands gave.
pub open spec fn finish_graph(xaxis: Seq<char>, commands: (Result<Seq<SpecDrawCommand>, SpecParseError>, int))
    -> (Result<Option<SpecGraphSection>, SpecParseError>, int)
{
    match commands.0 {
        Err(e) => (Err(e), commands.1),
        Ok(cs) => (Ok(Some(SpecGraphSection { xaxis, commands: cs })), commands.1),
    }
}

/* --------------------------------- trade --------------------------------- */

pub open spec fn trade_type_of(k: SpecTokenKind) -> Option<TradeType> {
    match k {
        SpecTokenKind::Keyword(Keyword::OptionCall) => Some(TradeType::OptionCall),
        SpecTokenKind::Keyword(Keyword::OptionPut) => Some(TradeType::OptionPut),
        SpecTokenKind::Keyword(Keyword::Stock) => Some(TradeType::Stock),
        _ => None,
    }
}

/// The identifiers and literals of an `ENTRY` or `EXIT` line from `p`
/// (commas skipped), after `acc`; the line ends at any other item.
pub open spec fn spec_values_from(its: Seq<Item>, p: int, acc: Seq<Seq<char>>) -> (Seq<Seq<char>>, int)
    decreases its.len() - p,
{
    if !(0 <= p < its.len()) {
        (acc, p)
    } else {
        match token_at(its, p) {
            Some(t) => match t.kind {
                SpecTokenKind::Identifier(s) => spec_values_from(its, p + 1, acc.push(s)),
                SpecTokenKind::Literal(s) => spec_values_from(its, p + 1, acc.push(s)),
                SpecTokenKind::Comma => spec_values_from(its, p + 1, acc),
                _ => (acc, p),
            },
            None => (acc, p),
        }
    }
}

/// The values of an `ENTRY` or `EXIT` line split into the columns and the
/// last value, a threshold that `f64::from_str` must accept.
pub open spec fn split_threshold(vals: Seq<Seq<char>>, missing: Seq<char>, invalid: Seq<char>) -> Result<(Seq<Seq<char>>, Seq<char>), SpecParseError> {
    if vals.len() == 0 {
        Err(eof_error(missing))
    } else if !is_float_text(vals.last()) {
        Err(eof_error(invalid))
    } else {
        Ok((vals.drop_last(), vals.last()))
    }
}

/// Newlines, the trade type, newlines, `OVER <frame>`.
pub open spec fn spec_trade_head(its: Seq<Item>, p: int) -> (Result<(TradeType, Seq<char>), SpecParseError>, int) {
    let (r1, p1) = spec_next(its, skip_newlines(its, p));
    if r1 is Err { (Err(r1->Err_0), p1) } else {
    let tt = r1->Ok_0;
    if trade_type_of(tt.kind) is None {
        (Err(expected_error(tt, "trade type (OPTION CALL|OPTION PUT|STOCK)"@)), p1)
    } else {
    let (r2, p2) = spec_expect_keyword(its, skip_newlines(its, p1), Keyword::OverFrame);
    if r2 is Err { (Err(r2->Err_0), p2) } else {
    let (r3, p3) = spec_expect_identifier(its, p2);
    if r3 is Err { (Err(r3->Err_0), p3) } else {
    (Ok((trade_type_of(tt.kind)->Some_0, r3->Ok_0)), p3)
    }}}}
}

/// Newlines, the keyword `kw`, then its values split into the columns and
/// the threshold.
pub open spec fn spec_trade_line(its: Seq<Item>, p: int, kw: Keyword, missing: Seq<char>, invalid: Seq<char>)
    -> (Result<(Seq<Seq<char>>, Seq<char>), SpecParseError>, int)
{
    let (r1, p1) = spec_expect_keyword(its, skip_newlines(its, p), kw);
    if r1 is Err { (Err(r1->Err_0), p1) } else {
    let (vals, p2) = spec_values_from(its, p1, Seq::empty());
    match split_threshold(vals, missing, invalid) {
        Err(e) => (Err(e), p2),
        Ok(x) => (Ok(x), p2),
    }
    }
}

/// The value after `LIMIT` or `HOLD`: a literal or an identifier.
pub open spec fn spec_word_value(its: Seq<Item>, p: int, what: Seq<char>) -> (Result<Seq<char>, SpecParseError>, int) {
    let (r, q) = spec_next(its, p);
    if r is Err { (Err(r->Err_0), q) } else {
    let t = r->Ok_0;
    match t.kind {
        SpecTokenKind::Literal(v) => (Ok(v), q),
        SpecTokenKind::Identifier(v) => (Ok(v), q),
        _ => (Err(expected_error(t, what)), q),
    }
    }
}

/// Newlines, `LIMIT <stop loss>`, newlines, `HOLD <periods>`, newlines.
pub open spec fn spec_trade_limits(its: Seq<Item>, p: int) -> (Result<(Seq<char>, i32), SpecParseError>, int) {
    let (r1, p1) = spec_expect_keyword(its, skip_newlines(its, p), Keyword::Limit);
    if r1 is Err { (Err(r1->Err_0), p1) } else {
    let (r2, p2) = spec_word_value(its, p1, "stop_loss value"@);
    if r2 is Err { (Err(r2->Err_0), p2) } else {
    let sl = r2->Ok_0;
    if !is_float_text(sl) { (Err(eof_error("invalid stop_loss"@)), p2) } else {
    let (r3, p3) = spec_expect_keyword(its, skip_newlines(its, p2), Keyword::Hold);
    if r3 is Err { (Err(r3->Err_0), p3) } else {
    let (r4, p4) = spec_word_value(its, p3, "hold value"@);
    if r4 is Err { (Err(r4->Err_0), p4) } else {
    match i32_text_value(r4->Ok_0) {
        None => (Err(eof_error("invalid hold"@)), p4),
        Some(h) => (Ok((sl, h)), skip_newlines(its, p4)),
    }
    }}}}}
}

/// `TRADE` already consumed: newlines, the trade type, newlines,
/// `OVER <frame>`, newlines, `ENTRY <columns>, <threshold>`, newlines,
/// `EXIT <columns>, <threshold>`, newlines, `LIMIT <stop loss>`, newlines,
/// `HOLD <periods>`, newlines.
pub open spec fn spec_trade_body(its: Seq<Item>, p: int) -> (Result<SpecTradeSection, SpecParseError>, int) {
    let (r1, p1) = spec_trade_head(its, p);
    if r1 is Err { (Err(r1->Err_0), p1) } else {
    let (r2, p2) = spec_trade_line(its, p1, Keyword::Entry, "missing within_entry"@, "invalid within_entry"@);
    if r2 is Err { (Err(r2->Err_0), p2) } else {
    let (r3, p3) = spec_trade_line(its, p2, Keyword::Exit, "missing within_exit"@, "invalid within_exit"@);
    if r3 is Err { (Err(r3->Err_0), p3) } else {
    let (r4, p4) = spec_trade_limits(its, p3);
    if r4 is Err { (Err(r4->Err_0), p4) } else {
    (Ok(SpecTradeSection {
        trade_type: r1->Ok_0.0,
        over_frame: r1->Ok_0.1,
        entry: r2->Ok_0.0,
        within_entry: r2->Ok_0.1,
        exit: r3->Ok_0.0,
        within_exit: r3->Ok_0.1,
        stop_loss: r4->Ok_0.0,
        hold: r4->Ok_0.1,
    }), p4)
    }}}}
}

/// Newlines, then, when the next token is `TRADE`, the trade rule. No
/// rule otherwise.
pub open spec fn spec_trade_section(its: Seq<Item>, p: int) -> (Result<Option<SpecTradeSection>, SpecParseError>, int) {
    let p0 = skip_newlines(its, p);
    if !is_keyword_at(its, p0, Keyword::Trade) {
        (Ok(None), p0)
    } else {
        let (r, q) = spec_trade_body(its, p0 + 1);
        match r {
            Err(e) => (Err(e), q),
            Ok(t) => (Ok(Some(t)), q),
        }
    }
}

/* --------------------------------- query --------------------------------- */

/// A whole query from `p`: the providers and the frames (either failing
/// fails the query), then a graph and a trade rule, each dropped when it
/// does not parse.
pub open spec fn spec_query(its: Seq<Item>, p: int) -> Result<SpecQuery, SpecParseError> {
    let (r1, p1) = spec_provider_sections(its, p);
    if r1 is Err { Err(r1->Err_0) } else {
    let (r2, p2) = spec_frame_section(its, p1);
    if r2 is Err { Err(r2->Err_0) } else {
    let (r3, p3) = spec_graph_section(its, p2);
    let graph = match r3 { Ok(g) => g, Err(_) => None };
    let (r4, _p4) = spec_trade_section(its, p3);
    let trade = match r4 { Ok(t) => t, Err(_) => None };
    Ok(SpecQuery { providers: r1->Ok_0, frame: r2->Ok_0, graph, trade })
    }}
}

/// What `parse` gives for the source text `src`.
pub open spec fn spec_parse(src: Seq<char>) -> Result<SpecQuery, SpecParseError> {
    spec_query(lex_items(src, 0), 0)
}

/* -------------------------------- Parser -------------------------------- */

pub open spec fn strings_result(r: Result<Vec<String>, ParseError>) -> Result<Seq<Seq<char>>, SpecParseError> {
    match r {
        Ok(v) => Ok(strings_view(v@)),
        Err(e) => Err(e@),
    }
}

pub open spec fn unit_result(r: Result<(), ParseError>) -> Result<(), SpecParseError> {
    match r {
        Ok(_) => Ok(()),
        Err(e) => Err(e@),
    }
}

/// Reads a query from the tokens of its source.
pub struct Parser {
    iter: Vec<Result<Token, LexError>>,
    pos: usize,
    last_pos: (usize, usize),
}

impl Parser {
    /// Everything the lexer yields for the source.
    pub closed spec fn items(&self) -> Seq<Item> {
        self.iter@.map_values(|r: Result<Token, LexError>| lexed_view(r))
    }

    /// How many items have been consumed.
    pub closed spec fn position(&self) -> int {
        self.pos as int
    }

    pub closed spec fn wf(&self) -> bool {
        &&& self.pos <= self.iter@.len()
        &&& (self.last_pos.0 as nat, self.last_pos.1 as nat) == last_pos_at(self.items(), self.pos as int)
    }

    /// A parser at the start of `src`.
    pub fn new(src: &str) -> (r: Self)
        requires
            src@.len() < usize::MAX,
        ensures
            r.wf(),
            r.items() == lex_items(src@, 0),
            r.position() == 0,
    {
        let mut lexer = Lexer::new(src);
        let mut iter: Vec<Result<Token, LexError>> = Vec::new();
        let ghost s = src@;
        loop
            invariant
                lexer.wf(),
                lexer.source() == s,
                0 <= lexer.position() <= s.len(),
                iter@.map_values(|r: Result<Token, LexError>| lexed_view(r)) + lex_items(s, lexer.position())
                    == lex_items(s, 0),
            ensures
                iter@.map_values(|r: Result<Token, LexError>| lexed_view(r)) == lex_items(s, 0),
            decreases s.len() - lexer.position(),
        {
            let ghost p = lexer.position();
            proof {
                lemma_lex_step(s, p);
            }
            match lexer.next() {
                Some(x) => {
                    let ghost old_iter = iter@;
                    iter.push(x);
                    proof {
                        assert(lex_items(s, p) == seq![lexed_view(x)] + lex_items(s, lexer.position()));
                        assert(iter@.map_values(|r: Result<Token, LexError>| lexed_view(r))
                            =~= old_iter.map_values(|r: Result<Token, LexError>| lexed_view(r)).push(lexed_view(x)));
                        assert(iter@.map_values(|r: Result<Token, LexError>| lexed_view(r)) + lex_items(s, lexer.position())
                            =~= old_iter.map_values(|r: Result<Token, LexError>| lexed_view(r)) + lex_items(s, p));
                    }
                },
                None => {
                    proof {
                        assert(lex_items(s, p) =~= Seq::<Item>::empty());
                        assert(iter@.map_values(|r: Result<Token, LexError>| lexed_view(r)) =~= lex_items(s, 0));
                    }
                    break;
                },
            }
        }
        Parser { iter, pos: 0, last_pos: (0, 0) }
    }

    /// Parses a whole query from the current position.
    pub fn parse(&mut self) -> (r: Result<Query, ParseError>)
        requires
            old(self).wf(),
        ensures
            final(self).wf(),
            final(self).items() == old(self).items(),
            old(self).position() <= final(self).position(),
            result_view(r) == spec_query(old(self).items(), old(self).position()),
            r matches Ok(q) ==> q.wf(),
    {
        let providers = self.parse_provider_sections()?;
        let frame = self.parse_frame_section()?;
        let graph = match self.parse_graph_section() {
            Ok(g) => g,
            Err(_) => None,
        };
        let trade = match self.parse_trade_section() {
            Ok(t) => t,
            Err(_) => None,
        };
        Ok(Query { providers, frame, graph, trade })
    }

    /* --------------------------- token helpers -------------------------- */

    fn next_token(&mut self) -> (r: Result<Token, ParseError>)
        requires
            old(self).wf(),
        ensures
            final(self).wf(),
            final(self).items() == old(self).items(),
            old(self).position() <= final(self).position(),
            (result_view(r), final(self).position()) == spec_next(old(self).items(), old(self).position()),
            r is Ok ==> final(self).position() == old(self).position() + 1,
    {
        if self.pos < self.iter.len() {
            let ghost its = self.items();
            let item = clone_item(&self.iter[self.pos]);
            self.pos = self.pos + 1;
            match item {
                Ok(tok) => {
                    self.last_pos = (tok.line, tok.column);
                    Ok(tok)
                },
                Err(e) => {
                    proof {
                        assert(its[self.pos - 1] == lexed_view(self.iter@[self.pos - 1]));
                    }
                    Err(ParseError::new(e.message, e.line, e.column))
                },
            }
        } else {
            Err(ParseError::eof("unexpected EOF"))
        }
    }

    fn peek_token(&self) -> (r: Option<Result<&Token, ParseError>>)
        requires
            self.wf(),
        ensures
            match r {
                None => self.position() >= self.items().len(),
                Some(Ok(t)) => self.position() < self.items().len() && self.items()[self.position()] == Ok::<SpecToken, SpecLexError>(t@),
                Some(Err(e)) => self.position() < self.items().len() && self.items()[self.position()] is Err
                    && e@ == lex_error_view(self.items()[self.position()]->Err_0),
            },
    {
        if self.pos < self.iter.len() {
            match &self.iter[self.pos] {
                Ok(tok) => Some(Ok(tok)),
                Err(e) => Some(Err(ParseError::new(e.message.clone(), e.line, e.column))),
            }
        } else {
            None
        }
    }

    fn consume_newlines(&mut self) -> (r: Result<(), ParseError>)
        requires
            old(self).wf(),
        ensures
            final(self).wf(),
            final(self).items() == old(self).items(),
            old(self).position() <= final(self).position(),
            r is Ok,
            final(self).position() == skip_newlines(old(self).items(), old(self).position()),
    {
        let ghost its = self.items();
        let ghost p0 = self.position();
        loop
            invariant
                self.wf(),
                self.items() == its,
                its == old(self).items(),
                p0 == old(self).position(),
                p0 <= self.position() <= its.len(),
                skip_newlines(its, self.position()) == skip_newlines(its, p0),
            ensures
                self.wf(),
                self.items() == its,
                self.position() == skip_newlines(its, p0),
            decreases its.len() - self.position(),
        {
            match self.peek_token() {
                Some(Ok(tok)) if matches!(tok.kind, TokenKind::Newline | TokenKind::Comment(_)) => {
                    let _ = self.next_token();
                },
                _ => break,
            }
        }
        Ok(())
    }

    fn expect_keyword(&mut self, kw: Keyword) -> (r: Result<Token, ParseError>)
        requires
            old(self).wf(),
        ensures
            final(self).wf(),
            final(self).items() == old(self).items(),
            old(self).position() <= final(self).position(),
            (result_view(r), final(self).position()) == spec_expect_keyword(old(self).items(), old(self).position(), kw),
            r is Ok ==> final(self).position() == old(self).position() + 1,
    {
        let tok = self.next_token()?;
        match &tok.kind {
            TokenKind::Keyword(k) if *k == kw => Ok(tok),
            _ => {
                let what = concat("keyword ", kw.name());
                Err(ParseError::expected(&tok, what.as_str()))
            },
        }
    }

    fn expect_identifier(&mut self) -> (r: Result<String, ParseError>)
        requires
            old(self).wf(),
        ensures
            final(self).wf(),
            final(self).items() == old(self).items(),
            old(self).position() <= final(self).position(),
            (result_view(r), final(self).position()) == spec_expect_identifier(old(self).items(), old(self).position()),
            r is Ok ==> final(self).position() == old(self).position() + 1,
    {
        let tok = self.next_token()?;
        match tok.kind {
            TokenKind::Identifier(id) => Ok(id),
            _ => Err(ParseError::expected(&tok, "identifier")),
        }
    }

    fn expect_literal(&mut self) -> (r: Result<String, ParseError>)
        requires
            old(self).wf(),
        ensures
            final(self).wf(),
            final(self).items() == old(self).items(),
            old(self).position() <= final(self).position(),
            (result_view(r), final(self).position()) == spec_expect_literal(old(self).items(), old(self).position()),
            r is Ok ==> final(self).position() == old(self).position() + 1,
    {
        let tok = self.next_token()?;
        match tok.kind {
            TokenKind::Literal(lit) => Ok(lit),
            _ => Err(ParseError::expected(&tok, "literal")),
        }
    }

    fn _expect_comma_or_newline(&mut self) -> (r: Result<(), ParseError>)
        requires
            old(self).wf(),
        ensures
            final(self).wf(),
            final(self).items() == old(self).items(),
            old(self).position() <= final(self).position(),
            (unit_result(r), final(self).position()) == spec_comma_or_newline(old(self).items(), old(self).position()),
            r is Ok ==> final(self).position() == old(self).position() + 1,
    {
        let tok = self.next_token()?;
        match tok.kind {
            TokenKind::Comma | TokenKind::Newline => Ok(()),
            _ => Err(ParseError::expected(&tok, ", or newline")),
        }
    }

    /* ----------------------------- providers ------------------------------ */

    fn parse_provider_sections(&mut self) -> (r: Result<KeyedList<ProviderInstance>, ParseError>)
        requires
            old(self).wf(),
        ensures
            final(self).wf(),
            final(self).items() == old(self).items(),
            old(self).position() <= final(self).position(),
            (providers_result(r), final(self).position()) == spec_provider_sections(old(self).items(), old(self).position()),
            r matches Ok(m) ==> m.wf(),
    {
        let ghost its = self.items();
        self.consume_newlines()?;
        let ghost p0 = self.position();
        proof { lemma_skip_newlines(its, old(self).position()); }
        let mut map: KeyedList<ProviderInstance> = KeyedList::new();
        assert(map.view().map_values(|v: ProviderInstance| v@) =~= Map::<Seq<char>, SpecProviderInstance>::empty());
        loop
            invariant_except_break
                spec_providers_from(its, self.position(), map.view().map_values(|v: ProviderInstance| v@))
                    == spec_providers_from(its, p0, Map::empty()),
            invariant
                self.wf(),
                self.items() == its,
                its == old(self).items(),
                p0 == skip_newlines(its, old(self).position()),
                old(self).position() <= p0 <= self.position() <= its.len(),
                map.wf(),
            ensures
                self.wf(),
                self.items() == its,
                map.wf(),
                (Ok::<Map<Seq<char>, SpecProviderInstance>, SpecParseError>(map.view().map_values(|v: ProviderInstance| v@)), self.position())
                    == spec_providers_from(its, p0, Map::empty()),
            decreases its.len() - self.position(),
        {
            let ghost p = self.position();
            let ghost acc = map.view().map_values(|v: ProviderInstance| v@);
            let is_provider = match self.peek_token() {
                Some(Ok(tok)) => match tok.kind {
                    TokenKind::Keyword(Keyword::Provider) => 1u8,
                    TokenKind::Newline => 2u8,
                    _ => 0u8,
                },
                _ => 0u8,
            };
            if is_provider == 1 {
                let inst = self.parse_provider_block()?;
                if map.contains_key(inst.name.as_str()) {
                    let a = concat("provider \"", inst.name.as_str());
                    let m = concat(a.as_str(), "\" is already defined");
                    return Err(ParseError::new(m, self.last_pos.0, self.last_pos.1));
                }
                let ghost iv = inst@;
                let ghost old_map = map.view();
                map.insert(inst.name.clone(), inst);
                proof {
                    assert(map.view().map_values(|v: ProviderInstance| v@) =~= acc.insert(iv.name, iv));
                }
            } else if is_provider == 2 {
                let _ = self.next_token();
            } else {
                break;
            }
        }
        Ok(map)
    }

    fn parse_provider_block(&mut self) -> (r: Result<ProviderInstance, ParseError>)
        requires
            old(self).wf(),
        ensures
            final(self).wf(),
            final(self).items() == old(self).items(),
            old(self).position() <= final(self).position(),
            (result_view(r), final(self).position()) == spec_provider_block(old(self).items(), old(self).position()),
            r is Ok ==> old(self).position() < final(self).position() <= old(self).items().len(),
    {
        let ghost its = self.items();
        self.expect_keyword(Keyword::Provider)?;
        let name = self.expect_identifier()?;
        self.consume_newlines()?;
        let ghost p0 = self.position();
        proof { lemma_skip_newlines(its, old(self).position() + 2); }
        assert(spec_provider_block(its, old(self).position()) == finish_provider(name@, spec_block_from(its, p0, empty_block())));
        let mut backend: Option<String> = None;
        let mut ticker: Option<String> = None;
        let mut time_spec: Option<TimeSpec> = None;
        let mut params: Vec<(String, String)> = Vec::new();
        assert(pairs_view(params@) =~= Seq::<(Seq<char>, Seq<char>)>::empty());
        loop
            invariant_except_break
                spec_block_from(its, self.position(), block_state(backend, ticker, time_spec, params@))
                    == spec_block_from(its, p0, empty_block()),
            invariant
                self.wf(),
                self.items() == its,
                its == old(self).items(),
                old(self).position() < p0 <= self.position() <= its.len(),
                spec_provider_block(its, old(self).position()) == finish_provider(name@, spec_block_from(its, p0, empty_block())),
            ensures
                self.wf(),
                self.items() == its,
                old(self).position() < self.position() <= its.len(),
                (Ok::<BlockState, SpecParseError>(block_state(backend, ticker, time_spec, params@)), self.position())
                    == spec_block_from(its, p0, empty_block()),
            decreases its.len() - self.position(),
        {
            let ghost p = self.position();
            let what = match self.peek_token() {
                Some(Ok(tok)) => match tok.kind {
                    TokenKind::Keyword(Keyword::Provider) => 1u8,
                    TokenKind::Keyword(Keyword::Using) => 2u8,
                    TokenKind::Keyword(Keyword::Ticker) => 3u8,
                    TokenKind::Keyword(Keyword::From) => 4u8,
                    TokenKind::Keyword(Keyword::Live) => 5u8,
                    TokenKind::Keyword(Keyword::Param) => 6u8,
                    TokenKind::Newline => 7u8,
                    _ => 0u8,
                },
                _ => 0u8,
            };
            if what == 1 || what == 2 {
                if what == 1 && backend.is_some() {
                    break;
                }
                let _ = self.next_token();
                backend = Some(self.expect_identifier()?);
                self.consume_newlines()?;
            } else if what == 3 {
                let _ = self.next_token();
                ticker = Some(self.expect_identifier()?);
                self.consume_newlines()?;
            } else if what == 4 {
                let _ = self.next_token();
                let ts = self.parse_range()?;
                time_spec = Some(ts);
                self.consume_newlines()?;
            } else if what == 5 {
                let _ = self.next_token();
                let ts = self.parse_live()?;
                time_spec = Some(ts);
                self.consume_newlines()?;
            } else if what == 6 {
                let _ = self.next_token();
                let kv = self.parse_param()?;
                let ghost pv0 = params@;
                params.push(kv);
                proof {
                    assert(pairs_view(params@) =~= pairs_view(pv0).push((kv.0@, kv.1@)));
                }
                self.consume_newlines()?;
            } else if what == 7 {
                let _ = self.next_token();
            } else {
                break;
            }
        }
        Ok(ProviderInstance { name, backend, ticker, time_spec, params })
    }

    /// `PARAM` consumed: `<key> = <value>`.
    fn parse_param(&mut self) -> (r: Result<(String, String), ParseError>)
        requires
            old(self).wf(),
        ensures
            final(self).wf(),
            final(self).items() == old(self).items(),
            old(self).position() <= final(self).position(),
            (pair_result(r), final(self).position()) == spec_param(old(self).items(), old(self).position()),
    {
        let key = self.expect_identifier()?;
        let eq_tok = self.next_token()?;
        proof {
            reveal_strlit("=");
            assert("="@ =~= seq!['=']);
        }
        let is_eq = match &eq_tok.kind {
            TokenKind::Identifier(s) => crate::text::str_eq(s.as_str(), "="),
            TokenKind::Literal(s) => crate::text::str_eq(s.as_str(), "="),
            _ => false,
        };
        if !is_eq {
            return Err(ParseError::expected(&eq_tok, "'='"));
        }
        let val_tok = self.next_token()?;
        let val = match val_tok.kind {
            TokenKind::Identifier(s) => s,
            TokenKind::Literal(s) => s,
            _ => {
                return Err(ParseError::expected(&val_tok, "value"));
            },
        };
        Ok((key, val))
    }

    /// `LIVE` consumed: `TICK <interval> FOR <duration>`.
    fn parse_live(&mut self) -> (r: Result<TimeSpec, ParseError>)
        requires
            old(self).wf(),
        ensures
            final(self).wf(),
            final(self).items() == old(self).items(),
            old(self).position() <= final(self).position(),
            (result_view(r), final(self).position()) == spec_live(old(self).items(), old(self).position()),
    {
        self.expect_keyword(Keyword::Tick)?;
        let interval = self.expect_literal()?;
        self.expect_keyword(Keyword::For)?;
        let duration = self.expect_literal()?;
        Ok(TimeSpec::LiveSpec { interval, duration })
    }

    /// `FROM` consumed: `<date> TO <date>`.
    fn parse_range(&mut self) -> (r: Result<TimeSpec, ParseError>)
        requires
            old(self).wf(),
        ensures
            final(self).wf(),
            final(self).items() == old(self).items(),
            old(self).position() <= final(self).position(),
            (result_view(r), final(self).position()) == spec_range(old(self).items(), old(self).position()),
    {
        let from = self.expect_literal()?;
        self.expect_keyword(Keyword::To)?;
        let to = self.expect_literal()?;
        Ok(TimeSpec::DateRange { from, to })
    }

    /* ------------------------------ frames -------------------------------- */

    fn parse_frame_section(&mut self) -> (r: Result<KeyedList<Frame>, ParseError>)
        requires
            old(self).wf(),
        ensures
            final(self).wf(),
            final(self).items() == old(self).items(),
            old(self).position() <= final(self).position(),
            (frames_result(r), final(self).position()) == spec_frame_section(old(self).items(), old(self).position()),
            r matches Ok(m) ==> m.wf(),
    {
        let ghost its = self.items();
        self.consume_newlines()?;
        let ghost p0 = self.position();
        proof { lemma_skip_newlines(its, old(self).position()); }
        let mut frames: KeyedList<Frame> = KeyedList::new();
        assert(frames.view().map_values(|v: Frame| v@) =~= Map::<Seq<char>, SpecFrame>::empty());
        loop
            invariant_except_break
                spec_frames_from(its, self.position(), frames.view().map_values(|v: Frame| v@))
                    == spec_frames_from(its, p0, Map::empty()),
            invariant
                self.wf(),
                self.items() == its,
                its == old(self).items(),
                p0 == skip_newlines(its, old(self).position()),
                old(self).position() <= p0 <= self.position() <= its.len(),
                frames.wf(),
            ensures
                self.wf(),
                self.items() == its,
                frames.wf(),
                (Ok::<Map<Seq<char>, SpecFrame>, SpecParseError>(frames.view().map_values(|v: Frame| v@)), self.position())
                    == spec_frames_from(its, p0, Map::empty()),
            decreases its.len() - self.position(),
        {
            let ghost acc = frames.view().map_values(|v: Frame| v@);
            let what = match self.peek_token() {
                Some(Ok(tok)) => match tok.kind {
                    TokenKind::Keyword(Keyword::Frame) => 1u8,
                    TokenKind::Newline => 2u8,
                    _ => 0u8,
                },
                _ => 0u8,
            };
            if what == 1 {
                let _ = self.next_token();
                let (frame_name, frame) = self.parse_frame()?;
                let ghost fv = frame@;
                let ghost nv = frame_name@;
                frames.insert(frame_name, frame);
                proof {
                    assert(frames.view().map_values(|v: Frame| v@) =~= acc.insert(nv, fv));
                }
            } else if what == 2 {
                let _ = self.next_token();
            } else {
                break;
            }
        }
        Ok(frames)
    }

    /// `FRAME` consumed: the frame's name, provider and actions.
    fn parse_frame(&mut self) -> (r: Result<(String, Frame), ParseError>)
        requires
            old(self).wf(),
        ensures
            final(self).wf(),
            final(self).items() == old(self).items(),
            old(self).position() <= final(self).position(),
            (named_frame_result(r), final(self).position()) == spec_frame(old(self).items(), old(self).position()),
            r is Ok ==> old(self).position() < final(self).position(),
    {
        let frame_name = self.expect_identifier()?;
        self.consume_newlines()?;
        self.expect_keyword(Keyword::Provider)?;
        let provider_name = self.expect_identifier()?;
        self.consume_newlines()?;
        let actions = self.parse_action_section()?;
        Ok((frame_name, Frame { provider: provider_name, actions }))
    }

    fn parse_action_section(&mut self) -> (r: Result<ActionSection, ParseError>)
        requires
            old(self).wf(),
        ensures
            final(self).wf(),
            final(self).items() == old(self).items(),
            old(self).position() <= final(self).position(),
            (result_view(r), final(self).position()) == spec_action_section(old(self).items(), old(self).position()),
            r is Ok ==> old(self).position() < final(self).position(),
    {
        let ghost its = self.items();
        self.expect_keyword(Keyword::Pull)?;
        let fields = self.parse_field_list()?;
        let ghost p2 = self.position();
        self.consume_newlines()?;
        let ghost p0 = self.position();
        proof { lemma_skip_newlines(its, p2); }
        assert(spec_action_section(its, old(self).position())
            == finish_action(its, strings_view(fields@), spec_calcs_from(its, p0, Seq::empty())));
        let mut calcs: Vec<Calc> = Vec::new();
        assert(calcs_view(calcs@) =~= Seq::<SpecCalc>::empty());
        loop
            invariant_except_break
                spec_calcs_from(its, self.position(), calcs_view(calcs@)) == spec_calcs_from(its, p0, Seq::empty()),
            invariant
                self.wf(),
                self.items() == its,
                its == old(self).items(),
                old(self).position() < p0 <= self.position() <= its.len(),
                spec_action_section(its, old(self).position())
                    == finish_action(its, strings_view(fields@), spec_calcs_from(its, p0, Seq::empty())),
            ensures
                self.wf(),
                self.items() == its,
                old(self).position() < self.position() <= its.len(),
                (Ok::<Seq<SpecCalc>, SpecParseError>(calcs_view(calcs@)), self.position()) == spec_calcs_from(its, p0, Seq::empty()),
            decreases its.len() - self.position(),
        {
            let is_calc = match self.peek_token() {
                Some(Ok(tok)) => match tok.kind {
                    TokenKind::Keyword(Keyword::Calc) => true,
                    _ => false,
                },
                _ => false,
            };
            if is_calc {
                let ghost cv0 = calcs_view(calcs@);
                let c = self.parse_calc()?;
                let ghost c_view = c@;
                calcs.push(c);
                proof {
                    assert(calcs_view(calcs@) =~= cv0.push(c_view));
                }
                self.consume_newlines()?;
            } else {
                break;
            }
        }
        let calc = if calcs.len() == 0 {
            None
        } else {
            let tmp = ActionSection { fields: crate::frame_query::ordering::copy_strings(&fields), calc: Some(calcs) };
            Some(order_calcs_flat(&tmp)?)
        };
        self.consume_newlines()?;
        Ok(ActionSection { fields, calc })
    }

    fn parse_field_list(&mut self) -> (r: Result<Vec<String>, ParseError>)
        requires
            old(self).wf(),
        ensures
            final(self).wf(),
            final(self).items() == old(self).items(),
            old(self).position() <= final(self).position(),
            (strings_result(r), final(self).position()) == spec_field_list(old(self).items(), old(self).position()),
            r is Ok ==> old(self).position() < final(self).position() <= old(self).items().len(),
    {
        let ghost its = self.items();
        let ghost p0 = self.position();
        let mut fields: Vec<String> = Vec::new();
        assert(strings_view(fields@) =~= Seq::<Seq<char>>::empty());
        loop
            invariant_except_break
                spec_field_list_from(its, self.position(), strings_view(fields@)) == spec_field_list(its, p0),
            invariant
                self.wf(),
                self.items() == its,
                its == old(self).items(),
                p0 == old(self).position(),
                p0 <= self.position() <= its.len(),
                fields@.len() > 0 ==> p0 < self.position(),
            ensures
                self.wf(),
                self.items() == its,
                p0 < self.position() <= its.len(),
                (Ok::<Seq<Seq<char>>, SpecParseError>(strings_view(fields@)), self.position()) == spec_field_list(its, p0),
            decreases its.len() - self.position(),
        {
            let ghost p = self.position();
            let ghost acc = strings_view(fields@);
            let id = self.expect_identifier()?;
            fields.push(id);
            proof {
                assert(strings_view(fields@) =~= acc.push(id@));
            }
            match self.peek_token() {
                Some(Ok(tok)) if matches!(tok.kind, TokenKind::Comma) => {
                    let _ = self.next_token();
                },
                _ => break,
            }
        }
        Ok(fields)
    }

    fn parse_calc(&mut self) -> (r: Result<Calc, ParseError>)
        requires
            old(self).wf(),
        ensures
            final(self).wf(),
            final(self).items() == old(self).items(),
            old(self).position() <= final(self).position(),
            (result_view(r), final(self).position()) == spec_calc(old(self).items(), old(self).position()),
            r is Ok ==> old(self).position() < final(self).position() <= old(self).items().len(),
    {
        self.expect_keyword(Keyword::Calc)?;
        let inputs = self.parse_field_list()?;
        let op_tok = self.next_token()?;
        let op = match &op_tok.kind {
            TokenKind::Keyword(k) => match k {
                Keyword::Difference | Keyword::Sum | Keyword::Multiply | Keyword::Divide
                | Keyword::Sma | Keyword::Volatility | Keyword::DoubleVolatility
                | Keyword::Constant | Keyword::LinearRegression => Some(*k),
                _ => None,
            },
            _ => None,
        };
        let operation = match op {
            Some(k) => k,
            None => {
                return Err(ParseError::expected(&op_tok,
                    "CALC op (DIFFERENCE|SUM|MULTIPLY|DIVIDE|SMA|VOLATILITY|DOUBLE_VOLATILITY|CONSTANT|LINEAR_REGRESSION)"));
            },
        };
        self.expect_keyword(Keyword::Called)?;
        let alias = self.expect_identifier()?;
        Ok(Calc { inputs, operation, alias })
    }

    /* ------------------------------- graph -------------------------------- */

    fn parse_graph_section(&mut self) -> (r: Result<Option<GraphSection>, ParseError>)
        requires
            old(self).wf(),
        ensures
            final(self).wf(),
            final(self).items() == old(self).items(),
            old(self).position() <= final(self).position(),
            (opt_graph_result(r), final(self).position()) == spec_graph_section(old(self).items(), old(self).position()),
    {
        let ghost its = self.items();
        let mut commands: Vec<DrawCommand> = Vec::new();
        self.consume_newlines()?;
        proof { lemma_skip_newlines(its, old(self).position()); }
        let is_graph = match self.peek_token() {
            Some(Ok(tok)) => match tok.kind {
                TokenKind::Keyword(Keyword::Graph) => true,
                _ => false,
            },
            _ => false,
        };
        if !is_graph {
            return Ok(None);
        }
        let _ = self.next_token();
        self.consume_newlines()?;
        self.expect_keyword(Keyword::Xaxis)?;
        let xaxis = self.expect_identifier()?;
        let ghost p2 = self.position();
        self.consume_newlines()?;
        let ghost p0 = self.position();
        proof { lemma_skip_newlines(its, p2); }
        assert(spec_graph_section(its, old(self).position()) == finish_graph(xaxis@, spec_commands_from(its, p0, Seq::empty())));
        assert(commands@.map_values(|c: DrawCommand| c@) =~= Seq::<SpecDrawCommand>::empty());
        loop
            invariant_except_break
                spec_commands_from(its, self.position(), commands@.map_values(|c: DrawCommand| c@))
                    == spec_commands_from(its, p0, Seq::empty()),
            invariant
                self.wf(),
                self.items() == its,
                its == old(self).items(),
                old(self).position() <= p0 <= self.position() <= its.len(),
                spec_graph_section(its, old(self).position()) == finish_graph(xaxis@, spec_commands_from(its, p0, Seq::empty())),
            ensures
                self.wf(),
                self.items() == its,
                old(self).position() <= self.position(),
                (Ok::<Seq<SpecDrawCommand>, SpecParseError>(commands@.map_values(|c: DrawCommand| c@)), self.position())
                    == spec_commands_from(its, p0, Seq::empty()),
            decreases its.len() - self.position(),
        {
            let ghost acc = commands@.map_values(|c: DrawCommand| c@);
            let what = match self.peek_token() {
                Some(Ok(tok)) => match tok.kind {
                    TokenKind::Keyword(Keyword::Line) => 1u8,
                    TokenKind::Keyword(Keyword::Bar) => 2u8,
                    TokenKind::Keyword(Keyword::Candle) => 3u8,
                    TokenKind::Newline => 4u8,
                    _ => 0u8,
                },
                _ => 0u8,
            };
            if what == 1 {
                let _ = self.next_token();
                let mut lines = self.parse_line()?;
                let ghost lv = lines@.map_values(|c: DrawCommand| c@);
                commands.append(&mut lines);
                proof {
                    assert(commands@.map_values(|c: DrawCommand| c@) =~= acc + lv);
                }
            } else if what == 2 {
                let _ = self.next_token();
                let cmd = self.parse_bar()?;
                let ghost cv = cmd@;
                commands.push(cmd);
                proof {
                    assert(commands@.map_values(|c: DrawCommand| c@) =~= acc.push(cv));
                }
            } else if what == 3 {
                let _ = self.next_token();
                let cmd = self.parse_candle()?;
                let ghost cv = cmd@;
                commands.push(cmd);
                proof {
                    assert(commands@.map_values(|c: DrawCommand| c@) =~= acc.push(cv));
                }
            } else if what == 4 {
                let _ = self.next_token();
            } else {
                break;
            }
        }
        Ok(Some(GraphSection { xaxis, commands }))
    }

    /// `LINE` consumed: `<fields> FOR <frame>`, one line per field.
    fn parse_line(&mut self) -> (r: Result<Vec<DrawCommand>, ParseError>)
        requires
            old(self).wf(),
        ensures
            final(self).wf(),
            final(self).items() == old(self).items(),
            old(self).position() <= final(self).position(),
            (commands_result(r), final(self).position()) == spec_line(old(self).items(), old(self).position()),
            r is Ok ==> old(self).position() < final(self).position() <= old(self).items().len(),
    {
        let fields = self.parse_field_list()?;
        self.expect_keyword(Keyword::For)?;
        let frame = self.expect_identifier()?;
        let ghost fv = strings_view(fields@);
        let mut commands: Vec<DrawCommand> = Vec::new();
        let mut i: usize = 0;
        while i < fields.len()
            invariant
                i <= fields@.len(),
                fv == strings_view(fields@),
                commands@.map_values(|c: DrawCommand| c@) =~= line_commands(fv, frame@).take(i as int),
            decreases fields.len() - i,
        {
            let ghost before = commands@.map_values(|c: DrawCommand| c@);
            let cmd = DrawCommand::Line {
                name: fields[i].clone(),
                series: crate::frame_query::ordering::copy_strings(&fields),
                frame: frame.clone(),
            };
            let ghost cv = cmd@;
            commands.push(cmd);
            i = i + 1;
            proof {
                assert(cv == line_commands(fv, frame@)[i - 1]);
                assert(line_commands(fv, frame@).take(i as int) =~= line_commands(fv, frame@).take(i - 1).push(cv));
                assert(commands@.map_values(|c: DrawCommand| c@) =~= before.push(cv));
            }
        }
        assert(line_commands(fv, frame@).take(fields@.len() as int) =~= line_commands(fv, frame@));
        Ok(commands)
    }

    /// `BAR` consumed: `<column> FOR <frame>`.
    fn parse_bar(&mut self) -> (r: Result<DrawCommand, ParseError>)
        requires
            old(self).wf(),
        ensures
            final(self).wf(),
            final(self).items() == old(self).items(),
            old(self).position() <= final(self).position(),
            (result_view(r), final(self).position()) == spec_bar(old(self).items(), old(self).position()),
            r is Ok ==> old(self).position() < final(self).position() <= old(self).items().len(),
    {
        let y = self.expect_identifier()?;
        self.expect_keyword(Keyword::For)?;
        let frame = self.expect_identifier()?;
        Ok(DrawCommand::Bar { name: y.clone(), y, frame })
    }

    /// `CANDLE` consumed: open, high, low and close columns, then
    /// `FOR <frame>`.
    fn parse_candle(&mut self) -> (r: Result<DrawCommand, ParseError>)
        requires
            old(self).wf(),
        ensures
            final(self).wf(),
            final(self).items() == old(self).items(),
            old(self).position() <= final(self).position(),
            (result_view(r), final(self).position()) == spec_candle(old(self).items(), old(self).position()),
            r is Ok ==> old(self).position() < final(self).position() <= old(self).items().len(),
    {
        let open = self.expect_identifier()?;
        self._expect_comma_or_newline()?;
        let high = self.expect_identifier()?;
        self._expect_comma_or_newline()?;
        let low = self.expect_identifier()?;
        self._expect_comma_or_newline()?;
        let close = self.expect_identifier()?;
        self.expect_keyword(Keyword::For)?;
        let frame = self.expect_identifier()?;
        Ok(DrawCommand::Candle { name: owned("Candle"), open, high, low, close, frame })
    }

    /* ------------------------------- trade -------------------------------- */

    /// The identifiers and literals of an `ENTRY` or `EXIT` line.
    fn parse_values(&mut self) -> (r: Vec<String>)
        requires
            old(self).wf(),
        ensures
            final(self).wf(),
            final(self).items() == old(self).items(),
            old(self).position() <= final(self).position(),
            (strings_view(r@), final(self).position()) == spec_values_from(old(self).items(), old(self).position(), Seq::empty()),
    {
        let ghost its = self.items();
        let ghost p0 = self.position();
        let mut vals: Vec<String> = Vec::new();
        assert(strings_view(vals@) =~= Seq::<Seq<char>>::empty());
        loop
            invariant_except_break
                spec_values_from(its, self.position(), strings_view(vals@)) == spec_values_from(its, p0, Seq::empty()),
            invariant
                self.wf(),
                self.items() == its,
                p0 <= self.position() <= its.len(),
            ensures
                self.wf(),
                self.items() == its,
                (strings_view(vals@), self.position()) == spec_values_from(its, p0, Seq::empty()),
            decreases its.len() - self.position(),
        {
            let ghost acc = strings_view(vals@);
            let what = match self.peek_token() {
                Some(Ok(tok)) => match tok.kind {
                    TokenKind::Identifier(_) => 1u8,
                    TokenKind::Comma => 2u8,
                    TokenKind::Literal(_) => 3u8,
                    _ => 0u8,
                },
                _ => 0u8,
            };
            if what == 1 {
                let v = match self.expect_identifier() {
                    Ok(v) => v,
                    Err(_) => { break; },
                };
                vals.push(v);
                assert(strings_view(vals@) =~= acc.push(v@));
            } else if what == 2 {
                let _ = self.next_token();
            } else if what == 3 {
                let v = match self.expect_literal() {
                    Ok(v) => v,
                    Err(_) => { break; },
                };
                vals.push(v);
                assert(strings_view(vals@) =~= acc.push(v@));
            } else {
                break;
            }
        }
        vals
    }

    /// Splits off the threshold at the end of an `ENTRY` or `EXIT` line.
    fn threshold(vals: Vec<String>, missing: &str, invalid: &str) -> (r: Result<(Vec<String>, String), ParseError>)
        ensures
            match r {
                Ok(x) => split_threshold(strings_view(vals@), missing@, invalid@)
                    == Ok::<(Seq<Seq<char>>, Seq<char>), SpecParseError>((strings_view(x.0@), x.1@)),
                Err(e) => split_threshold(strings_view(vals@), missing@, invalid@)
                    == Err::<(Seq<Seq<char>>, Seq<char>), SpecParseError>(e@),
            },
    {
        let mut vals = vals;
        let ghost v0 = vals@;
        match vals.pop() {
            None => Err(ParseError::eof(missing)),
            Some(w) => {
                proof {
                    assert(strings_view(vals@) =~= strings_view(v0).drop_last());
                }
                if !float_text(w.as_str()) {
                    Err(ParseError::eof(invalid))
                } else {
                    Ok((vals, w))
                }
            },
        }
    }

    fn parse_trade_section(&mut self) -> (r: Result<Option<TradeSection>, ParseError>)
        requires
            old(self).wf(),
        ensures
            final(self).wf(),
            final(self).items() == old(self).items(),
            old(self).position() <= final(self).position(),
            (opt_trade_result(r), final(self).position()) == spec_trade_section(old(self).items(), old(self).position()),
    {
        self.consume_newlines()?;
        let is_trade = match self.peek_token() {
            Some(Ok(tok)) => match tok.kind {
                TokenKind::Keyword(Keyword::Trade) => true,
                _ => false,
            },
            _ => false,
        };
        if !is_trade {
            return Ok(None);
        }
        let _ = self.next_token();
        let t = self.parse_trade_body()?;
        Ok(Some(t))
    }

    fn parse_trade_body(&mut self) -> (r: Result<TradeSection, ParseError>)
        requires
            old(self).wf(),
        ensures
            final(self).wf(),
            final(self).items() == old(self).items(),
            old(self).position() <= final(self).position(),
            (result_view(r), final(self).position()) == spec_trade_body(old(self).items(), old(self).position()),
    {
        let (trade_type, over_frame) = self.parse_trade_head()?;
        let (entry, within_entry) = self.parse_trade_line(Keyword::Entry, "missing within_entry", "invalid within_entry")?;
        let (exit, within_exit) = self.parse_trade_line(Keyword::Exit, "missing within_exit", "invalid within_exit")?;
        let (stop_loss, hold) = self.parse_trade_limits()?;
        Ok(TradeSection { trade_type, over_frame, entry, within_entry, exit, within_exit, stop_loss, hold })
    }

    /// The trade type and `OVER <frame>`.
    fn parse_trade_head(&mut self) -> (r: Result<(TradeType, String), ParseError>)
        requires
            old(self).wf(),
        ensures
            final(self).wf(),
            final(self).items() == old(self).items(),
            old(self).position() <= final(self).position(),
            (match r { Ok(x) => Ok((x.0, x.1@)), Err(e) => Err(e@) }, final(self).position())
                == spec_trade_head(old(self).items(), old(self).position()),
    {
        let ghost its = self.items();
        self.consume_newlines()?;
        proof { lemma_skip_newlines(its, old(self).position()); }
        let tt = self.next_token()?;
        let trade_type = match tt.kind {
            TokenKind::Keyword(Keyword::OptionCall) => TradeType::OptionCall,
            TokenKind::Keyword(Keyword::OptionPut) => TradeType::OptionPut,
            TokenKind::Keyword(Keyword::Stock) => TradeType::Stock,
            _ => {
                return Err(ParseError::expected(&tt, "trade type (OPTION CALL|OPTION PUT|STOCK)"));
            },
        };
        let ghost p1 = self.position();
        self.consume_newlines()?;
        proof { lemma_skip_newlines(its, p1); }
        self.expect_keyword(Keyword::OverFrame)?;
        let over_frame = self.expect_identifier()?;
        Ok((trade_type, over_frame))
    }

    /// An `ENTRY` or `EXIT` line: its columns and its threshold.
    fn parse_trade_line(&mut self, kw: Keyword, missing: &str, invalid: &str) -> (r: Result<(Vec<String>, String), ParseError>)
        requires
            old(self).wf(),
        ensures
            final(self).wf(),
            final(self).items() == old(self).items(),
            old(self).position() <= final(self).position(),
            (match r { Ok(x) => Ok((strings_view(x.0@), x.1@)), Err(e) => Err(e@) }, final(self).position())
                == spec_trade_line(old(self).items(), old(self).position(), kw, missing@, invalid@),
    {
        let ghost its = self.items();
        self.consume_newlines()?;
        proof { lemma_skip_newlines(its, old(self).position()); }
        self.expect_keyword(kw)?;
        let vals = self.parse_values();
        Self::threshold(vals, missing, invalid)
    }

    /// The value after `LIMIT` or `HOLD`.
    fn parse_word_value(&mut self, what: &str) -> (r: Result<String, ParseError>)
        requires
            old(self).wf(),
        ensures
            final(self).wf(),
            final(self).items() == old(self).items(),
            old(self).position() <= final(self).position(),
            (result_view(r), final(self).position()) == spec_word_value(old(self).items(), old(self).position(), what@),
    {
        let t = self.next_token()?;
        match t.kind {
            TokenKind::Literal(v) => Ok(v),
            TokenKind::Identifier(v) => Ok(v),
            _ => Err(ParseError::expected(&t, what)),
        }
    }

    /// `LIMIT <stop loss>` and `HOLD <periods>`.
    fn parse_trade_limits(&mut self) -> (r: Result<(String, i32), ParseError>)
        requires
            old(self).wf(),
        ensures
            final(self).wf(),
            final(self).items() == old(self).items(),
            old(self).position() <= final(self).position(),
            (match r { Ok(x) => Ok((x.0@, x.1)), Err(e) => Err(e@) }, final(self).position())
                == spec_trade_limits(old(self).items(), old(self).position()),
    {
        let ghost its = self.items();
        self.consume_newlines()?;
        proof { lemma_skip_newlines(its, old(self).position()); }
        self.expect_keyword(Keyword::Limit)?;
        let stop_loss = self.parse_word_value("stop_loss value")?;
        if !float_text(stop_loss.as_str()) {
            return Err(ParseError::eof("invalid stop_loss"));
        }
        let ghost p2 = self.position();
        self.consume_newlines()?;
        proof { lemma_skip_newlines(its, p2); }
        self.expect_keyword(Keyword::Hold)?;
        let hold_text = self.parse_word_value("hold value")?;
        let hold = match parse_i32(hold_text.as_str()) {
            Some(h) => h,
            None => {
                return Err(ParseError::eof("invalid hold"));
            },
        };
        let ghost p4 = self.position();
        self.consume_newlines()?;
        proof { lemma_skip_newlines(its, p4); }
        Ok((stop_loss, hold))
    }
}

pub open spec fn commands_result(r: Result<Vec<DrawCommand>, ParseError>) -> Result<Seq<SpecDrawCommand>, SpecParseError> {
    match r {
        Ok(v) => Ok(v@.map_values(|c: DrawCommand| c@)),
        Err(e) => Err(e@),
    }
}

pub open spec fn opt_graph_result(r: Result<Option<GraphSection>, ParseError>) -> Result<Option<SpecGraphSection>, SpecParseError> {
    match r {
        Ok(Some(g)) => Ok(Some(g@)),
        Ok(None) => Ok(None),
        Err(e) => Err(e@),
    }
}

pub open spec fn opt_trade_result(r: Result<Option<TradeSection>, ParseError>) -> Result<Option<SpecTradeSection>, SpecParseError> {
    match r {
        Ok(Some(t)) => Ok(Some(t@)),
        Ok(None) => Ok(None),
        Err(e) => Err(e@),
    }
}

/// Provider blocks read, as values.
pub open spec fn providers_result(r: Result<KeyedList<ProviderInstance>, ParseError>) -> Result<Map<Seq<char>, SpecProviderInstance>, SpecParseError> {
    match r {
        Ok(m) => Ok(m.view().map_values(|v: ProviderInstance| v@)),
        Err(e) => Err(e@),
    }
}

pub open spec fn frames_result(r: Result<KeyedList<Frame>, ParseError>) -> Result<Map<Seq<char>, SpecFrame>, SpecParseError> {
    match r {
        Ok(m) => Ok(m.view().map_values(|v: Frame| v@)),
        Err(e) => Err(e@),
    }
}

pub open spec fn named_frame_result(r: Result<(String, Frame), ParseError>) -> Result<(Seq<char>, SpecFrame), SpecParseError> {
    match r {
        Ok(nf) => Ok((nf.0@, nf.1@)),
        Err(e) => Err(e@),
    }
}

pub open spec fn pair_result(r: Result<(String, String), ParseError>) -> Result<(Seq<char>, Seq<char>), SpecParseError> {
    match r {
        Ok(kv) => Ok((kv.0@, kv.1@)),
        Err(e) => Err(e@),
    }
}

pub open spec fn block_state(backend: Option<String>, ticker: Option<String>, time_spec: Option<TimeSpec>, params: Seq<(String, String)>) -> BlockState {
    BlockState {
        backend: crate::frame_query::ast::opt_string_view(backend),
        ticker: crate::frame_query::ast::opt_string_view(ticker),
        time_spec: match time_spec {
            Some(t) => Some(t@),
            None => None,
        },
        params: pairs_view(params),
    }
}

/// A copy of one lexed item.
fn clone_item(x: &Result<Token, LexError>) -> (r: Result<Token, LexError>)
    ensures
        lexed_view(r) == lexed_view(*x),
{
    match x {
        Ok(t) => Ok(clone_token(t)),
        Err(e) => Err(LexError { message: e.message.clone(), line: e.line, column: e.column }),
    }
}

fn clone_token(t: &Token) -> (r: Token)
    ensures
        r@ == t@,
{
    let kind = match &t.kind {
        TokenKind::Keyword(k) => TokenKind::Keyword(*k),
        TokenKind::Identifier(s) => TokenKind::Identifier(s.clone()),
        TokenKind::Date(s) => TokenKind::Date(s.clone()),
        TokenKind::Interval(s) => TokenKind::Interval(s.clone()),
        TokenKind::Literal(s) => TokenKind::Literal(s.clone()),
        TokenKind::Comma => TokenKind::Comma,
        TokenKind::Newline => TokenKind::Newline,
        TokenKind::EOF => TokenKind::EOF,
        TokenKind::Comment(s) => TokenKind::Comment(s.clone()),
    };
    Token { kind, line: t.line, column: t.column }
}

/// Parses the frame QQL source `src` into its query.
pub fn parse(src: &str) -> (r: Result<Query, ParseError>)
    requires
        src@.len() < usize::MAX,
    ensures
        result_view(r) == spec_parse(src@),
        r matches Ok(q) ==> q.wf(),
{
    Parser::new(src).parse()
}


/* ---------------------------------- laws --------------------------------- */

proof fn lemma_providers_filed_by_name(its: Seq<Item>, p: int, acc: Map<Seq<char>, SpecProviderInstance>)
    requires
        forall|k: Seq<char>| #[trigger] acc.contains_key(k) ==> acc[k].name == k,
    ensures
        spec_providers_from(its, p, acc).0 matches Ok(m) ==> forall|k: Seq<char>| #[trigger] m.contains_key(k) ==> m[k].name == k,
    decreases its.len() - p,
{
    if 0 <= p < its.len() {
        if is_keyword_at(its, p, Keyword::Provider) {
            let (r, q) = spec_provider_block(its, p);
            if r is Ok {
                let inst = r->Ok_0;
                if !acc.contains_key(inst.name) && p < q <= its.len() {
                    lemma_providers_filed_by_name(its, q, acc.insert(inst.name, inst));
                }
            }
        } else if is_kind_at(its, p, SpecTokenKind::Newline) {
            lemma_providers_filed_by_name(its, p + 1, acc);
        }
    }
}

/// Every provider of a parsed query is filed under its own name.
pub proof fn law_providers_filed_by_name(src: Seq<char>)
    requires
        spec_parse(src) is Ok,
    ensures
        forall|k: Seq<char>| #[trigger] spec_parse(src)->Ok_0.providers.contains_key(k)
            ==> spec_parse(src)->Ok_0.providers[k].name == k,
{
    let its = lex_items(src, 0);
    lemma_providers_filed_by_name(its, skip_newlines(its, 0), Map::empty());
}

/// The text of the identifier or literal at item `i`; empty for anything
/// else.
pub open spec fn word_at(its: Seq<Item>, i: int) -> Seq<char> {
    match token_at(its, i) {
        Some(t) => match t.kind {
            SpecTokenKind::Identifier(x) => x,
            SpecTokenKind::Literal(x) => x,
            _ => Seq::empty(),
        },
        None => Seq::empty(),
    }
}

/// The key and value of every `PARAM` line among items `a..b`, in the
/// order written: the word after `PARAM`, and the word after the `=` that
/// follows it.
pub open spec fn param_lines(its: Seq<Item>, a: int, b: int) -> Seq<(Seq<char>, Seq<char>)>
    decreases b - a,
{
    if a >= b {
        Seq::empty()
    } else if is_keyword_at(its, a, Keyword::Param) {
        seq![(word_at(its, a + 1), word_at(its, a + 3))] + param_lines(its, a + 1, b)
    } else {
        param_lines(its, a + 1, b)
    }
}

proof fn lemma_param_lines_split(its: Seq<Item>, a: int, b: int, c: int)
    requires
        a <= b <= c,
    ensures
        param_lines(its, a, c) == param_lines(its, a, b) + param_lines(its, b, c),
    decreases b - a,
{
    if a == b {
        assert(param_lines(its, a, b) + param_lines(its, b, c) =~= param_lines(its, b, c));
    } else {
        lemma_param_lines_split(its, a + 1, b, c);
        if is_keyword_at(its, a, Keyword::Param) {
            let head = seq![(word_at(its, a + 1), word_at(its, a + 3))];
            assert(head + (param_lines(its, a + 1, b) + param_lines(its, b, c))
                =~= (head + param_lines(its, a + 1, b)) + param_lines(its, b, c));
        }
    }
}

proof fn lemma_newlines_hold_no_param(its: Seq<Item>, q: int)
    requires
        0 <= q <= its.len(),
    ensures
        param_lines(its, q, skip_newlines(its, q)) == Seq::<(Seq<char>, Seq<char>)>::empty(),
    decreases its.len() - q,
{
    if 0 <= q < its.len() && (token_at(its, q) matches Some(t) && is_skippable(t.kind)) {
        lemma_newlines_hold_no_param(its, q + 1);
        lemma_skip_newlines(its, q + 1);
        assert(!is_keyword_at(its, q, Keyword::Param));
    }
}

/// The lines of a provider block from `p` keep what was gathered and add
/// the `PARAM` lines they cover, in order.
proof fn lemma_block_params(its: Seq<Item>, p: int, st: BlockState)
    requires
        0 <= p <= its.len(),
    ensures
        spec_block_from(its, p, st).0 is Ok ==> {
            &&& p <= spec_block_from(its, p, st).1 <= its.len()
            &&& spec_block_from(its, p, st).0->Ok_0.params == st.params + param_lines(its, p, spec_block_from(its, p, st).1)
        },
    decreases its.len() - p,
{
    let (res, qf) = spec_block_from(its, p, st);
    if res is Err {
        return;
    }
    if !(0 <= p < its.len()) || token_at(its, p) is None {
        assert(st.params + param_lines(its, p, p) =~= st.params);
    } else if is_keyword_at(its, p, Keyword::Provider) || is_keyword_at(its, p, Keyword::Using)
        || is_keyword_at(its, p, Keyword::Ticker) {
        if is_keyword_at(its, p, Keyword::Provider) && st.backend is Some {
            assert(st.params + param_lines(its, p, p) =~= st.params);
        } else {
            let (r, q) = spec_expect_identifier(its, p + 1);
            if r is Ok && p < q <= its.len() {
                let st2 = if is_keyword_at(its, p, Keyword::Ticker) {
                    BlockState { ticker: Some(r->Ok_0), ..st }
                } else {
                    BlockState { backend: Some(r->Ok_0), ..st }
                };
                let q2 = skip_newlines(its, q);
                lemma_skip_newlines(its, q);
                assert(spec_block_from(its, p, st) == spec_block_from(its, q2, st2));
                lemma_block_params(its, q2, st2);
                assert(q == p + 2);
                assert(!is_keyword_at(its, p + 1, Keyword::Param));
                lemma_newlines_hold_no_param(its, q);
                lemma_param_lines_split(its, p, q2, qf);
                assert(param_lines(its, p, q2) == param_lines(its, p + 1, q2));
                assert(param_lines(its, p + 1, q2) == param_lines(its, q, q2));
                assert(st.params + param_lines(its, p, qf) =~= st.params + param_lines(its, q2, qf));
            } else {
                assert(st.params + param_lines(its, p, p) =~= st.params);
            }
        }
    } else if is_keyword_at(its, p, Keyword::From) {
        let (r, q) = spec_range(its, p + 1);
        if r is Ok && p < q <= its.len() {
            let st2 = BlockState { time_spec: Some(r->Ok_0), ..st };
            let q2 = skip_newlines(its, q);
            lemma_skip_newlines(its, q);
            lemma_block_params(its, q2, st2);
            assert(q == p + 4);
            assert(!is_keyword_at(its, p + 1, Keyword::Param));
            assert(!is_keyword_at(its, p + 2, Keyword::Param));
            assert(!is_keyword_at(its, p + 3, Keyword::Param));
            lemma_newlines_hold_no_param(its, q);
            lemma_param_lines_split(its, p, q2, qf);
            assert(param_lines(its, p, q2) == param_lines(its, p + 1, q2));
            assert(param_lines(its, p + 1, q2) == param_lines(its, p + 2, q2));
            assert(param_lines(its, p + 2, q2) == param_lines(its, p + 3, q2));
            assert(param_lines(its, p + 3, q2) == param_lines(its, q, q2));
            assert(st.params + param_lines(its, p, qf) =~= st.params + param_lines(its, q2, qf));
        } else {
            assert(st.params + param_lines(its, p, p) =~= st.params);
        }
    } else if is_keyword_at(its, p, Keyword::Live) {
        let (r, q) = spec_live(its, p + 1);
        if r is Ok && p < q <= its.len() {
            let st2 = BlockState { time_spec: Some(r->Ok_0), ..st };
            let q2 = skip_newlines(its, q);
            lemma_skip_newlines(its, q);
            lemma_block_params(its, q2, st2);
            assert(q == p + 5);
            assert(!is_keyword_at(its, p + 1, Keyword::Param));
            assert(!is_keyword_at(its, p + 2, Keyword::Param));
            assert(!is_keyword_at(its, p + 3, Keyword::Param));
            assert(!is_keyword_at(its, p + 4, Keyword::Param));
            lemma_newlines_hold_no_param(its, q);
            lemma_param_lines_split(its, p, q2, qf);
            assert(param_lines(its, p, q2) == param_lines(its, p + 1, q2));
            assert(param_lines(its, p + 1, q2) == param_lines(its, p + 2, q2));
            assert(param_lines(its, p + 2, q2) == param_lines(its, p + 3, q2));
            assert(param_lines(its, p + 3, q2) == param_lines(its, p + 4, q2));
            assert(param_lines(its, p + 4, q2) == param_lines(its, q, q2));
            assert(st.params + param_lines(its, p, qf) =~= st.params + param_lines(its, q2, qf));
        } else {
            assert(st.params + param_lines(its, p, p) =~= st.params);
        }
    } else if is_keyword_at(its, p, Keyword::Param) {
        let (r, q) = spec_param(its, p + 1);
        if r is Ok && p < q <= its.len() {
            let kv = r->Ok_0;
            let st2 = BlockState { params: st.params.push(kv), ..st };
            let q2 = skip_newlines(its, q);
            lemma_skip_newlines(its, q);
            lemma_block_params(its, q2, st2);
            assert(q == p + 4);
            assert(kv == (word_at(its, p + 1), word_at(its, p + 3)));
            assert(!is_keyword_at(its, p + 1, Keyword::Param));
            assert(!is_keyword_at(its, p + 2, Keyword::Param));
            assert(!is_keyword_at(its, p + 3, Keyword::Param));
            lemma_newlines_hold_no_param(its, q);
            lemma_param_lines_split(its, p, q2, qf);
            assert(param_lines(its, p, q2) == seq![kv] + param_lines(its, p + 1, q2));
            assert(param_lines(its, p + 1, q2) == param_lines(its, p + 2, q2));
            assert(param_lines(its, p + 2, q2) == param_lines(its, p + 3, q2));
            assert(param_lines(its, p + 3, q2) == param_lines(its, q, q2));
            assert(param_lines(its, p, q2) =~= seq![kv]);
            assert(st.params + param_lines(its, p, qf) =~= st.params.push(kv) + param_lines(its, q2, qf));
        } else {
            assert(st.params + param_lines(its, p, p) =~= st.params);
        }
    } else if is_kind_at(its, p, SpecTokenKind::Newline) {
        lemma_block_params(its, p + 1, st);
        assert(!is_keyword_at(its, p, Keyword::Param));
        assert(param_lines(its, p, qf) == param_lines(its, p + 1, qf));
    } else {
        assert(st.params + param_lines(its, p, p) =~= st.params);
    }
}

/// A parsed provider block keeps every one of its `PARAM` lines, in the
/// order written: its parameters are exactly the key and value of each
/// `PARAM` line from `PROVIDER` to where the block ends.
pub proof fn law_provider_keeps_every_param(its: Seq<Item>, p: int)
    requires
        0 <= p,
        spec_provider_block(its, p).0 is Ok,
    ensures
        spec_provider_block(its, p).0->Ok_0.params == param_lines(its, p, spec_provider_block(its, p).1),
{
    let (r2, p2) = spec_expect_identifier(its, p + 1);
    assert(p2 == p + 2);
    let s0 = skip_newlines(its, p2);
    lemma_skip_newlines(its, p2);
    lemma_block_params(its, s0, empty_block());
    let qf = spec_block_from(its, s0, empty_block()).1;
    assert(spec_provider_block(its, p).1 == qf);
    assert(!is_keyword_at(its, p, Keyword::Param));
    assert(!is_keyword_at(its, p + 1, Keyword::Param));
    lemma_newlines_hold_no_param(its, p2);
    lemma_param_lines_split(its, p, s0, qf);
    assert(param_lines(its, p, s0) == param_lines(its, p + 1, s0));
    assert(param_lines(its, p + 1, s0) == param_lines(its, p2, s0));
    assert(param_lines(its, p, qf) =~= param_lines(its, s0, qf));
    assert(Seq::<(Seq<char>, Seq<char>)>::empty() + param_lines(its, s0, qf) =~= param_lines(its, s0, qf));
}

} // verus!
