//! Dependency ordering of a frame's calculations: calculations run in
//! waves, each wave holding the calculations whose inputs are all available
//! (fields, numeric literals, or outputs of earlier waves). Calculations that
//! can never run go last, in one final wave, without an error.

use vstd::prelude::*;
use crate::text::{chars_of, string_of, concat, str_eq, alpha, is_alpha};
use crate::numbers::{is_float_text, float_text};
use crate::frame_query::lexer::Keyword;
use crate::frame_query::ast::{
    ActionSection, Calc, SpecActionSection, SpecCalc, ParseError, SpecParseError, strings_view,
    calcs_view,
};

verus! {

/* ---------------------------- numeric literals --------------------------- */

/// The characters for which `char::is_whitespace` holds (the Unicode
/// `White_Space` property).
pub open spec fn is_whitespace(c: char) -> bool {
    ('\u{9}' <= c && c <= '\u{d}') || c == ' ' || c == '\u{85}' || c == '\u{a0}' || c == '\u{1680}'
        || ('\u{2000}' <= c && c <= '\u{200a}') || c == '\u{2028}' || c == '\u{2029}'
        || c == '\u{202f}' || c == '\u{205f}' || c == '\u{3000}'
}

fn whitespace(c: char) -> (r: bool)
    ensures
        r == is_whitespace(c),
{
    ('\u{9}' <= c && c <= '\u{d}') || c == ' ' || c == '\u{85}' || c == '\u{a0}' || c == '\u{1680}'
        || ('\u{2000}' <= c && c <= '\u{200a}') || c == '\u{2028}' || c == '\u{2029}'
        || c == '\u{202f}' || c == '\u{205f}' || c == '\u{3000}'
}

/// `s` without the characters satisfying `p` at either end.
pub open spec fn strip(s: Seq<char>, p: spec_fn(char) -> bool) -> Seq<char>
    decreases s.len(),
{
    if s.len() > 0 && p(s[0]) {
        strip(s.drop_first(), p)
    } else if s.len() > 0 && p(s.last()) {
        strip(s.drop_last(), p)
    } else {
        s
    }
}

/// The text of `s` with surrounding whitespace, then double quotes, then
/// single quotes removed.
pub open spec fn unquoted(s: Seq<char>) -> Seq<char> {
    strip(strip(strip(s, |c: char| is_whitespace(c)), |c: char| c == '"'), |c: char| c == '\'')
}

/// A numeric literal: after `unquoted`, non-empty, with no letter other than
/// `e` or `E`, and read by `f64::from_str`.
pub open spec fn is_numeric_text(s: Seq<char>) -> bool {
    let t = unquoted(s);
    &&& t.len() > 0
    &&& forall|i: int| 0 <= i < t.len() ==> !(is_alpha(#[trigger] t[i]) && t[i] != 'e' && t[i] != 'E')
    &&& is_float_text(t)
}

proof fn lemma_strip_range(s: Seq<char>, p: spec_fn(char) -> bool, i: int, j: int)
    requires
        0 <= i <= j <= s.len(),
        forall|k: int| 0 <= k < i ==> p(#[trigger] s[k]),
        forall|k: int| j <= k < s.len() ==> p(#[trigger] s[k]),
        i < j ==> !p(s[i]) && !p(s[j - 1]),
    ensures
        strip(s, p) == s.subrange(i, j),
    decreases s.len(),
{
    if s.len() > 0 && p(s[0]) {
        assert(i > 0 || j == 0);
        if i > 0 {
            lemma_strip_range(s.drop_first(), p, i - 1, j - 1);
            assert(s.drop_first().subrange(i - 1, j - 1) =~= s.subrange(i, j));
        } else {
            // i == j == 0: everything satisfies p
            lemma_strip_range(s.drop_first(), p, 0, 0);
            assert(s.drop_first().subrange(0, 0) =~= s.subrange(0, 0));
        }
    } else if s.len() > 0 && p(s.last()) {
        assert(j < s.len());
        lemma_strip_range(s.drop_last(), p, i, j);
        assert(s.drop_last().subrange(i, j) =~= s.subrange(i, j));
    } else {
        if s.len() > 0 {
            assert(i == 0);
            assert(j == s.len());
        }
        assert(s.subrange(i, j) =~= s);
    }
}

/// Bounds of `cs[from..to]` without the characters satisfying `p` at either
/// end; `which` selects the predicate (0: whitespace, 1: `"`, 2: `'`).
fn strip_bounds(cs: &[char], from: usize, to: usize, which: u8) -> (r: (usize, usize))
    requires
        from <= to <= cs@.len(),
        which <= 2,
    ensures
        from <= r.0 <= r.1 <= to,
        strip(cs@.subrange(from as int, to as int), strip_pred(which))
            == cs@.subrange(r.0 as int, r.1 as int),
{
    let ghost p = strip_pred(which);
    let mut i = from;
    while i < to && matches_pred(cs[i], which)
        invariant
            from <= i <= to <= cs@.len(),
            forall|k: int| from <= k < i ==> p(#[trigger] cs@[k]),
            p == strip_pred(which),
            which <= 2,
        decreases to - i,
    {
        i = i + 1;
    }
    let mut j = to;
    while j > i && matches_pred(cs[j - 1], which)
        invariant
            from <= i <= j <= to <= cs@.len(),
            forall|k: int| j <= k < to ==> p(#[trigger] cs@[k]),
            forall|k: int| from <= k < i ==> p(#[trigger] cs@[k]),
            p == strip_pred(which),
            which <= 2,
        decreases j,
    {
        j = j - 1;
    }
    proof {
        let s = cs@.subrange(from as int, to as int);
        assert forall|k: int| 0 <= k < i - from implies p(#[trigger] s[k]) by {
            assert(s[k] == cs@[from + k]);
        }
        assert forall|k: int| j - from <= k < s.len() implies p(#[trigger] s[k]) by {
            assert(s[k] == cs@[from + k]);
        }
        if i < j {
            assert(s[i - from] == cs@[i as int]);
            assert(s[j - from - 1] == cs@[j - 1]);
        }
        lemma_strip_range(s, p, i - from, j - from);
        assert(s.subrange(i - from, j - from) =~= cs@.subrange(i as int, j as int));
    }
    (i, j)
}

pub open spec fn strip_pred(which: u8) -> spec_fn(char) -> bool {
    if which == 0 {
        |c: char| is_whitespace(c)
    } else if which == 1 {
        |c: char| c == '"'
    } else {
        |c: char| c == '\''
    }
}

fn matches_pred(c: char, which: u8) -> (r: bool)
    requires
        which <= 2,
    ensures
        r == (strip_pred(which))(c),
{
    if which == 0 {
        whitespace(c)
    } else if which == 1 {
        c == '"'
    } else {
        c == '\''
    }
}

/// `s` without surrounding whitespace (`str::trim`).
pub fn trimmed(s: &str) -> (r: String)
    ensures
        r@ == strip(s@, |c: char| is_whitespace(c)),
{
    let cs = chars_of(s);
    let (a, b) = strip_bounds(cs.as_slice(), 0, cs.len(), 0);
    proof {
        assert(cs@.subrange(0, cs@.len() as int) =~= s@);
        assert(strip_pred(0) == |c: char| is_whitespace(c));
    }
    string_of(cs.as_slice(), a, b)
}

/// Whether `s` is a numeric literal (see `is_numeric_text`).
pub fn is_numeric_literal(s: &str) -> (r: bool)
    ensures
        r == is_numeric_text(s@),
{
    let cs = chars_of(s);
    let (a, b) = strip_bounds(cs.as_slice(), 0, cs.len(), 0);
    let (c, d) = strip_bounds(cs.as_slice(), a, b, 1);
    let (e, f) = strip_bounds(cs.as_slice(), c, d, 2);
    proof {
        assert(cs@.subrange(0, cs@.len() as int) =~= s@);
        assert(strip_pred(0) == |c: char| is_whitespace(c));
        assert(strip_pred(1) == |c: char| c == '"');
        assert(strip_pred(2) == |c: char| c == '\'');
        assert(cs@.subrange(e as int, f as int) == unquoted(s@));
    }
    if e == f {
        return false;
    }
    let mut i = e;
    while i < f
        invariant
            e <= i <= f <= cs@.len(),
            cs@.subrange(e as int, f as int) == unquoted(s@),
            forall|k: int| e <= k < i ==> !(is_alpha(#[trigger] cs@[k]) && cs@[k] != 'e' && cs@[k] != 'E'),
        decreases f - i,
    {
        let ch = cs[i];
        if alpha(ch) && ch != 'e' && ch != 'E' {
            proof {
                let t = cs@.subrange(e as int, f as int);
                assert(t[i - e] == ch);
                assert(is_alpha(t[i - e]) && t[i - e] != 'e' && t[i - e] != 'E');
                assert(t == unquoted(s@));
            }
            return false;
        }
        i = i + 1;
    }
    let t = string_of(cs.as_slice(), e, f);
    proof {
        let tt = cs@.subrange(e as int, f as int);
        assert forall|k: int| 0 <= k < tt.len() implies !(is_alpha(#[trigger] tt[k]) && tt[k] != 'e' && tt[k] != 'E') by {
            assert(tt[k] == cs@[e + k]);
        }
    }
    float_text(t.as_str())
}

/* ------------------------------ outputs ---------------------------------- */

/// The columns a calculation produces: its alias, and for the volatility
/// operations also `<alias>_pos` and `<alias>_neg`.
pub open spec fn outputs_of(c: SpecCalc) -> Seq<Seq<char>> {
    if c.operation == Keyword::Volatility || c.operation == Keyword::DoubleVolatility {
        seq![c.alias, c.alias + "_pos"@, c.alias + "_neg"@]
    } else {
        seq![c.alias]
    }
}

/// The columns that `c` produces.
pub fn calc_outputs(c: &Calc) -> (r: Vec<String>)
    ensures
        strings_view(r@) == outputs_of(c@),
{
    let mut v: Vec<String> = Vec::new();
    v.push(c.alias.clone());
    match c.operation {
        Keyword::Volatility | Keyword::DoubleVolatility => {
            v.push(concat(c.alias.as_str(), "_pos"));
            v.push(concat(c.alias.as_str(), "_neg"));
        },
        _ => {},
    }
    assert(strings_view(v@) =~= outputs_of(c@));
    v
}

/* ------------------------------- waves ----------------------------------- */

/// All inputs of `c` are available or numeric literals.
pub open spec fn runnable(avail: Set<Seq<char>>, c: SpecCalc) -> bool {
    forall|i: int| 0 <= i < c.inputs.len() ==> avail.contains(#[trigger] c.inputs[i]) || is_numeric_text(c.inputs[i])
}

/// The runnable and the blocked calculations of `rem`, each in the order
/// given.
pub open spec fn split(avail: Set<Seq<char>>, rem: Seq<SpecCalc>) -> (Seq<SpecCalc>, Seq<SpecCalc>)
    decreases rem.len(),
{
    if rem.len() == 0 {
        (Seq::empty(), Seq::empty())
    } else {
        let (r, b) = split(avail, rem.drop_last());
        if runnable(avail, rem.last()) {
            (r.push(rem.last()), b)
        } else {
            (r, b.push(rem.last()))
        }
    }
}

/// The columns produced by the calculations `cs`.
pub open spec fn outputs_set(cs: Seq<SpecCalc>) -> Set<Seq<char>>
    decreases cs.len(),
{
    if cs.len() == 0 {
        Set::empty()
    } else {
        outputs_set(cs.drop_last()).union(outputs_of(cs.last()).to_set())
    }
}

pub proof fn lemma_split(avail: Set<Seq<char>>, rem: Seq<SpecCalc>)
    ensures
        split(avail, rem).0.len() + split(avail, rem).1.len() == rem.len(),
        (split(avail, rem).0 + split(avail, rem).1).to_multiset() == rem.to_multiset(),
        forall|i: int| 0 <= i < split(avail, rem).0.len() ==> runnable(avail, #[trigger] split(avail, rem).0[i]),
        forall|i: int| 0 <= i < split(avail, rem).1.len() ==> !runnable(avail, #[trigger] split(avail, rem).1[i]),
    decreases rem.len(),
{
    broadcast use vstd::seq_lib::group_to_multiset_ensures, vstd::seq_lib::lemma_multiset_commutative;
    if rem.len() > 0 {
        lemma_split(avail, rem.drop_last());
        let (r, b) = split(avail, rem.drop_last());
        let x = rem.last();
        assert(rem =~= rem.drop_last().push(x));
        if runnable(avail, x) {
            assert((r.push(x) + b).to_multiset() =~= (r + b).to_multiset().insert(x)) by {
                vstd::seq_lib::lemma_multiset_commutative(r.push(x), b);
                vstd::seq_lib::lemma_multiset_commutative(r, b);
            }
        } else {
            assert(r + b.push(x) =~= (r + b).push(x));
        }
    }
}

/// The waves in which the calculations `rem` run, given the columns
/// `avail` available before the first.
pub open spec fn waves(avail: Set<Seq<char>>, rem: Seq<SpecCalc>) -> Seq<Seq<SpecCalc>>
    decreases rem.len(),
{
    if rem.len() == 0 {
        Seq::empty()
    } else {
        let (run, blk) = split(avail, rem);
        if run.len() == 0 {
            seq![blk]
        } else {
            proof {
                lemma_split(avail, rem);
            }
            seq![run] + waves(avail.union(outputs_set(run)), blk)
        }
    }
}

/// Whether some calculation at `j` repeats the alias of an earlier one.
pub open spec fn repeats_alias(cs: Seq<SpecCalc>, j: int) -> bool {
    exists|i: int| 0 <= i < j && cs[i].alias == cs[j].alias
}

/// The first calculation at or after `j` that repeats an earlier alias.
pub open spec fn first_repeat_from(cs: Seq<SpecCalc>, j: int) -> Option<int>
    decreases cs.len() - j,
{
    if j < 0 || j >= cs.len() {
        None
    } else if repeats_alias(cs, j) {
        Some(j)
    } else {
        first_repeat_from(cs, j + 1)
    }
}

pub open spec fn duplicate_alias_error(alias: Seq<char>) -> SpecParseError {
    SpecParseError { message: "duplicate CALC alias: '"@ + alias + "'"@, line: 0, column: 0 }
}

/// What `order_calcs_by_waves` gives: the error for the first repeated
/// alias, or the waves that start from the pulled fields.
pub open spec fn spec_order_by_waves(a: SpecActionSection) -> Result<Seq<Seq<SpecCalc>>, SpecParseError> {
    let cs = match a.calc {
        Some(c) => c,
        None => Seq::empty(),
    };
    match first_repeat_from(cs, 0) {
        Some(j) => Err(duplicate_alias_error(cs[j].alias)),
        None => Ok(waves(a.fields.to_set(), cs)),
    }
}

/// What `order_calcs_flat` gives: the waves one after another.
pub open spec fn spec_order_flat(a: SpecActionSection) -> Result<Seq<SpecCalc>, SpecParseError> {
    match spec_order_by_waves(a) {
        Ok(w) => Ok(w.flatten()),
        Err(e) => Err(e),
    }
}

pub open spec fn waves_view(v: Seq<Vec<Calc>>) -> Seq<Seq<SpecCalc>> {
    v.map_values(|w: Vec<Calc>| calcs_view(w@))
}

/// A copy of a list of strings.
pub fn copy_strings(v: &Vec<String>) -> (r: Vec<String>)
    ensures
        strings_view(r@) == strings_view(v@),
{
    let mut r: Vec<String> = Vec::new();
    let mut i: usize = 0;
    while i < v.len()
        invariant
            i <= v@.len(),
            strings_view(r@) =~= strings_view(v@.take(i as int)),
        decreases v.len() - i,
    {
        let ghost before = r@;
        let x = v[i].clone();
        r.push(x);
        i = i + 1;
        proof {
            assert(v@.take(i as int) =~= v@.take(i - 1).push(v@[i - 1]));
            assert(r@ =~= before.push(x));
            assert(strings_view(r@) =~= strings_view(before).push(x@));
            assert(strings_view(v@.take(i as int)) =~= strings_view(v@.take(i - 1)).push(v@[i - 1]@));
        }
    }
    assert(v@.take(v@.len() as int) =~= v@);
    r
}

/// A copy of a calculation.
pub fn copy_calc(c: &Calc) -> (r: Calc)
    ensures
        r@ == c@,
{
    Calc { inputs: copy_strings(&c.inputs), operation: c.operation, alias: c.alias.clone() }
}

fn contains_string(v: &Vec<String>, s: &str) -> (r: bool)
    ensures
        r == strings_view(v@).contains(s@),
{
    let mut i: usize = 0;
    while i < v.len()
        invariant
            i <= v@.len(),
            forall|k: int| 0 <= k < i ==> v@[k]@ != s@,
        decreases v.len() - i,
    {
        if str_eq(v[i].as_str(), s) {
            assert(strings_view(v@)[i as int] == s@);
            return true;
        }
        i = i + 1;
    }
    assert(!strings_view(v@).contains(s@)) by {
        if strings_view(v@).contains(s@) {
            let k = choose|k: int| 0 <= k < strings_view(v@).len() && strings_view(v@)[k] == s@;
            assert(v@[k]@ == s@);
        }
    }
    false
}

/// Whether every input of `c` is in `avail` or a numeric literal.
fn is_runnable(avail: &Vec<String>, c: &Calc) -> (r: bool)
    ensures
        r == runnable(strings_view(avail@).to_set(), c@),
{
    let mut i: usize = 0;
    while i < c.inputs.len()
        invariant
            i <= c.inputs@.len(),
            forall|k: int| 0 <= k < i ==> strings_view(avail@).to_set().contains(#[trigger] c@.inputs[k])
                || is_numeric_text(c@.inputs[k]),
        decreases c.inputs.len() - i,
    {
        let inp = c.inputs[i].as_str();
        if !contains_string(avail, inp) && !is_numeric_literal(inp) {
            assert(c@.inputs[i as int] == inp@);
            return false;
        }
        i = i + 1;
    }
    true
}

/// Orders the calculations of `action` into waves (see the module
/// documentation); an error when two calculations share an alias.
pub fn order_calcs_by_waves(action: &ActionSection) -> (r: Result<Vec<Vec<Calc>>, ParseError>)
    ensures
        match r {
            Ok(w) => spec_order_by_waves(action@) == Ok::<Seq<Seq<SpecCalc>>, SpecParseError>(waves_view(w@)),
            Err(e) => spec_order_by_waves(action@) == Err::<Seq<Seq<SpecCalc>>, SpecParseError>(e@),
        },
{
    let mut remaining: Vec<Calc> = Vec::new();
    match &action.calc {
        Some(cs) => {
            let mut i: usize = 0;
            while i < cs.len()
                invariant
                    i <= cs@.len(),
                    calcs_view(remaining@) =~= calcs_view(cs@.take(i as int)),
                decreases cs.len() - i,
            {
                let ghost before = remaining@;
                let c = copy_calc(&cs[i]);
                remaining.push(c);
                i = i + 1;
                proof {
                    assert(cs@.take(i as int) =~= cs@.take(i - 1).push(cs@[i - 1]));
                    assert(remaining@ =~= before.push(c));
                    assert(calcs_view(remaining@) =~= calcs_view(before).push(c@));
                    assert(calcs_view(cs@.take(i as int)) =~= calcs_view(cs@.take(i - 1)).push(cs@[i - 1]@));
                }
            }
            assert(cs@.take(cs@.len() as int) =~= cs@);
        },
        None => {},
    }
    let ghost cs = calcs_view(remaining@);
    assert(cs == match action@.calc { Some(c) => c, None => Seq::<SpecCalc>::empty() });
    // duplicate alias detection
    let mut seen: Vec<String> = Vec::new();
    let mut j: usize = 0;
    while j < remaining.len()
        invariant
            j <= remaining@.len(),
            cs == calcs_view(remaining@),
            cs == match action@.calc { Some(c) => c, None => Seq::<SpecCalc>::empty() },
            strings_view(seen@) =~= Seq::new(j as nat, |k: int| cs[k].alias),
            first_repeat_from(cs, 0) == first_repeat_from(cs, j as int),
        decreases remaining.len() - j,
    {
        let alias = remaining[j].alias.as_str();
        if contains_string(&seen, alias) {
            proof {
                let k = choose|k: int| 0 <= k < j && strings_view(seen@)[k] == alias@;
                assert(cs[k].alias == cs[j as int].alias);
                assert(repeats_alias(cs, j as int));
            }
            let a = concat("duplicate CALC alias: '", alias);
            let m = concat(a.as_str(), "'");
            return Err(ParseError::new(m, 0, 0));
        }
        proof {
            assert(!repeats_alias(cs, j as int)) by {
                if repeats_alias(cs, j as int) {
                    let k = choose|k: int| 0 <= k < j && cs[k].alias == cs[j as int].alias;
                    assert(strings_view(seen@)[k] == alias@);
                }
            }
        }
        let ghost before = seen@;
        let x = remaining[j].alias.clone();
        seen.push(x);
        j = j + 1;
        proof {
            assert(seen@ =~= before.push(x));
            assert(strings_view(seen@) =~= strings_view(before).push(x@));
            assert(x@ == cs[j - 1].alias);
        }
    }
    assert(first_repeat_from(cs, j as int) is None);
    let mut available: Vec<String> = copy_strings(&action.fields);
    let ghost avail0 = strings_view(available@).to_set();
    let mut out: Vec<Vec<Calc>> = Vec::new();
    loop
        invariant_except_break
            waves_view(out@) + waves(strings_view(available@).to_set(), calcs_view(remaining@)) == waves(avail0, cs),
        ensures
            waves_view(out@) == waves(avail0, cs),
        decreases remaining@.len(),
    {
        let ghost avail = strings_view(available@).to_set();
        let ghost rem = calcs_view(remaining@);
        if remaining.len() == 0 {
            assert(waves_view(out@) + waves(avail, rem) =~= waves_view(out@));
            break;
        }
        let mut run: Vec<Calc> = Vec::new();
        let mut blk: Vec<Calc> = Vec::new();
        let mut i: usize = 0;
        while i < remaining.len()
            invariant
                i <= remaining@.len(),
                rem == calcs_view(remaining@),
                avail == strings_view(available@).to_set(),
                (calcs_view(run@), calcs_view(blk@)) == split(avail, rem.take(i as int)),
            decreases remaining.len() - i,
        {
            let c = copy_calc(&remaining[i]);
            let ghost cv = c@;
            assert(rem.take(i + 1).drop_last() =~= rem.take(i as int));
            if is_runnable(&available, &c) {
                run.push(c);
            } else {
                blk.push(c);
            }
            i = i + 1;
            proof {
                assert(calcs_view(run@) =~= split(avail, rem.take(i as int)).0);
                assert(calcs_view(blk@) =~= split(avail, rem.take(i as int)).1);
            }
        }
        assert(rem.take(rem.len() as int) =~= rem);
        proof {
            lemma_split(avail, rem);
        }
        if run.len() == 0 {
            let ghost out0 = waves_view(out@);
            let ghost bv = calcs_view(blk@);
            out.push(blk);
            proof {
                assert(waves(avail, rem) =~= seq![bv]);
                assert(waves_view(out@) =~= out0.push(bv));
                assert(out0 + seq![bv] =~= out0.push(bv));
            }
            break;
        }
        let ghost new_avail = avail.union(outputs_set(calcs_view(run@)));
        let mut k: usize = 0;
        while k < run.len()
            invariant
                k <= run@.len(),
                strings_view(available@).to_set() =~= avail.union(outputs_set(calcs_view(run@).take(k as int))),
            decreases run.len() - k,
        {
            let outs = calc_outputs(&run[k]);
            let mut m: usize = 0;
            let ghost before = strings_view(available@).to_set();
            while m < outs.len()
                invariant
                    m <= outs@.len(),
                    strings_view(available@).to_set() =~= before.union(strings_view(outs@).take(m as int).to_set()),
                decreases outs.len() - m,
            {
                let ghost av0 = available@;
                let x = outs[m].clone();
                available.push(x);
                m = m + 1;
                proof {
                    assert(strings_view(outs@).take(m as int) =~= strings_view(outs@).take(m - 1).push(strings_view(outs@)[m - 1]));
                    assert(available@ =~= av0.push(x));
                    assert(strings_view(available@) =~= strings_view(av0).push(x@));
                    strings_view(av0).lemma_push_to_set_commute(x@);
                    strings_view(outs@).take(m - 1).lemma_push_to_set_commute(x@);
                }
            }
            k = k + 1;
            proof {
                assert(strings_view(outs@).take(outs@.len() as int) =~= strings_view(outs@));
                assert(calcs_view(run@).take(k as int).drop_last() =~= calcs_view(run@).take(k - 1));
            }
        }
        assert(calcs_view(run@).take(run@.len() as int) =~= calcs_view(run@));
        out.push(run);
        remaining = blk;
    }
    Ok(out)
}

/// The calculations of `action` in dependency order: the waves one after
/// another.
pub fn order_calcs_flat(action: &ActionSection) -> (r: Result<Vec<Calc>, ParseError>)
    ensures
        match r {
            Ok(v) => spec_order_flat(action@) == Ok::<Seq<SpecCalc>, SpecParseError>(calcs_view(v@)),
            Err(e) => spec_order_flat(action@) == Err::<Seq<SpecCalc>, SpecParseError>(e@),
        },
{
    let waves = order_calcs_by_waves(action)?;
    let mut flat: Vec<Calc> = Vec::new();
    let mut i: usize = 0;
    while i < waves.len()
        invariant
            i <= waves@.len(),
            calcs_view(flat@) == waves_view(waves@).take(i as int).flatten(),
        decreases waves.len() - i,
    {
        let mut j: usize = 0;
        let ghost before = calcs_view(flat@);
        while j < waves[i].len()
            invariant
                j <= waves@[i as int]@.len(),
                i < waves@.len(),
                calcs_view(flat@) == before + calcs_view(waves@[i as int]@).take(j as int),
            decreases waves@[i as int]@.len() - j,
        {
            let ghost f0 = flat@;
            let c = copy_calc(&waves[i][j]);
            flat.push(c);
            j = j + 1;
            proof {
                assert(flat@ =~= f0.push(c));
                assert(calcs_view(flat@) =~= calcs_view(f0).push(c@));
            }
            proof {
                assert(calcs_view(waves@[i as int]@).take(j as int) =~= calcs_view(waves@[i as int]@).take(j - 1).push(calcs_view(waves@[i as int]@)[j - 1]));
                assert(calcs_view(flat@) =~= before + calcs_view(waves@[i as int]@).take(j as int));
            }
        }
        proof {
            assert(calcs_view(waves@[i as int]@).take(j as int) =~= calcs_view(waves@[i as int]@));
            lemma_flatten_push(waves_view(waves@).take(i as int), waves_view(waves@)[i as int]);
            assert(waves_view(waves@).take(i + 1) =~= waves_view(waves@).take(i as int).push(waves_view(waves@)[i as int]));
        }
        i = i + 1;
    }
    assert(waves_view(waves@).take(waves@.len() as int) =~= waves_view(waves@));
    Ok(flat)
}

pub proof fn lemma_flatten_push<A>(s: Seq<Seq<A>>, x: Seq<A>)
    ensures
        s.push(x).flatten() == s.flatten() + x,
    decreases s.len(),
{
    if s.len() == 0 {
        let e = Seq::<Seq<A>>::empty();
        assert(s.push(x).drop_first() =~= e);
        assert(e.flatten() == Seq::<A>::empty());
        assert(s.push(x).first() == x);
        assert(s.push(x).flatten() == x + e.flatten());
        assert(s.push(x).flatten() =~= x);
        assert(s.flatten() + x =~= x);
    } else {
        lemma_flatten_push(s.drop_first(), x);
        assert(s.push(x).drop_first() =~= s.drop_first().push(x));
        assert(s.push(x).flatten() =~= s.first() + (s.drop_first().flatten() + x));
    }
}


/* --------------------------------- laws ---------------------------------- */

/// The calculations an action section lists, none when it has no `CALC`.
pub open spec fn calcs_of(a: SpecActionSection) -> Seq<SpecCalc> {
    match a.calc {
        Some(c) => c,
        None => Seq::empty(),
    }
}

/// The columns available before wave `k`: `avail`, then the outputs of
/// each wave before it.
pub open spec fn avail_before(avail: Set<Seq<char>>, ws: Seq<Seq<SpecCalc>>, k: int) -> Set<Seq<char>>
    decreases k,
{
    if k <= 0 || ws.len() == 0 {
        avail
    } else {
        avail_before(avail.union(outputs_set(ws[0])), ws.drop_first(), k - 1)
    }
}

pub open spec fn all_runnable(avail: Set<Seq<char>>, w: Seq<SpecCalc>) -> bool {
    forall|i: int| 0 <= i < w.len() ==> runnable(avail, #[trigger] w[i])
}

pub open spec fn none_runnable(avail: Set<Seq<char>>, w: Seq<SpecCalc>) -> bool {
    forall|i: int| 0 <= i < w.len() ==> !runnable(avail, #[trigger] w[i])
}

/// Wave `k` of `ws` runs on what the waves before it made available; only
/// the last wave may instead hold calculations none of which can run.
pub open spec fn wave_in_order(avail: Set<Seq<char>>, ws: Seq<Seq<SpecCalc>>, k: int) -> bool {
    &&& ws[k].len() > 0
    &&& (all_runnable(avail_before(avail, ws, k), ws[k])
        || (k == ws.len() - 1 && none_runnable(avail_before(avail, ws, k), ws[k])))
}

proof fn lemma_waves_keep_calcs(avail: Set<Seq<char>>, rem: Seq<SpecCalc>)
    ensures
        waves(avail, rem).flatten().to_multiset() == rem.to_multiset(),
    decreases rem.len(),
{
    broadcast use vstd::seq_lib::lemma_multiset_commutative;
    let ws = waves(avail, rem);
    if rem.len() == 0 {
        assert(ws =~= Seq::<Seq<SpecCalc>>::empty());
        assert(rem =~= Seq::<SpecCalc>::empty());
    } else {
        let (run, blk) = split(avail, rem);
        lemma_split(avail, rem);
        assert((run + blk).to_multiset() == run.to_multiset().add(blk.to_multiset()));
        if run.len() == 0 {
            assert(run + blk =~= blk);
            ws.lemma_flatten_one_element();
        } else {
            let rest = waves(avail.union(outputs_set(run)), blk);
            lemma_waves_keep_calcs(avail.union(outputs_set(run)), blk);
            assert(ws.first() == run);
            assert(ws.drop_first() =~= rest);
            assert(ws.flatten() == run + rest.flatten());
            assert((run + rest.flatten()).to_multiset() == run.to_multiset().add(rest.flatten().to_multiset()));
        }
    }
}

proof fn lemma_waves_in_order(avail: Set<Seq<char>>, rem: Seq<SpecCalc>)
    ensures
        forall|k: int| 0 <= k < waves(avail, rem).len() ==> #[trigger] wave_in_order(avail, waves(avail, rem), k),
    decreases rem.len(),
{
    let ws = waves(avail, rem);
    if rem.len() > 0 {
        let (run, blk) = split(avail, rem);
        lemma_split(avail, rem);
        if run.len() == 0 {
            assert(run + blk =~= blk);
            assert(ws.len() == 1);
            assert(ws[0] == blk);
            assert(avail_before(avail, ws, 0) == avail);
            assert(wave_in_order(avail, ws, 0));
        } else {
            let av2 = avail.union(outputs_set(run));
            let rest = waves(av2, blk);
            lemma_waves_in_order(av2, blk);
            assert(ws[0] == run);
            assert(ws.drop_first() =~= rest);
            assert forall|k: int| 0 <= k < ws.len() implies #[trigger] wave_in_order(avail, ws, k) by {
                if k == 0 {
                    assert(avail_before(avail, ws, 0) == avail);
                } else {
                    assert(avail_before(avail, ws, k) == avail_before(av2, rest, k - 1));
                    assert(ws[k] == rest[k - 1]);
                    assert(wave_in_order(av2, rest, k - 1));
                }
            }
        }
    }
}

proof fn lemma_first_repeat(cs: Seq<SpecCalc>, j: int)
    requires
        0 <= j,
    ensures
        first_repeat_from(cs, j) matches Some(k) ==> j <= k < cs.len() && repeats_alias(cs, k),
        first_repeat_from(cs, j) is None ==> forall|k: int| j <= k < cs.len() ==> !#[trigger] repeats_alias(cs, k),
    decreases cs.len() - j,
{
    if j < cs.len() && !repeats_alias(cs, j) {
        lemma_first_repeat(cs, j + 1);
    }
}

/// Ordering keeps every calculation of the section: the ordered list holds
/// exactly the listed calculations, each as often as it was written.
pub proof fn law_order_keeps_every_calc(a: SpecActionSection)
    requires
        spec_order_flat(a) is Ok,
    ensures
        spec_order_flat(a)->Ok_0.to_multiset() == calcs_of(a).to_multiset(),
{
    lemma_waves_keep_calcs(a.fields.to_set(), calcs_of(a));
}

/// Every wave is non-empty and runs on the pulled fields and the outputs of
/// the waves before it; a stall puts the calculations that can never run,
/// none of which can, in a last wave of their own.
pub proof fn law_waves_respect_dependencies(a: SpecActionSection)
    requires
        spec_order_by_waves(a) is Ok,
    ensures
        forall|k: int| 0 <= k < spec_order_by_waves(a)->Ok_0.len()
            ==> #[trigger] wave_in_order(a.fields.to_set(), spec_order_by_waves(a)->Ok_0, k),
{
    lemma_waves_in_order(a.fields.to_set(), calcs_of(a));
}

/// A section is refused exactly when two of its calculations share an
/// alias, and then with the error that names the alias.
pub proof fn law_order_refuses_repeated_alias(a: SpecActionSection)
    ensures
        spec_order_by_waves(a) is Err <==> exists|i: int, j: int|
            0 <= i < j < calcs_of(a).len() && calcs_of(a)[i].alias == calcs_of(a)[j].alias,
        spec_order_by_waves(a) is Err ==> exists|j: int|
            0 <= j < calcs_of(a).len() && spec_order_by_waves(a)->Err_0 == duplicate_alias_error(#[trigger] calcs_of(a)[j].alias),
{
    let cs = calcs_of(a);
    lemma_first_repeat(cs, 0);
    if exists|i: int, j: int| 0 <= i < j < cs.len() && cs[i].alias == cs[j].alias {
        let (i, j) = choose|i: int, j: int| 0 <= i < j < cs.len() && cs[i].alias == cs[j].alias;
        assert(repeats_alias(cs, j));
    }
    match first_repeat_from(cs, 0) {
        Some(k) => {
            let i = choose|i: int| 0 <= i < k && cs[i].alias == cs[k].alias;
            assert(0 <= i < k < cs.len() && cs[i].alias == cs[k].alias);
        },
        None => {},
    }
}

/// What a calculation makes available: its alias always; `<alias>_pos`
/// and `<alias>_neg` exactly when it is a volatility band (`VOLATILITY` or
/// `DOUBLE_VOLATILITY`); and nothing else: three columns for a band, one
/// otherwise.
pub proof fn law_calc_outputs_by_operation(c: SpecCalc)
    ensures
        outputs_of(c).contains(c.alias),
        outputs_of(c).contains(c.alias + "_pos"@)
            <==> (c.operation == Keyword::Volatility || c.operation == Keyword::DoubleVolatility),
        outputs_of(c).contains(c.alias + "_neg"@)
            <==> (c.operation == Keyword::Volatility || c.operation == Keyword::DoubleVolatility),
        outputs_of(c).len() == if c.operation == Keyword::Volatility || c.operation == Keyword::DoubleVolatility { 3int } else { 1int },
        forall|x: Seq<char>| #[trigger] outputs_of(c).contains(x)
            ==> x == c.alias || x == c.alias + "_pos"@ || x == c.alias + "_neg"@,
{
    reveal_strlit("_pos");
    reveal_strlit("_neg");
    let o = outputs_of(c);
    let a = c.alias;
    let pos = a + "_pos"@;
    let neg = a + "_neg"@;
    assert(pos.len() == a.len() + 4 && neg.len() == a.len() + 4);
    assert(pos != neg) by {
        assert("_pos"@[1] == 'p' && "_neg"@[1] == 'n');
        assert(pos[a.len() as int + 1] == 'p' && neg[a.len() as int + 1] == 'n');
    }
    assert(o[0] == a);
    if c.operation == Keyword::Volatility || c.operation == Keyword::DoubleVolatility {
        assert(o[1] == pos && o[2] == neg);
    } else {
        assert(o =~= seq![a]);
        assert(!o.contains(pos)) by {
            if o.contains(pos) {
                let i = choose|i: int| 0 <= i < o.len() && o[i] == pos;
                assert(o[i] == a);
            }
        }
        assert(!o.contains(neg)) by {
            if o.contains(neg) {
                let i = choose|i: int| 0 <= i < o.len() && o[i] == neg;
                assert(o[i] == a);
            }
        }
    }
    assert forall|x: Seq<char>| #[trigger] o.contains(x) implies x == a || x == pos || x == neg by {
        let i = choose|i: int| 0 <= i < o.len() && o[i] == x;
    }
}

} // verus!
