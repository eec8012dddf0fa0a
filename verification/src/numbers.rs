//! Reading numbers from text, following the grammars that the standard
//! library documents for `u16`, `i32` and `f64` (`FromStr`).

use vstd::prelude::*;
use crate::text::{is_digit, all_digits, chars_of, lower_seq, lower_chars, digit};

verus! {

/// The value of a string of ASCII digits.
pub open spec fn digits_value(s: Seq<char>) -> nat
    decreases s.len(),
{
    if s.len() == 0 {
        0
    } else {
        digits_value(s.drop_last()) * 10 + (s.last() as u32 - '0' as u32) as nat
    }
}

/// The text of an unsigned number: an optional `+`, then at least one digit.
pub open spec fn unsigned_digits(s: Seq<char>) -> Seq<char> {
    if s.len() > 0 && s[0] == '+' { s.skip(1) } else { s }
}

/// What `s.parse::<u16>()` gives: the value when `s` is an optional `+` and
/// one or more digits whose value fits in 16 bits.
pub open spec fn u16_text_value(s: Seq<char>) -> Option<u16> {
    let d = unsigned_digits(s);
    if d.len() > 0 && all_digits(d) && digits_value(d) <= u16::MAX {
        Some(digits_value(d) as u16)
    } else {
        None
    }
}

/// What `s.parse::<i32>()` gives: the value when `s` is an optional sign and
/// one or more digits whose signed value fits in 32 bits.
pub open spec fn i32_text_value(s: Seq<char>) -> Option<i32> {
    let neg = s.len() > 0 && s[0] == '-';
    let d = if s.len() > 0 && (s[0] == '+' || s[0] == '-') { s.skip(1) } else { s };
    if d.len() > 0 && all_digits(d) {
        let v = digits_value(d);
        if !neg && v <= i32::MAX {
            Some(v as i32)
        } else if neg && v <= 0x8000_0000 {
            Some((0 - v) as i32)
        } else {
            None
        }
    } else {
        None
    }
}

proof fn lemma_digits_value_prefix(s: Seq<char>, i: int)
    requires
        0 <= i <= s.len(),
        all_digits(s),
    ensures
        digits_value(s.take(i)) <= digits_value(s),
    decreases s.len() - i,
{
    if i < s.len() {
        lemma_digits_value_prefix(s, i + 1);
        assert(s.take(i + 1).drop_last() =~= s.take(i));
        assert(is_digit(s[i]));
    } else {
        assert(s.take(i) =~= s);
    }
}

/// Reads `cs[from..to]` as digits; `Some` of the value when every character
/// is a digit and the value is at most `limit`.
fn read_digits(cs: &[char], from: usize, to: usize, limit: u64) -> (r: Option<u64>)
    requires
        from <= to <= cs@.len(),
        limit <= u32::MAX,
    ensures
        match r {
            Some(v) => all_digits(cs@.subrange(from as int, to as int))
                && v == digits_value(cs@.subrange(from as int, to as int))
                && v <= limit,
            None => !all_digits(cs@.subrange(from as int, to as int))
                || digits_value(cs@.subrange(from as int, to as int)) > limit,
        },
{
    let ghost whole = cs@.subrange(from as int, to as int);
    let mut v: u64 = 0;
    let mut i = from;
    let mut over = false;
    while i < to
        invariant
            from <= i <= to <= cs@.len(),
            limit <= u32::MAX,
            whole == cs@.subrange(from as int, to as int),
            all_digits(cs@.subrange(from as int, i as int)),
            !over ==> v == digits_value(cs@.subrange(from as int, i as int)) && v <= limit,
            over ==> digits_value(cs@.subrange(from as int, i as int)) > limit,
        decreases to - i,
    {
        let c = cs[i];
        if !digit(c) {
            proof {
                assert(whole[i - from] == c);
                assert(!is_digit(whole[i - from]));
            }
            return None;
        }
        proof {
            let p = cs@.subrange(from as int, i + 1);
            assert(p.drop_last() =~= cs@.subrange(from as int, i as int));
            assert(p.last() == c);
            assert forall|j: int| 0 <= j < p.len() implies #[trigger] is_digit(p[j]) by {
                if j < p.len() - 1 {
                    assert(p[j] == cs@.subrange(from as int, i as int)[j]);
                }
            }
        }
        if !over {
            let d = (c as u32 - '0' as u32) as u64;
            let nv = v * 10 + d;
            if nv > limit {
                over = true;
            } else {
                v = nv;
            }
        } else {
            proof {
                let p = cs@.subrange(from as int, i + 1);
                assert(digits_value(p) >= digits_value(p.drop_last()));
            }
        }
        i = i + 1;
    }
    if over {
        None
    } else {
        Some(v)
    }
}

/// `s.parse::<u16>().ok()`.
pub fn parse_u16(s: &str) -> (r: Option<u16>)
    ensures
        r == u16_text_value(s@),
{
    let cs = chars_of(s);
    let start: usize = if cs.len() > 0 && cs[0] == '+' { 1 } else { 0 };
    proof {
        assert(cs@.subrange(start as int, cs@.len() as int) =~= unsigned_digits(s@));
    }
    if start >= cs.len() {
        return None;
    }
    match read_digits(cs.as_slice(), start, cs.len(), 65535) {
        Some(v) => Some(v as u16),
        None => None,
    }
}

/// `s.parse::<i32>().ok()`.
pub fn parse_i32(s: &str) -> (r: Option<i32>)
    ensures
        r == i32_text_value(s@),
{
    let cs = chars_of(s);
    let signed = cs.len() > 0 && (cs[0] == '+' || cs[0] == '-');
    let neg = cs.len() > 0 && cs[0] == '-';
    let start: usize = if signed { 1 } else { 0 };
    let ghost d = if s@.len() > 0 && (s@[0] == '+' || s@[0] == '-') { s@.skip(1) } else { s@ };
    proof {
        assert(cs@.subrange(start as int, cs@.len() as int) =~= d);
    }
    if start >= cs.len() {
        return None;
    }
    let limit: u64 = if neg { 0x8000_0000 } else { 0x7fff_ffff };
    match read_digits(cs.as_slice(), start, cs.len(), limit) {
        Some(v) => {
            if neg {
                if v == 0x8000_0000 {
                    Some(i32::MIN)
                } else {
                    Some(-(v as i32))
                }
            } else {
                Some(v as i32)
            }
        },
        None => None,
    }
}

/// The index of the first character of `s` for which `p` holds, or the
/// length of `s` when there is none.
pub open spec fn first_where(s: Seq<char>, p: spec_fn(char) -> bool) -> int
    decreases s.len(),
{
    if s.len() == 0 {
        0
    } else if p(s[0]) {
        0
    } else {
        1 + first_where(s.skip(1), p)
    }
}

pub open spec fn is_e(c: char) -> bool {
    c == 'e' || c == 'E'
}

pub open spec fn is_dot(c: char) -> bool {
    c == '.'
}

pub open spec fn is_sign(c: char) -> bool {
    c == '+' || c == '-'
}

/// `Digit+ | Digit+ '.' Digit* | Digit* '.' Digit+`.
pub open spec fn is_mantissa(m: Seq<char>) -> bool {
    let dot = first_where(m, |c: char| is_dot(c));
    if dot == m.len() {
        m.len() > 0 && all_digits(m)
    } else {
        all_digits(m.take(dot)) && all_digits(m.skip(dot + 1)) && m.len() > 1
    }
}

/// `Sign? Digit+`.
pub open spec fn is_exponent(x: Seq<char>) -> bool {
    let d = if x.len() > 0 && is_sign(x[0]) { x.skip(1) } else { x };
    d.len() > 0 && all_digits(d)
}

/// `Number ::= Mantissa Exp?` with `Exp ::= ('e' | 'E') Sign? Digit+`.
pub open spec fn is_number_text(t: Seq<char>) -> bool {
    let e = first_where(t, |c: char| is_e(c));
    is_mantissa(t.take(e)) && (e == t.len() || is_exponent(t.skip(e + 1)))
}

/// The strings that `f64::from_str` accepts, by the grammar in its
/// documentation: an optional sign, then `inf`, `infinity` or `nan` in any
/// case, or a decimal number with an optional exponent. No surrounding
/// whitespace.
pub open spec fn is_float_text(s: Seq<char>) -> bool {
    let t = if s.len() > 0 && is_sign(s[0]) { s.skip(1) } else { s };
    lower_seq(t) == "inf"@ || lower_seq(t) == "infinity"@ || lower_seq(t) == "nan"@
        || is_number_text(t)
}

proof fn lemma_first_where(s: Seq<char>, p: spec_fn(char) -> bool)
    ensures
        0 <= first_where(s, p) <= s.len(),
        forall|j: int| 0 <= j < first_where(s, p) ==> !p(#[trigger] s[j]),
        first_where(s, p) < s.len() ==> p(s[first_where(s, p)]),
    decreases s.len(),
{
    if s.len() > 0 && !p(s[0]) {
        lemma_first_where(s.skip(1), p);
        assert forall|j: int| 0 <= j < first_where(s, p) implies !p(#[trigger] s[j]) by {
            if j > 0 {
                assert(s[j] == s.skip(1)[j - 1]);
            }
        }
    }
}

proof fn lemma_first_where_unique(s: Seq<char>, p: spec_fn(char) -> bool, k: int)
    requires
        0 <= k <= s.len(),
        forall|j: int| 0 <= j < k ==> !p(#[trigger] s[j]),
        k < s.len() ==> p(s[k]),
    ensures
        first_where(s, p) == k,
{
    lemma_first_where(s, p);
    let f = first_where(s, p);
    if f < k {
        assert(!p(s[f]));
    } else if k < f {
        assert(!p(s[k]));
    }
}

/// The first index in `cs[from..to]` (relative to `from`) holding `a` or `b`.
fn find_either(cs: &[char], from: usize, to: usize, a: char, b: char) -> (r: usize)
    requires
        from <= to <= cs@.len(),
    ensures
        from <= r <= to,
        forall|j: int| from <= j < r ==> cs@[j] != a && cs@[j] != b,
        r < to ==> cs@[r as int] == a || cs@[r as int] == b,
{
    let mut i = from;
    while i < to
        invariant
            from <= i <= to <= cs@.len(),
            forall|j: int| from <= j < i ==> cs@[j] != a && cs@[j] != b,
        decreases to - i,
    {
        if cs[i] == a || cs[i] == b {
            return i;
        }
        i = i + 1;
    }
    i
}

pub fn all_digits_in(cs: &[char], from: usize, to: usize) -> (r: bool)
    requires
        from <= to <= cs@.len(),
    ensures
        r == all_digits(cs@.subrange(from as int, to as int)),
{
    let mut i = from;
    while i < to
        invariant
            from <= i <= to <= cs@.len(),
            forall|j: int| from <= j < i ==> is_digit(cs@[j]),
        decreases to - i,
    {
        if !digit(cs[i]) {
            assert(!is_digit(cs@.subrange(from as int, to as int)[i - from]));
            return false;
        }
        i = i + 1;
    }
    assert forall|j: int| 0 <= j < to - from implies #[trigger] is_digit(cs@.subrange(from as int, to as int)[j]) by {
        assert(cs@.subrange(from as int, to as int)[j] == cs@[from + j]);
    }
    true
}

/// Whether `cs[from..to]` is a mantissa.
fn mantissa_in(cs: &[char], from: usize, to: usize) -> (r: bool)
    requires
        from <= to <= cs@.len(),
    ensures
        r == is_mantissa(cs@.subrange(from as int, to as int)),
{
    let ghost m = cs@.subrange(from as int, to as int);
    let dot = find_either(cs, from, to, '.', '.');
    proof {
        assert forall|j: int| 0 <= j < dot - from implies !is_dot(#[trigger] m[j]) by {
            assert(m[j] == cs@[from + j]);
        }
        lemma_first_where_unique(m, |c: char| is_dot(c), dot - from);
        assert(cs@.subrange(from as int, dot as int) =~= m.take(dot - from));
    }
    if dot == to {
        to > from && all_digits_in(cs, from, to)
    } else {
        proof {
            assert(cs@.subrange(dot + 1, to as int) =~= m.skip(dot - from + 1));
        }
        all_digits_in(cs, from, dot) && all_digits_in(cs, dot + 1, to) && to - from > 1
    }
}

/// Whether `cs[from..to]` is an exponent (after the `e`).
fn exponent_in(cs: &[char], from: usize, to: usize) -> (r: bool)
    requires
        from <= to <= cs@.len(),
    ensures
        r == is_exponent(cs@.subrange(from as int, to as int)),
{
    let ghost x = cs@.subrange(from as int, to as int);
    let start = if from < to && (cs[from] == '+' || cs[from] == '-') { from + 1 } else { from };
    proof {
        if from < to {
            assert(x[0] == cs@[from as int]);
        }
        assert(cs@.subrange(start as int, to as int) =~= (if x.len() > 0 && is_sign(x[0]) { x.skip(1) } else { x }));
    }
    start < to && all_digits_in(cs, start, to)
}

/// Whether `f64::from_str` accepts `s` (see `is_float_text`).
pub fn float_text(s: &str) -> (r: bool)
    ensures
        r == is_float_text(s@),
{
    let cs = chars_of(s);
    let n = cs.len();
    let start: usize = if n > 0 && (cs[0] == '+' || cs[0] == '-') { 1 } else { 0 };
    let ghost t = if s@.len() > 0 && is_sign(s@[0]) { s@.skip(1) } else { s@ };
    proof {
        assert(cs@.subrange(start as int, n as int) =~= t);
    }
    let lc = lower_chars(cs.as_slice());
    let ghost lt = lower_seq(t);
    proof {
        assert(lc@.subrange(start as int, n as int) =~= lt);
    }
    let word = word_of(&lc, start);
    proof {
        assert(word@ =~= lt);
    }
    if crate::text::str_eq(word.as_str(), "inf") || crate::text::str_eq(word.as_str(), "infinity")
        || crate::text::str_eq(word.as_str(), "nan") {
        return true;
    }
    let e = find_either(cs.as_slice(), start, n, 'e', 'E');
    proof {
        assert forall|j: int| 0 <= j < e - start implies !is_e(#[trigger] t[j]) by {
            assert(t[j] == cs@[start + j]);
        }
        if e < n {
            assert(t[e - start] == cs@[e as int]);
        }
        lemma_first_where_unique(t, |c: char| is_e(c), e - start);
        assert(cs@.subrange(start as int, e as int) =~= t.take(e - start));
    }
    if !mantissa_in(cs.as_slice(), start, e) {
        return false;
    }
    if e == n {
        return true;
    }
    proof {
        assert(cs@.subrange(e + 1, n as int) =~= t.skip(e - start + 1));
    }
    exponent_in(cs.as_slice(), e + 1, n)
}

fn word_of(v: &Vec<char>, from: usize) -> (s: String)
    requires
        from <= v@.len(),
    ensures
        s@ == v@.subrange(from as int, v@.len() as int),
{
    crate::text::string_of(v.as_slice(), from, v.len())
}

} // verus!
