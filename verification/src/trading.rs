//! The trade scan of the engine: where trades open and close over the rows
//! of a frame, given, for each row, whether the entry and exit conditions
//! hold and whether the stop loss is hit. The conditions compare prices,
//! so they are computed outside the library; here is what follows from
//! them.

use vstd::prelude::*;
use crate::text::{chars_of, string_of, owned, concat, push_char};

verus! {

/* ------------------------------ key columns ------------------------------ */

/// The index of the first `'.'` in `s`, if any.
pub open spec fn first_dot(s: Seq<char>) -> Option<int> {
    if exists|i: int| 0 <= i < s.len() && s[i] == '.' {
        Some(choose|i: int| 0 <= i < s.len() && s[i] == '.' && forall|j: int| 0 <= j < i ==> s[j] != '.')
    } else {
        None
    }
}

/// `frame.column` split at its first dot.
pub open spec fn spec_split_key_col(s: Seq<char>) -> Result<(Seq<char>, Seq<char>), Seq<char>> {
    match first_dot(s) {
        Some(i) => Ok((s.take(i), s.skip(i + 1))),
        None => Err("missing column name"@),
    }
}

/// Splits `frame.column` into the frame key and the column name, at the
/// first dot.
pub fn split_key_col(s: &str) -> (r: Result<(String, String), String>)
    ensures
        match r {
            Ok(p) => spec_split_key_col(s@) == Ok::<(Seq<char>, Seq<char>), Seq<char>>((p.0@, p.1@)),
            Err(e) => spec_split_key_col(s@) == Err::<(Seq<char>, Seq<char>), Seq<char>>(e@),
        },
{
    let cs = chars_of(s);
    let mut i: usize = 0;
    while i < cs.len()
        invariant
            cs@ == s@,
            i <= cs@.len(),
            forall|j: int| 0 <= j < i ==> cs@[j] != '.',
        decreases cs.len() - i,
    {
        if cs[i] == '.' {
            let frame = string_of(cs.as_slice(), 0, i);
            let column = string_of(cs.as_slice(), i + 1, cs.len());
            proof {
                let k = first_dot(s@)->Some_0;
                assert(s@[i as int] == '.');
                assert(k == i) by {
                    if k < i {
                        assert(cs@[k] != '.');
                    }
                    if k > i {
                        assert(s@[i as int] != '.');
                    }
                }
                assert(cs@.subrange(0, i as int) =~= s@.take(i as int));
                assert(cs@.subrange(i + 1, cs@.len() as int) =~= s@.skip(i + 1));
            }
            return Ok((frame, column));
        }
        i = i + 1;
    }
    Err(owned("missing column name"))
}

/* ------------------------------ decimal text ----------------------------- */

pub open spec fn digit_char(d: nat) -> char {
    ((d % 10) + 48) as char
}

/// The decimal digits of `n`, most significant first, without leading
/// zeros (`"0"` for zero).
pub open spec fn decimal(n: nat) -> Seq<char>
    decreases n,
{
    if n < 10 {
        seq![digit_char(n)]
    } else {
        decimal(n / 10).push(digit_char(n % 10))
    }
}

fn push_decimal(s: &mut String, n: usize)
    ensures
        final(s)@ == old(s)@ + decimal(n as nat),
    decreases n,
{
    if n >= 10 {
        push_decimal(s, n / 10);
    }
    let d = (n % 10) as u8;
    let c = (d + 48) as char;
    assert(c == digit_char(n as nat));
    push_char(s, c);
    assert(s@ =~= old(s)@ + decimal(n as nat));
}

/// The decimal text of `n`.
pub fn decimal_text(n: usize) -> (r: String)
    ensures
        r@ == decimal(n as nat),
{
    let mut s = String::new();
    push_decimal(&mut s, n);
    assert(s@ =~= decimal(n as nat));
    s
}

/* ----------------------------- column heights ---------------------------- */

/// The common height of the entry and exit columns, given each column's
/// length: the first column's (zero without columns) when every column of
/// its side has it and both sides agree.
pub open spec fn spec_same_height(a: Seq<usize>, b: Seq<usize>) -> Result<usize, Seq<char>> {
    let ah: usize = if a.len() > 0 { a[0] } else { 0 };
    let bh: usize = if b.len() > 0 { b[0] } else { 0 };
    if !(forall|i: int| 0 <= i < a.len() ==> a[i] == ah) {
        Err("entry columns have mismatched lengths"@)
    } else if !(forall|i: int| 0 <= i < b.len() ==> b[i] == bh) {
        Err("exit columns have mismatched lengths"@)
    } else if ah != bh {
        Err("entry/exit heights differ (entry: "@ + decimal(ah as nat) + ", exit: "@ + decimal(bh as nat) + ")"@)
    } else {
        Ok(ah)
    }
}

fn all_equal(v: &Vec<usize>, h: usize) -> (r: bool)
    ensures
        r == (forall|i: int| 0 <= i < v@.len() ==> v@[i] == h),
{
    let mut i: usize = 0;
    while i < v.len()
        invariant
            i <= v@.len(),
            forall|j: int| 0 <= j < i ==> v@[j] == h,
        decreases v.len() - i,
    {
        if v[i] != h {
            return false;
        }
        i = i + 1;
    }
    true
}

/// The height shared by the entry columns (of lengths `entry_lens`) and the
/// exit columns (of lengths `exit_lens`), or why there is none.
pub fn ensure_same_height(entry_lens: &Vec<usize>, exit_lens: &Vec<usize>) -> (r: Result<usize, String>)
    ensures
        match r {
            Ok(h) => spec_same_height(entry_lens@, exit_lens@) == Ok::<usize, Seq<char>>(h),
            Err(e) => spec_same_height(entry_lens@, exit_lens@) == Err::<usize, Seq<char>>(e@),
        },
{
    let ah: usize = if entry_lens.len() > 0 { entry_lens[0] } else { 0 };
    let bh: usize = if exit_lens.len() > 0 { exit_lens[0] } else { 0 };
    if !all_equal(entry_lens, ah) {
        return Err(owned("entry columns have mismatched lengths"));
    }
    if !all_equal(exit_lens, bh) {
        return Err(owned("exit columns have mismatched lengths"));
    }
    if ah != bh {
        let a = concat("entry/exit heights differ (entry: ", decimal_text(ah).as_str());
        let b = concat(a.as_str(), ", exit: ");
        let c = concat(b.as_str(), decimal_text(bh).as_str());
        return Err(concat(c.as_str(), ")"));
    }
    Ok(ah)
}

/* --------------------------------- scan ---------------------------------- */

/// How a trade was closed: by the exit condition or at the end of the
/// holding period, or by the stop loss.
#[derive(Debug, Clone, Copy, PartialEq, Eq, Structural)]
pub enum CloseKind {
    Exit,
    Limit,
}

/// What the scan reads, row by row: whether the entry condition holds,
/// whether the exit condition holds, and for each look-ahead `la` from 1
/// (at index `la - 1`) whether the first exit column at `row + la` is
/// below the stop-loss price of an entry at `row`.
pub struct Signals {
    pub entry_ok: Vec<bool>,
    pub exit_ok: Vec<bool>,
    pub below_limit: Vec<Vec<bool>>,
}

pub open spec fn window(n: int, hold: int, row: int) -> int {
    if hold < n - 1 - row { hold } else { n - 1 - row }
}

impl Signals {
    /// Every row has its flags, and each row where the entry condition
    /// holds a stop-loss flag for each look-ahead that stays inside the
    /// frame.
    pub open spec fn fits(&self, n: int, hold: int) -> bool {
        &&& self.entry_ok@.len() == n
        &&& self.exit_ok@.len() == n
        &&& self.below_limit@.len() == n
        &&& forall|r: int| 0 <= r < n && self.entry_ok@[r] ==> #[trigger] self.below_limit@[r]@.len() >= window(n, hold, r)
    }
}

/// The first look-ahead from `la` on at which the trade opened at `row`
/// closes: the exit condition is checked before the stop loss.
pub open spec fn close_from(s: Signals, n: int, hold: int, row: int, la: int) -> Option<(int, CloseKind)>
    decreases hold + 1 - la,
{
    if la < 1 || la > hold || row + la >= n {
        None
    } else if s.exit_ok@[row + la] {
        Some((row + la, CloseKind::Exit))
    } else if s.below_limit@[row]@[la - 1] {
        Some((row + la, CloseKind::Limit))
    } else {
        close_from(s, n, hold, row, la + 1)
    }
}

/// Where and how the trade opened at `row` closes: at the first signal
/// within the holding period, else at its end (or the last row).
pub open spec fn close_of(s: Signals, n: int, hold: int, row: int) -> (int, CloseKind) {
    match close_from(s, n, hold, row, 1) {
        Some(c) => c,
        None => (if row + hold < n - 1 { row + hold } else { n - 1 }, CloseKind::Exit),
    }
}

/// The trades opened from `row` on: each row where the entry condition
/// holds opens one, and the scan resumes a holding period (at least one
/// row) later.
pub open spec fn trades_from(s: Signals, n: int, hold: int, row: int) -> Seq<(int, int, CloseKind)>
    decreases n - row,
{
    if row < 0 || row >= n {
        Seq::empty()
    } else if !s.entry_ok@[row] {
        trades_from(s, n, hold, row + 1)
    } else {
        let c = close_of(s, n, hold, row);
        seq![(row, c.0, c.1)] + trades_from(s, n, hold, next_row(n, hold, row))
    }
}

/// All trades over a frame of `n` rows with `width_entry` entry and
/// `width_exit` exit columns: none without rows, without two entry columns
/// to compare, or without an exit column.
pub open spec fn spec_trades(s: Signals, n: int, width_entry: int, width_exit: int, hold: int) -> Seq<(int, int, CloseKind)> {
    if n == 0 || width_entry < 2 || width_exit < 1 {
        Seq::empty()
    } else {
        trades_from(s, n, hold, 0)
    }
}

pub open spec fn trades_view(v: Seq<(usize, usize, CloseKind)>) -> Seq<(int, int, CloseKind)> {
    v.map_values(|t: (usize, usize, CloseKind)| (t.0 as int, t.1 as int, t.2))
}

/// Where the trade opened at `row` closes.
fn find_close(s: &Signals, n: usize, hold: usize, row: usize) -> (r: (usize, CloseKind))
    requires
        s.fits(n as int, hold as int),
        row < n,
        s.entry_ok@[row as int],
        n + hold <= usize::MAX,
    ensures
        (r.0 as int, r.1) == close_of(*s, n as int, hold as int, row as int),
{
    let mut la: usize = 1;
    while la <= hold
        invariant
            s.fits(n as int, hold as int),
            row < n,
            s.entry_ok@[row as int],
            n + hold <= usize::MAX,
            1 <= la <= hold + 1,
            close_from(*s, n as int, hold as int, row as int, la as int) == close_from(*s, n as int, hold as int, row as int, 1),
        ensures
            close_from(*s, n as int, hold as int, row as int, 1) is None,
        decreases hold + 1 - la,
    {
        let idx = row + la;
        if idx >= n {
            break;
        }
        if s.exit_ok[idx] {
            return (idx, CloseKind::Exit);
        }
        assert(s.below_limit@[row as int]@.len() >= window(n as int, hold as int, row as int));
        if s.below_limit[row][la - 1] {
            return (idx, CloseKind::Limit);
        }
        la = la + 1;
    }
    let end = if row + hold < n - 1 { row + hold } else { n - 1 };
    (end, CloseKind::Exit)
}

/// The trades over a frame of `n` rows: for each, its entry row, its
/// close row and how it closed, in the order they were opened.
pub fn scan_trades(s: &Signals, n: usize, width_entry: usize, width_exit: usize, hold: usize) -> (r: Vec<(usize, usize, CloseKind)>)
    requires
        s.fits(n as int, hold as int),
        n + hold <= usize::MAX,
    ensures
        trades_view(r@) == spec_trades(*s, n as int, width_entry as int, width_exit as int, hold as int),
{
    let mut out: Vec<(usize, usize, CloseKind)> = Vec::new();
    if n == 0 || width_entry < 2 || width_exit < 1 {
        assert(trades_view(out@) =~= Seq::<(int, int, CloseKind)>::empty());
        return out;
    }
    let ghost total = trades_from(*s, n as int, hold as int, 0);
    let mut row: usize = 0;
    while row < n
        invariant
            s.fits(n as int, hold as int),
            n + hold <= usize::MAX,
            row <= n,
            total == trades_from(*s, n as int, hold as int, 0),
            trades_view(out@) + trades_from(*s, n as int, hold as int, row as int) == total,
        decreases n - row,
    {
        if !s.entry_ok[row] {
            row = row + 1;
        } else {
            let c = find_close(s, n, hold, row);
            let ghost before = out@;
            out.push((row, c.0, c.1));
            let step = if hold > 1 { hold } else { 1 };
            let next = if row + step < n { row + step } else { n };
            proof {
                assert(trades_view(out@) =~= trades_view(before).push((row as int, c.0 as int, c.1)));
                assert(trades_view(out@) + trades_from(*s, n as int, hold as int, next as int)
                    =~= trades_view(before) + trades_from(*s, n as int, hold as int, row as int));
            }
            row = next;
        }
    }
    assert(trades_from(*s, n as int, hold as int, row as int) =~= Seq::<(int, int, CloseKind)>::empty());
    assert(trades_view(out@) + Seq::<(int, int, CloseKind)>::empty() =~= trades_view(out@));
    out
}


/* --------------------------------- laws ---------------------------------- */

proof fn lemma_close_from(s: Signals, n: int, hold: int, row: int, la: int)
    requires
        1 <= la,
    ensures
        close_from(s, n, hold, row, la) matches Some(c) ==> row + la <= c.0 <= row + hold && c.0 < n,
    decreases hold + 1 - la,
{
    if !(la < 1 || la > hold || row + la >= n) && !s.exit_ok@[row + la] && !s.below_limit@[row]@[la - 1] {
        lemma_close_from(s, n, hold, row, la + 1);
    }
}

/// The trade opened at `row` closes between its entry row and the end of
/// its holding period, inside the frame; a stop loss only after the entry.
proof fn lemma_close_of(s: Signals, n: int, hold: int, row: int)
    requires
        0 <= row < n,
        0 <= hold,
    ensures
        row <= close_of(s, n, hold, row).0 <= row + hold,
        close_of(s, n, hold, row).0 < n,
        close_of(s, n, hold, row).1 == CloseKind::Limit ==> row < close_of(s, n, hold, row).0,
{
    lemma_close_from(s, n, hold, row, 1);
}

/// A trade opened at `e` with its close: the entry condition held there,
/// and it closes between `e` and the end of its holding period.
pub open spec fn trade_ok(s: Signals, n: int, hold: int, t: (int, int, CloseKind)) -> bool {
    &&& 0 <= t.0 < n
    &&& s.entry_ok@[t.0]
    &&& t.0 <= t.1 <= t.0 + hold
    &&& t.1 < n
    &&& t == (t.0, close_of(s, n, hold, t.0).0, close_of(s, n, hold, t.0).1)
}

/// Trade `k + 1` opens a holding period (at least one row) after trade `k`
/// opened, and so after trade `k` closed.
pub open spec fn apart(hold: int, a: (int, int, CloseKind), b: (int, int, CloseKind)) -> bool {
    &&& b.0 >= a.0 + (if hold > 1 { hold } else { 1 })
    &&& a.1 <= b.0
}

/// The trades from `row` on, one step: none past the end, the trades from
/// the next row when `row` opens none, else the trade opened at `row`
/// followed by those from a holding period later.
proof fn lemma_trades_step(s: Signals, n: int, hold: int, row: int)
    requires
        0 <= row < n,
    ensures
        !s.entry_ok@[row] ==> trades_from(s, n, hold, row) == trades_from(s, n, hold, row + 1),
        s.entry_ok@[row] ==> trades_from(s, n, hold, row) == seq![(row, close_of(s, n, hold, row).0, close_of(s, n, hold, row).1)]
            + trades_from(s, n, hold, next_row(n, hold, row)),
{
}

/// Where the scan resumes after a trade opened at `row`.
pub open spec fn next_row(n: int, hold: int, row: int) -> int {
    let step = if hold > 1 { hold } else { 1 };
    if row + step < n { row + step } else { n }
}

proof fn lemma_trades_ok(s: Signals, n: int, hold: int, row: int)
    requires
        0 <= row,
        0 <= hold,
    ensures
        forall|k: int| 0 <= k < trades_from(s, n, hold, row).len() ==> {
            &&& trade_ok(s, n, hold, #[trigger] trades_from(s, n, hold, row)[k])
            &&& row <= trades_from(s, n, hold, row)[k].0
        },
    decreases n - row,
{
    if 0 <= row < n {
        lemma_trades_step(s, n, hold, row);
        if !s.entry_ok@[row] {
            lemma_trades_ok(s, n, hold, row + 1);
        } else {
            let ts = trades_from(s, n, hold, row);
            let rest = trades_from(s, n, hold, next_row(n, hold, row));
            lemma_close_of(s, n, hold, row);
            lemma_trades_ok(s, n, hold, next_row(n, hold, row));
            assert forall|k: int| 0 <= k < ts.len() implies {
                &&& trade_ok(s, n, hold, #[trigger] ts[k])
                &&& row <= ts[k].0
            } by {
                if k > 0 {
                    assert(ts[k] == rest[k - 1]);
                }
            }
        }
    }
}

proof fn lemma_trades_apart(s: Signals, n: int, hold: int, row: int)
    requires
        0 <= row,
        0 <= hold,
    ensures
        forall|k: int| 0 <= k < trades_from(s, n, hold, row).len() - 1 ==>
            apart(hold, #[trigger] trades_from(s, n, hold, row)[k], trades_from(s, n, hold, row)[k + 1]),
    decreases n - row,
{
    if 0 <= row < n {
        lemma_trades_step(s, n, hold, row);
        if !s.entry_ok@[row] {
            lemma_trades_apart(s, n, hold, row + 1);
        } else {
            let nr = next_row(n, hold, row);
            let ts = trades_from(s, n, hold, row);
            let rest = trades_from(s, n, hold, nr);
            lemma_close_of(s, n, hold, row);
            lemma_trades_apart(s, n, hold, nr);
            lemma_trades_ok(s, n, hold, nr);
            assert forall|k: int| 0 <= k < ts.len() - 1 implies apart(hold, #[trigger] ts[k], ts[k + 1]) by {
                if k > 0 {
                    assert(ts[k] == rest[k - 1]);
                    assert(ts[k + 1] == rest[k]);
                } else {
                    assert(ts[1] == rest[0]);
                    assert(nr <= rest[0].0);
                }
            }
        }
    }
}

/// Row `r` lies within the holding period of a trade of `ts`.
pub open spec fn covered(hold: int, ts: Seq<(int, int, CloseKind)>, r: int) -> bool {
    exists|k: int| 0 <= k < ts.len() && (#[trigger] ts[k]).0 <= r < ts[k].0 + (if hold > 1 { hold } else { 1 })
}

proof fn lemma_trades_cover(s: Signals, n: int, hold: int, row: int)
    requires
        0 <= row,
        0 <= hold,
    ensures
        forall|r: int| row <= r < n && s.entry_ok@[r] ==> #[trigger] covered(hold, trades_from(s, n, hold, row), r),
    decreases n - row,
{
    if 0 <= row < n {
        lemma_trades_step(s, n, hold, row);
        let ts = trades_from(s, n, hold, row);
        if !s.entry_ok@[row] {
            lemma_trades_cover(s, n, hold, row + 1);
            assert forall|r: int| row <= r < n && s.entry_ok@[r] implies #[trigger] covered(hold, ts, r) by {
                assert(r != row);
                assert(covered(hold, trades_from(s, n, hold, row + 1), r));
            }
        } else {
            let nr = next_row(n, hold, row);
            let rest = trades_from(s, n, hold, nr);
            lemma_trades_cover(s, n, hold, nr);
            assert forall|r: int| row <= r < n && s.entry_ok@[r] implies #[trigger] covered(hold, ts, r) by {
                if r < nr {
                    assert(ts[0].0 == row);
                } else {
                    assert(covered(hold, rest, r));
                    let k = choose|k: int| 0 <= k < rest.len() && (#[trigger] rest[k]).0 <= r < rest[k].0 + (if hold > 1 { hold } else { 1 });
                    assert(ts[k + 1] == rest[k]);
                }
            }
        }
    }
}

/// Every trade opens on a row where the entry condition holds and closes
/// where `close_of` says, between its entry and the end of its holding
/// period; trades come in order, each opening a holding period (at least
/// one row) after the one before and after that one closed; and every row
/// where the entry condition holds opens a trade or lies within the
/// holding period of one.
pub proof fn law_trade_scan(s: Signals, n: int, width_entry: int, width_exit: int, hold: int)
    requires
        0 <= hold,
        n > 0,
        width_entry >= 2,
        width_exit >= 1,
    ensures
        forall|k: int| 0 <= k < spec_trades(s, n, width_entry, width_exit, hold).len()
            ==> trade_ok(s, n, hold, #[trigger] spec_trades(s, n, width_entry, width_exit, hold)[k]),
        forall|k: int| 0 <= k < spec_trades(s, n, width_entry, width_exit, hold).len() - 1
            ==> apart(hold, #[trigger] spec_trades(s, n, width_entry, width_exit, hold)[k],
                spec_trades(s, n, width_entry, width_exit, hold)[k + 1]),
        forall|r: int| 0 <= r < n && s.entry_ok@[r]
            ==> #[trigger] covered(hold, spec_trades(s, n, width_entry, width_exit, hold), r),
{
    lemma_trades_ok(s, n, hold, 0);
    lemma_trades_apart(s, n, hold, 0);
    lemma_trades_cover(s, n, hold, 0);
}

/// No signal at look-ahead `la` of the trade opened at `row`: neither the
/// exit condition on row `row + la` nor the stop loss.
pub open spec fn quiet_at(s: Signals, row: int, la: int) -> bool {
    !s.exit_ok@[row + la] && !s.below_limit@[row]@[la - 1]
}

proof fn lemma_quiet_until(s: Signals, n: int, hold: int, row: int, j: int, la: int)
    requires
        1 <= j <= la <= hold,
        row + la < n,
        forall|k: int| 1 <= k < la ==> #[trigger] quiet_at(s, row, k),
    ensures
        close_from(s, n, hold, row, j) == close_from(s, n, hold, row, la),
    decreases la - j,
{
    if j < la {
        assert(quiet_at(s, row, j));
        lemma_quiet_until(s, n, hold, row, j + 1, la);
    }
}

/// A trade closes at the first look-ahead within its holding period (and
/// the frame) at which a signal comes: by its exit condition when that
/// holds there, else by its stop loss. Every look-ahead counts, the last
/// one of the holding period too.
pub proof fn law_trade_closes_at_first_signal(s: Signals, n: int, hold: int, row: int, la: int)
    requires
        0 <= row,
        1 <= la <= hold,
        row + la < n,
        forall|k: int| 1 <= k < la ==> #[trigger] quiet_at(s, row, k),
        !quiet_at(s, row, la),
    ensures
        close_of(s, n, hold, row) == (row + la, if s.exit_ok@[row + la] { CloseKind::Exit } else { CloseKind::Limit }),
{
    lemma_quiet_until(s, n, hold, row, 1, la);
}

proof fn lemma_quiet_to_end(s: Signals, n: int, hold: int, row: int, j: int)
    requires
        1 <= j,
        forall|k: int| 1 <= k <= hold && row + k < n ==> #[trigger] quiet_at(s, row, k),
    ensures
        close_from(s, n, hold, row, j) is None,
    decreases hold + 1 - j,
{
    if !(j > hold || row + j >= n) {
        assert(quiet_at(s, row, j));
        lemma_quiet_to_end(s, n, hold, row, j + 1);
    }
}

/// Without any signal in its holding period, a trade closes at the end of
/// that period (or on the last row of the frame), as a plain exit.
pub proof fn law_trade_closes_at_end_of_hold(s: Signals, n: int, hold: int, row: int)
    requires
        0 <= row < n,
        forall|k: int| 1 <= k <= hold && row + k < n ==> #[trigger] quiet_at(s, row, k),
    ensures
        close_of(s, n, hold, row) == (if row + hold < n - 1 { row + hold } else { n - 1 }, CloseKind::Exit),
{
    lemma_quiet_to_end(s, n, hold, row, 1);
}

/* --------------------------------- marks --------------------------------- */

/// A lower-case hexadecimal digit.
pub open spec fn is_lower_hex(c: char) -> bool {
    ('0' <= c && c <= '9') || ('a' <= c && c <= 'f')
}

/// `s` is the text of a version 4 UUID: 36 characters, hyphens at 8, 13,
/// 18 and 23, lower-case hexadecimal digits elsewhere, the version digit
/// `4` at 14 and the variant digit (`8`, `9`, `a` or `b`) at 19.
pub open spec fn is_uuid_v4_text(s: Seq<char>) -> bool {
    &&& s.len() == 36
    &&& forall|i: int| 0 <= i < 36 ==> if i == 8 || i == 13 || i == 18 || i == 23 {
        #[trigger] s[i] == '-'
    } else {
        is_lower_hex(s[i])
    }
    &&& s[14] == '4'
    &&& (s[19] == '8' || s[19] == '9' || s[19] == 'a' || s[19] == 'b')
}

/// A fresh trade id: the text of a random UUID, from `uuid::Uuid::new_v4`
/// and its `Display`, which writes the hyphenated lower-case form with the
/// version and variant bits set. Which UUID comes is left open: it is
/// random.
#[verifier::external_body]
fn new_trade_id() -> (r: String)
    ensures
        is_uuid_v4_text(r@),
{
    uuid::Uuid::new_v4().to_string()
}

/// The trade columns of a frame: for each row, the id of the trade that
/// opens there, that closes there by its exit condition or at the end of
/// its holding period, and that closes there by its stop loss.
pub struct TradeMarks {
    pub ids: Vec<String>,
    pub entry: Vec<Option<String>>,
    pub exit: Vec<Option<String>>,
    pub limit: Vec<Option<String>>,
}

pub open spec fn opt_view(v: Seq<Option<String>>) -> Seq<Option<Seq<char>>> {
    v.map_values(|o: Option<String>| match o { Some(x) => Some(x@), None => None })
}

/// The three columns after marking the first `k` trades in order, each
/// with its id: a later mark on a row replaces an earlier one.
pub open spec fn marks(n: int, ts: Seq<(int, int, CloseKind)>, ids: Seq<Seq<char>>, k: int)
    -> (Seq<Option<Seq<char>>>, Seq<Option<Seq<char>>>, Seq<Option<Seq<char>>>)
    decreases k,
{
    if k <= 0 {
        (Seq::new(n as nat, |i: int| None), Seq::new(n as nat, |i: int| None), Seq::new(n as nat, |i: int| None))
    } else {
        let (e, x, l) = marks(n, ts, ids, k - 1);
        let t = ts[k - 1];
        let id = Some(ids[k - 1]);
        match t.2 {
            CloseKind::Exit => (e.update(t.0, id), x.update(t.1, id), l),
            CloseKind::Limit => (e.update(t.0, id), x, l.update(t.1, id)),
        }
    }
}

/// The trades over a frame of `n` rows marked in three columns, each trade
/// under a fresh id: its entry row in `entry`, its close row in `exit` or,
/// for a stop loss, in `limit`.
pub fn mark_trades(s: &Signals, n: usize, width_entry: usize, width_exit: usize, hold: usize) -> (r: TradeMarks)
    requires
        s.fits(n as int, hold as int),
        n + hold <= usize::MAX,
    ensures
        r.ids@.len() == spec_trades(*s, n as int, width_entry as int, width_exit as int, hold as int).len(),
        (opt_view(r.entry@), opt_view(r.exit@), opt_view(r.limit@)) == marks(
            n as int,
            spec_trades(*s, n as int, width_entry as int, width_exit as int, hold as int),
            r.ids@.map_values(|x: String| x@),
            r.ids@.len() as int,
        ),
        forall|k: int| 0 <= k < r.ids@.len() ==> is_uuid_v4_text(#[trigger] r.ids@[k]@),
{
    let trades = scan_trades(s, n, width_entry, width_exit, hold);
    let ghost ts = spec_trades(*s, n as int, width_entry as int, width_exit as int, hold as int);
    proof {
        lemma_trades_bounded(*s, n as int, width_entry as int, width_exit as int, hold as int);
    }
    let mut entry: Vec<Option<String>> = Vec::new();
    let mut exit: Vec<Option<String>> = Vec::new();
    let mut limit: Vec<Option<String>> = Vec::new();
    let mut i: usize = 0;
    while i < n
        invariant
            i <= n,
            entry@.len() == i && exit@.len() == i && limit@.len() == i,
            forall|j: int| 0 <= j < i ==> entry@[j] is None && exit@[j] is None && limit@[j] is None,
        decreases n - i,
    {
        entry.push(None);
        exit.push(None);
        limit.push(None);
        i = i + 1;
    }
    proof {
        let m0 = marks(n as int, ts, Seq::empty(), 0);
        assert(opt_view(entry@) =~= m0.0);
        assert(opt_view(exit@) =~= m0.1);
        assert(opt_view(limit@) =~= m0.2);
    }
    let mut ids: Vec<String> = Vec::new();
    let mut k: usize = 0;
    while k < trades.len()
        invariant
            trades_view(trades@) == ts,
            forall|j: int| 0 <= j < ts.len() ==> 0 <= #[trigger] ts[j].0 < n && ts[j].1 < n && 0 <= ts[j].1,
            k <= trades@.len(),
            ids@.len() == k,
            forall|j: int| 0 <= j < ids@.len() ==> is_uuid_v4_text(#[trigger] ids@[j]@),
            entry@.len() == n && exit@.len() == n && limit@.len() == n,
            (opt_view(entry@), opt_view(exit@), opt_view(limit@))
                == marks(n as int, ts, ids@.map_values(|x: String| x@), k as int),
        decreases trades.len() - k,
    {
        let (e, c, kind) = trades[k];
        assert(ts[k as int] == (e as int, c as int, kind));
        let id = new_trade_id();
        let ghost before = ids@.map_values(|x: String| x@);
        let ghost old_e = opt_view(entry@);
        let ghost old_x = opt_view(exit@);
        let ghost old_l = opt_view(limit@);
        entry.set(e, Some(id.clone()));
        match kind {
            CloseKind::Exit => { exit.set(c, Some(id.clone())); },
            CloseKind::Limit => { limit.set(c, Some(id.clone())); },
        }
        ids.push(id);
        k = k + 1;
        proof {
            let after = ids@.map_values(|x: String| x@);
            assert(after =~= before.push(ids@[k - 1]@));
            assert forall|j: int| 0 <= j < k - 1 implies after[j] == before[j] by {}
            lemma_marks_prefix(n as int, ts, before, after, (k - 1) as int);
            assert(opt_view(entry@) =~= old_e.update(e as int, Some(ids@[k - 1]@)));
            match kind {
                CloseKind::Exit => {
                    assert(opt_view(exit@) =~= old_x.update(c as int, Some(ids@[k - 1]@)));
                    assert(opt_view(limit@) =~= old_l);
                },
                CloseKind::Limit => {
                    assert(opt_view(limit@) =~= old_l.update(c as int, Some(ids@[k - 1]@)));
                    assert(opt_view(exit@) =~= old_x);
                },
            }
        }
    }
    TradeMarks { ids, entry, exit, limit }
}

/// Marking depends only on the ids of the trades marked so far.
proof fn lemma_marks_prefix(n: int, ts: Seq<(int, int, CloseKind)>, a: Seq<Seq<char>>, b: Seq<Seq<char>>, k: int)
    requires
        0 <= k,
        k <= a.len(),
        k <= b.len(),
        forall|j: int| 0 <= j < k ==> a[j] == b[j],
    ensures
        marks(n, ts, a, k) == marks(n, ts, b, k),
    decreases k,
{
    if k > 0 {
        lemma_marks_prefix(n, ts, a, b, k - 1);
    }
}

proof fn lemma_trades_bounded(s: Signals, n: int, width_entry: int, width_exit: int, hold: int)
    requires
        0 <= hold,
        0 <= n,
    ensures
        forall|j: int| 0 <= j < spec_trades(s, n, width_entry, width_exit, hold).len() ==>
            0 <= #[trigger] spec_trades(s, n, width_entry, width_exit, hold)[j].0 < n
            && spec_trades(s, n, width_entry, width_exit, hold)[j].1 < n
            && 0 <= spec_trades(s, n, width_entry, width_exit, hold)[j].1,
{
    if !(n == 0 || width_entry < 2 || width_exit < 1) {
        law_trade_scan(s, n, width_entry, width_exit, hold);
    }
}


proof fn lemma_marks_entries(n: int, ts: Seq<(int, int, CloseKind)>, ids: Seq<Seq<char>>, upto: int)
    requires
        0 <= n,
        0 <= upto <= ts.len(),
        upto <= ids.len(),
        forall|k: int| 0 <= k < ts.len() ==> 0 <= #[trigger] ts[k].0 < n && 0 <= ts[k].1 < n,
        forall|a: int, b: int| 0 <= a < b < ts.len() ==> #[trigger] ts[a].0 < #[trigger] ts[b].0,
    ensures
        marks(n, ts, ids, upto).0.len() == n,
        marks(n, ts, ids, upto).1.len() == n,
        marks(n, ts, ids, upto).2.len() == n,
        forall|k: int| 0 <= k < upto ==> marks(n, ts, ids, upto).0[#[trigger] ts[k].0] == Some(ids[k]),
        forall|r: int| 0 <= r < n && (forall|k: int| 0 <= k < upto ==> #[trigger] ts[k].0 != r)
            ==> marks(n, ts, ids, upto).0[r] is None,
    decreases upto,
{
    if upto > 0 {
        lemma_marks_entries(n, ts, ids, upto - 1);
        assert forall|k: int| 0 <= k < upto implies marks(n, ts, ids, upto).0[#[trigger] ts[k].0] == Some(ids[k]) by {
            if k < upto - 1 {
                assert(ts[k].0 < ts[upto - 1].0);
            }
        }
        assert forall|r: int| 0 <= r < n && (forall|k: int| 0 <= k < upto ==> #[trigger] ts[k].0 != r)
            implies marks(n, ts, ids, upto).0[r] is None by {
            assert(ts[upto - 1].0 != r);
            assert forall|k: int| 0 <= k < upto - 1 implies #[trigger] ts[k].0 != r by {}
        }
    }
}

/// Each trade's id stands at its entry row, and the entry column is empty
/// on every other row.
pub proof fn law_trade_ids_at_entries(s: Signals, n: int, width_entry: int, width_exit: int, hold: int, ids: Seq<Seq<char>>)
    requires
        0 <= hold,
        0 <= n,
        ids.len() == spec_trades(s, n, width_entry, width_exit, hold).len(),
    ensures
        forall|k: int| 0 <= k < spec_trades(s, n, width_entry, width_exit, hold).len() ==>
            marks(n, spec_trades(s, n, width_entry, width_exit, hold), ids, ids.len() as int).0[
                #[trigger] spec_trades(s, n, width_entry, width_exit, hold)[k].0] == Some(ids[k]),
        forall|r: int| 0 <= r < n && (forall|k: int| 0 <= k < ids.len() ==>
            #[trigger] spec_trades(s, n, width_entry, width_exit, hold)[k].0 != r)
            ==> marks(n, spec_trades(s, n, width_entry, width_exit, hold), ids, ids.len() as int).0[r] is None,
{
    let ts = spec_trades(s, n, width_entry, width_exit, hold);
    lemma_trades_bounded(s, n, width_entry, width_exit, hold);
    if !(n == 0 || width_entry < 2 || width_exit < 1) {
        law_trade_scan(s, n, width_entry, width_exit, hold);
        assert forall|a: int, b: int| 0 <= a < b < ts.len() implies #[trigger] ts[a].0 < #[trigger] ts[b].0 by {
            lemma_entries_increase(s, n, width_entry, width_exit, hold, a, b);
        }
    }
    lemma_marks_entries(n, ts, ids, ids.len() as int);
}

proof fn lemma_entries_increase(s: Signals, n: int, width_entry: int, width_exit: int, hold: int, a: int, b: int)
    requires
        0 <= hold,
        n > 0,
        width_entry >= 2,
        width_exit >= 1,
        0 <= a < b < spec_trades(s, n, width_entry, width_exit, hold).len(),
    ensures
        spec_trades(s, n, width_entry, width_exit, hold)[a].0 < spec_trades(s, n, width_entry, width_exit, hold)[b].0,
    decreases b - a,
{
    law_trade_scan(s, n, width_entry, width_exit, hold);
    let ts = spec_trades(s, n, width_entry, width_exit, hold);
    assert(apart(hold, ts[b - 1], ts[b]));
    if a < b - 1 {
        lemma_entries_increase(s, n, width_entry, width_exit, hold, a, b - 1);
    }
}

} // verus!
