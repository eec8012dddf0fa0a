//! The windows of the desktop client: the id a new window gets and the
//! receive port it listens on.

use vstd::prelude::*;
use crate::keyed::KeyedList;
use crate::text::{concat, owned};
use crate::trading::{decimal, decimal_text, digit_char};
use crate::text::all_digits;
use crate::numbers::{digits_value, unsigned_digits};
use crate::ui::{last_colon, spec_split_host_port, split_host_port};

verus! {

/* ---------------------------------- ids ---------------------------------- */

/// The fallback id of the `i`-th window.
pub open spec fn window_name(i: nat) -> Seq<char> {
    "Window-"@ + decimal(i)
}

proof fn lemma_decimal_len(n: nat)
    ensures
        decimal(n).len() >= 1,
        n >= 10 ==> decimal(n).len() >= 2,
    decreases n,
{
    if n >= 10 {
        lemma_decimal_len(n / 10);
    }
}

proof fn lemma_decimal_injective(a: nat, b: nat)
    requires
        decimal(a) == decimal(b),
    ensures
        a == b,
    decreases a,
{
    lemma_decimal_len(a);
    lemma_decimal_len(b);
    if a < 10 && b < 10 {
        assert(decimal(a)[0] == digit_char(a));
        assert(decimal(b)[0] == digit_char(b));
    } else if a >= 10 && b >= 10 {
        let da = decimal(a / 10);
        let db = decimal(b / 10);
        assert(decimal(a) == da.push(digit_char(a % 10)));
        assert(decimal(b) == db.push(digit_char(b % 10)));
        assert(da =~= decimal(a).drop_last());
        assert(db =~= decimal(b).drop_last());
        lemma_decimal_injective(a / 10, b / 10);
        assert(decimal(a).last() == digit_char(a % 10));
        assert(decimal(b).last() == digit_char(b % 10));
    } else {
        assert(decimal(a).len() != decimal(b).len());
    }
}

proof fn lemma_window_name_injective(i: nat, j: nat)
    requires
        window_name(i) == window_name(j),
    ensures
        i == j,
{
    reveal_strlit("Window-");
    assert(decimal(i) =~= window_name(i).skip(7));
    assert(decimal(j) =~= window_name(j).skip(7));
    lemma_decimal_injective(i, j);
}

/// Among the ids of `m + 1` fallback windows, one is not a key of a map
/// with `m` keys.
proof fn lemma_free_name<V>(windows: KeyedList<V>, m: nat)
    requires
        windows.wf(),
        windows.key_seq().len() == m,
    ensures
        exists|i: nat| 1 <= i <= m + 1 && !windows.view().contains_key(#[trigger] window_name(i)),
{
    windows.lemma_seqs();
    let keys = windows.key_seq();
    if forall|i: nat| 1 <= i <= m + 1 ==> windows.view().contains_key(#[trigger] window_name(i)) {
        let names = Seq::new((m + 1) as nat, |k: int| window_name((k + 1) as nat));
        assert(names.no_duplicates()) by {
            assert forall|a: int, b: int| 0 <= a < names.len() && 0 <= b < names.len() && a != b
                implies names[a] != names[b] by {
                if names[a] == names[b] {
                    lemma_window_name_injective((a + 1) as nat, (b + 1) as nat);
                }
            }
        }
        names.unique_seq_to_set();
        keys.unique_seq_to_set();
        assert(names.to_set().subset_of(keys.to_set())) by {
            assert forall|x: Seq<char>| names.to_set().contains(x) implies keys.to_set().contains(x) by {
                let k = choose|k: int| 0 <= k < names.len() && names[k] == x;
                assert(windows.view().contains_key(window_name((k + 1) as nat)));
            }
        }
        vstd::set_lib::lemma_len_subset(names.to_set(), keys.to_set());
    }
}

/// The text of an optional string.
pub open spec fn opt_text(p: Option<&str>) -> Option<Seq<char>> {
    match p {
        Some(s) => Some(s@),
        None => None,
    }
}

/// `r` is the id a new window gets among the windows `m`: the preferred id
/// when no window has it, else the first `Window-<i>` (from 1) that no
/// window has; in either case no window has `r`.
pub open spec fn fresh_id<V>(m: Map<Seq<char>, V>, preferred: Option<Seq<char>>, r: Seq<char>) -> bool {
    &&& !m.contains_key(r)
    &&& if preferred is Some && !m.contains_key(preferred->Some_0) {
        r == preferred->Some_0
    } else {
        exists|i: nat| 1 <= i && r == window_name(i)
            && forall|j: nat| 1 <= j < i ==> m.contains_key(#[trigger] window_name(j))
    }
}

/// The id of a new window; see `fresh_id`.
pub fn ensure_unique_id<V>(windows: &KeyedList<V>, preferred: Option<&str>) -> (r: String)
    requires
        windows.wf(),
        windows.key_seq().len() < usize::MAX,
    ensures
        fresh_id(windows.view(), opt_text(preferred), r@),
{
    if let Some(p) = preferred {
        if !windows.contains_key(p) {
            return owned(p);
        }
    }
    let ghost m = windows.key_seq().len();
    proof {
        lemma_free_name(*windows, m);
    }
    let mut i: usize = 1;
    loop
        invariant
            windows.wf(),
            preferred matches Some(p) ==> windows.view().contains_key(p@),
            m == windows.key_seq().len(),
            m < usize::MAX,
            1 <= i <= m + 1,
            forall|j: nat| 1 <= j < i ==> windows.view().contains_key(#[trigger] window_name(j)),
            exists|k: nat| 1 <= k <= m + 1 && !windows.view().contains_key(#[trigger] window_name(k)),
        decreases m + 1 - i,
    {
        let candidate = concat("Window-", decimal_text(i).as_str());
        if !windows.contains_key(candidate.as_str()) {
            assert(candidate@ == window_name(i as nat));
            return candidate;
        }
        proof {
            assert(windows.view().contains_key(window_name(i as nat)));
            if i as nat == m + 1 {
                let k = choose|k: nat| 1 <= k <= m + 1 && !windows.view().contains_key(#[trigger] window_name(k));
                assert(windows.view().contains_key(window_name(k)));
            }
        }
        i = i + 1;
    }
}

/* --------------------------------- ports --------------------------------- */

/// The first port a new window may take: the one after `base` (after 1
/// for base 0), or the highest port when `base` is the highest.
pub open spec fn first_candidate(base: u16) -> int {
    let lo = if base > 1 { base as int } else { 1 };
    if lo < 65535 { lo + 1 } else { 65535 }
}

/// `r` is the first port from `first_candidate(base)` on that is not in use.
pub open spec fn first_free_port(base: u16, used: Seq<u16>, r: int) -> bool {
    &&& first_candidate(base) <= r <= 65535
    &&& !used.contains(r as u16)
    &&& forall|q: int| first_candidate(base) <= q < r ==> used.contains(#[trigger] (q as u16))
}

/// A port that no window listens on yet, taken for a new window: the first
/// one after `base_rx_port` (after 1 for port 0) that is not in use.
pub fn next_free_port(base_rx_port: u16, used_ports: &mut Vec<u16>) -> (r: u16)
    requires
        exists|q: int| first_candidate(base_rx_port) <= q <= 65535 && !old(used_ports)@.contains(#[trigger] (q as u16)),
    ensures
        first_free_port(base_rx_port, old(used_ports)@, r as int),
        final(used_ports)@ == old(used_ports)@.push(r),
{
    let lo: u16 = if base_rx_port > 1 { base_rx_port } else { 1 };
    let mut p: u16 = if lo < 65535 { lo + 1 } else { 65535 };
    loop
        invariant
            p as int >= first_candidate(base_rx_port),
            p <= 65535,
            used_ports@ == old(used_ports)@,
            forall|q: int| first_candidate(base_rx_port) <= q < p ==> used_ports@.contains(#[trigger] (q as u16)),
            exists|q: int| p <= q <= 65535 && !used_ports@.contains(#[trigger] (q as u16)),
        decreases 65535 - p,
    {
        if !contains_port(used_ports, p) {
            used_ports.push(p);
            return p;
        }
        let ghost q = choose|q: int| p <= q <= 65535 && !used_ports@.contains(#[trigger] (q as u16));
        assert(q != p);
        p = p + 1;
    }
}

fn contains_port(v: &Vec<u16>, p: u16) -> (r: bool)
    ensures
        r == v@.contains(p),
{
    let mut i: usize = 0;
    while i < v.len()
        invariant
            i <= v@.len(),
            forall|j: int| 0 <= j < i ==> v@[j] != p,
        decreases v.len() - i,
    {
        if v[i] == p {
            return true;
        }
        i = i + 1;
    }
    false
}

/* ------------------------------- addresses ------------------------------- */

/// The address a window listens on: the host, a colon and the port.
pub fn listen_address(host: &str, port: u16) -> (r: String)
    ensures
        r@ == host@ + ":"@ + decimal(port as nat),
{
    let a = concat(host, ":");
    concat(a.as_str(), decimal_text(port as usize).as_str())
}

/* ------------------------------- registry -------------------------------- */

/// The windows of the client by id, where the main window listens, the
/// server's address, and the ports taken so far.
pub struct WindowRegistry<V> {
    pub windows: KeyedList<V>,
    pub main_id: String,
    pub base_rx_host: String,
    pub base_rx_port: u16,
    pub tx_address: String,
    pub used_ports: Vec<u16>,
}

impl<V> WindowRegistry<V> {
    /// The registry of a client whose main window listens on `rx_address`:
    /// its host and its port (7879 when none can be read), that port
    /// taken, no window recorded yet, and the main window to be "Main".
    pub fn new(rx_address: &str, tx_address: String) -> (r: Self)
        ensures
            r.windows.wf(),
            r.windows.view() == Map::<Seq<char>, V>::empty(),
            (r.base_rx_host@, r.base_rx_port) == spec_split_host_port(rx_address@, 7879),
            r.used_ports@ == seq![r.base_rx_port],
            r.main_id@ == "Main"@,
            r.tx_address == tx_address,
    {
        let (host, port) = split_host_port(rx_address, 7879);
        let mut used_ports: Vec<u16> = Vec::new();
        used_ports.push(port);
        WindowRegistry {
            windows: KeyedList::new(),
            main_id: owned("Main"),
            base_rx_host: host,
            base_rx_port: port,
            tx_address,
            used_ports,
        }
    }

    /// The address the main window listens on.
    pub fn main_address(&self) -> (r: String)
        ensures
            r@ == self.base_rx_host@ + ":"@ + decimal(self.base_rx_port as nat),
    {
        listen_address(self.base_rx_host.as_str(), self.base_rx_port)
    }

    /// The id of a new window (see `fresh_id`) and the address it will
    /// listen on: the host and the first free port, which is now taken.
    pub fn plan_window(&mut self, preferred: Option<&str>) -> (r: (String, String))
        requires
            old(self).windows.wf(),
            old(self).windows.key_seq().len() < usize::MAX,
            exists|q: int| first_candidate(old(self).base_rx_port) <= q <= 65535
                && !old(self).used_ports@.contains(#[trigger] (q as u16)),
        ensures
            fresh_id(old(self).windows.view(), opt_text(preferred), r.0@),
            exists|p: u16| {
                &&& first_free_port(old(self).base_rx_port, old(self).used_ports@, p as int)
                &&& final(self).used_ports@ == old(self).used_ports@.push(p)
                &&& r.1@ == old(self).base_rx_host@ + ":"@ + decimal(p as nat)
            },
            final(self).windows == old(self).windows,
            final(self).main_id == old(self).main_id,
            final(self).base_rx_host == old(self).base_rx_host,
            final(self).base_rx_port == old(self).base_rx_port,
            final(self).tx_address == old(self).tx_address,
    {
        let id = ensure_unique_id(&self.windows, preferred);
        let port = next_free_port(self.base_rx_port, &mut self.used_ports);
        let addr = listen_address(self.base_rx_host.as_str(), port);
        (id, addr)
    }

    /// Records the window `id`.
    pub fn add_window(&mut self, id: String, record: V)
        requires
            old(self).windows.wf(),
        ensures
            final(self).windows.wf(),
            final(self).windows.view() == old(self).windows.view().insert(id@, record),
            final(self).used_ports == old(self).used_ports,
            final(self).base_rx_host == old(self).base_rx_host,
            final(self).base_rx_port == old(self).base_rx_port,
    {
        self.windows.insert(id, record);
    }
}

proof fn lemma_decimal_reads_back(n: nat)
    ensures
        decimal(n).len() >= 1,
        all_digits(decimal(n)),
        digits_value(decimal(n)) == n,
    decreases n,
{
    let d = decimal(n);
    let c = digit_char(n % 10);
    assert(c as u32 == (n % 10) + 48);
    assert(((c as u32 - '0' as u32) as nat) == n % 10);
    if n >= 10 {
        lemma_decimal_reads_back(n / 10);
        assert(d.drop_last() =~= decimal(n / 10));
        assert(d.last() == c);
        assert forall|i: int| 0 <= i < d.len() implies #[trigger] crate::text::is_digit(d[i]) by {
            if i < d.len() - 1 {
                assert(d[i] == decimal(n / 10)[i]);
            }
        }
        assert(digits_value(d) == digits_value(d.drop_last()) * 10 + ((d.last() as u32 - '0' as u32) as nat));
        assert((n / 10) * 10 + n % 10 == n) by (nonlinear_arith);
    } else {
        assert(d.drop_last() =~= Seq::<char>::empty());
        assert(d.last() == c);
        assert(digits_value(d) == digits_value(d.drop_last()) * 10 + ((d.last() as u32 - '0' as u32) as nat));
    }
}

/// The address a window listens on reads back, host and port, as the
/// settings split an address.
#[verifier::rlimit(40)]
pub proof fn law_listen_address_reads_back(host: Seq<char>, port: u16, default_port: u16)
    ensures
        spec_split_host_port(host + ":"@ + decimal(port as nat), default_port) == (host, port),
{
    reveal_strlit(":");
    let d = decimal(port as nat);
    lemma_decimal_reads_back(port as nat);
    let a = host + ":"@ + d;
    let k = host.len() as int;
    assert(a[k] == ':');
    assert forall|j: int| k < j < a.len() implies a[j] != ':' by {
        assert(a[j] == d[j - k - 1]);
        assert(crate::text::is_digit(d[j - k - 1]));
    }
    let w = choose|w: int| 0 <= w < a.len() && a[w] == ':' && forall|j: int| w < j < a.len() ==> a[j] != ':';
    assert(w == k) by {
        if w < k { assert(a[k] != ':'); }
        if w > k { assert(a[w] != ':'); }
    }
    assert(last_colon(a) == Some(k));
    assert(a.take(k) =~= host);
    assert(a.skip(k + 1) =~= d);
    assert(crate::text::is_digit(d[0]));
    assert(unsigned_digits(d) == d);
}

} // verus!
