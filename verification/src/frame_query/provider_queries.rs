//! The search request that each provider instance sends to its backend.

use vstd::prelude::*;
use crate::text::{chars_of, string_of, concat, push_chars, all_digits};
use crate::numbers::{digits_value, all_digits_in};
use crate::frame_query::ast::{Query, pairs_view, ProviderInstance, SpecProviderInstance, SpecTimeSpec, TimeSpec, ParseError, SpecParseError, eof_error};

verus! {

/// The message for a date that is not eight digits.
pub open spec fn bad_date_literal() -> Seq<char> {
    "invalid date literal (expected YYYYMMDD)"@
}

/// The message for a month outside 01..12 or a day outside 01..31.
pub open spec fn bad_date_components() -> Seq<char> {
    "invalid date components"@
}

/// `YYYYMMDD` as `YYYY-MM-DDT00:00:00Z`, or why it cannot be: it must be
/// eight ASCII digits with a month from 1 to 12 and a day from 1 to 31.
pub open spec fn spec_iso_date(s: Seq<char>) -> Result<Seq<char>, Seq<char>> {
    if !(s.len() == 8 && all_digits(s)) {
        Err(bad_date_literal())
    } else {
        let m = digits_value(s.subrange(4, 6));
        let d = digits_value(s.subrange(6, 8));
        if !(1 <= m <= 12) || !(1 <= d <= 31) {
            Err(bad_date_components())
        } else {
            Ok(s.subrange(0, 4) + "-"@ + s.subrange(4, 6) + "-"@ + s.subrange(6, 8) + "T00:00:00Z"@)
        }
    }
}

fn two_digits(cs: &[char], i: usize) -> (r: u32)
    requires
        i + 2 <= cs@.len(),
        all_digits(cs@.subrange(i as int, i + 2)),
    ensures
        r == digits_value(cs@.subrange(i as int, i + 2)),
{
    let ghost w = cs@.subrange(i as int, i + 2);
    assert(crate::text::is_digit(w[0]) && crate::text::is_digit(w[1]));
    assert(w.drop_last().drop_last() =~= Seq::<char>::empty());
    assert(w.drop_last() =~= seq![cs@[i as int]]);
    let a = cs[i] as u32 - '0' as u32;
    let b = cs[i + 1] as u32 - '0' as u32;
    assert(digits_value(w.drop_last().drop_last()) == 0);
    assert(digits_value(w.drop_last()) == a);
    assert(digits_value(w) == a * 10 + b);
    a * 10 + b
}

/// Rewrites a `YYYYMMDD` literal in ISO 8601 form at midnight UTC.
pub fn yyyymmdd_to_iso8601_z(s: &str) -> (r: Result<String, &'static str>)
    ensures
        match r {
            Ok(v) => spec_iso_date(s@) == Ok::<Seq<char>, Seq<char>>(v@),
            Err(m) => spec_iso_date(s@) == Err::<Seq<char>, Seq<char>>(m@),
        },
{
    let cs = chars_of(s);
    if cs.len() != 8 || !all_digits_in(cs.as_slice(), 0, 8) {
        proof {
            assert(cs@.subrange(0, cs@.len() as int) =~= cs@);
        }
        return Err("invalid date literal (expected YYYYMMDD)");
    }
    proof {
        assert(cs@.subrange(0, 8) =~= cs@);
        assert(all_digits(cs@.subrange(4, 6)) && all_digits(cs@.subrange(6, 8))) by {
            assert forall|k: int| 0 <= k < 2 implies #[trigger] crate::text::is_digit(cs@.subrange(4, 6)[k]) by {
                assert(cs@.subrange(4, 6)[k] == cs@[4 + k]);
            }
            assert forall|k: int| 0 <= k < 2 implies #[trigger] crate::text::is_digit(cs@.subrange(6, 8)[k]) by {
                assert(cs@.subrange(6, 8)[k] == cs@[6 + k]);
            }
        }
    }
    let m = two_digits(cs.as_slice(), 4);
    let d = two_digits(cs.as_slice(), 6);
    if !(m >= 1 && m <= 12) || !(d >= 1 && d <= 31) {
        return Err("invalid date components");
    }
    let mut out = string_of(cs.as_slice(), 0, 4);
    let dash = chars_of("-");
    push_chars(&mut out, dash.as_slice(), 0, dash.len());
    push_chars(&mut out, cs.as_slice(), 4, 6);
    push_chars(&mut out, dash.as_slice(), 0, dash.len());
    push_chars(&mut out, cs.as_slice(), 6, 8);
    let r = concat(out.as_str(), "T00:00:00Z");
    proof {
        assert(dash@.subrange(0, dash@.len() as int) =~= "-"@);
        assert(r@ =~= cs@.subrange(0, 4) + "-"@ + cs@.subrange(4, 6) + "-"@ + cs@.subrange(6, 8) + "T00:00:00Z"@);
    }
    Ok(r)
}

/// A provider takes part when it names a backend and a ticker (both
/// non-empty) and a date range.
pub open spec fn takes_part(p: SpecProviderInstance) -> bool {
    &&& p.backend matches Some(b) && b.len() > 0
    &&& p.ticker matches Some(t) && t.len() > 0
    &&& p.time_spec matches Some(SpecTimeSpec::DateRange { .. })
}

/// The search request of a provider that takes part and whose dates are
/// valid.
pub open spec fn request_text(p: SpecProviderInstance) -> Seq<char> {
    let from = p.time_spec->Some_0->DateRange_from;
    let to = p.time_spec->Some_0->DateRange_to;
    "provider "@ + p.backend->Some_0 + " search ticker="@ + p.ticker->Some_0 + " date="@
        + spec_iso_date(from)->Ok_0 + ".."@ + spec_iso_date(to)->Ok_0
}

/// The first date of a taking-part provider that is not valid, with why:
/// the start date is checked before the end date.
pub open spec fn date_problem(p: SpecProviderInstance) -> Option<Seq<char>> {
    let from = p.time_spec->Some_0->DateRange_from;
    let to = p.time_spec->Some_0->DateRange_to;
    if spec_iso_date(from) is Err {
        Some(spec_iso_date(from)->Err_0)
    } else if spec_iso_date(to) is Err {
        Some(spec_iso_date(to)->Err_0)
    } else {
        None
    }
}

/// The error that names a provider whose dates are not valid.
pub open spec fn provider_error(name: Seq<char>, why: Seq<char>) -> SpecParseError {
    eof_error("provider \""@ + name + "\": "@ + why)
}

/// `v` lists, in the order of `ks`, the name and request of the providers
/// filed under the keys `ks` of `pv`: each provider that takes part once,
/// and no other.
pub open spec fn lists_requests(
    pv: Map<Seq<char>, SpecProviderInstance>,
    v: Seq<(Seq<char>, Seq<char>)>,
    ks: Seq<Seq<char>>,
) -> bool {
    &&& ks.len() == v.len()
    &&& ks.no_duplicates()
    &&& forall|i: int| 0 <= i < v.len() ==> {
        &&& pv.contains_key(#[trigger] ks[i])
        &&& takes_part(pv[ks[i]])
        &&& v[i] == (pv[ks[i]].name, request_text(pv[ks[i]]))
    }
    &&& forall|key: Seq<char>| #[trigger] pv.contains_key(key) && takes_part(pv[key]) ==> ks.contains(key)
}

/// `v` lists, each once, the name and request of every provider of `pv`
/// that takes part, and all their dates are valid.
pub open spec fn is_request_list(pv: Map<Seq<char>, SpecProviderInstance>, v: Seq<(Seq<char>, Seq<char>)>) -> bool {
    &&& forall|key: Seq<char>| #[trigger] pv.contains_key(key) && takes_part(pv[key])
        ==> date_problem(pv[key]) is None
    &&& exists|ks: Seq<Seq<char>>| lists_requests(pv, v, ks)
}

/// `e` names, by its name, a provider of `pv` that takes part and has an
/// invalid date.
pub open spec fn is_date_error(pv: Map<Seq<char>, SpecProviderInstance>, e: SpecParseError) -> bool {
    exists|key: Seq<char>| {
        &&& #[trigger] pv.contains_key(key)
        &&& takes_part(pv[key])
        &&& date_problem(pv[key]) matches Some(why)
        &&& e == provider_error(pv[key].name, why)
    }
}

impl Query {
    /// For each provider that takes part, its name and search request; an
    /// error naming a taking-part provider with an invalid date when there
    /// is one.
    #[verifier::rlimit(40)]
    pub fn build_provider_queries(&self) -> (r: Result<Vec<(String, String)>, ParseError>)
        requires
            self.wf(),
        ensures
            match r {
                Ok(v) => is_request_list(self@.providers, pairs_view(v@)),
                Err(e) => is_date_error(self@.providers, e@),
            },
    {
        let mut out: Vec<(String, String)> = Vec::new();
        let n = self.providers.len();
        proof {
            self.providers.lemma_seqs();
        }
        let ghost keys = self.providers.key_seq();
        let ghost vals = self.providers.value_seq();
        let ghost pv = self@.providers;
        let mut i: usize = 0;
        let ghost mut src: Seq<int> = Seq::empty();
        let ghost mut dst: Seq<int> = Seq::empty();
        while i < n
            invariant
                n == keys.len() == vals.len(),
                keys == self.providers.key_seq(),
                vals == self.providers.value_seq(),
                pv == self@.providers,
                i <= n,
                keys.no_duplicates(),
                forall|k: int| 0 <= k < keys.len() ==> pv.contains_key(#[trigger] keys[k])
                    && pv[keys[k]] == vals[k]@,
                forall|k: int| 0 <= k < i ==> takes_part(#[trigger] vals[k]@) ==> date_problem(vals[k]@) is None,
                src.len() == out@.len(),
                dst.len() == i,
                forall|a: int| 0 <= a < out@.len() ==> 0 <= #[trigger] src[a] < i,
                forall|a: int, b: int| 0 <= a < b < out@.len() ==> #[trigger] src[a] < #[trigger] src[b],
                forall|a: int| 0 <= a < out@.len() ==> vals[src[a]]@.name == (#[trigger] out@[a]).0@
                    && takes_part(vals[src[a]]@) && out@[a].1@ == request_text(vals[src[a]]@),
                forall|k: int| 0 <= k < i && takes_part(#[trigger] vals[k]@) ==> 0 <= dst[k] < out@.len()
                    && src[dst[k]] == k,
            decreases n - i,
        {
            let (_, prov) = self.providers.entry_at(i);
            match provider_request(prov) {
                Err(e) => {
                    proof {
                        assert(pv.contains_key(keys[i as int]));
                        assert(pv[keys[i as int]] == vals[i as int]@);
                    }
                    let e2 = provider_err(&prov.name, &e);
                    proof {
                        assert(is_date_error(pv, e2@));
                    }
                    return Err(e2);
                },
                Ok(None) => {
                    proof {
                        dst = dst.push(-1);
                    }
                },
                Ok(Some(q)) => {
                    let ghost before = out@;
                    let entry = (prov.name.clone(), q);
                    out.push(entry);
                    proof {
                        assert(out@ == before.push(entry));
                        dst = dst.push(before.len() as int);
                        src = src.push(i as int);
                        assert forall|a: int| 0 <= a < out@.len() implies vals[src[a]]@.name == (#[trigger] out@[a]).0@
                            && takes_part(vals[src[a]]@) && out@[a].1@ == request_text(vals[src[a]]@) by {
                            if a < before.len() {
                                assert(out@[a] == before[a]);
                            }
                        }
                    }
                },
            }
            i = i + 1;
        }
        proof {
            let pvs = pairs_view(out@);
            let ks = Seq::new(out@.len(), |a: int| keys[src[a]]);
            assert forall|a: int| 0 <= a < pvs.len() implies #[trigger] pvs[a] == (out@[a].0@, out@[a].1@) by {}
            assert forall|key: Seq<char>| #[trigger] pv.contains_key(key) && takes_part(pv[key])
                implies date_problem(pv[key]) is None by {
                let k = choose|k: int| 0 <= k < keys.len() && keys[k] == key;
                assert(pv[keys[k]] == vals[k]@);
            }
            assert forall|key: Seq<char>| #[trigger] pv.contains_key(key) && takes_part(pv[key])
                implies ks.contains(key) by {
                let k = choose|k: int| 0 <= k < keys.len() && keys[k] == key;
                assert(pv[keys[k]] == vals[k]@);
                let a = dst[k];
                assert(ks[a] == key);
            }
            assert forall|a: int| 0 <= a < pvs.len() implies {
                &&& pv.contains_key(#[trigger] ks[a])
                &&& takes_part(pv[ks[a]])
                &&& pvs[a] == (pv[ks[a]].name, request_text(pv[ks[a]]))
            } by {
                assert(ks[a] == keys[src[a]]);
                assert(0 <= src[a] < n);
                assert(pv[keys[src[a]]] == vals[src[a]]@);
                assert(vals[src[a]]@.name == out@[a].0@ && takes_part(vals[src[a]]@));
                assert(pvs[a] == (out@[a].0@, out@[a].1@));
            }
            assert(ks.no_duplicates()) by {
                assert forall|a: int, b: int| 0 <= a < ks.len() && 0 <= b < ks.len() && a != b implies ks[a] != ks[b] by {
                    if a < b {
                        assert(src[a] < src[b]);
                    } else {
                        assert(src[b] < src[a]);
                    }
                }
            }
            assert(lists_requests(pv, pvs, ks));
        }
        Ok(out)
    }
}

/// The request of one provider: `None` when it does not take part, the
/// reason when one of its dates is invalid.
fn provider_request(prov: &ProviderInstance) -> (r: Result<Option<String>, &'static str>)
    ensures
        match r {
            Ok(None) => !takes_part(prov@),
            Ok(Some(q)) => takes_part(prov@) && date_problem(prov@) is None && q@ == request_text(prov@),
            Err(m) => takes_part(prov@) && date_problem(prov@) == Some(m@),
        },
{
    let backend = match &prov.backend {
        Some(b) => b,
        None => { return Ok(None); },
    };
    if backend.as_str().is_empty() {
        return Ok(None);
    }
    let ticker = match &prov.ticker {
        Some(t) => t,
        None => { return Ok(None); },
    };
    if ticker.as_str().is_empty() {
        return Ok(None);
    }
    match &prov.time_spec {
        Some(TimeSpec::DateRange { from, to }) => {
            let from_iso = yyyymmdd_to_iso8601_z(from.as_str())?;
            let to_iso = yyyymmdd_to_iso8601_z(to.as_str())?;
            let q = concat("provider ", backend.as_str());
            let q = concat(q.as_str(), " search ticker=");
            let q = concat(q.as_str(), ticker.as_str());
            let q = concat(q.as_str(), " date=");
            let q = concat(q.as_str(), from_iso.as_str());
            let q = concat(q.as_str(), "..");
            let q = concat(q.as_str(), to_iso.as_str());
            assert(q@ =~= request_text(prov@));
            Ok(Some(q))
        },
        _ => Ok(None),
    }
}

fn provider_err(name: &String, msg: &&str) -> (r: ParseError)
    ensures
        r@ == provider_error(name@, (*msg)@),
{
    let a = concat("provider \"", name.as_str());
    let b = concat(a.as_str(), "\": ");
    let m = concat(b.as_str(), *msg);
    ParseError::new(m, 0, 0)
}

} // verus!
