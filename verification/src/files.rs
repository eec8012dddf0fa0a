//! The project's file tree as the side bar shows it: which nodes a filter
//! lets through.

use vstd::prelude::*;
use crate::frame_query::ordering::{is_whitespace, strip, trimmed};

verus! {

/// A node of the project's file tree. A path is kept as its text, a
/// modification time as nanoseconds since the Unix epoch.
#[derive(Debug)]
pub enum Fs {
    Folder { name: String, path: String, modified: Option<i128>, children: Vec<Fs> },
    File { name: String, path: String, modified: Option<i128>, size: Option<u64> },
}

/// The name of a node.
pub open spec fn node_name(n: Fs) -> Seq<char> {
    match n {
        Fs::Folder { name, .. } => name@,
        Fs::File { name, .. } => name@,
    }
}

/// What `str::to_lowercase` gives for `s`.
pub uninterp spec fn lowercase(s: Seq<char>) -> Seq<char>;

/// The text of `str::to_lowercase` (Unicode lower-casing); nothing more is
/// claimed of it than that it is a function of `s`.
#[verifier::external_body]
fn to_lowercase(s: &str) -> (r: String)
    ensures
        r@ == lowercase(s@),
{
    s.to_lowercase()
}

/// `needle` occurs in `hay` as a run of consecutive characters.
pub open spec fn contains_text(hay: Seq<char>, needle: Seq<char>) -> bool {
    exists|i: int| 0 <= i && i + needle.len() <= hay.len() && #[trigger] hay.subrange(i, i + needle.len()) == needle
}

/// The lower-cased name of `n`, or of a node below it, contains `needle`.
pub open spec fn subtree_matches(n: Fs, needle: Seq<char>) -> bool
    decreases n, 1nat,
{
    contains_text(lowercase(node_name(n)), needle) || match n {
        Fs::Folder { children, .. } => {
            proof {
                assert(decreases_to!(n => children));
                assert(decreases_to!(children => children@));
            }
            some_child_matches(children@, needle, children@.len() as int)
        },
        Fs::File { .. } => false,
    }
}

/// One of the first `k` nodes of `cs` matches.
pub open spec fn some_child_matches(cs: Seq<Fs>, needle: Seq<char>, k: int) -> bool
    decreases cs, (if k > 0 { k } else { 0 }) as nat,
{
    if k <= 0 || k > cs.len() {
        false
    } else {
        proof {
            assert(decreases_to!(cs => cs[k - 1]));
        }
        subtree_matches(cs[k - 1], needle) || some_child_matches(cs, needle, k - 1)
    }
}

/// Whether `needle` occurs in `hay` at position `i`.
fn matches_at(hay: &Vec<char>, needle: &Vec<char>, i: usize) -> (r: bool)
    requires
        i + needle@.len() <= hay@.len(),
    ensures
        r == (hay@.subrange(i as int, i + needle@.len()) == needle@),
{
    let n = hay.len();
    let mut k: usize = 0;
    while k < needle.len()
        invariant
            n == hay@.len(),
            i + needle@.len() <= hay@.len(),
            k <= needle@.len(),
            forall|m: int| 0 <= m < k ==> hay@[i + m] == needle@[m],
        decreases needle.len() - k,
    {
        if hay[i + k] != needle[k] {
            assert(hay@.subrange(i as int, i + needle@.len())[k as int] != needle@[k as int]);
            return false;
        }
        k = k + 1;
    }
    assert(hay@.subrange(i as int, i + needle@.len()) =~= needle@);
    true
}

/// Whether `needle` occurs in `hay`.
fn find_text(hay: &Vec<char>, needle: &Vec<char>) -> (r: bool)
    ensures
        r == contains_text(hay@, needle@),
{
    if needle.len() > hay.len() {
        return false;
    }
    let last = hay.len() - needle.len();
    let mut i: usize = 0;
    loop
        invariant
            last == hay@.len() - needle@.len(),
            needle@.len() <= hay@.len(),
            i <= last,
            forall|j: int| 0 <= j < i ==> #[trigger] hay@.subrange(j, j + needle@.len()) != needle@,
        ensures
            forall|j: int| 0 <= j <= last ==> #[trigger] hay@.subrange(j, j + needle@.len()) != needle@,
        decreases last - i,
    {
        if matches_at(hay, needle, i) {
            return true;
        }
        if i == last {
            break;
        }
        i = i + 1;
    }
    false
}

fn chars_of_string(s: &str) -> (v: Vec<char>)
    ensures
        v@ == s@,
{
    crate::text::chars_of(s)
}

/// Whether the lower-cased name of `node`, or of a node below it, contains
/// `needle_lower`.
pub fn node_or_descendant_contains(node: &Fs, needle_lower: &str) -> (r: bool)
    ensures
        r == subtree_matches(*node, needle_lower@),
    decreases node,
{
    let name = match node {
        Fs::Folder { name, .. } => name,
        Fs::File { name, .. } => name,
    };
    let lower = to_lowercase(name.as_str());
    if find_text(&chars_of_string(lower.as_str()), &chars_of_string(needle_lower)) {
        return true;
    }
    match node {
        Fs::Folder { children, .. } => {
            let mut i: usize = 0;
            while i < children.len()
                invariant
                    *node is Folder,
                    (*node)->Folder_children == *children,
                    i <= children@.len(),
                    forall|j: int| 0 <= j < i ==> !subtree_matches(#[trigger] children@[j], needle_lower@),
                decreases children.len() - i,
            {
                proof {
                    assert(decreases_to!(*node => (*node)->Folder_children));
                    assert(decreases_to!((*node)->Folder_children => (*node)->Folder_children@));
                    assert(decreases_to!((*node)->Folder_children@ => (*node)->Folder_children@[i as int]));
                }
                if node_or_descendant_contains(&children[i], needle_lower) {
                    proof {
                        lemma_some_child(children@, needle_lower@, i as int, children@.len() as int);
                    }
                    return true;
                }
                i = i + 1;
            }
            proof {
                lemma_no_child(children@, needle_lower@, children@.len() as int);
            }
            false
        },
        Fs::File { .. } => false,
    }
}

proof fn lemma_some_child(cs: Seq<Fs>, needle: Seq<char>, j: int, k: int)
    requires
        0 <= j < k <= cs.len(),
        subtree_matches(cs[j], needle),
    ensures
        some_child_matches(cs, needle, k),
    decreases k,
{
    if j < k - 1 {
        lemma_some_child(cs, needle, j, k - 1);
    }
}

proof fn lemma_no_child(cs: Seq<Fs>, needle: Seq<char>, k: int)
    requires
        0 <= k <= cs.len(),
        forall|j: int| 0 <= j < k ==> !subtree_matches(#[trigger] cs[j], needle),
    ensures
        !some_child_matches(cs, needle, k),
    decreases k,
{
    if k > 0 {
        lemma_no_child(cs, needle, k - 1);
    }
}

/// Whether the filter shows `node`: a hidden name (starting with `.`) only
/// when hidden files are shown; then every node for a blank filter, else a
/// node whose lower-cased name, or that of a node below it, contains the
/// lower-cased filter without its surrounding whitespace.
pub open spec fn spec_visible(node: Fs, show_hidden: bool, filter_text: Seq<char>) -> bool {
    let name = node_name(node);
    let needle = strip(filter_text, |c: char| is_whitespace(c));
    if !show_hidden && name.len() > 0 && name[0] == '.' {
        false
    } else if needle.len() == 0 {
        true
    } else {
        subtree_matches(node, lowercase(needle))
    }
}

/// Whether the side bar shows `node` under the filter `filter_text`.
pub fn visible_by_filter(node: &Fs, show_hidden: bool, filter_text: &str) -> (r: bool)
    ensures
        r == spec_visible(*node, show_hidden, filter_text@),
{
    let name = match node {
        Fs::Folder { name, .. } => name,
        Fs::File { name, .. } => name,
    };
    let cs = chars_of_string(name.as_str());
    if !show_hidden && cs.len() > 0 && cs[0] == '.' {
        return false;
    }
    let needle = trimmed(filter_text);
    if needle.as_str().is_empty() {
        return true;
    }
    let needle_lower = to_lowercase(needle.as_str());
    node_or_descendant_contains(node, needle_lower.as_str())
}


/* -------------------------------- sorting -------------------------------- */

/// The orders in which a folder's entries are listed.
#[derive(Debug, Clone, Copy, PartialEq, Eq, Structural)]
pub enum SortMode {
    NameAsc,
    NameDesc,
    FoldersFirst,
    ModifiedNewest,
    ModifiedOldest,
}

/// The order of strings (`Ord` for `str`): character by character, a
/// proper prefix first.
pub open spec fn text_order(a: Seq<char>, b: Seq<char>) -> int
    decreases a.len(),
{
    if a.len() == 0 {
        if b.len() == 0 { 0 } else { -1 }
    } else if b.len() == 0 {
        1
    } else if a[0] < b[0] {
        -1
    } else if a[0] > b[0] {
        1
    } else {
        text_order(a.drop_first(), b.drop_first())
    }
}

/// The order of optional times: no time first.
pub open spec fn time_order(a: Option<i128>, b: Option<i128>) -> int {
    match (a, b) {
        (None, None) => 0,
        (None, Some(_)) => -1,
        (Some(_), None) => 1,
        (Some(x), Some(y)) => if x < y { -1 } else if x > y { 1 } else { 0 },
    }
}

pub open spec fn modified_of(n: Fs) -> Option<i128> {
    match n {
        Fs::Folder { modified, .. } => modified,
        Fs::File { modified, .. } => modified,
    }
}

/// How `a` compares with `b` in the listing order `mode` (negative: `a`
/// first): by lower-cased name, folders before files, or by modification
/// time, newest or oldest first.
pub open spec fn entry_order(mode: SortMode, a: Fs, b: Fs) -> int {
    let la = lowercase(node_name(a));
    let lb = lowercase(node_name(b));
    match mode {
        SortMode::FoldersFirst => if !(a is File) && b is File {
            -1
        } else if a is File && !(b is File) {
            1
        } else {
            text_order(la, lb)
        },
        SortMode::NameAsc => text_order(la, lb),
        SortMode::NameDesc => text_order(lb, la),
        SortMode::ModifiedNewest => time_order(modified_of(b), modified_of(a)),
        SortMode::ModifiedOldest => time_order(modified_of(a), modified_of(b)),
    }
}

proof fn lemma_text_order(a: Seq<char>, b: Seq<char>, c: Seq<char>)
    ensures
        text_order(a, b) == -text_order(b, a),
        -1 <= text_order(a, b) <= 1,
        text_order(a, b) <= 0 && text_order(b, c) <= 0 ==> text_order(a, c) <= 0,
        text_order(a, b) < 0 && text_order(b, c) <= 0 ==> text_order(a, c) < 0,
        text_order(a, b) <= 0 && text_order(b, c) < 0 ==> text_order(a, c) < 0,
    decreases a.len(),
{
    if a.len() > 0 && b.len() > 0 && c.len() > 0 {
        lemma_text_order(a.drop_first(), b.drop_first(), c.drop_first());
    } else if a.len() > 0 && b.len() > 0 {
        lemma_text_order(a.drop_first(), b.drop_first(), c);
    }
}

/// `entry_order` orders the entries: it is antisymmetric and transitive.
proof fn lemma_entry_order(mode: SortMode, a: Fs, b: Fs, c: Fs)
    ensures
        entry_order(mode, a, b) == -entry_order(mode, b, a),
        entry_order(mode, a, b) <= 0 && entry_order(mode, b, c) <= 0 ==> entry_order(mode, a, c) <= 0,
        entry_order(mode, a, b) < 0 && entry_order(mode, b, c) <= 0 ==> entry_order(mode, a, c) < 0,
        entry_order(mode, a, b) <= 0 && entry_order(mode, b, c) < 0 ==> entry_order(mode, a, c) < 0,
{
    let (la, lb, lc) = (lowercase(node_name(a)), lowercase(node_name(b)), lowercase(node_name(c)));
    lemma_text_order(la, lb, lc);
    lemma_text_order(lc, lb, la);
    lemma_text_order(lb, la, lc);
    lemma_text_order(la, lc, lb);
}

/// `idx` lists each of `0..n` once.
pub open spec fn is_permutation(idx: Seq<int>, n: int) -> bool {
    &&& idx.len() == n
    &&& idx.no_duplicates()
    &&& forall|k: int| 0 <= k < idx.len() ==> 0 <= #[trigger] idx[k] < n
}

/// `r` lists the entries `v` in the order `mode`, keeping entries that
/// compare equal in the order of `v` (a stable sort): `r[k]` is `v[idx[k]]`.
pub open spec fn sorted_as(mode: SortMode, v: Seq<Fs>, r: Seq<Fs>, idx: Seq<int>) -> bool {
    &&& is_permutation(idx, v.len() as int)
    &&& r.len() == v.len()
    &&& forall|k: int| 0 <= k < r.len() ==> r[k] == v[#[trigger] idx[k]]
    &&& forall|a: int, b: int| 0 <= a < b < r.len() ==> entry_order(mode, #[trigger] r[a], #[trigger] r[b]) <= 0
    &&& forall|a: int, b: int| 0 <= a < b < r.len() && entry_order(mode, r[a], r[b]) == 0 ==> #[trigger] idx[a] < #[trigger] idx[b]
}

fn text_compare(a: &Vec<char>, b: &Vec<char>) -> (r: i8)
    ensures
        r as int == text_order(a@, b@),
{
    let mut i: usize = 0;
    assert(a@.skip(0) =~= a@ && b@.skip(0) =~= b@);
    while i < a.len() && i < b.len()
        invariant
            i <= a@.len(),
            i <= b@.len(),
            forall|k: int| 0 <= k < i ==> a@[k] == b@[k],
            text_order(a@.skip(i as int), b@.skip(i as int)) == text_order(a@, b@),
        decreases a.len() - i,
    {
        if a[i] < b[i] {
            assert(a@.skip(i as int)[0] == a@[i as int]);
            assert(b@.skip(i as int)[0] == b@[i as int]);
            return -1;
        }
        if a[i] > b[i] {
            assert(a@.skip(i as int)[0] == a@[i as int]);
            assert(b@.skip(i as int)[0] == b@[i as int]);
            return 1;
        }
        assert(a@.skip(i as int).drop_first() =~= a@.skip(i + 1));
        assert(b@.skip(i as int).drop_first() =~= b@.skip(i + 1));
        i = i + 1;
    }
    assert(a@.skip(i as int).len() == a@.len() - i && b@.skip(i as int).len() == b@.len() - i);
    if i == a.len() && i == b.len() {
        0
    } else if i == a.len() {
        -1
    } else {
        1
    }
}

fn time_compare(a: Option<i128>, b: Option<i128>) -> (r: i8)
    ensures
        r as int == time_order(a, b),
{
    match (a, b) {
        (None, None) => 0,
        (None, Some(_)) => -1,
        (Some(_), None) => 1,
        (Some(x), Some(y)) => if x < y { -1 } else if x > y { 1 } else { 0 },
    }
}

fn lower_name(n: &Fs) -> (r: Vec<char>)
    ensures
        r@ == lowercase(node_name(*n)),
{
    let name = match n {
        Fs::Folder { name, .. } => name,
        Fs::File { name, .. } => name,
    };
    chars_of_string(to_lowercase(name.as_str()).as_str())
}

fn node_compare(mode: SortMode, a: &Fs, la: &Vec<char>, b: &Fs, lb: &Vec<char>) -> (r: i8)
    requires
        la@ == lowercase(node_name(*a)),
        lb@ == lowercase(node_name(*b)),
    ensures
        r as int == entry_order(mode, *a, *b),
{
    let a_file = match a { Fs::File { .. } => true, Fs::Folder { .. } => false };
    let b_file = match b { Fs::File { .. } => true, Fs::Folder { .. } => false };
    let am = match a { Fs::Folder { modified, .. } => *modified, Fs::File { modified, .. } => *modified };
    let bm = match b { Fs::Folder { modified, .. } => *modified, Fs::File { modified, .. } => *modified };
    match mode {
        SortMode::FoldersFirst => if !a_file && b_file {
            -1
        } else if a_file && !b_file {
            1
        } else {
            text_compare(la, lb)
        },
        SortMode::NameAsc => text_compare(la, lb),
        SortMode::NameDesc => text_compare(lb, la),
        SortMode::ModifiedNewest => time_compare(bm, am),
        SortMode::ModifiedOldest => time_compare(am, bm),
    }
}

/// The entries that a list of references points to.
pub open spec fn entries_view(v: Seq<&Fs>) -> Seq<Fs> {
    v.map_values(|x: &Fs| *x)
}

/// The entries `v` in the listing order `mode`; entries that compare equal
/// keep their order.
pub fn sorted_refs<'a>(mode: SortMode, v: Vec<&'a Fs>) -> (r: Vec<&'a Fs>)
    ensures
        exists|idx: Seq<int>| #[trigger] sorted_as(mode, entries_view(v@), entries_view(r@), idx),
{
    let ghost vs = entries_view(v@);
    let mut out: Vec<&'a Fs> = Vec::new();
    let mut names: Vec<Vec<char>> = Vec::new();
    let ghost mut idx: Seq<int> = Seq::empty();
    let mut j: usize = 0;
    while j < v.len()
        invariant
            vs == entries_view(v@),
            j <= v@.len(),
            out@.len() == j,
            names@.len() == j,
            forall|k: int| 0 <= k < j ==> (#[trigger] names@[k])@ == lowercase(node_name(*out@[k])),
            sorted_as(mode, vs.take(j as int), entries_view(out@), idx),
        decreases v.len() - j,
    {
        let x = v[j];
        let xn = lower_name(x);
        let ghost os = entries_view(out@);
        // the first entry that `x` must precede
        let mut p: usize = 0;
        while p < out.len() && node_compare(mode, x, &xn, out[p], &names[p]) >= 0
            invariant
                p <= out@.len(),
                out@.len() == names@.len(),
                os == entries_view(out@),
                xn@ == lowercase(node_name(*x)),
                forall|k: int| 0 <= k < out@.len() ==> (#[trigger] names@[k])@ == lowercase(node_name(*out@[k])),
                forall|k: int| 0 <= k < p ==> entry_order(mode, *x, #[trigger] os[k]) >= 0,
            decreases out.len() - p,
        {
            p = p + 1;
        }
        proof {
            lemma_insert_sorted(mode, vs, j as int, os, idx, p as int);
        }
        let ghost old_names = names@;
        let ghost old_out = out@;
        out.insert(p, x);
        names.insert(p, xn);
        proof {
            assert(entries_view(out@) =~= os.insert(p as int, vs[j as int]));
            idx = idx.insert(p as int, j as int);
            assert forall|k: int| 0 <= k < j + 1 implies (#[trigger] names@[k])@ == lowercase(node_name(*out@[k])) by {
                if k < p {
                    assert(names@[k] == old_names[k] && out@[k] == old_out[k]);
                } else if k > p {
                    assert(names@[k] == old_names[k - 1] && out@[k] == old_out[k - 1]);
                }
            }
        }
        j = j + 1;
    }
    proof {
        assert(vs.take(v@.len() as int) =~= vs);
    }
    out
}

/// Inserting entry `j` of `vs` at the first position `p` whose entry it
/// must precede keeps the prefix sorted and stable.
proof fn lemma_insert_sorted(mode: SortMode, vs: Seq<Fs>, j: int, os: Seq<Fs>, idx: Seq<int>, p: int)
    requires
        0 <= j < vs.len(),
        sorted_as(mode, vs.take(j), os, idx),
        0 <= p <= os.len(),
        forall|k: int| 0 <= k < p ==> entry_order(mode, vs[j], #[trigger] os[k]) >= 0,
        p < os.len() ==> entry_order(mode, vs[j], os[p]) < 0,
    ensures
        sorted_as(mode, vs.take(j + 1), os.insert(p, vs[j]), idx.insert(p, j)),
{
    let x = vs[j];
    let r = os.insert(p, x);
    let ix = idx.insert(p, j);
    assert(vs.take(j + 1)[j] == x);
    assert forall|k: int| 0 <= k < r.len() implies r[k] == vs.take(j + 1)[#[trigger] ix[k]] by {
        if k < p {
            assert(r[k] == os[k]);
            assert(ix[k] == idx[k]);
        } else if k > p {
            assert(r[k] == os[k - 1]);
            assert(ix[k] == idx[k - 1]);
        }
    }
    assert forall|a: int, b: int| 0 <= a < b < r.len() implies entry_order(mode, #[trigger] r[a], #[trigger] r[b]) <= 0 by {
        if b < p {
            assert(r[a] == os[a] && r[b] == os[b]);
        } else if a > p {
            assert(r[a] == os[a - 1] && r[b] == os[b - 1]);
        } else if a == p {
            assert(r[b] == os[b - 1]);
            // x precedes os[p], which does not follow os[b - 1]
            lemma_entry_order(mode, x, os[p], os[b - 1]);
        } else if b == p {
            assert(r[a] == os[a]);
            lemma_entry_order(mode, x, os[a], x);
        } else {
            assert(r[a] == os[a] && r[b] == os[b - 1]);
        }
    }
    assert forall|a: int, b: int| 0 <= a < b < r.len() && entry_order(mode, r[a], r[b]) == 0 implies #[trigger] ix[a] < #[trigger] ix[b] by {
        if b < p {
            assert(r[a] == os[a] && r[b] == os[b]);
        } else if a > p {
            assert(r[a] == os[a - 1] && r[b] == os[b - 1]);
        } else if a == p {
            assert(r[b] == os[b - 1]);
            lemma_entry_order(mode, x, os[p], os[b - 1]);
        } else if b == p {
            assert(ix[b] == j);
            assert(0 <= idx[a] < j);
        } else {
            assert(r[a] == os[a] && r[b] == os[b - 1]);
        }
    }
    assert(ix.no_duplicates()) by {
        assert forall|a: int, b: int| 0 <= a < ix.len() && 0 <= b < ix.len() && a != b implies ix[a] != ix[b] by {
            if a != p && b != p {
                let a0 = if a < p { a } else { a - 1 };
                let b0 = if b < p { b } else { b - 1 };
                assert(ix[a] == idx[a0] && ix[b] == idx[b0]);
            } else if a == p {
                let b0 = if b < p { b } else { b - 1 };
                assert(ix[b] == idx[b0]);
            } else {
                let a0 = if a < p { a } else { a - 1 };
                assert(ix[a] == idx[a0]);
            }
        }
    }
    assert forall|k: int| 0 <= k < ix.len() implies 0 <= #[trigger] ix[k] < j + 1 by {
        if k < p {
            assert(ix[k] == idx[k]);
        } else if k > p {
            assert(ix[k] == idx[k - 1]);
        }
    }
}

} // verus!
