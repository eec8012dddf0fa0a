//! The side bar's file tree as state: which paths are selected, which one
//! is being renamed, and the commands the tree gives.

use vstd::prelude::*;
use crate::files::{Fs, SortMode, entries_view, sorted_as, spec_visible};
use crate::frame_query::ordering::{is_whitespace, strip, trimmed};
use crate::text::{owned, str_eq};

verus! {

/// A command the file tree gives to the rest of the program.
#[derive(Debug, Clone)]
pub enum FileCmd {
    NewFile { parent: String },
    NewFolder { parent: String },
    DeleteMany { targets: Vec<String> },
    Move { from: String, to_dir: String },
    Rename { from: String, new_name: String },
    Open { path: String },
}

/// The texts of a list of paths.
pub open spec fn texts(v: Seq<String>) -> Seq<Seq<char>> {
    v.map_values(|s: String| s@)
}

/// The state of the file tree that does not belong to the drawing: the
/// selected paths (each once), the path clicked last, the path being
/// renamed with the name typed so far, the filter and the listing order.
pub struct FolderTree {
    pub selection: Vec<String>,
    pub last_clicked: Option<String>,
    pub renaming: Option<String>,
    pub rename_buf: String,
    pub filter_text: String,
    pub sort_mode: SortMode,
    pub show_hidden: bool,
}

/// A path whose components every platform reads alike: no `'\\'` and no
/// `':'` (which Windows also reads as separator and drive mark), and no
/// leading `//` (which Windows reads as a network share).
pub open spec fn plain_path(p: Seq<char>) -> bool {
    &&& forall|i: int| 0 <= i < p.len() ==> #[trigger] p[i] != '\\' && p[i] != ':'
    &&& !(p.len() >= 2 && p[0] == '/' && p[1] == '/')
}

/// A piece of a path that names something: not empty and not `.`.
pub open spec fn names_something(piece: Seq<char>) -> bool {
    piece.len() > 0 && piece != "."@
}

/// The last `'/'`-separated piece of `s + cur` that is neither empty nor
/// `.`, where `cur` holds no `'/'` and is the end of the piece that `s`
/// ends in.
pub open spec fn last_piece_from(s: Seq<char>, cur: Seq<char>) -> Option<Seq<char>>
    decreases s.len(),
{
    if s.len() == 0 {
        if names_something(cur) { Some(cur) } else { None }
    } else if s.last() == '/' {
        if names_something(cur) { Some(cur) } else { last_piece_from(s.drop_last(), Seq::empty()) }
    } else {
        last_piece_from(s.drop_last(), seq![s.last()] + cur)
    }
}

/// The file name of a plain path, as `Path::file_name` reads it: its last
/// component, that is the last `'/'`-separated piece that is neither empty
/// nor `.`; none when that piece is `..` or there is no such piece.
pub open spec fn path_file_name(p: Seq<char>) -> Option<Seq<char>> {
    match last_piece_from(p, Seq::empty()) {
        Some(piece) => if piece == ".."@ { None } else { Some(piece) },
        None => None,
    }
}

/// The text of an optional string.
pub open spec fn opt_view(o: Option<String>) -> Option<Seq<char>> {
    match o {
        Some(s) => Some(s@),
        None => None,
    }
}

/// What `Path::file_name` gives for `path`, as text. For a plain path the
/// documentation fixes it: the last component (see `path_file_name`);
/// converting it back to text loses nothing, since it came from a `&str`.
/// For other paths the components depend on the platform, and nothing is
/// claimed.
#[verifier::external_body]
fn file_name_text(path: &str) -> (r: Option<String>)
    ensures
        plain_path(path@) ==> opt_view(r) == path_file_name(path@),
{
    std::path::Path::new(path).file_name().map(|n| n.to_string_lossy().into_owned())
}

/// The text of an optional name, empty when there is none.
pub open spec fn name_or_empty(o: Option<Seq<char>>) -> Seq<char> {
    match o {
        Some(n) => n,
        None => Seq::empty(),
    }
}

/// What ending the rename of `from` gives, with `typed` the name typed and
/// `now` the name the path has: a rename to `typed` when it is not blank
/// and differs from `now`, else nothing.
pub open spec fn rename_given(from: String, typed: Seq<char>, now: Seq<char>, r: Option<FileCmd>) -> bool {
    if strip(typed, |c: char| is_whitespace(c)).len() > 0 && typed != now {
        r matches Some(FileCmd::Rename { from: f, new_name }) && f == from && new_name@ == typed
    } else {
        r is None
    }
}

/// The selection after a click on `p`: with `additive`, `p` joins it or
/// leaves it; without, `p` alone.
pub open spec fn toggled(s: Set<Seq<char>>, p: Seq<char>, additive: bool) -> Set<Seq<char>> {
    if !additive {
        set![p]
    } else if s.contains(p) {
        s.remove(p)
    } else {
        s.insert(p)
    }
}

/// Two additive clicks on the same path leave the selection as it was.
pub proof fn law_double_toggle_restores(s: Set<Seq<char>>, p: Seq<char>)
    ensures
        toggled(toggled(s, p, true), p, true) == s,
{
    if s.contains(p) {
        assert(s.remove(p).insert(p) =~= s);
    } else {
        assert(s.insert(p).remove(p) =~= s);
    }
}

proof fn lemma_singleton_to_set(x: Seq<char>)
    ensures
        seq![x].to_set() == set![x],
{
    assert(seq![x][0] == x);
    assert forall|y: Seq<char>| seq![x].to_set().contains(y) implies y == x by {
        let j = choose|j: int| 0 <= j < seq![x].len() && seq![x][j] == y;
    }
    assert(seq![x].to_set() =~= set![x]);
}

impl FolderTree {
    /// No path is selected twice.
    pub open spec fn wf(&self) -> bool {
        texts(self.selection@).no_duplicates()
    }

    /// The selected paths.
    pub open spec fn selected(&self) -> Set<Seq<char>> {
        texts(self.selection@).to_set()
    }

    /// Nothing selected, clicked or renamed; no filter; folders first; hidden
    /// files not shown.
    pub fn new() -> (r: Self)
        ensures
            r.wf(),
            r.selected() == Set::<Seq<char>>::empty(),
            r.last_clicked is None,
            r.renaming is None,
            r.rename_buf@ == Seq::<char>::empty(),
            r.filter_text@ == Seq::<char>::empty(),
            r.sort_mode == SortMode::FoldersFirst,
            !r.show_hidden,
    {
        let r = FolderTree {
            selection: Vec::new(),
            last_clicked: None,
            renaming: None,
            rename_buf: String::new(),
            filter_text: String::new(),
            sort_mode: SortMode::FoldersFirst,
            show_hidden: false,
        };
        assert(r.selected() =~= Set::<Seq<char>>::empty());
        r
    }

    fn position(&self, path: &str) -> (r: Option<usize>)
        ensures
            match r {
                Some(i) => i < self.selection@.len() && self.selection@[i as int]@ == path@,
                None => !texts(self.selection@).contains(path@),
            },
    {
        let mut i: usize = 0;
        while i < self.selection.len()
            invariant
                i <= self.selection@.len(),
                forall|j: int| 0 <= j < i ==> self.selection@[j]@ != path@,
            decreases self.selection.len() - i,
        {
            if str_eq(self.selection[i].as_str(), path) {
                return Some(i);
            }
            i = i + 1;
        }
        proof {
            if texts(self.selection@).contains(path@) {
                let j = choose|j: int| 0 <= j < texts(self.selection@).len() && texts(self.selection@)[j] == path@;
                assert(self.selection@[j]@ == path@);
            }
        }
        None
    }

    /// Whether `path` is selected.
    pub fn is_selected(&self, path: &str) -> (r: bool)
        ensures
            r == self.selected().contains(path@),
    {
        let r = self.position(path);
        proof {
            if let Some(i) = r {
                assert(texts(self.selection@)[i as int] == path@);
            }
        }
        r.is_some()
    }

    fn select_only(&mut self, path: String)
        ensures
            final(self).wf(),
            final(self).selected() == set![path@],
            final(self).last_clicked == old(self).last_clicked,
            final(self).renaming == old(self).renaming,
            final(self).rename_buf == old(self).rename_buf,
            final(self).filter_text == old(self).filter_text,
            final(self).sort_mode == old(self).sort_mode,
            final(self).show_hidden == old(self).show_hidden,
    {
        self.selection.clear();
        self.selection.push(path);
        proof {
            assert(texts(self.selection@) =~= seq![path@]);
            lemma_singleton_to_set(path@);
        }
    }

    /// A click on `path`: with `additive` it joins the selection, or leaves
    /// it when it was selected; without, it becomes the whole selection.
    /// The path clicked last is then one of the selected paths, or none when
    /// nothing is selected.
    pub fn toggle_select(&mut self, path: String, additive: bool)
        requires
            old(self).wf(),
        ensures
            final(self).wf(),
            final(self).selected() == toggled(old(self).selected(), path@, additive),
            match final(self).last_clicked {
                Some(p) => final(self).selected().contains(p@),
                None => final(self).selected().is_empty(),
            },
            final(self).renaming == old(self).renaming,
            final(self).rename_buf == old(self).rename_buf,
            final(self).filter_text == old(self).filter_text,
            final(self).sort_mode == old(self).sort_mode,
            final(self).show_hidden == old(self).show_hidden,
    {
        let ghost before = texts(self.selection@);
        if additive {
            match self.position(path.as_str()) {
                Some(i) => {
                    self.selection.remove(i);
                    proof {
                        let after = texts(self.selection@);
                        assert(after =~= before.remove(i as int));
                        assert(before.to_set().contains(path@)) by {
                            assert(before[i as int] == path@);
                        }
                        assert forall|x: Seq<char>| after.to_set().contains(x) <==> before.to_set().remove(path@).contains(x) by {
                            if after.to_set().contains(x) {
                                let j = choose|j: int| 0 <= j < after.len() && after[j] == x;
                                let k = if j < i { j } else { j + 1 };
                                assert(before[k] == x);
                                assert(k != i);
                                assert(before[k] != before[i as int]);
                            }
                            if before.to_set().remove(path@).contains(x) {
                                let k = choose|k: int| 0 <= k < before.len() && before[k] == x;
                                assert(k != i);
                                let j = if k < i { k } else { k - 1 };
                                assert(after[j] == x);
                            }
                        }
                        assert(after.to_set() =~= before.to_set().remove(path@));
                        assert(after.no_duplicates()) by {
                            assert forall|a: int, b: int| 0 <= a < after.len() && 0 <= b < after.len() && a != b
                                implies after[a] != after[b] by {
                                let a0 = if a < i { a } else { a + 1 };
                                let b0 = if b < i { b } else { b + 1 };
                                assert(after[a] == before[a0] && after[b] == before[b0]);
                            }
                        }
                    }
                },
                None => {
                    let ghost p = path@;
                    self.selection.push(path);
                    proof {
                        let after = texts(self.selection@);
                        assert(after =~= before.push(p));
                        assert(after.to_set() =~= before.to_set().insert(p)) by {
                            assert forall|x: Seq<char>| after.to_set().contains(x) implies before.to_set().insert(p).contains(x) by {
                                let j = choose|j: int| 0 <= j < after.len() && after[j] == x;
                                if j < before.len() {
                                    assert(before[j] == x);
                                }
                            }
                            assert forall|x: Seq<char>| before.to_set().insert(p).contains(x) implies after.to_set().contains(x) by {
                                if x == p {
                                    assert(after[before.len() as int] == x);
                                } else {
                                    let k = choose|k: int| 0 <= k < before.len() && before[k] == x;
                                    assert(after[k] == x);
                                }
                            }
                        }
                        assert(after.no_duplicates()) by {
                            assert forall|a: int, b: int| 0 <= a < after.len() && 0 <= b < after.len() && a != b
                                implies after[a] != after[b] by {
                                if a == before.len() as int {
                                    assert(after[b] == before[b]);
                                } else if b == before.len() as int {
                                    assert(after[a] == before[a]);
                                } else {
                                    assert(after[a] == before[a] && after[b] == before[b]);
                                }
                            }
                        }
                    }
                },
            }
        } else {
            self.select_only(path);
        }
        if self.selection.len() > 0 {
            let first = self.selection[0].clone();
            proof {
                assert(texts(self.selection@)[0] == first@);
            }
            self.last_clicked = Some(first);
        } else {
            proof {
                assert(texts(self.selection@).to_set() =~= Set::<Seq<char>>::empty());
            }
            self.last_clicked = None;
        }
        proof {
            if self.selection@.len() > 0 {
                assert(self.selected().contains(texts(self.selection@)[0]));
                assert(!self.selected().is_empty());
            }
        }
    }

    /// Before acting on `path` (a drag, a menu), it is made the selection
    /// unless it is selected already.
    pub fn ensure_selected(&mut self, path: String)
        requires
            old(self).wf(),
        ensures
            final(self).wf(),
            final(self).selected() == if old(self).selected().contains(path@) {
                old(self).selected()
            } else {
                set![path@]
            },
            final(self).last_clicked == old(self).last_clicked,
            final(self).renaming == old(self).renaming,
            final(self).rename_buf == old(self).rename_buf,
    {
        if !self.is_selected(path.as_str()) {
            self.select_only(path);
        }
    }

    /// The selected path when exactly one is selected.
    pub fn single_selected_path(&self) -> (r: Option<String>)
        requires
            self.wf(),
        ensures
            r is Some <==> self.selected().len() == 1,
            r matches Some(p) ==> self.selected() == set![p@],
    {
        proof {
            texts(self.selection@).unique_seq_to_set();
        }
        if self.selection.len() == 1 {
            let p = self.selection[0].clone();
            proof {
                assert(texts(self.selection@) =~= seq![p@]);
                lemma_singleton_to_set(p@);
            }
            Some(p)
        } else {
            None
        }
    }

    /// Renaming `path` begins, the name to edit being `current_name` (the
    /// path's last component), or empty when the path has none.
    pub fn begin_rename(&mut self, path: String, current_name: Option<String>)
        ensures
            final(self).renaming == Some(path),
            final(self).rename_buf@ == match current_name {
                Some(n) => n@,
                None => Seq::<char>::empty(),
            },
            final(self).selected() == old(self).selected(),
            final(self).last_clicked == old(self).last_clicked,
    {
        self.renaming = Some(path);
        self.rename_buf = match current_name {
            Some(n) => n,
            None => String::new(),
        };
    }

    /// Renaming `path` begins with the name of its last component; for a
    /// plain path that is `path_file_name`, or empty when it has none.
    pub fn start_rename(&mut self, path: String)
        ensures
            final(self).renaming == Some(path),
            plain_path(path@) ==> final(self).rename_buf@ == name_or_empty(path_file_name(path@)),
            final(self).selected() == old(self).selected(),
            final(self).last_clicked == old(self).last_clicked,
    {
        let name = file_name_text(path.as_str());
        self.begin_rename(path, name);
    }

    /// Renaming stops and the typed name is dropped.
    pub fn cancel_rename(&mut self)
        ensures
            final(self).renaming is None,
            final(self).rename_buf@ == Seq::<char>::empty(),
            final(self).selected() == old(self).selected(),
            final(self).last_clicked == old(self).last_clicked,
    {
        self.renaming = None;
        self.rename_buf = String::new();
    }

    /// Renaming `from` ends, given the name it has now: the typed name is
    /// taken, and a rename is given when it is not blank and differs from
    /// that name (an empty one when the path has no last component).
    pub fn finish_rename(&mut self, from: String, current_name: Option<String>) -> (r: Option<FileCmd>)
        ensures
            final(self).renaming is None,
            final(self).rename_buf@ == Seq::<char>::empty(),
            final(self).selected() == old(self).selected(),
            final(self).last_clicked == old(self).last_clicked,
            rename_given(from, old(self).rename_buf@, name_or_empty(opt_view(current_name)), r),
    {
        let mut new_name = String::new();
        std::mem::swap(&mut new_name, &mut self.rename_buf);
        self.renaming = None;
        let now = match current_name {
            Some(n) => n,
            None => String::new(),
        };
        let blank = trimmed(new_name.as_str()).as_str().is_empty();
        if !blank && !str_eq(new_name.as_str(), now.as_str()) {
            Some(FileCmd::Rename { from, new_name })
        } else {
            None
        }
    }

    /// Ends a rename in progress, if any; see `finish_rename`, with the
    /// path's current name as `Path::file_name` reads it (for a plain path,
    /// `path_file_name`). Without one, nothing changes and no command is
    /// given.
    pub fn commit_rename_if_any(&mut self) -> (r: Option<FileCmd>)
        ensures
            old(self).renaming is None ==> r is None && *final(self) == *old(self),
            old(self).renaming matches Some(from) ==> {
                &&& final(self).renaming is None
                &&& final(self).rename_buf@ == Seq::<char>::empty()
                &&& final(self).selected() == old(self).selected()
                &&& (r matches Some(FileCmd::Rename { from: f, new_name }) ==> f == from
                    && new_name@ == old(self).rename_buf@
                    && strip(new_name@, |c: char| is_whitespace(c)).len() > 0)
                &&& (r is None || r matches Some(FileCmd::Rename { .. }))
                &&& plain_path(from@) ==> rename_given(from, old(self).rename_buf@, name_or_empty(path_file_name(from@)), r)
            },
    {
        match self.renaming.take() {
            None => None,
            Some(from) => {
                let name = file_name_text(from.as_str());
                self.finish_rename(from, name)
            },
        }
    }

    /// Whether the tree shows `node` under its filter; see
    /// `files::visible_by_filter`.
    pub fn visible_by_filter(&self, node: &Fs) -> (r: bool)
        ensures
            r == spec_visible(*node, self.show_hidden, self.filter_text@),
    {
        crate::files::visible_by_filter(node, self.show_hidden, self.filter_text.as_str())
    }

    /// The entries `v` in the tree's listing order; see
    /// `files::sorted_refs`.
    pub fn sorted_refs<'a>(&self, v: Vec<&'a Fs>) -> (r: Vec<&'a Fs>)
        ensures
            exists|idx: Seq<int>| #[trigger] sorted_as(self.sort_mode, entries_view(v@), entries_view(r@), idx),
    {
        crate::files::sorted_refs(self.sort_mode, v)
    }
}

} // verus!
