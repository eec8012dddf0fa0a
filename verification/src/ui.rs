//! State of the desktop interface that does not depend on the widget
//! toolkit: panel and settings state, and the parsing of listen addresses.

use vstd::prelude::*;
use crate::text::{chars_of, string_of, owned, concat};
use crate::numbers::{parse_u16, u16_text_value};

verus! {

/// The status bar at the bottom of the window.
pub struct BottomBar;

impl BottomBar {
    pub fn new() -> (r: Self)
        ensures
            r == BottomBar,
    {
        BottomBar
    }
}

/// The sections of the settings panel.
#[derive(Debug, Clone, Copy, PartialEq, Eq, Structural)]
pub enum Section {
    Ui,
    Connection,
}

/// The settings panel: which accordion section is open.
#[derive(Debug, Clone)]
pub struct Settings {
    pub active: Option<Section>,
}

impl Settings {
    /// The panel opens on the interface section.
    pub fn new() -> (r: Self)
        ensures
            r.active == Some(Section::Ui),
    {
        Settings { active: Some(Section::Ui) }
    }
}

/// The index of the last `':'` in `s`, if any.
pub open spec fn last_colon(s: Seq<char>) -> Option<int> {
    if exists|i: int| 0 <= i < s.len() && s[i] == ':' {
        Some(choose|i: int| 0 <= i < s.len() && s[i] == ':' && forall|j: int| i < j < s.len() ==> s[j] != ':')
    } else {
        None
    }
}

/// Host and port of `addr`: the text before the last colon, and the port
/// after it when that reads as a `u16`; `default_port` when it does not, or
/// when there is no colon (then the host is all of `addr`).
pub open spec fn spec_split_host_port(addr: Seq<char>, default_port: u16) -> (Seq<char>, u16) {
    match last_colon(addr) {
        Some(i) => (
            addr.take(i),
            match u16_text_value(addr.skip(i + 1)) {
                Some(p) => p,
                None => default_port,
            },
        ),
        None => (addr, default_port),
    }
}

/// Splits `host:port`; see `spec_split_host_port`.
pub fn split_host_port(addr: &str, default_port: u16) -> (r: (String, u16))
    ensures
        (r.0@, r.1) == spec_split_host_port(addr@, default_port),
{
    let cs = chars_of(addr);
    let n = cs.len();
    let mut i = n;
    while i > 0
        invariant
            i <= n == cs@.len(),
            cs@ == addr@,
            forall|j: int| i <= j < n ==> cs@[j] != ':',
        decreases i,
    {
        if cs[i - 1] == ':' {
            let k = i - 1;
            let host = string_of(cs.as_slice(), 0, k);
            let port_text = string_of(cs.as_slice(), i, n);
            let p = match parse_u16(port_text.as_str()) {
                Some(p) => p,
                None => default_port,
            };
            proof {
                assert(cs@[k as int] == ':');
                let w = choose|w: int| 0 <= w < addr@.len() && addr@[w] == ':' && forall|j: int| w < j < addr@.len() ==> addr@[j] != ':';
                assert(w == k) by {
                    if w < k { assert(addr@[k as int] != ':'); }
                    if w > k { assert(addr@[w] != ':'); }
                }
                assert(cs@.subrange(0, k as int) =~= addr@.take(k as int));
                assert(cs@.subrange(i as int, n as int) =~= addr@.skip(k + 1));
            }
            return (host, p);
        }
        i = i - 1;
    }
    proof {
        assert(!exists|j: int| 0 <= j < addr@.len() && addr@[j] == ':');
    }
    (owned(addr), default_port)
}

/// `q` takes at most one byte in UTF-8: it is empty, or one ASCII
/// character.
pub open spec fn at_most_one_byte(q: Seq<char>) -> bool {
    q.len() == 0 || (q.len() == 1 && (q[0] as u32) < 0x80)
}

/// The suggestions the search box offers for `query`: none for a query of
/// at most one byte; otherwise a search for the query, then opening a
/// project, a new file and the settings.
pub fn suggest_items(query: &str) -> (r: Vec<String>)
    ensures
        at_most_one_byte(query@) ==> r@.len() == 0,
        !at_most_one_byte(query@) ==> {
            &&& r@.len() == 4
            &&& r@[0]@ == "Search for: "@ + query@
            &&& r@[1]@ == "Open Project\u{2026}"@
            &&& r@[2]@ == "New File"@
            &&& r@[3]@ == "Settings"@
        },
{
    let cs = chars_of(query);
    if cs.len() == 0 || (cs.len() == 1 && (cs[0] as u32) < 0x80) {
        return Vec::new();
    }
    let mut r: Vec<String> = Vec::new();
    r.push(concat("Search for: ", query));
    r.push(owned("Open Project\u{2026}"));
    r.push(owned("New File"));
    r.push(owned("Settings"));
    r
}

/// Which panels of the side bar are shown: the file tree, the settings and
/// the running engines share one place, so at most one of them is open;
/// the search box is apart.
#[derive(Debug, Clone, Copy, PartialEq, Eq, Structural)]
pub struct SideBar {
    pub show_folder_tree: bool,
    pub show_settings: bool,
    pub show_active_engines: bool,
    pub show_search: bool,
}

/// At most one of the panels that share the side bar's place is shown.
pub open spec fn one_panel_at_most(s: SideBar) -> bool {
    &&& !(s.show_folder_tree && s.show_settings)
    &&& !(s.show_folder_tree && s.show_active_engines)
    &&& !(s.show_settings && s.show_active_engines)
}

impl SideBar {
    /// Every panel closed.
    pub fn new() -> (r: Self)
        ensures
            !r.show_folder_tree && !r.show_settings && !r.show_active_engines && !r.show_search,
    {
        SideBar { show_folder_tree: false, show_settings: false, show_active_engines: false, show_search: false }
    }

    /// Whether the side bar is widened to show one of its panels.
    pub fn is_expanded(&self) -> (r: bool)
        ensures
            r == (self.show_folder_tree || self.show_settings || self.show_active_engines),
    {
        self.show_folder_tree || self.show_settings || self.show_active_engines
    }

    /// The file-tree button: the file tree opens, or closes when it was
    /// open; the other panels of its place close.
    pub fn toggle_folder_tree(&mut self)
        ensures
            *final(self) == (SideBar {
                show_folder_tree: !old(self).show_folder_tree,
                show_settings: false,
                show_active_engines: false,
                show_search: old(self).show_search,
            }),
    {
        self.show_active_engines = false;
        self.show_settings = false;
        self.show_folder_tree = !self.show_folder_tree;
    }

    /// The settings button; as for the file tree.
    pub fn toggle_settings(&mut self)
        ensures
            *final(self) == (SideBar {
                show_folder_tree: false,
                show_settings: !old(self).show_settings,
                show_active_engines: false,
                show_search: old(self).show_search,
            }),
    {
        self.show_active_engines = false;
        self.show_folder_tree = false;
        self.show_settings = !self.show_settings;
    }

    /// The engines button; as for the file tree.
    pub fn toggle_active_engines(&mut self)
        ensures
            *final(self) == (SideBar {
                show_folder_tree: false,
                show_settings: false,
                show_active_engines: !old(self).show_active_engines,
                show_search: old(self).show_search,
            }),
    {
        self.show_folder_tree = false;
        self.show_settings = false;
        self.show_active_engines = !self.show_active_engines;
    }

    /// The search button: the search box opens or closes; nothing else
    /// changes.
    pub fn toggle_search(&mut self)
        ensures
            *final(self) == (SideBar { show_search: !old(self).show_search, ..*old(self) }),
    {
        self.show_search = !self.show_search;
    }
}

/// Whatever the side bar showed, after any of its panel buttons at most
/// one panel is open; the search button keeps that so.
pub proof fn law_one_panel_at_most(s: SideBar)
    ensures
        one_panel_at_most(SideBar { show_folder_tree: !s.show_folder_tree, show_settings: false, show_active_engines: false, ..s }),
        one_panel_at_most(SideBar { show_folder_tree: false, show_settings: !s.show_settings, show_active_engines: false, ..s }),
        one_panel_at_most(SideBar { show_folder_tree: false, show_settings: false, show_active_engines: !s.show_active_engines, ..s }),
        one_panel_at_most(s) ==> one_panel_at_most(SideBar { show_search: !s.show_search, ..s }),
{
}

} // verus!
