//! Browsing state of the archive manager: the domain files, the links of the
//! selected domain, marks, search results and the current mode.
//!
//! The manager never touches the disk or the network itself. Where the
//! browsing needs a file read or written, a method says so in its result and
//! the caller performs it and reports back.
use std::collections::HashSet;
use vstd::prelude::*;
use crate::domain::{archive_key, archive_key_of};
use crate::links::{links_content, links_in, parse_links};
use crate::paths::{join, join_path};
use crate::text::{join_lines, views};

verus! {

/// What the manager is showing and where keys go.
#[derive(Clone, Copy, PartialEq, Eq, Structural, Debug)]
pub enum Mode {
    BrowsingFiles,
    BrowsingLinks,
    Searching,
    ViewingImage,
}

/// One search result: the domain it was archived under and the link.
#[derive(Debug)]
pub struct SearchHit {
    pub domain: String,
    pub url: String,
}

/// Follow-up work that a navigation step asks of the caller.
#[derive(Clone, Copy, PartialEq, Eq, Structural, Debug)]
pub enum Effect {
    /// Nothing to do.
    Nothing,
    /// Read the selected domain file and hand it to `App::load_links`.
    LoadLinks,
    /// Fetch the title of `App::title_to_fetch`.
    FetchTitle,
    /// Read the selected domain file and hand it to `App::load_links`, then
    /// fetch the title of `App::title_to_fetch`.
    LoadLinksThenFetchTitle,
}

/// The manager's state.
pub struct App {
    /// Directory that holds the domain files.
    pub archive_dir: String,
    /// Names of the domain files, in the order the directory listed them.
    pub files: Vec<String>,
    /// Highlighted domain file.
    pub file_selected: Option<usize>,
    /// Marked domain files.
    pub selected_files: HashSet<usize>,
    /// Number of links in each domain file.
    pub file_link_counts: Vec<usize>,
    /// Links of the highlighted domain file.
    pub links: Vec<String>,
    /// Highlighted link.
    pub link_selected: Option<usize>,
    /// Marked links.
    pub selected_links: HashSet<usize>,
    /// Page titles fetched so far: link and title; a later entry for a link
    /// overrides an earlier one.
    pub link_titles: Vec<(String, String)>,
    pub mode: Mode,
    /// Mode to go back to when searching or viewing an image ends.
    pub prev_mode: Mode,
    pub should_quit: bool,
    pub search_query: String,
    pub search_results: Vec<SearchHit>,
    /// Highlighted search result.
    pub search_selected: Option<usize>,
}

/// Position after moving forward in a list of `len` entries, wrapping to
/// the first entry after the last.
pub open spec fn next_index(sel: Option<usize>, len: nat) -> usize {
    match sel {
        Some(i) => if i + 1 >= len {
            0
        } else {
            (i + 1) as usize
        },
        None => 0,
    }
}

/// Position after moving back in a list of `len` entries, wrapping to the
/// last entry before the first.
pub open spec fn prev_index(sel: Option<usize>, len: nat) -> usize {
    match sel {
        Some(i) => if i == 0 {
            (len - 1) as usize
        } else {
            (i - 1) as usize
        },
        None => 0,
    }
}

fn step_forward(sel: Option<usize>, len: usize) -> (res: usize)
    requires
        len > 0,
    ensures
        res == next_index(sel, len as nat),
        res < len,
{
    match sel {
        Some(i) => if i >= len - 1 {
            0
        } else {
            i + 1
        },
        None => 0,
    }
}

fn step_back_any(sel: Option<usize>, len: usize) -> (res: usize)
    requires
        len > 0,
    ensures
        res == prev_index(sel, len as nat),
        (sel matches Some(i) ==> i <= len) ==> res < len,
{
    match sel {
        Some(i) => if i == 0 {
            len - 1
        } else {
            i - 1
        },
        None => 0,
    }
}

/// Moving forward and then back returns to the same entry.
pub proof fn lemma_forward_then_back(i: usize, len: nat)
    requires
        i < len <= usize::MAX,
    ensures
        prev_index(Some(next_index(Some(i), len)), len) == i,
{
}

/// Moving back and then forward returns to the same entry.
pub proof fn lemma_back_then_forward(i: usize, len: nat)
    requires
        i < len <= usize::MAX,
    ensures
        next_index(Some(prev_index(Some(i), len)), len) == i,
{
}

impl App {
    /// The domain counts line up with the domain files, the highlighted
    /// domain file exists, and the link highlight is on a link or on the
    /// first position.
    pub open spec fn wf(&self) -> bool {
        &&& self.file_link_counts.len() == self.files.len()
        &&& self.file_selected matches Some(i) ==> i < self.files.len()
        &&& self.link_selected matches Some(i) ==> i < self.links.len() || i == 0
    }

    /// A manager over the domain files `files` of `archive_dir`, with
    /// `counts[i]` links in file `i`; the first file is highlighted when
    /// there is one. The caller then loads the links of the highlighted file.
    pub fn new(archive_dir: String, files: Vec<String>, counts: Vec<usize>) -> (app: App)
        requires
            counts.len() == files.len(),
        ensures
            app.wf(),
            app.archive_dir == archive_dir,
            app.files == files,
            app.file_link_counts == counts,
            app.file_selected == (if files.len() > 0 {
                Some(0usize)
            } else {
                None
            }),
            app.selected_files@.is_empty(),
            app.links@.len() == 0,
            app.link_selected is None,
            app.selected_links@.is_empty(),
            app.link_titles@.len() == 0,
            app.mode == Mode::BrowsingFiles,
            app.prev_mode == Mode::BrowsingFiles,
            !app.should_quit,
            app.search_query@.len() == 0,
            app.search_results@.len() == 0,
            app.search_selected is None,
    {
        let sel = if files.len() > 0 {
            Some(0usize)
        } else {
            None
        };
        App {
            archive_dir,
            files,
            file_selected: sel,
            selected_files: HashSet::new(),
            file_link_counts: counts,
            links: Vec::new(),
            link_selected: None,
            selected_links: HashSet::new(),
            link_titles: Vec::new(),
            mode: Mode::BrowsingFiles,
            prev_mode: Mode::BrowsingFiles,
            should_quit: false,
            search_query: String::new(),
            search_results: Vec::new(),
            search_selected: None,
        }
    }
}


impl App {
    /// `a` and `b` hold the same domain files, counts, highlight and marks.
    pub open spec fn same_files(a: &App, b: &App) -> bool {
        &&& a.archive_dir == b.archive_dir
        &&& a.files == b.files
        &&& a.file_selected == b.file_selected
        &&& a.selected_files@ == b.selected_files@
        &&& a.file_link_counts == b.file_link_counts
    }

    /// `a` and `b` hold the same links, link highlight and link marks.
    pub open spec fn same_links(a: &App, b: &App) -> bool {
        &&& a.links == b.links
        &&& a.link_titles@ == b.link_titles@
        &&& a.link_selected == b.link_selected
        &&& a.selected_links@ == b.selected_links@
    }

    /// `a` and `b` hold the same search query, results and highlight.
    pub open spec fn same_search(a: &App, b: &App) -> bool {
        &&& a.search_query == b.search_query
        &&& a.search_results == b.search_results
        &&& a.search_selected == b.search_selected
    }

    /// `a` and `b` are in the same mode, remember the same previous mode and
    /// agree on quitting.
    pub open spec fn same_modes(a: &App, b: &App) -> bool {
        &&& a.mode == b.mode
        &&& a.prev_mode == b.prev_mode
        &&& a.should_quit == b.should_quit
    }

    /// `a` and `b` are the same state.
    pub open spec fn same(a: &App, b: &App) -> bool {
        &&& App::same_files(a, b)
        &&& App::same_links(a, b)
        &&& App::same_search(a, b)
        &&& App::same_modes(a, b)
    }

    /// Moves the highlight of the current list one entry forward, wrapping
    /// around; moving to another domain file drops the link marks and asks
    /// for its links to be loaded.
    pub fn next(&mut self) -> (effect: Effect)
        requires
            old(self).wf(),
            old(self).mode == Mode::BrowsingFiles ==> old(self).files.len() > 0,
        ensures
            final(self).wf(),
            App::same_modes(old(self), final(self)),
            App::same_search(old(self), final(self)) || old(self).mode == Mode::Searching,
            old(self).mode == Mode::BrowsingFiles ==> {
                &&& final(self).file_selected == Some(
                    next_index(old(self).file_selected, old(self).files.len() as nat),
                )
                &&& final(self).selected_links@.is_empty()
                &&& final(self).archive_dir == old(self).archive_dir
                &&& final(self).files == old(self).files
                &&& final(self).selected_files@ == old(self).selected_files@
                &&& final(self).file_link_counts == old(self).file_link_counts
                &&& final(self).links == old(self).links
                &&& final(self).link_selected == old(self).link_selected
                &&& final(self).link_titles@ == old(self).link_titles@
                &&& effect == Effect::LoadLinks
            },
            old(self).mode == Mode::BrowsingLinks ==> {
                &&& App::same_files(old(self), final(self))
                &&& final(self).links == old(self).links
                &&& final(self).selected_links@ == old(self).selected_links@
                &&& final(self).link_titles@ == old(self).link_titles@
                &&& if old(self).links.len() > 0 {
                    &&& final(self).link_selected == Some(
                        next_index(old(self).link_selected, old(self).links.len() as nat),
                    )
                    &&& effect == Effect::FetchTitle
                } else {
                    &&& final(self).link_selected == old(self).link_selected
                    &&& effect == Effect::Nothing
                }
            },
            old(self).mode == Mode::Searching ==> {
                &&& App::same_files(old(self), final(self))
                &&& App::same_links(old(self), final(self))
                &&& final(self).search_query == old(self).search_query
                &&& final(self).search_results == old(self).search_results
                &&& final(self).search_selected == if old(self).search_results.len() > 0 {
                    Some(next_index(old(self).search_selected, old(self).search_results.len() as nat))
                } else {
                    old(self).search_selected
                }
                &&& effect == Effect::Nothing
            },
            old(self).mode == Mode::ViewingImage ==> App::same(old(self), final(self)) && effect
                == Effect::Nothing,
    {
        match self.mode {
            Mode::BrowsingFiles => {
                let i = step_forward(self.file_selected, self.files.len());
                self.file_selected = Some(i);
                self.selected_links.clear();
                Effect::LoadLinks
            },
            Mode::BrowsingLinks => {
                if self.links.len() > 0 {
                    let i = step_forward(self.link_selected, self.links.len());
                    self.link_selected = Some(i);
                    Effect::FetchTitle
                } else {
                    Effect::Nothing
                }
            },
            Mode::Searching => {
                if self.search_results.len() > 0 {
                    let i = step_forward(self.search_selected, self.search_results.len());
                    self.search_selected = Some(i);
                }
                Effect::Nothing
            },
            Mode::ViewingImage => Effect::Nothing,
        }
    }

    /// Moves the highlight of the current list one entry back, wrapping
    /// around; moving to another domain file drops the link marks and asks
    /// for its links to be loaded.
    pub fn previous(&mut self) -> (effect: Effect)
        requires
            old(self).wf(),
            old(self).mode == Mode::BrowsingFiles ==> old(self).files.len() > 0,
        ensures
            final(self).wf(),
            App::same_modes(old(self), final(self)),
            App::same_search(old(self), final(self)) || old(self).mode == Mode::Searching,
            old(self).mode == Mode::BrowsingFiles ==> {
                &&& final(self).file_selected == Some(
                    prev_index(old(self).file_selected, old(self).files.len() as nat),
                )
                &&& final(self).selected_links@.is_empty()
                &&& final(self).archive_dir == old(self).archive_dir
                &&& final(self).files == old(self).files
                &&& final(self).selected_files@ == old(self).selected_files@
                &&& final(self).file_link_counts == old(self).file_link_counts
                &&& final(self).links == old(self).links
                &&& final(self).link_selected == old(self).link_selected
                &&& final(self).link_titles@ == old(self).link_titles@
                &&& effect == Effect::LoadLinks
            },
            old(self).mode == Mode::BrowsingLinks ==> {
                &&& App::same_files(old(self), final(self))
                &&& final(self).links == old(self).links
                &&& final(self).selected_links@ == old(self).selected_links@
                &&& final(self).link_titles@ == old(self).link_titles@
                &&& if old(self).links.len() > 0 {
                    &&& final(self).link_selected == Some(
                        prev_index(old(self).link_selected, old(self).links.len() as nat),
                    )
                    &&& effect == Effect::FetchTitle
                } else {
                    &&& final(self).link_selected == old(self).link_selected
                    &&& effect == Effect::Nothing
                }
            },
            old(self).mode == Mode::Searching ==> {
                &&& App::same_files(old(self), final(self))
                &&& App::same_links(old(self), final(self))
                &&& final(self).search_query == old(self).search_query
                &&& final(self).search_results == old(self).search_results
                &&& final(self).search_selected == if old(self).search_results.len() > 0 {
                    Some(prev_index(old(self).search_selected, old(self).search_results.len() as nat))
                } else {
                    old(self).search_selected
                }
                &&& effect == Effect::Nothing
            },
            old(self).mode == Mode::ViewingImage ==> App::same(old(self), final(self)) && effect
                == Effect::Nothing,
    {
        match self.mode {
            Mode::BrowsingFiles => {
                let i = step_back_any(self.file_selected, self.files.len());
                self.file_selected = Some(i);
                self.selected_links.clear();
                Effect::LoadLinks
            },
            Mode::BrowsingLinks => {
                if self.links.len() > 0 {
                    let i = step_back_any(self.link_selected, self.links.len());
                    self.link_selected = Some(i);
                    Effect::FetchTitle
                } else {
                    Effect::Nothing
                }
            },
            Mode::Searching => {
                if self.search_results.len() > 0 {
                    let i = step_back_any(self.search_selected, self.search_results.len());
                    self.search_selected = Some(i);
                }
                Effect::Nothing
            },
            Mode::ViewingImage => Effect::Nothing,
        }
    }
}


/// The marks `s` with the mark on `i` flipped.
pub open spec fn toggled(s: Set<usize>, i: usize) -> Set<usize> {
    if s.contains(i) {
        s.remove(i)
    } else {
        s.insert(i)
    }
}

/// The marks after "mark all" on a list of `len` entries with marks `s`:
/// cleared when every entry already counts as marked, every entry marked
/// otherwise; nothing changes on an empty list.
pub open spec fn toggled_all(s: Set<usize>, len: nat) -> Set<usize> {
    if len == 0 {
        s
    } else if s.len() == len {
        Set::empty()
    } else {
        Set::new(|k: usize| k < len)
    }
}

/// Flipping the same mark twice restores the marks.
pub proof fn lemma_toggle_twice(s: Set<usize>, i: usize)
    ensures
        toggled(toggled(s, i), i) == s,
{
    if s.contains(i) {
        assert(s.remove(i).insert(i) =~= s);
    } else {
        assert(s.insert(i).remove(i) =~= s);
    }
}

/// On a non-empty list without marks, "mark all" marks every entry and a
/// second "mark all" clears the marks again.
pub proof fn lemma_toggle_all_twice(len: nat)
    requires
        0 < len <= usize::MAX + 1,
    ensures
        toggled_all(Set::empty(), len) == Set::new(|k: usize| k < len),
        toggled_all(toggled_all(Set::empty(), len), len) == Set::<usize>::empty(),
{
    lemma_prefix_set_len(len);
}

/// The positions `0..len` of a list form a set of `len` elements.
pub proof fn lemma_prefix_set_len(len: nat)
    requires
        len <= usize::MAX + 1,
    ensures
        Set::new(|k: usize| k < len).finite(),
        Set::new(|k: usize| k < len).len() == len,
    decreases len,
{
    if len == 0 {
        assert(Set::new(|k: usize| k < len) =~= Set::<usize>::empty());
    } else {
        lemma_prefix_set_len((len - 1) as nat);
        let last = (len - 1) as usize;
        assert(Set::new(|k: usize| k < len) =~= Set::new(|k: usize| k < (len - 1) as nat).insert(
            last,
        ));
    }
}

fn flip_mark(marks: &mut HashSet<usize>, i: usize)
    ensures
        final(marks)@ == toggled(old(marks)@, i),
{
    if !marks.remove(&i) {
        marks.insert(i);
    }
}

fn all_marks(len: usize) -> (res: HashSet<usize>)
    ensures
        res@ == Set::new(|k: usize| k < len),
{
    let mut res: HashSet<usize> = HashSet::new();
    let mut i: usize = 0;
    while i < len
        invariant
            i <= len,
            res@ == Set::new(|k: usize| k < i),
        decreases len - i,
    {
        res.insert(i);
        assert(res@ =~= Set::new(|k: usize| k < i + 1));
        i = i + 1;
    }
    res
}

fn flip_all_marks(marks: &mut HashSet<usize>, len: usize)
    ensures
        final(marks)@ == toggled_all(old(marks)@, len as nat),
{
    if marks.len() == len && len > 0 {
        marks.clear();
    } else if len > 0 {
        *marks = all_marks(len);
    }
}

impl App {
    /// Highlights the next domain file, wrapping around, drops the link
    /// marks and asks for its links (and, when browsing links, the title of
    /// the highlighted link). Does nothing without domain files.
    pub fn next_domain(&mut self) -> (effect: Effect)
        requires
            old(self).wf(),
        ensures
            final(self).wf(),
            old(self).files.len() == 0 ==> App::same(old(self), final(self)) && effect
                == Effect::Nothing,
            old(self).files.len() > 0 ==> {
                &&& final(self).file_selected == Some(
                    next_index(old(self).file_selected, old(self).files.len() as nat),
                )
                &&& final(self).selected_links@.is_empty()
                &&& final(self).archive_dir == old(self).archive_dir
                &&& final(self).files == old(self).files
                &&& final(self).selected_files@ == old(self).selected_files@
                &&& final(self).file_link_counts == old(self).file_link_counts
                &&& final(self).links == old(self).links
                &&& final(self).link_selected == old(self).link_selected
                &&& final(self).link_titles@ == old(self).link_titles@
                &&& App::same_search(old(self), final(self))
                &&& App::same_modes(old(self), final(self))
                &&& effect == if old(self).mode == Mode::BrowsingLinks {
                    Effect::LoadLinksThenFetchTitle
                } else {
                    Effect::LoadLinks
                }
            },
    {
        if self.files.len() == 0 {
            return Effect::Nothing;
        }
        let i = step_forward(self.file_selected, self.files.len());
        self.file_selected = Some(i);
        self.selected_links.clear();
        if self.mode == Mode::BrowsingLinks {
            Effect::LoadLinksThenFetchTitle
        } else {
            Effect::LoadLinks
        }
    }

    /// Highlights the previous domain file, wrapping around, drops the link
    /// marks and asks for its links (and, when browsing links, the title of
    /// the highlighted link). Does nothing without domain files.
    pub fn prev_domain(&mut self) -> (effect: Effect)
        requires
            old(self).wf(),
        ensures
            final(self).wf(),
            old(self).files.len() == 0 ==> App::same(old(self), final(self)) && effect
                == Effect::Nothing,
            old(self).files.len() > 0 ==> {
                &&& final(self).file_selected == Some(
                    prev_index(old(self).file_selected, old(self).files.len() as nat),
                )
                &&& final(self).selected_links@.is_empty()
                &&& final(self).archive_dir == old(self).archive_dir
                &&& final(self).files == old(self).files
                &&& final(self).selected_files@ == old(self).selected_files@
                &&& final(self).file_link_counts == old(self).file_link_counts
                &&& final(self).links == old(self).links
                &&& final(self).link_selected == old(self).link_selected
                &&& final(self).link_titles@ == old(self).link_titles@
                &&& App::same_search(old(self), final(self))
                &&& App::same_modes(old(self), final(self))
                &&& effect == if old(self).mode == Mode::BrowsingLinks {
                    Effect::LoadLinksThenFetchTitle
                } else {
                    Effect::LoadLinks
                }
            },
    {
        if self.files.len() == 0 {
            return Effect::Nothing;
        }
        let i = step_back_any(self.file_selected, self.files.len());
        self.file_selected = Some(i);
        self.selected_links.clear();
        if self.mode == Mode::BrowsingLinks {
            Effect::LoadLinksThenFetchTitle
        } else {
            Effect::LoadLinks
        }
    }

    /// Flips the mark on the highlighted domain file or link.
    pub fn toggle_selection(&mut self)
        requires
            old(self).wf(),
        ensures
            final(self).wf(),
            App::same_search(old(self), final(self)),
            App::same_modes(old(self), final(self)),
            final(self).archive_dir == old(self).archive_dir,
            final(self).files == old(self).files,
            final(self).file_selected == old(self).file_selected,
            final(self).file_link_counts == old(self).file_link_counts,
            final(self).links == old(self).links,
            final(self).link_selected == old(self).link_selected,
            final(self).link_titles@ == old(self).link_titles@,
            final(self).selected_files@ == match (old(self).mode, old(self).file_selected) {
                (Mode::BrowsingFiles, Some(i)) => toggled(old(self).selected_files@, i),
                _ => old(self).selected_files@,
            },
            final(self).selected_links@ == match (old(self).mode, old(self).link_selected) {
                (Mode::BrowsingLinks, Some(i)) => toggled(old(self).selected_links@, i),
                _ => old(self).selected_links@,
            },
    {
        match self.mode {
            Mode::BrowsingFiles => {
                if let Some(i) = self.file_selected {
                    flip_mark(&mut self.selected_files, i);
                }
            },
            Mode::BrowsingLinks => {
                if let Some(i) = self.link_selected {
                    flip_mark(&mut self.selected_links, i);
                }
            },
            Mode::Searching => {},
            Mode::ViewingImage => {},
        }
    }

    /// Marks every domain file or link, or clears the marks when every
    /// entry already counts as marked.
    pub fn toggle_select_all(&mut self)
        requires
            old(self).wf(),
        ensures
            final(self).wf(),
            App::same_search(old(self), final(self)),
            App::same_modes(old(self), final(self)),
            final(self).archive_dir == old(self).archive_dir,
            final(self).files == old(self).files,
            final(self).file_selected == old(self).file_selected,
            final(self).file_link_counts == old(self).file_link_counts,
            final(self).links == old(self).links,
            final(self).link_selected == old(self).link_selected,
            final(self).link_titles@ == old(self).link_titles@,
            final(self).selected_files@ == if old(self).mode == Mode::BrowsingFiles {
                toggled_all(old(self).selected_files@, old(self).files.len() as nat)
            } else {
                old(self).selected_files@
            },
            final(self).selected_links@ == if old(self).mode == Mode::BrowsingLinks {
                toggled_all(old(self).selected_links@, old(self).links.len() as nat)
            } else {
                old(self).selected_links@
            },
    {
        match self.mode {
            Mode::BrowsingFiles => {
                flip_all_marks(&mut self.selected_files, self.files.len());
            },
            Mode::BrowsingLinks => {
                flip_all_marks(&mut self.selected_links, self.links.len());
            },
            Mode::Searching => {},
            Mode::ViewingImage => {},
        }
    }
}


/// Highlight after the list it points into was reloaded with `len`
/// entries: kept while it still points at an entry, the first entry
/// otherwise.
pub open spec fn reload_selection(cur: Option<usize>, len: nat) -> usize {
    match cur {
        Some(s) => if s < len {
            s
        } else {
            0
        },
        None => 0,
    }
}

/// The entries of `s` whose position is not in `marks`, in order.
pub open spec fn kept<A>(s: Seq<A>, marks: Set<usize>) -> Seq<A>
    decreases s.len(),
{
    if s.len() == 0 {
        seq![]
    } else if marks.contains((s.len() - 1) as usize) {
        kept(s.drop_last(), marks)
    } else {
        kept(s.drop_last(), marks).push(s.last())
    }
}

/// The entries of `s` whose position is in `marks`, in order.
pub open spec fn picked<A>(s: Seq<A>, marks: Set<usize>) -> Seq<A>
    decreases s.len(),
{
    if s.len() == 0 {
        seq![]
    } else if marks.contains((s.len() - 1) as usize) {
        picked(s.drop_last(), marks).push(s.last())
    } else {
        picked(s.drop_last(), marks)
    }
}

/// The positions a deletion removes: the marked ones, or else the
/// highlighted one; `None` when nothing is marked or highlighted.
pub open spec fn deletion_marks(marks: Set<usize>, sel: Option<usize>) -> Option<Set<usize>> {
    if !marks.is_empty() {
        Some(marks)
    } else {
        match sel {
            Some(i) => Some(Set::empty().insert(i)),
            None => None,
        }
    }
}

/// When anything is marked, a deletion removes exactly the marked
/// entries, wherever the highlight is; only without marks does it remove
/// the highlighted entry, and nothing without a highlight.
pub proof fn lemma_marks_decide_deletion(marks: Set<usize>, sel: Option<usize>)
    ensures
        !marks.is_empty() ==> deletion_marks(marks, sel) == Some(marks),
        marks.is_empty() && sel is None ==> deletion_marks(marks, sel) is None,
        marks.is_empty() && sel is Some ==> deletion_marks(marks, sel) == Some(
            Set::<usize>::empty().insert(sel->0),
        ),
{
}

/// Removing no position of a list keeps it whole.
pub proof fn lemma_kept_none<A>(s: Seq<A>, marks: Set<usize>)
    requires
        s.len() <= usize::MAX + 1,
        forall|k: int| 0 <= k < s.len() ==> !marks.contains(#[trigger] (k as usize)),
    ensures
        kept(s, marks) == s,
    decreases s.len(),
{
    if s.len() > 0 {
        assert(!marks.contains((s.len() - 1) as usize));
        lemma_kept_none(s.drop_last(), marks);
        assert(s.drop_last().push(s.last()) =~= s);
    }
}

/// Removing one position of a list removes that entry and keeps the others
/// in order.
pub proof fn lemma_kept_single<A>(s: Seq<A>, i: usize)
    requires
        i < s.len() <= usize::MAX + 1,
    ensures
        kept(s, Set::empty().insert(i)) == s.remove(i as int),
    decreases s.len(),
{
    let m = Set::<usize>::empty().insert(i);
    if i == s.len() - 1 {
        assert forall|k: int| 0 <= k < s.drop_last().len() implies !m.contains(
            #[trigger] (k as usize),
        ) by {}
        lemma_kept_none(s.drop_last(), m);
        assert(s.remove(i as int) =~= s.drop_last());
    } else {
        assert(!m.contains((s.len() - 1) as usize));
        lemma_kept_single(s.drop_last(), i);
        assert(s.drop_last().remove(i as int).push(s.last()) =~= s.remove(i as int));
    }
}

/// An entry at a position that is not removed stays in the list.
pub proof fn lemma_kept_keeps_unmarked<A>(s: Seq<A>, marks: Set<usize>, k: int)
    requires
        0 <= k < s.len() <= usize::MAX + 1,
        !marks.contains(k as usize),
    ensures
        kept(s, marks).contains(s[k]),
    decreases s.len(),
{
    let r = kept(s, marks);
    if k == s.len() - 1 {
        assert(r.last() == s[k]);
        assert(r[r.len() - 1] == s[k]);
    } else {
        lemma_kept_keeps_unmarked(s.drop_last(), marks, k);
        let p = kept(s.drop_last(), marks);
        assert(s.drop_last()[k] == s[k]);
        let j = choose|j: int| 0 <= j < p.len() && p[j] == s[k];
        if !marks.contains((s.len() - 1) as usize) {
            assert(r[j] == p[j]);
        }
    }
}

/// When something is marked, every unmarked entry survives a deletion,
/// the highlighted one included.
pub proof fn lemma_marked_deletion_keeps_unmarked<A>(
    s: Seq<A>,
    marks: Set<usize>,
    sel: Option<usize>,
    k: int,
)
    requires
        !marks.is_empty(),
        0 <= k < s.len() <= usize::MAX + 1,
        !marks.contains(k as usize),
    ensures
        kept(s, deletion_marks(marks, sel)->0).contains(s[k]),
{
    lemma_kept_keeps_unmarked(s, marks, k);
}

/// Highlight after entries were removed from a list that now has `len`
/// entries: none when it is empty, else the old highlight (the first entry
/// when there was none) moved back onto the last entry if past it.
pub open spec fn clamp_selection(cur: Option<usize>, len: nat) -> Option<usize> {
    if len == 0 {
        None
    } else {
        let c: int = match cur {
            Some(i) => i as int,
            None => 0,
        };
        Some(if c < len {
            c as usize
        } else {
            (len - 1) as usize
        })
    }
}

/// The paths of the files named `names` in the directory `dir`.
pub open spec fn paths_in(dir: Seq<char>, names: Seq<Seq<char>>) -> Seq<Seq<char>> {
    names.map_values(|n: Seq<char>| join_path(dir, n))
}

/// What a deletion leaves the caller to do on disk.
pub enum Deletion {
    /// Nothing.
    Nothing,
    /// Remove the files at `paths`; then, when `reload`, load the links of
    /// the highlighted domain file.
    RemoveFiles { paths: Vec<String>, reload: bool },
    /// Write `content` to the file at `path`.
    WriteLinks { path: String, content: String },
    /// Remove the line `url` from the domain file `file` at `path` with
    /// `remove_url_line`, write the result back, and then call
    /// `App::finish_line_removal`.
    RemoveLine { file: usize, path: String, url: String },
}

/// Whether the position `k` is removed: marked when there are marks,
/// highlighted otherwise.
fn is_removed(marks: &HashSet<usize>, use_marks: bool, sel: usize, k: usize) -> (res: bool)
    requires
        use_marks == !marks@.is_empty(),
    ensures
        res == deletion_marks(marks@, Some(sel))->0.contains(k),
{
    if use_marks {
        marks.contains(&k)
    } else {
        k == sel
    }
}

fn split_strings(v: &Vec<String>, marks: &HashSet<usize>, sel: usize) -> (res: (
    Vec<String>,
    Vec<String>,
))
    ensures
        views(res.0@) == kept(views(v@), deletion_marks(marks@, Some(sel))->0),
        views(res.1@) == picked(views(v@), deletion_marks(marks@, Some(sel))->0),
{
    let use_marks = !marks.is_empty();
    let ghost d = deletion_marks(marks@, Some(sel))->0;
    let ghost all = views(v@);
    let mut keep: Vec<String> = Vec::new();
    let mut pick: Vec<String> = Vec::new();
    let mut k: usize = 0;
    while k < v.len()
        invariant
            k <= v.len(),
            all == views(v@),
            use_marks == !marks@.is_empty(),
            d == deletion_marks(marks@, Some(sel))->0,
            views(keep@) == kept(all.take(k as int), d),
            views(pick@) == picked(all.take(k as int), d),
        decreases v.len() - k,
    {
        assert(all.take(k + 1).drop_last() == all.take(k as int));
        let s = v[k].clone();
        if is_removed(marks, use_marks, sel, k) {
            pick.push(s);
        } else {
            keep.push(s);
        }
        k = k + 1;
    }
    assert(all.take(v.len() as int) == all);
    (keep, pick)
}

fn keep_counts(v: &Vec<usize>, marks: &HashSet<usize>, sel: usize) -> (res: Vec<usize>)
    ensures
        res@ == kept(v@, deletion_marks(marks@, Some(sel))->0),
{
    let use_marks = !marks.is_empty();
    let ghost d = deletion_marks(marks@, Some(sel))->0;
    let mut keep: Vec<usize> = Vec::new();
    let mut k: usize = 0;
    while k < v.len()
        invariant
            k <= v.len(),
            use_marks == !marks@.is_empty(),
            d == deletion_marks(marks@, Some(sel))->0,
            keep@ == kept(v@.take(k as int), d),
        decreases v.len() - k,
    {
        assert(v@.take(k + 1).drop_last() == v@.take(k as int));
        if !is_removed(marks, use_marks, sel, k) {
            keep.push(v[k]);
        }
        k = k + 1;
    }
    assert(v@.take(v.len() as int) == v@);
    keep
}

/// The entries kept and removed by a deletion together are as many as the
/// list had.
pub proof fn lemma_kept_picked_len<A>(s: Seq<A>, marks: Set<usize>)
    ensures
        kept(s, marks).len() + picked(s, marks).len() == s.len(),
    decreases s.len(),
{
    if s.len() > 0 {
        lemma_kept_picked_len(s.drop_last(), marks);
    }
}

fn join_all(dir: &str, names: &Vec<String>) -> (res: Vec<String>)
    ensures
        views(res@) == paths_in(dir@, views(names@)),
{
    let mut res: Vec<String> = Vec::new();
    let mut k: usize = 0;
    while k < names.len()
        invariant
            k <= names.len(),
            res@.len() == k,
            views(res@) == paths_in(dir@, views(names@)).take(k as int),
        decreases names.len() - k,
    {
        let p = join(dir, names[k].as_str());
        assert(views(names@)[k as int] == names@[k as int]@);
        let ghost before = res@;
        res.push(p);
        proof {
            let want = paths_in(dir@, views(names@)).take(k + 1);
            assert(res@ == before.push(p));
            assert forall|j: int| 0 <= j < k + 1 implies views(res@)[j] == want[j] by {
                if j < k {
                    assert(views(res@)[j] == res@[j]@);
                    assert(views(before)[j] == before[j]@);
                    assert(paths_in(dir@, views(names@)).take(k as int)[j] == want[j]);
                } else {
                    assert(views(res@)[j] == p@);
                }
            }
            assert(views(res@) =~= want);
        }
        k = k + 1;
    }
    assert(paths_in(dir@, views(names@)).take(names.len() as int) =~= paths_in(dir@, views(names@)));
    res
}

fn clamp(cur: Option<usize>, len: usize) -> (res: Option<usize>)
    ensures
        res == clamp_selection(cur, len as nat),
{
    if len == 0 {
        None
    } else {
        let c = match cur {
            Some(i) => i,
            None => 0,
        };
        Some(if c < len - 1 { c } else { len - 1 })
    }
}

/// The title known for the link `url` in `titles`: that of its last entry.
pub open spec fn title_of(titles: Seq<(String, String)>, url: Seq<char>) -> Option<Seq<char>>
    decreases titles.len(),
{
    if titles.len() == 0 {
        None
    } else if titles.last().0@ == url {
        Some(titles.last().1@)
    } else {
        title_of(titles.drop_last(), url)
    }
}

proof fn lemma_title_update(s: Seq<(String, String)>, i: int, e: (String, String), u: Seq<char>)
    requires
        0 <= i < s.len(),
        e.0@ == s[i].0@,
        forall|j: int| i < j < s.len() ==> (#[trigger] s[j]).0@ != e.0@,
    ensures
        title_of(s.update(i, e), u) == if u == e.0@ {
            Some(e.1@)
        } else {
            title_of(s, u)
        },
    decreases s.len(),
{
    if i == s.len() - 1 {
        assert(s.update(i, e).drop_last() =~= s.drop_last());
        assert(s.update(i, e).last() == e);
    } else {
        assert(s[s.len() - 1].0@ != e.0@);
        assert(s.update(i, e).drop_last() =~= s.drop_last().update(i, e));
        assert(s.update(i, e).last() == s.last());
        assert forall|j: int| i < j < s.drop_last().len() implies (#[trigger] s.drop_last()[j]).0@
            != e.0@ by {
            assert(s.drop_last()[j] == s[j]);
        }
        lemma_title_update(s.drop_last(), i, e, u);
    }
}

proof fn lemma_title_absent(s: Seq<(String, String)>, u: Seq<char>)
    requires
        forall|j: int| 0 <= j < s.len() ==> (#[trigger] s[j]).0@ != u,
    ensures
        title_of(s, u) is None,
    decreases s.len(),
{
    if s.len() > 0 {
        assert(s[s.len() - 1].0@ != u);
        assert forall|j: int| 0 <= j < s.drop_last().len() implies (#[trigger] s.drop_last()[j]).0@
            != u by {
            assert(s.drop_last()[j] == s[j]);
        }
        lemma_title_absent(s.drop_last(), u);
    }
}

proof fn lemma_title_at_last(s: Seq<(String, String)>, k: int, u: Seq<char>)
    requires
        0 <= k < s.len(),
        s[k].0@ == u,
        forall|j: int| k < j < s.len() ==> (#[trigger] s[j]).0@ != u,
    ensures
        title_of(s, u) == Some(s[k].1@),
    decreases s.len(),
{
    if k < s.len() - 1 {
        assert(s[s.len() - 1].0@ != u);
        assert forall|j: int| k < j < s.drop_last().len() implies (#[trigger] s.drop_last()[j]).0@
            != u by {
            assert(s.drop_last()[j] == s[j]);
        }
        lemma_title_at_last(s.drop_last(), k, u);
    }
}

/// Index of the last entry of `titles` for the link `url`.
fn last_title_index(titles: &Vec<(String, String)>, url: &String) -> (res: Option<usize>)
    ensures
        match res {
            Some(k) => k < titles.len() && titles@[k as int].0@ == url@ && (forall|j: int|
                k < j < titles.len() ==> (#[trigger] titles@[j]).0@ != url@) && title_of(
                titles@,
                url@,
            ) == Some(titles@[k as int].1@),
            None => title_of(titles@, url@) is None,
        },
{
    let mut k: usize = titles.len();
    while k > 0
        invariant
            k <= titles.len(),
            forall|j: int| k <= j < titles.len() ==> (#[trigger] titles@[j]).0@ != url@,
        decreases k,
    {
        if titles[k - 1].0 == *url {
            proof {
                lemma_title_at_last(titles@, k - 1, url@);
            }
            return Some(k - 1);
        }
        k = k - 1;
    }
    proof {
        lemma_title_absent(titles@, url@);
    }
    None
}

impl App {
    /// Path of the domain file `i`.
    pub open spec fn path_of(&self, i: int) -> Seq<char> {
        join_path(self.archive_dir@, self.files@[i]@)
    }

    /// The path of the domain file `i`.
    pub fn file_path(&self, i: usize) -> (res: String)
        requires
            i < self.files.len(),
        ensures
            res@ == self.path_of(i as int),
    {
        join(self.archive_dir.as_str(), self.files[i].as_str())
    }

    /// Replaces the links with those of `content`, the content just read from
    /// the highlighted domain file, records their number for that file and
    /// keeps the link highlight on an existing link where it can (the first
    /// position otherwise). Says whether the title of the highlighted link
    /// is to be fetched, which is when links are being browsed.
    pub fn load_links(&mut self, content: &str) -> (fetch_title: bool)
        requires
            old(self).wf(),
            old(self).file_selected is Some,
        ensures
            final(self).wf(),
            views(final(self).links@) == links_in(content@),
            final(self).file_link_counts@ == old(self).file_link_counts@.update(
                old(self).file_selected->0 as int,
                final(self).links.len(),
            ),
            final(self).link_selected == Some(
                reload_selection(old(self).link_selected, final(self).links.len() as nat),
            ),
            final(self).archive_dir == old(self).archive_dir,
            final(self).files == old(self).files,
            final(self).file_selected == old(self).file_selected,
            final(self).selected_files@ == old(self).selected_files@,
            final(self).selected_links@ == old(self).selected_links@,
            final(self).link_titles@ == old(self).link_titles@,
            App::same_search(old(self), final(self)),
            App::same_modes(old(self), final(self)),
            fetch_title == (old(self).mode == Mode::BrowsingLinks),
    {
        let i = match self.file_selected {
            Some(i) => i,
            None => 0,
        };
        let current = self.link_selected;
        self.links = parse_links(content);
        let n = self.links.len();
        self.file_link_counts.set(i, n);
        let base = match current {
            Some(s) => if s < n {
                s
            } else {
                0
            },
            None => 0,
        };
        let top = if n == 0 {
            0
        } else {
            n - 1
        };
        self.link_selected = Some(if base < top { base } else { top });
        self.mode == Mode::BrowsingLinks
    }

    /// The file to write the links to and its new content, when a domain
    /// file is highlighted.
    pub fn save_links(&self) -> (res: Option<(String, String)>)
        requires
            self.wf(),
        ensures
            match self.file_selected {
                Some(i) => res matches Some((path, content)) && path@ == self.path_of(i as int)
                    && content@ == join_lines(views(self.links@)),
                None => res is None,
            },
    {
        match self.file_selected {
            Some(i) => Some((self.file_path(i), links_content(&self.links))),
            None => None,
        }
    }

    /// The link whose title is to be fetched: the highlighted link while
    /// links are being browsed, unless its title is known.
    pub fn title_to_fetch(&self) -> (res: Option<String>)
        ensures
            res == (match self.link_selected {
                Some(i) => if self.mode == Mode::BrowsingLinks && i < self.links.len()
                    && title_of(self.link_titles@, self.links@[i as int]@) is None {
                    Some(self.links@[i as int])
                } else {
                    None
                },
                None => None,
            }),
    {
        if self.mode == Mode::BrowsingLinks {
            if let Some(i) = self.link_selected {
                if i < self.links.len() {
                    if self.known_title(&self.links[i]).is_none() {
                        return Some(self.links[i].clone());
                    }
                }
            }
        }
        None
    }

    /// The known title of the link `url`.
    pub fn known_title(&self, url: &String) -> (res: Option<String>)
        ensures
            match title_of(self.link_titles@, url@) {
                Some(t) => res matches Some(r) && r@ == t,
                None => res is None,
            },
    {
        match last_title_index(&self.link_titles, url) {
            Some(k) => Some(self.link_titles[k].1.clone()),
            None => None,
        }
    }

    /// Records `title` as the title of the link `url`.
    pub fn record_title(&mut self, url: String, title: String)
        ensures
            forall|u: Seq<char>|
                #[trigger] title_of(final(self).link_titles@, u) == if u == url@ {
                    Some(title@)
                } else {
                    title_of(old(self).link_titles@, u)
                },
            App::same_files(old(self), final(self)),
            final(self).links == old(self).links,
            final(self).link_selected == old(self).link_selected,
            final(self).selected_links@ == old(self).selected_links@,
            App::same_search(old(self), final(self)),
            App::same_modes(old(self), final(self)),
    {
        let ghost before = self.link_titles@;
        match last_title_index(&self.link_titles, &url) {
            Some(k) => {
                let ghost e = (url, title);
                proof {
                    assert forall|u: Seq<char>| #[trigger]
                        title_of(before.update(k as int, e), u) == if u == url@ {
                            Some(title@)
                        } else {
                            title_of(before, u)
                        } by {
                        lemma_title_update(before, k as int, e, u);
                    }
                }
                self.link_titles.set(k, (url, title));
                assert(self.link_titles@ == before.update(k as int, e));
            },
            None => {
                let ghost e = (url, title);
                self.link_titles.push((url, title));
                assert(self.link_titles@ == before.push(e));
                assert(before.push(e).drop_last() =~= before);
                assert(before.push(e).last() == e);
            },
        }
    }

    /// The highlighted link, to open or copy.
    pub fn selected_link(&self) -> (res: Option<String>)
        ensures
            res == (match self.link_selected {
                Some(i) => if i < self.links.len() {
                    Some(self.links@[i as int])
                } else {
                    None
                },
                None => None,
            }),
    {
        if let Some(i) = self.link_selected {
            if i < self.links.len() {
                return Some(self.links[i].clone());
            }
        }
        None
    }

    /// The link of the highlighted search result, to open or copy.
    pub fn selected_search_url(&self) -> (res: Option<String>)
        ensures
            res == (match self.search_selected {
                Some(i) => if i < self.search_results.len() {
                    Some(self.search_results@[i as int].url)
                } else {
                    None
                },
                None => None,
            }),
    {
        if let Some(i) = self.search_selected {
            if i < self.search_results.len() {
                return Some(self.search_results[i].url.clone());
            }
        }
        None
    }

    /// The link whose screenshot is previewed: the highlighted link while
    /// browsing links, the highlighted result while searching.
    pub fn preview_url(&self) -> (res: Option<String>)
        ensures
            res == (match self.mode {
                Mode::BrowsingLinks => match self.link_selected {
                    Some(i) => if i < self.links.len() {
                        Some(self.links@[i as int])
                    } else {
                        None
                    },
                    None => None,
                },
                Mode::Searching => match self.search_selected {
                    Some(i) => if i < self.search_results.len() {
                        Some(self.search_results@[i as int].url)
                    } else {
                        None
                    },
                    None => None,
                },
                _ => None,
            }),
    {
        match self.mode {
            Mode::BrowsingLinks => self.selected_link(),
            Mode::Searching => self.selected_search_url(),
            _ => None,
        }
    }
}


/// Index of the first domain file in `files` stored under `key`.
pub open spec fn first_file_with_key(files: Seq<Seq<char>>, key: Seq<char>) -> Option<int>
    decreases files.len(),
{
    if files.len() == 0 {
        None
    } else {
        match first_file_with_key(files.drop_last(), key) {
            Some(k) => Some(k),
            None => if archive_key(files.last()) == key {
                Some(files.len() - 1)
            } else {
                None
            },
        }
    }
}

proof fn lemma_first_file_prefix(files: Seq<Seq<char>>, key: Seq<char>, j: int, k: int)
    requires
        0 <= j <= files.len(),
        first_file_with_key(files.take(j), key) == Some(k),
    ensures
        first_file_with_key(files, key) == Some(k),
    decreases files.len() - j,
{
    if j == files.len() {
        assert(files.take(j) == files);
    } else {
        assert(files.drop_last().take(j) == files.take(j));
        lemma_first_file_prefix(files.drop_last(), key, j, k);
    }
}

fn find_file_with_key(files: &Vec<String>, key: &String) -> (res: Option<usize>)
    ensures
        match res {
            Some(k) => first_file_with_key(views(files@), key@) == Some(k as int) && k
                < files.len(),
            None => first_file_with_key(views(files@), key@) is None,
        },
{
    let ghost all = views(files@);
    let mut i: usize = 0;
    while i < files.len()
        invariant
            i <= files.len(),
            all == views(files@),
            first_file_with_key(all.take(i as int), key@) is None,
        decreases files.len() - i,
    {
        assert(all.take(i + 1).drop_last() == all.take(i as int));
        let k = archive_key_of(files[i].as_str());
        if k == *key {
            assert(first_file_with_key(all.take(i + 1), key@) == Some(i as int));
            proof {
                lemma_first_file_prefix(all, key@, i as int + 1, i as int);
            }
            return Some(i);
        }
        i = i + 1;
    }
    assert(all.take(files.len() as int) == all);
    None
}

impl App {
    /// The domain file and link a deletion while searching removes: the
    /// highlighted result's link, in the first domain file stored under the
    /// result's domain.
    pub open spec fn search_target(&self) -> Option<(int, Seq<char>)> {
        match self.search_selected {
            Some(s) => if s < self.search_results.len() {
                match first_file_with_key(
                    views(self.files@),
                    self.search_results@[s as int].domain@,
                ) {
                    Some(fi) => Some((fi, self.search_results@[s as int].url@)),
                    None => None,
                }
            } else {
                None
            },
            None => None,
        }
    }

    /// Removes the marked entries of the current list, or the highlighted one
    /// when nothing is marked, and says what is left to do on disk.
    ///
    /// Browsing domain files, the domain files go, all marks are dropped, and
    /// the highlight moves back onto the last remaining file if it was past
    /// it; the links are cleared when no file remains and are to be reloaded
    /// otherwise. Browsing links, the links go, the link marks are dropped,
    /// the link highlight is kept in range and the remaining links are to be
    /// written back. Searching, the highlighted result names the line to
    /// remove from its domain file.
    pub fn delete_selection(&mut self) -> (d: Deletion)
        requires
            old(self).wf(),
        ensures
            final(self).wf(),
            old(self).mode == Mode::BrowsingFiles ==> match deletion_marks(
                old(self).selected_files@,
                old(self).file_selected,
            ) {
                None => App::same(old(self), final(self)) && d is Nothing,
                Some(del) => {
                    &&& views(final(self).files@) == kept(views(old(self).files@), del)
                    &&& final(self).file_link_counts@ == kept(old(self).file_link_counts@, del)
                    &&& final(self).link_titles@ == old(self).link_titles@
                    &&& final(self).archive_dir == old(self).archive_dir
                    &&& final(self).selected_files@.is_empty()
                    &&& final(self).selected_links@.is_empty()
                    &&& final(self).file_selected == clamp_selection(
                        old(self).file_selected,
                        final(self).files.len() as nat,
                    )
                    &&& if final(self).files.len() == 0 {
                        final(self).links@.len() == 0 && final(self).link_selected is None
                    } else {
                        final(self).links == old(self).links && final(self).link_selected
                            == old(self).link_selected
                    }
                    &&& App::same_search(old(self), final(self))
                    &&& App::same_modes(old(self), final(self))
                    &&& d matches Deletion::RemoveFiles { paths, reload } && views(paths@)
                        == paths_in(old(self).archive_dir@, picked(views(old(self).files@), del))
                        && reload == (final(self).files.len() > 0)
                },
            },
            old(self).mode == Mode::BrowsingLinks ==> match deletion_marks(
                old(self).selected_links@,
                old(self).link_selected,
            ) {
                None => App::same(old(self), final(self)) && d is Nothing,
                Some(del) => {
                    &&& views(final(self).links@) == kept(views(old(self).links@), del)
                    &&& final(self).link_titles@ == old(self).link_titles@
                    &&& final(self).selected_links@.is_empty()
                    &&& final(self).link_selected == clamp_selection(
                        old(self).link_selected,
                        final(self).links.len() as nat,
                    )
                    &&& App::same_files(old(self), final(self))
                    &&& App::same_search(old(self), final(self))
                    &&& App::same_modes(old(self), final(self))
                    &&& match old(self).file_selected {
                        Some(i) => d matches Deletion::WriteLinks { path, content } && path@
                            == old(self).path_of(i as int) && content@ == join_lines(
                            views(final(self).links@),
                        ),
                        None => d is Nothing,
                    }
                },
            },
            old(self).mode == Mode::Searching ==> {
                &&& App::same(old(self), final(self))
                &&& match old(self).search_target() {
                    Some((fi, url)) => d matches Deletion::RemoveLine { file, path, url: u }
                        && file == fi && path@ == old(self).path_of(fi) && u@ == url,
                    None => d is Nothing,
                }
            },
            old(self).mode == Mode::ViewingImage ==> App::same(old(self), final(self)) && d
                is Nothing,
    {
        match self.mode {
            Mode::BrowsingFiles => self.delete_files(),
            Mode::BrowsingLinks => self.delete_links(),
            Mode::Searching => self.locate_search_deletion(),
            Mode::ViewingImage => Deletion::Nothing,
        }
    }

    fn delete_files(&mut self) -> (d: Deletion)
        requires
            old(self).wf(),
        ensures
            final(self).wf(),
            match deletion_marks(old(self).selected_files@, old(self).file_selected) {
                None => App::same(old(self), final(self)) && d is Nothing,
                Some(del) => {
                    &&& views(final(self).files@) == kept(views(old(self).files@), del)
                    &&& final(self).file_link_counts@ == kept(old(self).file_link_counts@, del)
                    &&& final(self).link_titles@ == old(self).link_titles@
                    &&& final(self).archive_dir == old(self).archive_dir
                    &&& final(self).selected_files@.is_empty()
                    &&& final(self).selected_links@.is_empty()
                    &&& final(self).file_selected == clamp_selection(
                        old(self).file_selected,
                        final(self).files.len() as nat,
                    )
                    &&& if final(self).files.len() == 0 {
                        final(self).links@.len() == 0 && final(self).link_selected is None
                    } else {
                        final(self).links == old(self).links && final(self).link_selected
                            == old(self).link_selected
                    }
                    &&& App::same_search(old(self), final(self))
                    &&& App::same_modes(old(self), final(self))
                    &&& d matches Deletion::RemoveFiles { paths, reload } && views(paths@)
                        == paths_in(old(self).archive_dir@, picked(views(old(self).files@), del))
                        && reload == (final(self).files.len() > 0)
                },
            },
    {
        let sel: usize;
        if self.selected_files.is_empty() {
            match self.file_selected {
                Some(i) => {
                    sel = i;
                },
                None => {
                    return Deletion::Nothing;
                },
            }
        } else {
            sel = 0;
        }
        let ghost del = deletion_marks(self.selected_files@, self.file_selected)->0;
        assert(deletion_marks(self.selected_files@, Some(sel))->0 == del);
        let ghost old_files = views(self.files@);
        let ghost old_counts = self.file_link_counts@;
        let (keep, gone) = split_strings(&self.files, &self.selected_files, sel);
        let counts = keep_counts(&self.file_link_counts, &self.selected_files, sel);
        proof {
            lemma_kept_len_agree(old_files, old_counts, del);
            assert(views(keep@).len() == keep@.len());
        }
        let paths = join_all(self.archive_dir.as_str(), &gone);
        self.files = keep;
        self.file_link_counts = counts;
        self.selected_files.clear();
        self.selected_links.clear();
        let n = self.files.len();
        if n == 0 {
            self.file_selected = None;
            self.links = Vec::new();
            self.link_selected = None;
        } else {
            self.file_selected = clamp(self.file_selected, n);
        }
        Deletion::RemoveFiles { paths, reload: n > 0 }
    }

    fn delete_links(&mut self) -> (d: Deletion)
        requires
            old(self).wf(),
        ensures
            final(self).wf(),
            match deletion_marks(old(self).selected_links@, old(self).link_selected) {
                None => App::same(old(self), final(self)) && d is Nothing,
                Some(del) => {
                    &&& views(final(self).links@) == kept(views(old(self).links@), del)
                    &&& final(self).link_titles@ == old(self).link_titles@
                    &&& final(self).selected_links@.is_empty()
                    &&& final(self).link_selected == clamp_selection(
                        old(self).link_selected,
                        final(self).links.len() as nat,
                    )
                    &&& App::same_files(old(self), final(self))
                    &&& App::same_search(old(self), final(self))
                    &&& App::same_modes(old(self), final(self))
                    &&& match old(self).file_selected {
                        Some(i) => d matches Deletion::WriteLinks { path, content } && path@
                            == old(self).path_of(i as int) && content@ == join_lines(
                            views(final(self).links@),
                        ),
                        None => d is Nothing,
                    }
                },
            },
    {
        let sel: usize;
        if self.selected_links.is_empty() {
            match self.link_selected {
                Some(i) => {
                    sel = i;
                },
                None => {
                    return Deletion::Nothing;
                },
            }
        } else {
            sel = 0;
        }
        let ghost del = deletion_marks(self.selected_links@, self.link_selected)->0;
        assert(deletion_marks(self.selected_links@, Some(sel))->0 == del);
        let (keep, _gone) = split_strings(&self.links, &self.selected_links, sel);
        self.links = keep;
        self.selected_links.clear();
        let n = self.links.len();
        self.link_selected = clamp(self.link_selected, n);
        match self.save_links() {
            Some((path, content)) => Deletion::WriteLinks { path, content },
            None => Deletion::Nothing,
        }
    }

    fn locate_search_deletion(&self) -> (d: Deletion)
        requires
            self.wf(),
        ensures
            match self.search_target() {
                Some((fi, url)) => d matches Deletion::RemoveLine { file, path, url: u } && file
                    == fi && path@ == self.path_of(fi) && u@ == url,
                None => d is Nothing,
            },
    {
        match self.search_selected {
            Some(s) => {
                if s < self.search_results.len() {
                    let hit = &self.search_results[s];
                    match find_file_with_key(&self.files, &hit.domain) {
                        Some(fi) => Deletion::RemoveLine {
                            file: fi,
                            path: self.file_path(fi),
                            url: hit.url.clone(),
                        },
                        None => Deletion::Nothing,
                    }
                } else {
                    Deletion::Nothing
                }
            },
            None => Deletion::Nothing,
        }
    }

    /// Records that the line of the highlighted search result was removed
    /// from the domain file `file`: that file counts one link less, the
    /// result goes and the result highlight stays in range. Says whether the
    /// links are to be reloaded, which is when `file` is the highlighted
    /// domain file.
    pub fn finish_line_removal(&mut self, file: usize) -> (reload: bool)
        requires
            old(self).wf(),
            file < old(self).files.len(),
            old(self).search_selected matches Some(s) && s < old(self).search_results.len(),
        ensures
            final(self).wf(),
            final(self).file_link_counts@ == old(self).file_link_counts@.update(
                file as int,
                if old(self).file_link_counts@[file as int] > 0 {
                    (old(self).file_link_counts@[file as int] - 1) as usize
                } else {
                    0
                },
            ),
            final(self).search_results@ == old(self).search_results@.remove(
                old(self).search_selected->0 as int,
            ),
            final(self).search_selected == clamp_selection(
                old(self).search_selected,
                final(self).search_results.len() as nat,
            ),
            final(self).search_query == old(self).search_query,
            final(self).archive_dir == old(self).archive_dir,
            final(self).files == old(self).files,
            final(self).file_selected == old(self).file_selected,
            final(self).selected_files@ == old(self).selected_files@,
            App::same_links(old(self), final(self)),
            App::same_modes(old(self), final(self)),
            reload == (old(self).file_selected == Some(file)),
    {
        let c = self.file_link_counts[file];
        self.file_link_counts.set(file, if c > 0 { c - 1 } else { 0 });
        let reload = match self.file_selected {
            Some(i) => i == file,
            None => false,
        };
        let s = match self.search_selected {
            Some(s) => s,
            None => 0,
        };
        self.search_results.remove(s);
        let n = self.search_results.len();
        self.search_selected = clamp(Some(s), n);
        reload
    }
}

/// Removing the same positions from two lists of equal length leaves lists
/// of equal length.
pub proof fn lemma_kept_len_agree<A, B>(a: Seq<A>, b: Seq<B>, marks: Set<usize>)
    requires
        a.len() == b.len(),
    ensures
        kept(a, marks).len() == kept(b, marks).len(),
    decreases a.len(),
{
    if a.len() > 0 {
        lemma_kept_len_agree(a.drop_last(), b.drop_last(), marks);
    }
}

} // verus!
