//! The texts the manager shows: list labels, previews, status lines and key
//! help.
use vstd::prelude::*;
use crate::domain::{domain_name, domain_of_file};
use crate::manager::{title_of, App, Mode};
use crate::text::{decimal, decimal_string};

verus! {

/// A status line: `tag`, the 1-based position of the highlight (0 without
/// one), `/`, the number of entries, and the number of marks when there
/// are any.
pub open spec fn position_status(tag: Seq<char>, sel: Option<usize>, total: nat, marked: nat) -> Seq<
    char,
> {
    let cur: nat = match sel {
        Some(i) => (i + 1) as nat,
        None => 0,
    };
    tag + decimal(cur) + "/"@ + decimal(total) + if marked > 0 {
        "  |  Sel: "@ + decimal(marked)
    } else {
        seq![]
    }
}

/// A status line starts with its tag and ends with the number of marks
/// when there are any, else with the number of entries.
pub proof fn lemma_status_line_ends(tag: Seq<char>, sel: Option<usize>, total: nat, marked: nat)
    ensures
        ({
            let r = position_status(tag, sel, total, marked);
            &&& r.len() >= tag.len()
            &&& r.subrange(0, tag.len() as int) == tag
            &&& marked > 0 ==> r.len() >= decimal(marked).len() && r.subrange(
                r.len() - decimal(marked).len(),
                r.len() as int,
            ) == decimal(marked)
            &&& marked == 0 ==> r.len() >= decimal(total).len() && r.subrange(
                r.len() - decimal(total).len(),
                r.len() as int,
            ) == decimal(total)
        }),
{
    let r = position_status(tag, sel, total, marked);
    let cur: nat = match sel {
        Some(i) => (i + 1) as nat,
        None => 0,
    };
    let head = tag + decimal(cur) + "/"@ + decimal(total);
    assert(r.subrange(0, tag.len() as int) =~= tag);
    if marked > 0 {
        let mid = head + "  |  Sel: "@;
        assert(r == mid + decimal(marked));
        assert(r.subrange(mid.len() as int, r.len() as int) =~= decimal(marked));
    } else {
        assert(r =~= head);
        let pre = tag + decimal(cur) + "/"@;
        assert(r.subrange(pre.len() as int, r.len() as int) =~= decimal(total));
    }
}

fn position_line(tag: &str, sel: Option<usize>, total: usize, marked: usize) -> (res: String)
    requires
        sel matches Some(i) ==> i < usize::MAX,
    ensures
        res@ == position_status(tag@, sel, total as nat, marked as nat),
{
    let cur = match sel {
        Some(i) => i + 1,
        None => 0,
    };
    let mut s = String::new();
    s.append(tag);
    s.append(decimal_string(cur).as_str());
    s.append("/");
    s.append(decimal_string(total).as_str());
    if marked > 0 {
        s.append("  |  Sel: ");
        s.append(decimal_string(marked).as_str());
    }
    s
}

/// Key help shown in `mode`.
pub open spec fn help_for(mode: Mode) -> Seq<char> {
    match mode {
        Mode::BrowsingFiles => " [j/k] Move | [Tab] Next Domain | [Space] Select | [^A] All | [d] Delete | [Enter] Open | [/] Search | [q] Quit "@,
        Mode::BrowsingLinks => " [j/k] Move | [Tab] Next Domain | [Space] Select | [^A] All | [d] Delete | [Enter] Open URL | [y] Copy URL | [/] Search | [z] Back | [q] Quit "@,
        Mode::Searching => ""@,
        Mode::ViewingImage => ""@,
    }
}

/// The key help shown in `mode`.
pub fn help_text(mode: Mode) -> (res: &'static str)
    ensures
        res@ == help_for(mode),
{
    match mode {
        Mode::BrowsingFiles => " [j/k] Move | [Tab] Next Domain | [Space] Select | [^A] All | [d] Delete | [Enter] Open | [/] Search | [q] Quit ",
        Mode::BrowsingLinks => " [j/k] Move | [Tab] Next Domain | [Space] Select | [^A] All | [d] Delete | [Enter] Open URL | [y] Copy URL | [/] Search | [z] Back | [q] Quit ",
        Mode::Searching => "",
        Mode::ViewingImage => "",
    }
}

/// Key help shown while searching.
pub fn search_help_text() -> (res: &'static str)
    ensures
        res@ == " [j/k] Move | [Enter] Open URL | [y] Copy URL | [d] Delete | [Esc] Back "@,
{
    " [j/k] Move | [Enter] Open URL | [y] Copy URL | [d] Delete | [Esc] Back "
}

impl App {
    /// Label of domain file `i`: its domain and, in brackets, its number of
    /// links.
    pub open spec fn file_label_of(&self, i: int) -> Seq<char> {
        domain_of_file(self.files@[i]@) + " ("@ + decimal(self.file_link_counts@[i] as nat) + ")"@
    }

    /// The label of domain file `i` in the domain list.
    pub fn file_label(&self, i: usize) -> (res: String)
        requires
            self.wf(),
            i < self.files.len(),
        ensures
            res@ == self.file_label_of(i as int),
    {
        let mut s = domain_name(self.files[i].as_str());
        s.append(" (");
        s.append(decimal_string(self.file_link_counts[i]).as_str());
        s.append(")");
        s
    }

    /// The status line: position and marks in the current list.
    pub fn status_text(&self) -> (res: String)
        requires
            self.wf(),
        ensures
            res@ == match self.mode {
                Mode::BrowsingFiles => position_status(
                    " [F] "@,
                    self.file_selected,
                    self.files.len() as nat,
                    self.selected_files@.len(),
                ),
                Mode::BrowsingLinks => position_status(
                    " [L] "@,
                    self.link_selected,
                    self.links.len() as nat,
                    self.selected_links@.len(),
                ),
                _ => Seq::<char>::empty(),
            },
            self.mode == Mode::BrowsingFiles ==> res@ == " [F] "@ + decimal(
                match self.file_selected {
                    Some(i) => (i + 1) as nat,
                    None => 0,
                },
            ) + "/"@ + decimal(self.files.len() as nat) + if self.selected_files@.len() > 0 {
                "  |  Sel: "@ + decimal(self.selected_files@.len())
            } else {
                Seq::<char>::empty()
            },
            self.mode == Mode::BrowsingLinks ==> res@ == " [L] "@ + decimal(
                match self.link_selected {
                    Some(i) => (i + 1) as nat,
                    None => 0,
                },
            ) + "/"@ + decimal(self.links.len() as nat) + if self.selected_links@.len() > 0 {
                "  |  Sel: "@ + decimal(self.selected_links@.len())
            } else {
                Seq::<char>::empty()
            },
    {
        match self.mode {
            Mode::BrowsingFiles => position_line(
                " [F] ",
                self.file_selected,
                self.files.len(),
                self.selected_files.len(),
            ),
            Mode::BrowsingLinks => position_line(
                " [L] ",
                self.link_selected,
                self.links.len(),
                self.selected_links.len(),
            ),
            _ => String::new(),
        }
    }

    /// The preview of the highlighted entry: a domain file's domain and
    /// number of links, or a link with its title when known, or with a note
    /// that the title is being fetched.
    pub fn preview_text(&self) -> (res: String)
        requires
            self.wf(),
        ensures
            res@ == match self.mode {
                Mode::BrowsingFiles => match self.file_selected {
                    Some(i) => if i < self.files.len() {
                        domain_of_file(self.files@[i as int]@) + "  |  "@ + decimal(
                            self.file_link_counts@[i as int] as nat,
                        ) + " links"@
                    } else {
                        Seq::<char>::empty()
                    },
                    None => Seq::<char>::empty(),
                },
                Mode::BrowsingLinks => match self.link_selected {
                    Some(i) => if i < self.links.len() {
                        match title_of(self.link_titles@, self.links@[i as int]@) {
                            Some(t) => t + " - "@ + self.links@[i as int]@,
                            None => "Fetching... "@ + self.links@[i as int]@,
                        }
                    } else {
                        Seq::<char>::empty()
                    },
                    None => Seq::<char>::empty(),
                },
                _ => Seq::<char>::empty(),
            },
    {
        match self.mode {
            Mode::BrowsingFiles => match self.file_selected {
                Some(i) => if i < self.files.len() {
                    let mut s = domain_name(self.files[i].as_str());
                    s.append("  |  ");
                    s.append(decimal_string(self.file_link_counts[i]).as_str());
                    s.append(" links");
                    s
                } else {
                    String::new()
                },
                None => String::new(),
            },
            Mode::BrowsingLinks => match self.link_selected {
                Some(i) => if i < self.links.len() {
                    match self.known_title(&self.links[i]) {
                        Some(t) => {
                            let mut s = String::new();
                            s.append(t.as_str());
                            s.append(" - ");
                            s.append(self.links[i].as_str());
                            s
                        },
                        None => {
                            let mut s = String::new();
                            s.append("Fetching... ");
                            s.append(self.links[i].as_str());
                            s
                        },
                    }
                } else {
                    String::new()
                },
                None => String::new(),
            },
            _ => String::new(),
        }
    }

    /// The search box: the query after a slash, or a prompt while it is
    /// empty.
    pub fn search_prompt(&self) -> (res: String)
        ensures
            res@ == if self.search_query@.len() == 0 {
                " Type to fuzzy-search across all archives..."@
            } else {
                " / "@ + self.search_query@
            },
    {
        if self.search_query.as_str().is_empty() {
            let mut s = String::new();
            s.append(" Type to fuzzy-search across all archives...");
            s
        } else {
            let mut s = String::new();
            s.append(" / ");
            s.append(self.search_query.as_str());
            s
        }
    }

    /// Label of search result `i`: its domain and link.
    pub fn result_label(&self, i: usize) -> (res: String)
        requires
            i < self.search_results.len(),
        ensures
            res@ == " "@ + self.search_results@[i as int].domain@ + "  "@
                + self.search_results@[i as int].url@,
    {
        let mut s = String::new();
        s.append(" ");
        s.append(self.search_results[i].domain.as_str());
        s.append("  ");
        s.append(self.search_results[i].url.as_str());
        s
    }

    /// Title of the result list, with the number of results.
    pub fn results_title(&self) -> (res: String)
        ensures
            res@ == " Results ("@ + decimal(self.search_results.len() as nat) + ")"@,
    {
        let mut s = String::new();
        s.append(" Results (");
        s.append(decimal_string(self.search_results.len()).as_str());
        s.append(")");
        s
    }

    /// The preview of the highlighted search result: its domain, its title
    /// when known, and its link; a hint when there is no result.
    pub fn search_preview_text(&self) -> (res: String)
        ensures
            res@ == match self.search_selected {
                Some(i) => if i < self.search_results.len() {
                    let h = self.search_results@[i as int];
                    match title_of(self.link_titles@, h.url@) {
                        Some(t) => h.domain@ + " | "@ + t + " - "@ + h.url@,
                        None => h.domain@ + " - "@ + h.url@,
                    }
                } else {
                    Seq::<char>::empty()
                },
                None => if self.search_query@.len() == 0 {
                    " Type above to search across all archives"@
                } else {
                    " No matches found"@
                },
            },
    {
        match self.search_selected {
            Some(i) => if i < self.search_results.len() {
                let h = &self.search_results[i];
                let mut s = String::new();
                s.append(h.domain.as_str());
                match self.known_title(&h.url) {
                    Some(t) => {
                        s.append(" | ");
                        s.append(t.as_str());
                        s.append(" - ");
                    },
                    None => {
                        s.append(" - ");
                    },
                }
                s.append(h.url.as_str());
                s
            } else {
                String::new()
            },
            None => {
                let mut s = String::new();
                if self.search_query.as_str().is_empty() {
                    s.append(" Type above to search across all archives");
                } else {
                    s.append(" No matches found");
                }
                s
            },
        }
    }

    /// The status line while searching: the number of results and the query.
    pub fn search_status_text(&self) -> (res: String)
        ensures
            res@ == if self.search_query@.len() == 0 {
                " [S] Type to search"@
            } else {
                " [S] "@ + decimal(self.search_results.len() as nat) + " result"@ + (if self.search_results.len() == 1 {
                    Seq::<char>::empty()
                } else {
                    "s"@
                }) + " | \""@ + self.search_query@ + "\""@
            },
    {
        let mut s = String::new();
        if self.search_query.as_str().is_empty() {
            s.append(" [S] Type to search");
        } else {
            s.append(" [S] ");
            s.append(decimal_string(self.search_results.len()).as_str());
            s.append(" result");
            if self.search_results.len() != 1 {
                s.append("s");
            }
            s.append(" | \"");
            s.append(self.search_query.as_str());
            s.append("\"");
        }
        s
    }
}

} // verus!
