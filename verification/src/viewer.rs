//! Browsing state of the realtime viewer: the domain files, the links of the
//! highlighted file, and deleting single links.
//!
//! Like the manager, the viewer leaves file reads and writes to its caller.
use vstd::prelude::*;
use crate::controls::{Key, KeyCode};
use crate::links::{links_content, links_in, parse_links};
use crate::manager::{next_index, prev_index};
use crate::paths::{join, join_path};
use crate::text::{join_lines, views};

verus! {

/// Which list the viewer's keys move in.
#[derive(Clone, Copy, PartialEq, Eq, Structural, Debug)]
pub enum Mode {
    BrowsingFiles,
    BrowsingLinks,
}

/// The viewer's state.
pub struct App {
    /// Directory that holds the domain files.
    pub archive_dir: String,
    /// Names of the domain files, in the order the directory listed them.
    pub files: Vec<String>,
    /// Highlighted domain file.
    pub file_selected: Option<usize>,
    /// Links of the highlighted domain file.
    pub links: Vec<String>,
    /// Highlighted link.
    pub link_selected: Option<usize>,
    pub mode: Mode,
    pub should_quit: bool,
}

/// Link highlight after the links were reloaded with `len` entries: none
/// without links; else the old one (the first without one), moved back onto
/// the last link if past it.
pub open spec fn reloaded_link(cur: Option<usize>, len: nat) -> Option<usize> {
    if len == 0 {
        None
    } else {
        let c: int = match cur {
            Some(i) => i as int,
            None => 0,
        };
        Some(if c < len {
            c as usize
        } else {
            (len - 1) as usize
        })
    }
}

/// What a viewer key asks for.
#[derive(Clone, Copy, PartialEq, Eq, Structural, Debug)]
pub enum Command {
    Ignore,
    Quit,
    /// `App::next`.
    Next,
    /// `App::previous`.
    Previous,
    /// `App::open_links`.
    OpenLinks,
    /// `App::back_to_files`.
    BackToFiles,
    /// `App::delete_link`.
    DeleteLink,
}

/// What `key` means to the viewer in `mode`.
pub open spec fn command_of(mode: Mode, key: Key) -> Command {
    match key.code {
        KeyCode::Down => Command::Next,
        KeyCode::Up => Command::Previous,
        KeyCode::Enter => if mode == Mode::BrowsingFiles {
            Command::OpenLinks
        } else {
            Command::Ignore
        },
        KeyCode::Esc => if mode == Mode::BrowsingLinks {
            Command::BackToFiles
        } else {
            Command::Ignore
        },
        KeyCode::Delete => Command::DeleteLink,
        KeyCode::Char(c) => if c == 'q' {
            Command::Quit
        } else if c == 'j' {
            Command::Next
        } else if c == 'k' {
            Command::Previous
        } else if c == 'l' && mode == Mode::BrowsingFiles {
            Command::OpenLinks
        } else if c == 'h' && mode == Mode::BrowsingLinks {
            Command::BackToFiles
        } else if c == 'x' {
            Command::DeleteLink
        } else {
            Command::Ignore
        },
        _ => Command::Ignore,
    }
}

/// In the viewer too, Down means what `j` means, moving to the next entry,
/// and Up what `k` means, moving to the previous one, in both modes.
pub proof fn lemma_viewer_arrows_move_like_j_and_k(mode: Mode, ctrl: bool)
    ensures
        command_of(mode, Key { code: KeyCode::Down, ctrl }) == command_of(
            mode,
            Key { code: KeyCode::Char('j'), ctrl },
        ),
        command_of(mode, Key { code: KeyCode::Down, ctrl }) == Command::Next,
        command_of(mode, Key { code: KeyCode::Up, ctrl }) == command_of(
            mode,
            Key { code: KeyCode::Char('k'), ctrl },
        ),
        command_of(mode, Key { code: KeyCode::Up, ctrl }) == Command::Previous,
{
}

/// What `key` means to the viewer in `mode`.
pub fn command_for(mode: Mode, key: Key) -> (res: Command)
    ensures
        res == command_of(mode, key),
{
    match key.code {
        KeyCode::Down => Command::Next,
        KeyCode::Up => Command::Previous,
        KeyCode::Enter => if mode == Mode::BrowsingFiles {
            Command::OpenLinks
        } else {
            Command::Ignore
        },
        KeyCode::Esc => if mode == Mode::BrowsingLinks {
            Command::BackToFiles
        } else {
            Command::Ignore
        },
        KeyCode::Delete => Command::DeleteLink,
        KeyCode::Char(c) => if c == 'q' {
            Command::Quit
        } else if c == 'j' {
            Command::Next
        } else if c == 'k' {
            Command::Previous
        } else if c == 'l' && mode == Mode::BrowsingFiles {
            Command::OpenLinks
        } else if c == 'h' && mode == Mode::BrowsingLinks {
            Command::BackToFiles
        } else if c == 'x' {
            Command::DeleteLink
        } else {
            Command::Ignore
        },
        _ => Command::Ignore,
    }
}

/// Key help shown in `mode`.
pub fn help_text(mode: Mode) -> (res: &'static str)
    ensures
        res@ == match mode {
            Mode::BrowsingFiles => " [j/k] Move | [Enter] Open Domain | [q] Quit "@,
            Mode::BrowsingLinks => " [j/k] Move | [x] Delete Link | [Esc] Back "@,
        },
{
    match mode {
        Mode::BrowsingFiles => " [j/k] Move | [Enter] Open Domain | [q] Quit ",
        Mode::BrowsingLinks => " [j/k] Move | [x] Delete Link | [Esc] Back ",
    }
}

impl App {
    /// The highlighted domain file exists.
    pub open spec fn wf(&self) -> bool {
        self.file_selected matches Some(i) ==> i < self.files.len()
    }

    /// Path of the domain file `i`.
    pub open spec fn path_of(&self, i: int) -> Seq<char> {
        join_path(self.archive_dir@, self.files@[i]@)
    }

    /// A viewer over the domain files `files` of `archive_dir`; the first
    /// file is highlighted when there is one, and the caller then loads its
    /// links.
    pub fn new(archive_dir: String, files: Vec<String>) -> (app: App)
        ensures
            app.wf(),
            app.archive_dir == archive_dir,
            app.files == files,
            app.file_selected == (if files.len() > 0 {
                Some(0usize)
            } else {
                None
            }),
            app.links@.len() == 0,
            app.link_selected is None,
            app.mode == Mode::BrowsingFiles,
            !app.should_quit,
    {
        let sel = if files.len() > 0 {
            Some(0usize)
        } else {
            None
        };
        App {
            archive_dir,
            files,
            file_selected: sel,
            links: Vec::new(),
            link_selected: None,
            mode: Mode::BrowsingFiles,
            should_quit: false,
        }
    }

    /// The path of the domain file `i`.
    pub fn file_path(&self, i: usize) -> (res: String)
        requires
            i < self.files.len(),
        ensures
            res@ == self.path_of(i as int),
    {
        join(self.archive_dir.as_str(), self.files[i].as_str())
    }

    /// Replaces the links with those of `content`, just read from the
    /// highlighted domain file; the link highlight stays in range, or is
    /// dropped when there are no links.
    pub fn load_links(&mut self, content: &str)
        requires
            old(self).wf(),
        ensures
            final(self).wf(),
            views(final(self).links@) == links_in(content@),
            final(self).link_selected == reloaded_link(
                old(self).link_selected,
                final(self).links.len() as nat,
            ),
            final(self).archive_dir == old(self).archive_dir,
            final(self).files == old(self).files,
            final(self).file_selected == old(self).file_selected,
            final(self).mode == old(self).mode,
            final(self).should_quit == old(self).should_quit,
    {
        let current = self.link_selected;
        self.links = parse_links(content);
        let n = self.links.len();
        if n > 0 {
            let c = match current {
                Some(i) => i,
                None => 0,
            };
            self.link_selected = Some(if c < n - 1 { c } else { n - 1 });
        } else {
            self.link_selected = None;
        }
    }

    /// The file to write the links to and its new content, when a domain
    /// file is highlighted.
    pub fn save_links(&self) -> (res: Option<(String, String)>)
        requires
            self.wf(),
        ensures
            match self.file_selected {
                Some(i) => res matches Some((path, content)) && path@ == self.path_of(i as int)
                    && content@ == join_lines(views(self.links@)),
                None => res is None,
            },
    {
        match self.file_selected {
            Some(i) => Some((self.file_path(i), links_content(&self.links))),
            None => None,
        }
    }

    /// Moves the highlight of the current list one entry forward, wrapping
    /// around. Says whether the links of a newly highlighted domain file
    /// are to be loaded.
    pub fn next(&mut self) -> (load: bool)
        requires
            old(self).wf(),
            old(self).mode == Mode::BrowsingFiles ==> old(self).files.len() > 0,
        ensures
            final(self).wf(),
            final(self).archive_dir == old(self).archive_dir,
            final(self).files == old(self).files,
            final(self).links == old(self).links,
            final(self).mode == old(self).mode,
            final(self).should_quit == old(self).should_quit,
            load == (old(self).mode == Mode::BrowsingFiles),
            final(self).file_selected == if old(self).mode == Mode::BrowsingFiles {
                Some(next_index(old(self).file_selected, old(self).files.len() as nat))
            } else {
                old(self).file_selected
            },
            final(self).link_selected == if old(self).mode == Mode::BrowsingLinks
                && old(self).links.len() > 0 {
                Some(next_index(old(self).link_selected, old(self).links.len() as nat))
            } else {
                old(self).link_selected
            },
    {
        match self.mode {
            Mode::BrowsingFiles => {
                let n = self.files.len();
                let i = match self.file_selected {
                    Some(i) => if i >= n - 1 {
                        0
                    } else {
                        i + 1
                    },
                    None => 0,
                };
                self.file_selected = Some(i);
                true
            },
            Mode::BrowsingLinks => {
                let n = self.links.len();
                if n > 0 {
                    let i = match self.link_selected {
                        Some(i) => if i >= n - 1 {
                            0
                        } else {
                            i + 1
                        },
                        None => 0,
                    };
                    self.link_selected = Some(i);
                }
                false
            },
        }
    }

    /// Moves the highlight of the current list one entry back, wrapping
    /// around. Says whether the links of a newly highlighted domain file
    /// are to be loaded.
    pub fn previous(&mut self) -> (load: bool)
        requires
            old(self).wf(),
            old(self).mode == Mode::BrowsingFiles ==> old(self).files.len() > 0,
        ensures
            final(self).wf(),
            final(self).archive_dir == old(self).archive_dir,
            final(self).files == old(self).files,
            final(self).links == old(self).links,
            final(self).mode == old(self).mode,
            final(self).should_quit == old(self).should_quit,
            load == (old(self).mode == Mode::BrowsingFiles),
            final(self).file_selected == if old(self).mode == Mode::BrowsingFiles {
                Some(prev_index(old(self).file_selected, old(self).files.len() as nat))
            } else {
                old(self).file_selected
            },
            final(self).link_selected == if old(self).mode == Mode::BrowsingLinks
                && old(self).links.len() > 0 {
                Some(prev_index(old(self).link_selected, old(self).links.len() as nat))
            } else {
                old(self).link_selected
            },
    {
        match self.mode {
            Mode::BrowsingFiles => {
                let n = self.files.len();
                let i = match self.file_selected {
                    Some(i) => if i == 0 {
                        n - 1
                    } else {
                        i - 1
                    },
                    None => 0,
                };
                self.file_selected = Some(i);
                true
            },
            Mode::BrowsingLinks => {
                let n = self.links.len();
                if n > 0 {
                    let i = match self.link_selected {
                        Some(i) => if i == 0 {
                            n - 1
                        } else {
                            i - 1
                        },
                        None => 0,
                    };
                    self.link_selected = Some(i);
                }
                false
            },
        }
    }

    /// Starts browsing the links when there are any.
    pub fn open_links(&mut self)
        ensures
            final(self).mode == if old(self).links.len() > 0 {
                Mode::BrowsingLinks
            } else {
                old(self).mode
            },
            final(self).archive_dir == old(self).archive_dir,
            final(self).files == old(self).files,
            final(self).file_selected == old(self).file_selected,
            final(self).links == old(self).links,
            final(self).link_selected == old(self).link_selected,
            final(self).should_quit == old(self).should_quit,
    {
        if self.links.len() > 0 {
            self.mode = Mode::BrowsingLinks;
        }
    }

    /// Goes back from the links to the domain files.
    pub fn back_to_files(&mut self)
        ensures
            final(self).mode == Mode::BrowsingFiles,
            final(self).archive_dir == old(self).archive_dir,
            final(self).files == old(self).files,
            final(self).file_selected == old(self).file_selected,
            final(self).links == old(self).links,
            final(self).link_selected == old(self).link_selected,
            final(self).should_quit == old(self).should_quit,
    {
        self.mode = Mode::BrowsingFiles;
    }

    /// Stops the viewer.
    pub fn quit(&mut self)
        ensures
            final(self).should_quit,
            final(self).mode == old(self).mode,
            final(self).archive_dir == old(self).archive_dir,
            final(self).files == old(self).files,
            final(self).file_selected == old(self).file_selected,
            final(self).links == old(self).links,
            final(self).link_selected == old(self).link_selected,
    {
        self.should_quit = true;
    }

    /// Removes the highlighted link while links are browsed, and gives the
    /// file to write the remaining links to and its content; the caller
    /// then reads that file back into `load_links`. Nothing happens in
    /// other modes or without a highlighted link.
    pub fn delete_link(&mut self) -> (res: Option<(String, String)>)
        requires
            old(self).wf(),
            old(self).mode == Mode::BrowsingLinks && old(self).link_selected is Some
                ==> old(self).link_selected->0 < old(self).links.len(),
        ensures
            final(self).wf(),
            final(self).archive_dir == old(self).archive_dir,
            final(self).files == old(self).files,
            final(self).file_selected == old(self).file_selected,
            final(self).link_selected == old(self).link_selected,
            final(self).mode == old(self).mode,
            final(self).should_quit == old(self).should_quit,
            match (old(self).mode, old(self).link_selected) {
                (Mode::BrowsingLinks, Some(i)) => {
                    &&& final(self).links@ == old(self).links@.remove(i as int)
                    &&& match old(self).file_selected {
                        Some(f) => res matches Some((path, content)) && path@ == old(
                            self,
                        ).path_of(f as int) && content@ == join_lines(views(final(self).links@)),
                        None => res is None,
                    }
                },
                _ => final(self).links == old(self).links && res is None,
            },
    {
        if self.mode == Mode::BrowsingLinks {
            if let Some(i) = self.link_selected {
                self.links.remove(i);
                return self.save_links();
            }
        }
        None
    }
}

} // verus!
