//! What a key press means to the manager, and the mode changes it makes.
use vstd::prelude::*;
use crate::manager::{App, Mode};
use crate::text::push_char;

verus! {

/// A key, as far as the manager tells keys apart.
#[derive(Clone, Copy, PartialEq, Eq, Structural, Debug)]
pub enum KeyCode {
    Char(char),
    Up,
    Down,
    Enter,
    Esc,
    Tab,
    BackTab,
    Delete,
    Backspace,
    Other,
}

/// A key press: the key and whether Control was held.
#[derive(Clone, Copy, PartialEq, Eq, Structural, Debug)]
pub struct Key {
    pub code: KeyCode,
    pub ctrl: bool,
}

/// What a key press asks of the manager.
#[derive(Clone, Copy, PartialEq, Eq, Structural, Debug)]
pub enum Command {
    /// Nothing.
    Ignore,
    /// Stop the manager.
    Quit,
    /// `App::next`.
    Next,
    /// `App::previous`.
    Previous,
    /// `App::toggle_select_all`.
    ToggleAll,
    /// `App::toggle_selection`.
    Toggle,
    /// `App::clear_marks`.
    ClearMarks,
    /// `App::open_links`.
    OpenLinks,
    /// Open the highlighted link in the browser.
    OpenLink,
    /// Copy the highlighted link to the clipboard.
    CopyLink,
    /// `App::back_to_files`.
    BackToFiles,
    /// `App::show_image`, for the cached screenshot of the highlighted link.
    ViewImage,
    /// `App::next_domain`.
    NextDomain,
    /// `App::prev_domain`.
    PrevDomain,
    /// `App::delete_selection`.
    Delete,
    /// `App::start_search`.
    StartSearch,
    /// `App::leave_image`.
    LeaveImage,
    /// `App::end_search`.
    EndSearch,
    /// Open the highlighted search result in the browser.
    OpenResult,
    /// Copy the highlighted search result to the clipboard.
    CopyResult,
    /// `App::delete_selection`, then search again.
    DeleteResult,
    /// Show the screenshot of the highlighted result when there is one.
    ViewResultImage,
    /// `App::erase_char`, then search again.
    Erase,
    /// `App::type_char` with this character, then search again.
    Type(char),
}

/// Control characters (`char::is_control`): U+0000 to U+001F and U+007F to
/// U+009F.
pub open spec fn is_control_char(c: char) -> bool {
    let u = c as u32;
    u <= 0x1f || (0x7f <= u && u <= 0x9f)
}

/// Whether `c` is a control character.
pub fn is_control(c: char) -> (res: bool)
    ensures
        res == is_control_char(c),
{
    let u = c as u32;
    u <= 0x1f || (0x7f <= u && u <= 0x9f)
}

/// What `key` means while searching.
pub open spec fn search_command(key: Key) -> Command {
    match key.code {
        KeyCode::Esc => Command::EndSearch,
        KeyCode::Down => Command::Next,
        KeyCode::Up => Command::Previous,
        KeyCode::Enter => Command::OpenResult,
        KeyCode::Delete => Command::DeleteResult,
        KeyCode::Backspace => Command::Erase,
        KeyCode::Char(c) => if c == 'j' {
            Command::Next
        } else if c == 'k' {
            Command::Previous
        } else if c == 'y' {
            Command::CopyResult
        } else if c == 'd' {
            Command::DeleteResult
        } else if c == 'v' {
            Command::ViewResultImage
        } else if !is_control_char(c) {
            Command::Type(c)
        } else {
            Command::Ignore
        },
        _ => Command::Ignore,
    }
}

/// What `key` means while browsing in `mode`; `image_cached` says whether a
/// screenshot of the highlighted link is at hand.
pub open spec fn browse_command(mode: Mode, key: Key, image_cached: bool) -> Command {
    match key.code {
        KeyCode::Down => Command::Next,
        KeyCode::Up => Command::Previous,
        KeyCode::Esc => Command::ClearMarks,
        KeyCode::Enter => if mode == Mode::BrowsingFiles {
            Command::OpenLinks
        } else if mode == Mode::BrowsingLinks {
            Command::OpenLink
        } else {
            Command::Ignore
        },
        KeyCode::Tab => Command::NextDomain,
        KeyCode::BackTab => Command::PrevDomain,
        KeyCode::Delete => Command::Delete,
        KeyCode::Char(c) => if c == 'q' {
            Command::Quit
        } else if c == 'j' {
            Command::Next
        } else if c == 'k' {
            Command::Previous
        } else if c == 'a' && key.ctrl {
            Command::ToggleAll
        } else if c == ' ' {
            Command::Toggle
        } else if c == 'y' && mode == Mode::BrowsingLinks {
            Command::CopyLink
        } else if c == 'z' && mode == Mode::BrowsingLinks {
            Command::BackToFiles
        } else if c == 'v' && mode == Mode::BrowsingLinks && image_cached {
            Command::ViewImage
        } else if c == 'd' {
            Command::Delete
        } else if c == '/' {
            Command::StartSearch
        } else {
            Command::Ignore
        },
        _ => Command::Ignore,
    }
}

/// What `key` means in `mode`: any key ends viewing an image.
pub open spec fn command_of(mode: Mode, key: Key, image_cached: bool) -> Command {
    if mode == Mode::ViewingImage {
        Command::LeaveImage
    } else if mode == Mode::Searching {
        search_command(key)
    } else {
        browse_command(mode, key, image_cached)
    }
}

/// In every mode but the image view, Down means what `j` means, moving to
/// the next entry, and Up what `k` means, moving to the previous one,
/// whether or not Control is held.
pub proof fn lemma_arrows_move_like_j_and_k(mode: Mode, ctrl: bool, image_cached: bool)
    requires
        mode != Mode::ViewingImage,
    ensures
        command_of(mode, Key { code: KeyCode::Down, ctrl }, image_cached) == command_of(
            mode,
            Key { code: KeyCode::Char('j'), ctrl },
            image_cached,
        ),
        command_of(mode, Key { code: KeyCode::Down, ctrl }, image_cached) == Command::Next,
        command_of(mode, Key { code: KeyCode::Up, ctrl }, image_cached) == command_of(
            mode,
            Key { code: KeyCode::Char('k'), ctrl },
            image_cached,
        ),
        command_of(mode, Key { code: KeyCode::Up, ctrl }, image_cached) == Command::Previous,
{
}

/// What `key` means to the manager in `mode`.
pub fn command_for(mode: Mode, key: Key, image_cached: bool) -> (res: Command)
    ensures
        res == command_of(mode, key, image_cached),
{
    if mode == Mode::ViewingImage {
        return Command::LeaveImage;
    }
    if mode == Mode::Searching {
        return match key.code {
            KeyCode::Esc => Command::EndSearch,
            KeyCode::Down => Command::Next,
            KeyCode::Up => Command::Previous,
            KeyCode::Enter => Command::OpenResult,
            KeyCode::Delete => Command::DeleteResult,
            KeyCode::Backspace => Command::Erase,
            KeyCode::Char(c) => if c == 'j' {
                Command::Next
            } else if c == 'k' {
                Command::Previous
            } else if c == 'y' {
                Command::CopyResult
            } else if c == 'd' {
                Command::DeleteResult
            } else if c == 'v' {
                Command::ViewResultImage
            } else if !is_control(c) {
                Command::Type(c)
            } else {
                Command::Ignore
            },
            _ => Command::Ignore,
        };
    }
    match key.code {
        KeyCode::Down => Command::Next,
        KeyCode::Up => Command::Previous,
        KeyCode::Esc => Command::ClearMarks,
        KeyCode::Enter => if mode == Mode::BrowsingFiles {
            Command::OpenLinks
        } else if mode == Mode::BrowsingLinks {
            Command::OpenLink
        } else {
            Command::Ignore
        },
        KeyCode::Tab => Command::NextDomain,
        KeyCode::BackTab => Command::PrevDomain,
        KeyCode::Delete => Command::Delete,
        KeyCode::Char(c) => if c == 'q' {
            Command::Quit
        } else if c == 'j' {
            Command::Next
        } else if c == 'k' {
            Command::Previous
        } else if c == 'a' && key.ctrl {
            Command::ToggleAll
        } else if c == ' ' {
            Command::Toggle
        } else if c == 'y' && mode == Mode::BrowsingLinks {
            Command::CopyLink
        } else if c == 'z' && mode == Mode::BrowsingLinks {
            Command::BackToFiles
        } else if c == 'v' && mode == Mode::BrowsingLinks && image_cached {
            Command::ViewImage
        } else if c == 'd' {
            Command::Delete
        } else if c == '/' {
            Command::StartSearch
        } else {
            Command::Ignore
        },
        _ => Command::Ignore,
    }
}

/// Removes the last character of a string, if any.
#[verifier::external_body]
fn pop_char(s: &mut String)
    ensures
        final(s)@ == if old(s)@.len() > 0 {
            old(s)@.drop_last()
        } else {
            old(s)@
        },
{
    s.pop();
}

impl App {
    /// Stops the manager.
    pub fn quit(&mut self)
        ensures
            final(self).should_quit,
            App::same_files(old(self), final(self)),
            App::same_links(old(self), final(self)),
            App::same_search(old(self), final(self)),
            final(self).mode == old(self).mode,
            final(self).prev_mode == old(self).prev_mode,
    {
        self.should_quit = true;
    }

    /// Drops every mark on domain files and links.
    pub fn clear_marks(&mut self)
        requires
            old(self).wf(),
        ensures
            final(self).wf(),
            final(self).selected_files@.is_empty(),
            final(self).selected_links@.is_empty(),
            final(self).archive_dir == old(self).archive_dir,
            final(self).files == old(self).files,
            final(self).file_selected == old(self).file_selected,
            final(self).file_link_counts == old(self).file_link_counts,
            final(self).links == old(self).links,
            final(self).link_selected == old(self).link_selected,
            final(self).link_titles@ == old(self).link_titles@,
            App::same_search(old(self), final(self)),
            App::same_modes(old(self), final(self)),
    {
        self.selected_files.clear();
        self.selected_links.clear();
    }

    /// Starts browsing the links of the highlighted domain file, when it has
    /// any; says whether it did, and so whether the title of the highlighted
    /// link is to be fetched.
    pub fn open_links(&mut self) -> (opened: bool)
        ensures
            opened == (old(self).links.len() > 0),
            final(self).mode == if opened {
                Mode::BrowsingLinks
            } else {
                old(self).mode
            },
            final(self).prev_mode == old(self).prev_mode,
            final(self).should_quit == old(self).should_quit,
            App::same_files(old(self), final(self)),
            App::same_links(old(self), final(self)),
            App::same_search(old(self), final(self)),
    {
        if self.links.len() > 0 {
            self.mode = Mode::BrowsingLinks;
            true
        } else {
            false
        }
    }

    /// Goes back from the links to the domain files.
    pub fn back_to_files(&mut self)
        ensures
            final(self).mode == Mode::BrowsingFiles,
            final(self).prev_mode == old(self).prev_mode,
            final(self).should_quit == old(self).should_quit,
            App::same_files(old(self), final(self)),
            App::same_links(old(self), final(self)),
            App::same_search(old(self), final(self)),
    {
        self.mode = Mode::BrowsingFiles;
    }

    /// Shows a screenshot full screen, remembering the mode to go back to.
    pub fn show_image(&mut self)
        ensures
            final(self).mode == Mode::ViewingImage,
            final(self).prev_mode == old(self).mode,
            final(self).should_quit == old(self).should_quit,
            App::same_files(old(self), final(self)),
            App::same_links(old(self), final(self)),
            App::same_search(old(self), final(self)),
    {
        self.prev_mode = self.mode;
        self.mode = Mode::ViewingImage;
    }

    /// Stops showing a screenshot: back to the mode before it.
    pub fn leave_image(&mut self)
        ensures
            final(self).mode == old(self).prev_mode,
            final(self).prev_mode == old(self).prev_mode,
            final(self).should_quit == old(self).should_quit,
            App::same_files(old(self), final(self)),
            App::same_links(old(self), final(self)),
            App::same_search(old(self), final(self)),
    {
        self.mode = self.prev_mode;
    }

    /// Starts a search with an empty query and no results, remembering the
    /// mode to go back to.
    pub fn start_search(&mut self)
        ensures
            final(self).mode == Mode::Searching,
            final(self).prev_mode == old(self).mode,
            final(self).should_quit == old(self).should_quit,
            final(self).search_query@.len() == 0,
            final(self).search_results@.len() == 0,
            final(self).search_selected == old(self).search_selected,
            App::same_files(old(self), final(self)),
            App::same_links(old(self), final(self)),
    {
        self.prev_mode = self.mode;
        self.mode = Mode::Searching;
        self.search_query = String::new();
        self.search_results = Vec::new();
    }

    /// Ends the search: query and results cleared, back to the mode before
    /// it.
    pub fn end_search(&mut self)
        ensures
            final(self).mode == old(self).prev_mode,
            final(self).prev_mode == old(self).prev_mode,
            final(self).should_quit == old(self).should_quit,
            final(self).search_query@.len() == 0,
            final(self).search_results@.len() == 0,
            final(self).search_selected == old(self).search_selected,
            App::same_files(old(self), final(self)),
            App::same_links(old(self), final(self)),
    {
        self.search_query = String::new();
        self.search_results = Vec::new();
        self.mode = self.prev_mode;
    }

    /// Adds `c` to the search query.
    pub fn type_char(&mut self, c: char)
        ensures
            final(self).search_query@ == old(self).search_query@.push(c),
            final(self).search_results == old(self).search_results,
            final(self).search_selected == old(self).search_selected,
            App::same_files(old(self), final(self)),
            App::same_links(old(self), final(self)),
            App::same_modes(old(self), final(self)),
    {
        push_char(&mut self.search_query, c);
    }

    /// Removes the last character of the search query, if any.
    pub fn erase_char(&mut self)
        ensures
            final(self).search_query@ == if old(self).search_query@.len() > 0 {
                old(self).search_query@.drop_last()
            } else {
                old(self).search_query@
            },
            final(self).search_results == old(self).search_results,
            final(self).search_selected == old(self).search_selected,
            App::same_files(old(self), final(self)),
            App::same_links(old(self), final(self)),
            App::same_modes(old(self), final(self)),
    {
        pop_char(&mut self.search_query);
    }
}

} // verus!
