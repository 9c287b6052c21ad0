//! The session selector's state and what each key press does to it. Searching the index and
//! copying to the clipboard are left to the caller, which reports their outcome back.

use vstd::prelude::*;

use crate::listing::{resume_for, resume_command};
use crate::search::{QueryError, SearchScope, error_message, next_scope};
use crate::session::{SessionRow, SessionRowView};
use crate::text::{all_white, chars_of, opt_view, string_of};
use crate::ui_state::{ExecVisibility, Key, KeyPress, is_ctrl_c, selection_fits, toggled};

verus! {

/// Whether keys edit the search query.
#[derive(Debug, Clone, Copy, PartialEq, Eq, Structural)]
pub enum Mode {
    Normal,
    Search,
}

/// Which pane of the selector has the focus.
#[derive(Debug, Clone, Copy, PartialEq, Eq, Structural)]
pub enum PaneFocus {
    Sessions,
    Message,
}

/// The name of a pane.
pub open spec fn focus_label(f: PaneFocus) -> Seq<char> {
    match f {
        PaneFocus::Sessions => "sessions"@,
        PaneFocus::Message => "message"@,
    }
}

impl PaneFocus {
    /// The name of the pane.
    pub fn label(self) -> (r: &'static str)
        ensures
            r@ == focus_label(self),
    {
        match self {
            PaneFocus::Sessions => "sessions",
            PaneFocus::Message => "message",
        }
    }
}

/// What a key press asks of the program running the selector.
#[derive(Debug, Clone, PartialEq, Eq)]
pub enum SelectorAction {
    Quit,
    /// Replay the session log at this path.
    OpenReplay(String),
    /// Search the index for the current query in the current scope, then report the outcome
    /// with `apply_search`.
    Search,
    /// Copy this resume command to the clipboard, then report the outcome with
    /// `copy_finished`.
    CopyResume(String),
}

/// The selector's state.
#[derive(Debug, Clone)]
pub struct SelectorApp {
    pub total_rows: usize,
    pub filtered: Vec<SessionRow>,
    pub selected: Option<usize>,
    pub query: String,
    pub search_scope: SearchScope,
    pub mode: Mode,
    pub focus: PaneFocus,
    pub metadata_scroll: usize,
    pub message_scroll: u16,
    pub show_help: bool,
    pub exec_visibility: ExecVisibility,
    pub status: Option<String>,
}

/// The selector's state apart from its rows.
pub struct SelectorUi {
    pub total_rows: usize,
    pub selected: Option<usize>,
    pub query: Seq<char>,
    pub search_scope: SearchScope,
    pub mode: Mode,
    pub focus: PaneFocus,
    pub metadata_scroll: usize,
    pub message_scroll: u16,
    pub show_help: bool,
    pub exec_visibility: ExecVisibility,
    pub status: Option<Seq<char>>,
}

/// What a key press asks for, as a mathematical value.
pub enum SelectorActionView {
    Continue,
    Quit,
    OpenReplay(Seq<char>),
    Search,
    CopyResume(Seq<char>),
}

/// The view of a selector action.
pub open spec fn selector_action_view(a: Option<SelectorAction>) -> SelectorActionView {
    match a {
        None => SelectorActionView::Continue,
        Some(SelectorAction::Quit) => SelectorActionView::Quit,
        Some(SelectorAction::OpenReplay(p)) => SelectorActionView::OpenReplay(p@),
        Some(SelectorAction::Search) => SelectorActionView::Search,
        Some(SelectorAction::CopyResume(c)) => SelectorActionView::CopyResume(c@),
    }
}

/// The views of rows.
pub open spec fn rows_view(rows: Seq<SessionRow>) -> Seq<SessionRowView> {
    rows.map_values(|r: SessionRow| r@)
}

impl SelectorApp {
    /// The state apart from the rows.
    pub open spec fn ui(&self) -> SelectorUi {
        SelectorUi {
            total_rows: self.total_rows,
            selected: self.selected,
            query: self.query@,
            search_scope: self.search_scope,
            mode: self.mode,
            focus: self.focus,
            metadata_scroll: self.metadata_scroll,
            message_scroll: self.message_scroll,
            show_help: self.show_help,
            exec_visibility: self.exec_visibility,
            status: opt_view(self.status),
        }
    }
}

/// The selected row, where the selection is within the rows.
pub open spec fn selected_row(u: SelectorUi, rows: Seq<SessionRowView>) -> Option<SessionRowView> {
    match u.selected {
        Some(i) => if i < rows.len() {
            Some(rows[i as int])
        } else {
            None
        },
        None => None,
    }
}

/// The selection after moving down, wrapping to the first row.
pub open spec fn move_next(u: SelectorUi, n: int) -> SelectorUi {
    if n == 0 {
        u
    } else {
        let next: usize = if u.selected is Some && u.selected->0 + 1 < n {
            (u.selected->0 + 1) as usize
        } else {
            0
        };
        SelectorUi { selected: Some(next), message_scroll: 0, ..u }
    }
}

/// The selection after moving up, wrapping to the last row.
pub open spec fn move_previous(u: SelectorUi, n: int) -> SelectorUi {
    if n == 0 {
        u
    } else {
        let previous: usize = if u.selected is None || u.selected->0 == 0 {
            (n - 1) as usize
        } else {
            (u.selected->0 - 1) as usize
        };
        SelectorUi { selected: Some(previous), message_scroll: 0, ..u }
    }
}

/// The selection after `times` moves down (`down`) or up.
pub open spec fn moved(u: SelectorUi, n: int, down: bool, times: nat) -> SelectorUi
    decreases times,
{
    if times == 0 {
        u
    } else {
        let v = moved(u, n, down, (times - 1) as nat);
        if down {
            move_next(v, n)
        } else {
            move_previous(v, n)
        }
    }
}

/// The selector after a key press over `rows`, and what the key asks for. Control-C quits
/// everywhere; help takes `Esc`, `?` and `q` only; in normal mode `q` and `Esc` quit, `Enter`
/// replays the selected session, `e` (without modifiers) toggles exec entries, `/` starts a
/// search, `?` shows help, `y` copies the resume command, `Tab` switches focus, movement keys
/// move the selection or scroll the message, and `h`, `l`, `0` scroll the list sideways; while
/// searching, `Esc` and `Enter` end the search, `Tab` cycles the scope, and `Backspace` and
/// characters edit the query, each of these three asking for a new search.
pub open spec fn selector_key(u: SelectorUi, rows: Seq<SessionRowView>, k: KeyPress) -> (SelectorUi, SelectorActionView) {
    let n = rows.len() as int;
    let key = k.key;
    let cont = SelectorActionView::Continue;
    if is_ctrl_c(k) {
        (u, SelectorActionView::Quit)
    } else if u.show_help {
        if key == Key::Esc || key == Key::Char('?') {
            (SelectorUi { show_help: false, ..u }, cont)
        } else if key == Key::Char('q') {
            (u, SelectorActionView::Quit)
        } else {
            (u, cont)
        }
    } else if u.mode == Mode::Normal {
        if key == Key::Char('q') || key == Key::Esc {
            (u, SelectorActionView::Quit)
        } else if key == Key::Enter {
            match selected_row(u, rows) {
                Some(row) => (u, SelectorActionView::OpenReplay(row.path)),
                None => (u, cont),
            }
        } else if key == Key::Char('e') && k.no_modifiers {
            (SelectorUi { exec_visibility: toggled(u.exec_visibility), status: None, ..u }, cont)
        } else if key == Key::Char('/') {
            (SelectorUi { mode: Mode::Search, ..u }, cont)
        } else if key == Key::Char('?') {
            (SelectorUi { show_help: true, ..u }, cont)
        } else if key == Key::Char('y') {
            match selected_row(u, rows) {
                Some(row) => match resume_for(row) {
                    Some(c) => (u, SelectorActionView::CopyResume(c)),
                    None => (SelectorUi { status: Some("selected session has no id"@), ..u }, cont),
                },
                None => (SelectorUi { status: Some("selected session has no id"@), ..u }, cont),
            }
        } else if key == Key::Tab {
            (
                SelectorUi {
                    focus: if u.focus == PaneFocus::Sessions {
                        PaneFocus::Message
                    } else {
                        PaneFocus::Sessions
                    },
                    ..u
                },
                cont,
            )
        } else if key == Key::Char('j') || key == Key::Down {
            if u.focus == PaneFocus::Sessions {
                (move_next(u, n), cont)
            } else {
                (SelectorUi { message_scroll: u.message_scroll.saturating_add(1), ..u }, cont)
            }
        } else if key == Key::Char('k') || key == Key::Up {
            if u.focus == PaneFocus::Sessions {
                (move_previous(u, n), cont)
            } else {
                (SelectorUi { message_scroll: u.message_scroll.saturating_sub(1), ..u }, cont)
            }
        } else if key == Key::Char('d') || key == Key::PageDown {
            if u.focus == PaneFocus::Sessions {
                (moved(u, n, true, 10), cont)
            } else {
                (SelectorUi { message_scroll: u.message_scroll.saturating_add(10), ..u }, cont)
            }
        } else if key == Key::Char('u') || key == Key::PageUp {
            if u.focus == PaneFocus::Sessions {
                (moved(u, n, false, 10), cont)
            } else {
                (SelectorUi { message_scroll: u.message_scroll.saturating_sub(10), ..u }, cont)
            }
        } else if key == Key::Char('g') || key == Key::Home {
            if u.focus == PaneFocus::Sessions {
                if n > 0 {
                    (SelectorUi { selected: Some(0), message_scroll: 0, ..u }, cont)
                } else {
                    (u, cont)
                }
            } else {
                (SelectorUi { message_scroll: 0, ..u }, cont)
            }
        } else if key == Key::Char('G') || key == Key::End {
            if u.focus == PaneFocus::Sessions {
                if n > 0 {
                    (SelectorUi { selected: Some((n - 1) as usize), message_scroll: 0, ..u }, cont)
                } else {
                    (u, cont)
                }
            } else {
                (SelectorUi { message_scroll: u16::MAX, ..u }, cont)
            }
        } else if key == Key::Char('h') || key == Key::Left {
            (SelectorUi { metadata_scroll: u.metadata_scroll.saturating_sub(4), ..u }, cont)
        } else if key == Key::Char('l') || key == Key::Right {
            (SelectorUi { metadata_scroll: u.metadata_scroll.saturating_add(4), ..u }, cont)
        } else if key == Key::Char('0') {
            (SelectorUi { metadata_scroll: 0, ..u }, cont)
        } else {
            (u, cont)
        }
    } else {
        if key == Key::Esc || key == Key::Enter {
            (SelectorUi { mode: Mode::Normal, ..u }, cont)
        } else if key == Key::Tab {
            (SelectorUi { search_scope: next_scope(u.search_scope), ..u }, SelectorActionView::Search)
        } else if key == Key::Backspace {
            (
                SelectorUi {
                    query: if u.query.len() > 0 {
                        u.query.drop_last()
                    } else {
                        u.query
                    },
                    ..u
                },
                SelectorActionView::Search,
            )
        } else {
            match key {
                Key::Char(c) => (SelectorUi { query: u.query.push(c), ..u }, SelectorActionView::Search),
                _ => (u, cont),
            }
        }
    }
}

/// What a finished search did: on success the rows replace the list, the first one selected and
/// the message scrolled to the top, and the status clears; on failure only the status changes.
pub open spec fn after_search(u: SelectorUi, outcome: Result<Seq<SessionRowView>, Seq<char>>) -> SelectorUi {
    match outcome {
        Ok(rows) => SelectorUi {
            selected: if rows.len() > 0 {
                Some(0usize)
            } else {
                None
            },
            message_scroll: 0,
            status: None,
            ..u
        },
        Err(m) => SelectorUi { status: Some(m), ..u },
    }
}

/// Why a search failed, as the selector reports it.
#[derive(Debug, Clone, PartialEq, Eq)]
pub enum SearchFailure {
    Query(QueryError),
    /// The index is corrupt; the error's message.
    Corrupt(String),
    /// Any other failure; the error's message.
    Other(String),
}

/// The status line for a failed search.
pub open spec fn search_failure_text(f: SearchFailure) -> Seq<char> {
    match f {
        SearchFailure::Query(e) => "search query error: "@ + error_message(e),
        SearchFailure::Corrupt(m) => "search failed: "@ + m@ + "; run `select-codex-session index --rebuild`"@,
        SearchFailure::Other(m) => "search failed: "@ + m@ + "; refresh or rebuild the index"@,
    }
}

/// The status line for a failed search (see [`search_failure_text`]).
pub fn format_search_error(f: &SearchFailure) -> (r: String)
    ensures
        r@ == search_failure_text(*f),
{
    match f {
        SearchFailure::Query(e) => {
            let mut out = String::from_str("search query error: ");
            out.append(e.message());
            out
        },
        SearchFailure::Corrupt(m) => {
            let mut out = String::from_str("search failed: ");
            out.append(m.as_str());
            out.append("; run `select-codex-session index --rebuild`");
            out
        },
        SearchFailure::Other(m) => {
            let mut out = String::from_str("search failed: ");
            out.append(m.as_str());
            out.append("; refresh or rebuild the index");
            out
        },
    }
}

impl SelectorApp {
    /// A selector over the rows of an empty search, the first one selected where there is one.
    pub fn new(rows: Vec<SessionRow>, exec_visibility: ExecVisibility) -> (r: SelectorApp)
        ensures
            r.filtered@ == rows@,
            r.ui() == (SelectorUi {
                total_rows: rows@.len() as usize,
                selected: if rows@.len() > 0 {
                    Some(0usize)
                } else {
                    None
                },
                query: Seq::empty(),
                search_scope: SearchScope::All,
                mode: Mode::Normal,
                focus: PaneFocus::Sessions,
                metadata_scroll: 0,
                message_scroll: 0,
                show_help: false,
                exec_visibility,
                status: None,
            }),
    {
        let total_rows = rows.len();
        let selected = if rows.len() > 0 {
            Some(0)
        } else {
            None
        };
        SelectorApp {
            total_rows,
            filtered: rows,
            selected,
            query: String::new(),
            search_scope: SearchScope::All,
            mode: Mode::Normal,
            focus: PaneFocus::Sessions,
            metadata_scroll: 0,
            message_scroll: 0,
            show_help: false,
            exec_visibility,
            status: None,
        }
    }

    /// Whether no row is listed.
    pub fn is_empty(&self) -> (b: bool)
        ensures
            b == (self.filtered@.len() == 0),
    {
        self.filtered.len() == 0
    }

    /// The selected row, where the selection is within the rows.
    pub fn selected_row(&self) -> (r: Option<&SessionRow>)
        ensures
            match r {
                Some(row) => selected_row(self.ui(), rows_view(self.filtered@)) == Some(row@),
                None => selected_row(self.ui(), rows_view(self.filtered@)) is None,
            },
    {
        match self.selected {
            Some(i) => if i < self.filtered.len() {
                Some(&self.filtered[i])
            } else {
                None
            },
            None => None,
        }
    }

    /// Moves the selection down, wrapping to the first row.
    pub fn move_next(&mut self)
        ensures
            final(self).filtered@ == old(self).filtered@,
            final(self).ui() == move_next(old(self).ui(), old(self).filtered@.len() as int),
    {
        if self.filtered.len() == 0 {
            return;
        }
        let next = match self.selected {
            Some(i) => if i < self.filtered.len() - 1 {
                i + 1
            } else {
                0
            },
            None => 0,
        };
        self.selected = Some(next);
        self.message_scroll = 0;
    }

    /// Moves the selection up, wrapping to the last row.
    pub fn move_previous(&mut self)
        ensures
            final(self).filtered@ == old(self).filtered@,
            final(self).ui() == move_previous(old(self).ui(), old(self).filtered@.len() as int),
    {
        if self.filtered.len() == 0 {
            return;
        }
        let previous = match self.selected {
            Some(i) => if i == 0 {
                self.filtered.len() - 1
            } else {
                i - 1
            },
            None => self.filtered.len() - 1,
        };
        self.selected = Some(previous);
        self.message_scroll = 0;
    }

    /// Moves the selection `amount` rows (at least one) down or up, one row at a time.
    pub fn page(&mut self, down: bool, amount: usize)
        ensures
            final(self).filtered@ == old(self).filtered@,
            final(self).ui() == moved(
                old(self).ui(),
                old(self).filtered@.len() as int,
                down,
                if amount >= 1 {
                    amount as nat
                } else {
                    1
                },
            ),
    {
        let times: usize = if amount >= 1 {
            amount
        } else {
            1
        };
        let ghost start = self.ui();
        let ghost n = self.filtered@.len() as int;
        let mut t: usize = 0;
        while t < times
            invariant
                t <= times,
                self.filtered@ == old(self).filtered@,
                n == self.filtered@.len(),
                start == old(self).ui(),
                self.ui() == moved(start, n, down, t as nat),
            decreases times - t,
        {
            if down {
                self.move_next();
            } else {
                self.move_previous();
            }
            t = t + 1;
        }
    }

    /// Records a finished search: its rows, or the status line of its failure.
    pub fn apply_search(&mut self, outcome: Result<Vec<SessionRow>, String>)
        ensures
            final(self).ui() == after_search(
                old(self).ui(),
                match outcome {
                    Ok(rows) => Ok(rows_view(rows@)),
                    Err(m) => Err(m@),
                },
            ),
            match outcome {
                Ok(rows) => final(self).filtered@ == rows@,
                Err(_) => final(self).filtered@ == old(self).filtered@,
            },
    {
        match outcome {
            Ok(rows) => {
                self.selected = if rows.len() > 0 {
                    Some(0)
                } else {
                    None
                };
                self.filtered = rows;
                self.message_scroll = 0;
                self.status = None;
            },
            Err(m) => {
                self.status = Some(m);
            },
        }
    }

    /// Records the outcome of copying a resume command: success, or the clipboard's error
    /// message.
    pub fn copy_finished(&mut self, command: &str, outcome: Result<(), String>)
        ensures
            final(self).filtered@ == old(self).filtered@,
            final(self).ui() == (SelectorUi {
                status: Some(
                    match outcome {
                        Ok(()) => "copied: "@ + command@,
                        Err(m) => "clipboard copy failed: "@ + m@,
                    },
                ),
                ..old(self).ui()
            }),
    {
        self.status = Some(
            match outcome {
                Ok(()) => {
                    let mut out = String::from_str("copied: ");
                    out.append(command);
                    out
                },
                Err(m) => {
                    let mut out = String::from_str("clipboard copy failed: ");
                    out.append(m.as_str());
                    out
                },
            },
        );
    }

    /// Sets the exec visibility (after a replay that may have changed it).
    pub fn set_exec_visibility(&mut self, visibility: ExecVisibility)
        ensures
            final(self).filtered@ == old(self).filtered@,
            final(self).ui() == (SelectorUi { exec_visibility: visibility, ..old(self).ui() }),
    {
        self.exec_visibility = visibility;
    }

    /// Sets or clears the status line.
    pub fn set_status(&mut self, status: Option<String>)
        ensures
            final(self).filtered@ == old(self).filtered@,
            final(self).ui() == (SelectorUi { status: opt_view(status), ..old(self).ui() }),
    {
        self.status = status;
    }

    /// Applies a key press (see [`selector_key`]); what it asks of the caller is returned.
    pub fn handle_key(&mut self, k: KeyPress) -> (r: Option<SelectorAction>)
        ensures
            final(self).filtered@ == old(self).filtered@,
            (final(self).ui(), selector_action_view(r)) == selector_key(
                old(self).ui(),
                rows_view(old(self).filtered@),
                k,
            ),
    {
        let key = k.key;
        if key == Key::Char('c') && k.ctrl {
            return Some(SelectorAction::Quit);
        }
        if self.show_help {
            if key == Key::Esc || key == Key::Char('?') {
                self.show_help = false;
            } else if key == Key::Char('q') {
                return Some(SelectorAction::Quit);
            }
            return None;
        }
        if self.mode == Mode::Search {
            if key == Key::Esc || key == Key::Enter {
                self.mode = Mode::Normal;
                return None;
            }
            if key == Key::Tab {
                self.search_scope = self.search_scope.next();
                return Some(SelectorAction::Search);
            }
            if key == Key::Backspace {
                let cs = chars_of(self.query.as_str());
                if cs.len() > 0 {
                    let kept = crate::text::copy_range(&cs, 0, cs.len() - 1);
                    assert(kept@ =~= self.query@.drop_last());
                    self.query = string_of(&kept);
                }
                return Some(SelectorAction::Search);
            }
            match key {
                Key::Char(c) => {
                    let added: Vec<char> = vec![c];
                    let tail = string_of(&added);
                    let ghost before = self.query@;
                    self.query.append(tail.as_str());
                    assert(self.query@ =~= before.push(c));
                    return Some(SelectorAction::Search);
                },
                _ => {},
            }
            return None;
        }
        if key == Key::Char('q') || key == Key::Esc {
            return Some(SelectorAction::Quit);
        }
        if key == Key::Enter {
            return match self.selected_row() {
                Some(row) => Some(SelectorAction::OpenReplay(row.path.clone())),
                None => None,
            };
        }
        if key == Key::Char('e') && k.no_modifiers {
            self.exec_visibility.toggle();
            self.status = None;
            return None;
        }
        if key == Key::Char('/') {
            self.mode = Mode::Search;
            return None;
        }
        if key == Key::Char('?') {
            self.show_help = true;
            return None;
        }
        if key == Key::Char('y') {
            let command = match self.selected_row() {
                Some(row) => resume_command(row),
                None => None,
            };
            match command {
                Some(c) => return Some(SelectorAction::CopyResume(c)),
                None => {
                    self.status = Some(String::from_str("selected session has no id"));
                    return None;
                },
            }
        }
        if key == Key::Tab {
            self.focus = if self.focus == PaneFocus::Sessions {
                PaneFocus::Message
            } else {
                PaneFocus::Sessions
            };
            return None;
        }
        let on_sessions = self.focus == PaneFocus::Sessions;
        if key == Key::Char('j') || key == Key::Down {
            if on_sessions {
                self.move_next();
            } else {
                self.message_scroll = self.message_scroll.saturating_add(1);
            }
            return None;
        }
        if key == Key::Char('k') || key == Key::Up {
            if on_sessions {
                self.move_previous();
            } else {
                self.message_scroll = self.message_scroll.saturating_sub(1);
            }
            return None;
        }
        if key == Key::Char('d') || key == Key::PageDown {
            if on_sessions {
                self.page(true, 10);
            } else {
                self.message_scroll = self.message_scroll.saturating_add(10);
            }
            return None;
        }
        if key == Key::Char('u') || key == Key::PageUp {
            if on_sessions {
                self.page(false, 10);
            } else {
                self.message_scroll = self.message_scroll.saturating_sub(10);
            }
            return None;
        }
        if key == Key::Char('g') || key == Key::Home {
            if on_sessions {
                if self.filtered.len() > 0 {
                    self.selected = Some(0);
                    self.message_scroll = 0;
                }
            } else {
                self.message_scroll = 0;
            }
            return None;
        }
        if key == Key::Char('G') || key == Key::End {
            if on_sessions {
                if self.filtered.len() > 0 {
                    self.selected = Some(self.filtered.len() - 1);
                    self.message_scroll = 0;
                }
            } else {
                self.message_scroll = 65535;
            }
            return None;
        }
        if key == Key::Char('h') || key == Key::Left {
            self.metadata_scroll = self.metadata_scroll.saturating_sub(4);
            return None;
        }
        if key == Key::Char('l') || key == Key::Right {
            self.metadata_scroll = self.metadata_scroll.saturating_add(4);
            return None;
        }
        if key == Key::Char('0') {
            self.metadata_scroll = 0;
        }
        None
    }
}


proof fn lemma_moves_keep_selection(u: SelectorUi, n: int, down: bool, times: nat)
    requires
        selection_fits(u.selected, n),
    ensures
        selection_fits(moved(u, n, down, times).selected, n),
    decreases times,
{
    if times > 0 {
        lemma_moves_keep_selection(u, n, down, (times - 1) as nat);
    }
}

/// Whatever key is pressed, the selection stays within the rows: a row is selected exactly
/// where there is one.
pub proof fn lemma_key_keeps_selection(u: SelectorUi, rows: Seq<SessionRowView>, k: KeyPress)
    requires
        selection_fits(u.selected, rows.len() as int),
    ensures
        selection_fits(selector_key(u, rows, k).0.selected, rows.len() as int),
{
    let n = rows.len() as int;
    lemma_moves_keep_selection(u, n, true, 10);
    lemma_moves_keep_selection(u, n, false, 10);
}

/// A finished search leaves the selection within the rows shown after it: the new rows where
/// it succeeded, the earlier ones where it failed.
pub proof fn lemma_search_keeps_selection(u: SelectorUi, n: int, outcome: Result<Seq<SessionRowView>, Seq<char>>)
    requires
        selection_fits(u.selected, n),
    ensures
        selection_fits(
            after_search(u, outcome).selected,
            match outcome {
                Ok(rows) => rows.len() as int,
                Err(_) => n,
            },
        ),
{
}


/// A failed search changes only the status line: the rows, the selection, the query and the
/// rest of the view stay as they were.
pub proof fn lemma_failed_search_keeps_view(u: SelectorUi, message: Seq<char>)
    ensures
        after_search(u, Err(message)) == (SelectorUi { status: Some(message), ..u }),
{
}

/// `e` without modifiers toggles exec entries in the normal view, clearing the status and
/// changing nothing else; while searching it is typed into the query; over help it does
/// nothing.
pub proof fn lemma_exec_toggle(u: SelectorUi, rows: Seq<SessionRowView>, k: KeyPress)
    requires
        k.key == Key::Char('e'),
        k.no_modifiers,
    ensures
        !u.show_help && u.mode == Mode::Normal ==> selector_key(u, rows, k) == (
            SelectorUi { exec_visibility: toggled(u.exec_visibility), status: None, ..u },
            SelectorActionView::Continue,
        ),
        !u.show_help && u.mode == Mode::Search ==> selector_key(u, rows, k) == (
            SelectorUi { query: u.query.push('e'), ..u },
            SelectorActionView::Search,
        ),
        u.show_help ==> selector_key(u, rows, k) == (u, SelectorActionView::Continue),
{
}

/// What the selector's keys ask for over a selected session in the normal view: Enter asks to
/// replay that session's log, `y` asks to copy `codex resume` and the session's id where it has
/// a non-blank one, and `q` and Esc ask to quit; none of them changes the selection. Control-C
/// asks to quit in every state.
pub proof fn lemma_selector_requests(u: SelectorUi, rows: Seq<SessionRowView>, k: KeyPress)
    ensures
        is_ctrl_c(k) ==> selector_key(u, rows, k) == (u, SelectorActionView::Quit),
        !u.show_help && u.mode == Mode::Normal && (u.selected matches Some(i) && i < rows.len()) ==> {
            let row = rows[u.selected->0 as int];
            &&& k.key == Key::Enter ==> selector_key(u, rows, k) == (u, SelectorActionView::OpenReplay(row.path))
            &&& (k.key == Key::Char('y') && (row.id matches Some(id) && !all_white(id))) ==> selector_key(
                u,
                rows,
                k,
            ) == (u, SelectorActionView::CopyResume("codex resume "@ + row.id->0))
            &&& (k.key == Key::Char('q') || k.key == Key::Esc) ==> selector_key(u, rows, k) == (
                u,
                SelectorActionView::Quit,
            )
        },
{
}

/// Keys that move to the ends of the list of sessions: in the normal view with the sessions
/// pane focused over a non-empty list, `G` or End selects the last session and `g` or Home the
/// first, each showing its message from the top and asking for nothing; over an empty list
/// they change nothing.
pub proof fn lemma_selector_end_keys(u: SelectorUi, rows: Seq<SessionRowView>, k: KeyPress)
    requires
        !u.show_help,
        u.mode == Mode::Normal,
        u.focus == PaneFocus::Sessions,
        rows.len() <= usize::MAX,
    ensures
        (k.key == Key::Char('G') || k.key == Key::End) && rows.len() > 0 ==> {
            let v = selector_key(u, rows, k).0;
            &&& v.selected matches Some(i) && i == rows.len() - 1
            &&& selected_row(v, rows) == Some(rows.last())
            &&& v.message_scroll == 0
            &&& selector_key(u, rows, k).1 == SelectorActionView::Continue
        },
        (k.key == Key::Char('g') || k.key == Key::Home) && rows.len() > 0 ==> {
            let v = selector_key(u, rows, k).0;
            &&& v.selected == Some(0usize)
            &&& selected_row(v, rows) == Some(rows[0])
            &&& v.message_scroll == 0
            &&& selector_key(u, rows, k).1 == SelectorActionView::Continue
        },
        (k.key == Key::Char('G') || k.key == Key::End || k.key == Key::Char('g') || k.key == Key::Home)
            && rows.len() == 0 ==> selector_key(u, rows, k) == (u, SelectorActionView::Continue),
{
}

/// Moving through the sessions one at a time: in the normal view with the sessions pane
/// focused over a selected session, a move down (`j` or Down) and then a move up (`k` or Up)
/// come back to it, and so do a move up and then a move down; from the last session a move
/// down wraps to the first, and from the first a move up wraps to the last.
pub proof fn lemma_selector_steps(u: SelectorUi, rows: Seq<SessionRowView>, down: KeyPress, up: KeyPress)
    requires
        !u.show_help,
        u.mode == Mode::Normal,
        u.focus == PaneFocus::Sessions,
        rows.len() <= usize::MAX,
        u.selected matches Some(i) && i < rows.len(),
        down.key == Key::Char('j') || down.key == Key::Down,
        up.key == Key::Char('k') || up.key == Key::Up,
    ensures
        selector_key(selector_key(u, rows, down).0, rows, up).0.selected == u.selected,
        selector_key(selector_key(u, rows, up).0, rows, down).0.selected == u.selected,
        u.selected == Some((rows.len() - 1) as usize) ==> selector_key(u, rows, down).0.selected == Some(0usize),
        u.selected == Some(0usize) ==> (selector_key(u, rows, up).0.selected matches Some(j) && j == rows.len() - 1),
{
}

} // verus!

