//! The stand-alone selector's state and what each key press does to it. It searches the rows it
//! loaded, in memory, by scope; copying to the clipboard is left to the caller, which reports
//! the outcome back.

use vstd::prelude::*;

use crate::legacy::{filter_sessions_by_scope, legacy_next, scope_matching_rows, LegacyScope};
use crate::listing::{resume_command, resume_for};
use crate::selector::{Mode, PaneFocus};
use crate::session::{copy_row, query_terms, SessionRow};
use crate::text::{chars_of, opt_view, string_of};
use crate::ui_state::{is_ctrl_c, selection_fits, Key, KeyPress};

verus! {

/// What a key press asks of the program running the stand-alone selector.
#[derive(Debug, Clone, PartialEq, Eq)]
pub enum LegacyAction {
    Quit,
    /// Replay the session log at this path.
    Replay(String),
    /// Copy this resume command to the clipboard, then report the outcome with
    /// `copy_finished`.
    CopyResume(String),
}

/// A legacy action as a mathematical value.
pub enum LegacyActionView {
    Continue,
    Quit,
    Replay(Seq<char>),
    CopyResume(Seq<char>),
}

/// The view of a legacy action.
pub open spec fn legacy_action_view(a: Option<LegacyAction>) -> LegacyActionView {
    match a {
        None => LegacyActionView::Continue,
        Some(LegacyAction::Quit) => LegacyActionView::Quit,
        Some(LegacyAction::Replay(p)) => LegacyActionView::Replay(p@),
        Some(LegacyAction::CopyResume(c)) => LegacyActionView::CopyResume(c@),
    }
}

/// The stand-alone selector's state: all loaded rows, the rows its search shows, and the view.
#[derive(Debug, Clone)]
pub struct LegacyApp {
    pub rows: Vec<SessionRow>,
    pub filtered: Vec<SessionRow>,
    pub selected: Option<usize>,
    pub query: String,
    pub search_scope: LegacyScope,
    pub mode: Mode,
    pub focus: PaneFocus,
    pub metadata_scroll: usize,
    pub message_scroll: u16,
    pub show_help: bool,
    pub status: Option<String>,
}

/// The state of the view, apart from the rows.
pub struct LegacyUi {
    pub selected: Option<usize>,
    pub query: Seq<char>,
    pub search_scope: LegacyScope,
    pub mode: Mode,
    pub focus: PaneFocus,
    pub metadata_scroll: usize,
    pub message_scroll: u16,
    pub show_help: bool,
    pub status: Option<Seq<char>>,
}

impl LegacyApp {
    /// The state of the view, apart from the rows.
    pub open spec fn ui(&self) -> LegacyUi {
        LegacyUi {
            selected: self.selected,
            query: self.query@,
            search_scope: self.search_scope,
            mode: self.mode,
            focus: self.focus,
            metadata_scroll: self.metadata_scroll,
            message_scroll: self.message_scroll,
            show_help: self.show_help,
            status: opt_view(self.status),
        }
    }
}

/// The selection after moving down, wrapping to the first row; the message scrolls to the top.
pub open spec fn legacy_next_row(u: LegacyUi, n: int) -> LegacyUi {
    if n == 0 {
        u
    } else {
        let next: usize = if u.selected is Some && u.selected->0 + 1 < n {
            (u.selected->0 + 1) as usize
        } else {
            0
        };
        LegacyUi { selected: Some(next), message_scroll: 0, ..u }
    }
}

/// The selection after moving up, wrapping to the last row; the message scrolls to the top.
pub open spec fn legacy_previous_row(u: LegacyUi, n: int) -> LegacyUi {
    if n == 0 {
        u
    } else {
        let previous: usize = if u.selected is None || u.selected->0 == 0 {
            (n - 1) as usize
        } else {
            (u.selected->0 - 1) as usize
        };
        LegacyUi { selected: Some(previous), message_scroll: 0, ..u }
    }
}

/// The view after `times` moves down (`down`) or up.
pub open spec fn legacy_moved(u: LegacyUi, n: int, down: bool, times: nat) -> LegacyUi
    decreases times,
{
    if times == 0 {
        u
    } else {
        let v = legacy_moved(u, n, down, (times - 1) as nat);
        if down {
            legacy_next_row(v, n)
        } else {
            legacy_previous_row(v, n)
        }
    }
}

/// The row at the selection, where the selection is within the shown rows.
pub open spec fn legacy_selected(u: LegacyUi, filtered: Seq<SessionRow>) -> Option<SessionRow> {
    match u.selected {
        Some(i) => if i < filtered.len() {
            Some(filtered[i as int])
        } else {
            None
        },
        None => None,
    }
}

/// The rows a query shows in a scope.
pub open spec fn legacy_filter(rows: Seq<SessionRow>, query: Seq<char>, scope: LegacyScope) -> Seq<SessionRow> {
    scope_matching_rows(rows, query_terms(query), scope)
}

/// The view and shown rows after the query or scope changed: the rows are filtered anew, the
/// message scrolls to the top, and the first row is selected where there is one.
pub open spec fn legacy_refreshed(u: LegacyUi, rows: Seq<SessionRow>) -> (LegacyUi, Seq<SessionRow>) {
    let shown = legacy_filter(rows, u.query, u.search_scope);
    (
        LegacyUi {
            selected: if shown.len() == 0 {
                None
            } else {
                Some(0usize)
            },
            message_scroll: 0,
            ..u
        },
        shown,
    )
}

/// The stand-alone selector after a key press: its view, its shown rows, and what the key asks
/// for. Control-C quits in either mode. In normal mode `q` and `Esc` quit, `Enter` replays the
/// selected session, `/` starts a search, `?` toggles help, `y` copies the resume command,
/// `Tab` switches focus, movement keys move the selection or scroll the message, and `h`, `l`,
/// `0` scroll the list sideways. While searching, `Esc` and `Enter` end the search, `Tab`
/// cycles the scope, and `Backspace` and characters edit the query; these three filter the
/// rows anew.
pub open spec fn legacy_key(u: LegacyUi, rows: Seq<SessionRow>, filtered: Seq<SessionRow>, k: KeyPress) -> (
    LegacyUi,
    Seq<SessionRow>,
    LegacyActionView,
) {
    let n = filtered.len() as int;
    let key = k.key;
    let cont = LegacyActionView::Continue;
    if is_ctrl_c(k) {
        (u, filtered, LegacyActionView::Quit)
    } else if u.mode == Mode::Search {
        if key == Key::Esc || key == Key::Enter {
            (LegacyUi { mode: Mode::Normal, ..u }, filtered, cont)
        } else if key == Key::Tab {
            let r = legacy_refreshed(LegacyUi { search_scope: legacy_next(u.search_scope), ..u }, rows);
            (r.0, r.1, cont)
        } else if key == Key::Backspace {
            let q = if u.query.len() > 0 {
                u.query.drop_last()
            } else {
                u.query
            };
            let r = legacy_refreshed(LegacyUi { query: q, ..u }, rows);
            (r.0, r.1, cont)
        } else {
            match key {
                Key::Char(c) => {
                    let r = legacy_refreshed(LegacyUi { query: u.query.push(c), ..u }, rows);
                    (r.0, r.1, cont)
                },
                _ => (u, filtered, cont),
            }
        }
    } else if key == Key::Char('q') || key == Key::Esc {
        (u, filtered, LegacyActionView::Quit)
    } else if key == Key::Enter {
        match legacy_selected(u, filtered) {
            Some(row) => (u, filtered, LegacyActionView::Replay(row.path@)),
            None => (u, filtered, cont),
        }
    } else if key == Key::Char('/') {
        (LegacyUi { mode: Mode::Search, ..u }, filtered, cont)
    } else if key == Key::Char('?') {
        (LegacyUi { show_help: !u.show_help, ..u }, filtered, cont)
    } else if key == Key::Char('y') {
        match legacy_selected(u, filtered) {
            Some(row) => match resume_for(row@) {
                Some(c) => (u, filtered, LegacyActionView::CopyResume(c)),
                None => (LegacyUi { status: Some("selected session has no id"@), ..u }, filtered, cont),
            },
            None => (LegacyUi { status: Some("selected session has no id"@), ..u }, filtered, cont),
        }
    } else if key == Key::Tab {
        (
            LegacyUi {
                focus: if u.focus == PaneFocus::Sessions {
                    PaneFocus::Message
                } else {
                    PaneFocus::Sessions
                },
                ..u
            },
            filtered,
            cont,
        )
    } else if key == Key::Char('j') || key == Key::Down {
        if u.focus == PaneFocus::Sessions {
            (legacy_next_row(u, n), filtered, cont)
        } else {
            (LegacyUi { message_scroll: u.message_scroll.saturating_add(1), ..u }, filtered, cont)
        }
    } else if key == Key::Char('k') || key == Key::Up {
        if u.focus == PaneFocus::Sessions {
            (legacy_previous_row(u, n), filtered, cont)
        } else {
            (LegacyUi { message_scroll: u.message_scroll.saturating_sub(1), ..u }, filtered, cont)
        }
    } else if key == Key::Char('d') || key == Key::PageDown {
        if u.focus == PaneFocus::Sessions {
            (legacy_moved(u, n, true, 10), filtered, cont)
        } else {
            (LegacyUi { message_scroll: u.message_scroll.saturating_add(10), ..u }, filtered, cont)
        }
    } else if key == Key::Char('u') || key == Key::PageUp {
        if u.focus == PaneFocus::Sessions {
            (legacy_moved(u, n, false, 10), filtered, cont)
        } else {
            (LegacyUi { message_scroll: u.message_scroll.saturating_sub(10), ..u }, filtered, cont)
        }
    } else if key == Key::Char('g') || key == Key::Home {
        if u.focus == PaneFocus::Sessions {
            if n > 0 {
                (LegacyUi { selected: Some(0), message_scroll: 0, ..u }, filtered, cont)
            } else {
                (u, filtered, cont)
            }
        } else {
            (LegacyUi { message_scroll: 0, ..u }, filtered, cont)
        }
    } else if key == Key::Char('G') || key == Key::End {
        if u.focus == PaneFocus::Sessions {
            if n > 0 {
                (LegacyUi { selected: Some((n - 1) as usize), message_scroll: 0, ..u }, filtered, cont)
            } else {
                (u, filtered, cont)
            }
        } else {
            (LegacyUi { message_scroll: u16::MAX, ..u }, filtered, cont)
        }
    } else if key == Key::Char('h') || key == Key::Left {
        (LegacyUi { metadata_scroll: u.metadata_scroll.saturating_sub(4), ..u }, filtered, cont)
    } else if key == Key::Char('l') || key == Key::Right {
        (LegacyUi { metadata_scroll: u.metadata_scroll.saturating_add(4), ..u }, filtered, cont)
    } else if key == Key::Char('0') {
        (LegacyUi { metadata_scroll: 0, ..u }, filtered, cont)
    } else {
        (u, filtered, cont)
    }
}

/// A copy of some rows.
fn copy_rows(rows: &Vec<SessionRow>) -> (r: Vec<SessionRow>)
    ensures
        r@ == rows@,
{
    let mut out: Vec<SessionRow> = Vec::new();
    let mut i: usize = 0;
    while i < rows.len()
        invariant
            i <= rows@.len(),
            out@ == rows@.take(i as int),
        decreases rows.len() - i,
    {
        out.push(copy_row(&rows[i]));
        assert(rows@.take(i + 1) =~= rows@.take(i as int).push(rows@[i as int]));
        i = i + 1;
    }
    assert(rows@.take(rows@.len() as int) =~= rows@);
    out
}

impl LegacyApp {
    /// The stand-alone selector over the loaded rows, all shown, the first one selected.
    pub fn new(rows: Vec<SessionRow>) -> (r: LegacyApp)
        ensures
            r.rows@ == rows@,
            r.filtered@ == rows@,
            r.ui() == (LegacyUi {
                selected: Some(0usize),
                query: Seq::empty(),
                search_scope: LegacyScope::All,
                mode: Mode::Normal,
                focus: PaneFocus::Sessions,
                metadata_scroll: 0,
                message_scroll: 0,
                show_help: false,
                status: None,
            }),
    {
        let filtered = copy_rows(&rows);
        LegacyApp {
            rows,
            filtered,
            selected: Some(0),
            query: String::new(),
            search_scope: LegacyScope::All,
            mode: Mode::Normal,
            focus: PaneFocus::Sessions,
            metadata_scroll: 0,
            message_scroll: 0,
            show_help: false,
            status: None,
        }
    }

    /// The selected row, where the selection is within the shown rows.
    pub fn selected_row(&self) -> (r: Option<&SessionRow>)
        ensures
            match r {
                Some(row) => legacy_selected(self.ui(), self.filtered@) == Some(*row),
                None => legacy_selected(self.ui(), self.filtered@) is None,
            },
    {
        match self.selected {
            Some(i) => if i < self.filtered.len() {
                Some(&self.filtered[i])
            } else {
                None
            },
            None => None,
        }
    }

    fn step(&mut self, down: bool)
        ensures
            final(self).rows@ == old(self).rows@,
            final(self).filtered@ == old(self).filtered@,
            final(self).ui() == (if down {
                legacy_next_row(old(self).ui(), old(self).filtered@.len() as int)
            } else {
                legacy_previous_row(old(self).ui(), old(self).filtered@.len() as int)
            }),
    {
        let n = self.filtered.len();
        if n == 0 {
            return;
        }
        let next = if down {
            match self.selected {
                Some(i) => if i < n - 1 {
                    i + 1
                } else {
                    0
                },
                None => 0,
            }
        } else {
            match self.selected {
                Some(i) => if i == 0 {
                    n - 1
                } else {
                    i - 1
                },
                None => n - 1,
            }
        };
        self.selected = Some(next);
        self.message_scroll = 0;
    }

    fn steps(&mut self, down: bool, times: usize)
        ensures
            final(self).rows@ == old(self).rows@,
            final(self).filtered@ == old(self).filtered@,
            final(self).ui() == legacy_moved(old(self).ui(), old(self).filtered@.len() as int, down, times as nat),
    {
        let ghost start = self.ui();
        let ghost n = self.filtered@.len() as int;
        let mut t: usize = 0;
        while t < times
            invariant
                t <= times,
                self.rows@ == old(self).rows@,
                self.filtered@ == old(self).filtered@,
                n == self.filtered@.len(),
                start == old(self).ui(),
                self.ui() == legacy_moved(start, n, down, t as nat),
            decreases times - t,
        {
            self.step(down);
            t = t + 1;
        }
    }

    /// Filters the rows anew for the query and scope (see [`legacy_refreshed`]).
    fn refresh_filter(&mut self)
        ensures
            final(self).rows@ == old(self).rows@,
            (final(self).ui(), final(self).filtered@) == legacy_refreshed(old(self).ui(), old(self).rows@),
    {
        self.filtered = filter_sessions_by_scope(self.rows.as_slice(), self.query.as_str(), self.search_scope);
        self.message_scroll = 0;
        self.selected = if self.filtered.len() == 0 {
            None
        } else {
            Some(0)
        };
    }

    /// Records the outcome of copying a resume command: success, or the clipboard's error
    /// message.
    pub fn copy_finished(&mut self, command: &str, outcome: Result<(), String>)
        ensures
            final(self).rows@ == old(self).rows@,
            final(self).filtered@ == old(self).filtered@,
            final(self).ui() == (LegacyUi {
                status: Some(
                    match outcome {
                        Ok(()) => "copied: "@ + command@,
                        Err(m) => "clipboard copy failed: "@ + m@,
                    },
                ),
                ..old(self).ui()
            }),
    {
        self.status = Some(
            match outcome {
                Ok(()) => {
                    let mut out = String::from_str("copied: ");
                    out.append(command);
                    out
                },
                Err(m) => {
                    let mut out = String::from_str("clipboard copy failed: ");
                    out.append(m.as_str());
                    out
                },
            },
        );
    }

    /// Records the outcome of a replay: cleared on success, the failure's message otherwise.
    pub fn set_status(&mut self, status: Option<String>)
        ensures
            final(self).rows@ == old(self).rows@,
            final(self).filtered@ == old(self).filtered@,
            final(self).ui() == (LegacyUi { status: opt_view(status), ..old(self).ui() }),
    {
        self.status = status;
    }

    /// Applies a key press (see [`legacy_key`]); what it asks of the caller is returned.
    pub fn handle_key(&mut self, k: KeyPress) -> (r: Option<LegacyAction>)
        ensures
            final(self).rows@ == old(self).rows@,
            (final(self).ui(), final(self).filtered@, legacy_action_view(r)) == legacy_key(
                old(self).ui(),
                old(self).rows@,
                old(self).filtered@,
                k,
            ),
    {
        let key = k.key;
        if key == Key::Char('c') && k.ctrl {
            return Some(LegacyAction::Quit);
        }
        if self.mode == Mode::Search {
            if key == Key::Esc || key == Key::Enter {
                self.mode = Mode::Normal;
                return None;
            }
            if key == Key::Tab {
                self.search_scope = self.search_scope.next();
                self.refresh_filter();
                return None;
            }
            if key == Key::Backspace {
                let cs = chars_of(self.query.as_str());
                if cs.len() > 0 {
                    let kept = crate::text::copy_range(&cs, 0, cs.len() - 1);
                    assert(kept@ =~= self.query@.drop_last());
                    self.query = string_of(&kept);
                }
                self.refresh_filter();
                return None;
            }
            match key {
                Key::Char(c) => {
                    let added: Vec<char> = vec![c];
                    let tail = string_of(&added);
                    let ghost before = self.query@;
                    self.query.append(tail.as_str());
                    assert(self.query@ =~= before.push(c));
                    self.refresh_filter();
                },
                _ => {},
            }
            return None;
        }
        if key == Key::Char('q') || key == Key::Esc {
            return Some(LegacyAction::Quit);
        }
        if key == Key::Enter {
            return match self.selected_row() {
                Some(row) => Some(LegacyAction::Replay(row.path.clone())),
                None => None,
            };
        }
        if key == Key::Char('/') {
            self.mode = Mode::Search;
            return None;
        }
        if key == Key::Char('?') {
            self.show_help = !self.show_help;
            return None;
        }
        if key == Key::Char('y') {
            let command = match self.selected_row() {
                Some(row) => resume_command(row),
                None => None,
            };
            match command {
                Some(c) => return Some(LegacyAction::CopyResume(c)),
                None => {
                    self.status = Some(String::from_str("selected session has no id"));
                    return None;
                },
            }
        }
        if key == Key::Tab {
            self.focus = if self.focus == PaneFocus::Sessions {
                PaneFocus::Message
            } else {
                PaneFocus::Sessions
            };
            return None;
        }
        let on_sessions = self.focus == PaneFocus::Sessions;
        if key == Key::Char('j') || key == Key::Down {
            if on_sessions {
                self.step(true);
            } else {
                self.message_scroll = self.message_scroll.saturating_add(1);
            }
            return None;
        }
        if key == Key::Char('k') || key == Key::Up {
            if on_sessions {
                self.step(false);
            } else {
                self.message_scroll = self.message_scroll.saturating_sub(1);
            }
            return None;
        }
        if key == Key::Char('d') || key == Key::PageDown {
            if on_sessions {
                self.steps(true, 10);
            } else {
                self.message_scroll = self.message_scroll.saturating_add(10);
            }
            return None;
        }
        if key == Key::Char('u') || key == Key::PageUp {
            if on_sessions {
                self.steps(false, 10);
            } else {
                self.message_scroll = self.message_scroll.saturating_sub(10);
            }
            return None;
        }
        if key == Key::Char('g') || key == Key::Home {
            if on_sessions {
                if self.filtered.len() > 0 {
                    self.selected = Some(0);
                    self.message_scroll = 0;
                }
            } else {
                self.message_scroll = 0;
            }
            return None;
        }
        if key == Key::Char('G') || key == Key::End {
            if on_sessions {
                if self.filtered.len() > 0 {
                    self.selected = Some(self.filtered.len() - 1);
                    self.message_scroll = 0;
                }
            } else {
                self.message_scroll = 65535;
            }
            return None;
        }
        if key == Key::Char('h') || key == Key::Left {
            self.metadata_scroll = self.metadata_scroll.saturating_sub(4);
            return None;
        }
        if key == Key::Char('l') || key == Key::Right {
            self.metadata_scroll = self.metadata_scroll.saturating_add(4);
            return None;
        }
        if key == Key::Char('0') {
            self.metadata_scroll = 0;
        }
        None
    }
}

proof fn lemma_legacy_moves_keep_selection(u: LegacyUi, n: int, down: bool, times: nat)
    requires
        selection_fits(u.selected, n),
    ensures
        selection_fits(legacy_moved(u, n, down, times).selected, n),
    decreases times,
{
    if times > 0 {
        lemma_legacy_moves_keep_selection(u, n, down, (times - 1) as nat);
    }
}

/// Over shown rows that the selection fits, whatever key is pressed, the selection fits the
/// rows shown after it, including rows filtered anew.
pub proof fn lemma_legacy_key_keeps_selection(u: LegacyUi, rows: Seq<SessionRow>, filtered: Seq<SessionRow>, k: KeyPress)
    requires
        selection_fits(u.selected, filtered.len() as int),
    ensures
        ({
            let r = legacy_key(u, rows, filtered, k);
            selection_fits(r.0.selected, r.1.len() as int)
        }),
{
    let n = filtered.len() as int;
    lemma_legacy_moves_keep_selection(u, n, true, 10);
    lemma_legacy_moves_keep_selection(u, n, false, 10);
}

} // verus!
