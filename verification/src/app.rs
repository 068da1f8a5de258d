//! The application state and its keystroke interpreter: one mutable
//! aggregate threaded through the run loop, and the mode-driven
//! transition that each key event applies to it.

use vstd::prelude::*;
use vstd::relations::sorted_by;
use vstd::string::StringExecFns;

use crate::process::{keep_for, le_for, refresh_list, sort_spec, ProcessItem, SortBy};
use crate::selection::{sel_advance, sel_clamp, sel_retreat, sel_wf};
use crate::text::{pop_char, push_char, split_ws, to_lower, tokens};
use crate::theme::{catalog_names, theme_from_spec, AppTheme};

verus! {

/// Which of the three keystroke interpretations currently applies, and
/// so which buffer, if any, receives character keys.
#[derive(Debug, Clone, Copy, PartialEq, Eq, Structural)]
pub enum AppMode {
    Normal,
    Command,
    Filtering,
}

/// One key event, as the terminal driver hands it over.
#[derive(Debug, Clone, Copy, PartialEq, Eq, Structural)]
pub enum Key {
    Char(char),
    Up,
    Down,
    Enter,
    Backspace,
    Esc,
    Tab,
}

/// What the run loop must do after a transition: nothing, stop, or ask
/// the snapshot provider to terminate a process.
#[derive(Debug, Clone, Copy, PartialEq, Eq, Structural)]
pub enum KeyAction {
    Nothing,
    Quit,
    Kill(u64),
}

/// The application state: the displayed list, the cursor over it, the
/// active theme, mode, sort key and the two text buffers.
#[derive(Debug)]
pub struct App {
    pub processes: Vec<ProcessItem>,
    pub selected: Option<usize>,
    pub theme: AppTheme,
    pub mode: AppMode,
    pub command_buffer: String,
    pub sort_by: SortBy,
    pub filter_query: String,
}

/// The mathematical value of an `App`: the same fields, with the list
/// and the buffers as sequences.
#[verifier::ext_equal]
pub ghost struct AppModel {
    pub processes: Seq<ProcessItem>,
    pub selected: Option<usize>,
    pub theme: AppTheme,
    pub mode: AppMode,
    pub command_buffer: Seq<char>,
    pub sort_by: SortBy,
    pub filter_query: Seq<char>,
}

/// The process the kill key would target: the entry under the cursor.
pub open spec fn kill_target(m: AppModel) -> Option<u64> {
    match m.selected {
        Some(i) => if i < m.processes.len() {
            Some(m.processes[i as int].pid)
        } else {
            None
        },
        None => None,
    }
}

/// The name of the catalog theme that follows the one `cur` names,
/// case-insensitively; the first catalog theme when `cur` names none,
/// or names the last.
pub open spec fn next_theme_name(cur: Seq<char>) -> Seq<char> {
    let p = theme_pos_from(cur, 0);
    if p < 5 {
        catalog_names()[p + 1]
    } else {
        catalog_names()[0]
    }
}

/// First catalog position at or after `i` whose name matches `cur`
/// case-insensitively; the catalog size when none does.
pub open spec fn theme_pos_from(cur: Seq<char>, i: int) -> int
    decreases 6 - i,
{
    if !(0 <= i < 6) {
        6
    } else if crate::text::lower_of(catalog_names()[i]) == crate::text::lower_of(cur) {
        i
    } else {
        theme_pos_from(cur, i + 1)
    }
}

/// One transition of the keystroke interpreter: the state after the
/// key, and the action the run loop owes for it.
pub open spec fn step_spec(m: AppModel, key: Key) -> (AppModel, KeyAction) {
    match m.mode {
        AppMode::Normal => step_normal(m, key),
        AppMode::Command => step_command(m, key),
        AppMode::Filtering => step_filtering(m, key),
    }
}

/// The transition table for Normal mode.
pub open spec fn step_normal(m: AppModel, key: Key) -> (AppModel, KeyAction) {
    match key {
        Key::Char(c) => {
            if c == 'q' {
                (m, KeyAction::Quit)
            } else if c == ':' {
                (
                    AppModel { mode: AppMode::Command, command_buffer: Seq::empty(), ..m },
                    KeyAction::Nothing,
                )
            } else if c == '/' {
                (
                    AppModel { mode: AppMode::Filtering, filter_query: Seq::empty(), ..m },
                    KeyAction::Nothing,
                )
            } else if c == 'k' {
                (
                    m,
                    match kill_target(m) {
                        Some(pid) => KeyAction::Kill(pid),
                        None => KeyAction::Nothing,
                    },
                )
            } else if c == 't' {
                (AppModel { theme: m.theme.next_spec(), ..m }, KeyAction::Nothing)
            } else if c == 'c' {
                (AppModel { sort_by: m.sort_by.next_spec(), ..m }, KeyAction::Nothing)
            } else {
                (m, KeyAction::Nothing)
            }
        },
        Key::Down => (
            AppModel { selected: sel_advance(m.selected, m.processes.len() as usize), ..m },
            KeyAction::Nothing,
        ),
        Key::Up => (
            AppModel { selected: sel_retreat(m.selected, m.processes.len() as usize), ..m },
            KeyAction::Nothing,
        ),
        _ => (m, KeyAction::Nothing),
    }
}

/// The transition table for Command mode.
pub open spec fn step_command(m: AppModel, key: Key) -> (AppModel, KeyAction) {
    match key {
        Key::Enter => {
            let toks = tokens(m.command_buffer);
            let theme = if toks.len() >= 2 && toks[0] == "theme"@ {
                match theme_from_spec(toks[1]) {
                    Some(t) => t,
                    None => m.theme,
                }
            } else {
                m.theme
            };
            (AppModel { mode: AppMode::Normal, theme, ..m }, KeyAction::Nothing)
        },
        Key::Char(c) => (
            AppModel { command_buffer: m.command_buffer.push(c), ..m },
            KeyAction::Nothing,
        ),
        Key::Backspace => (
            AppModel {
                command_buffer: if m.command_buffer.len() == 0 {
                    m.command_buffer
                } else {
                    m.command_buffer.drop_last()
                },
                ..m
            },
            KeyAction::Nothing,
        ),
        Key::Esc => (AppModel { mode: AppMode::Normal, ..m }, KeyAction::Nothing),
        Key::Tab => {
            let toks = tokens(m.command_buffer);
            if toks.len() >= 1 && toks[0] == "theme"@ {
                let cur = if toks.len() >= 2 {
                    toks[1]
                } else {
                    Seq::empty()
                };
                (
                    AppModel { command_buffer: "theme "@ + next_theme_name(cur), ..m },
                    KeyAction::Nothing,
                )
            } else {
                (m, KeyAction::Nothing)
            }
        },
        _ => (m, KeyAction::Nothing),
    }
}

/// The transition table for Filtering mode.
pub open spec fn step_filtering(m: AppModel, key: Key) -> (AppModel, KeyAction) {
    match key {
        Key::Char(c) => (
            AppModel { filter_query: m.filter_query.push(c), ..m },
            KeyAction::Nothing,
        ),
        Key::Backspace => (
            AppModel {
                filter_query: if m.filter_query.len() == 0 {
                    m.filter_query
                } else {
                    m.filter_query.drop_last()
                },
                ..m
            },
            KeyAction::Nothing,
        ),
        Key::Enter => (AppModel { mode: AppMode::Normal, ..m }, KeyAction::Nothing),
        Key::Esc => (AppModel { mode: AppMode::Normal, ..m }, KeyAction::Nothing),
        _ => (m, KeyAction::Nothing),
    }
}

impl App {
    /// The mathematical value of this state.
    pub open spec fn model(self) -> AppModel {
        AppModel {
            processes: self.processes@,
            selected: self.selected,
            theme: self.theme,
            mode: self.mode,
            command_buffer: self.command_buffer@,
            sort_by: self.sort_by,
            filter_query: self.filter_query@,
        }
    }

    /// The cursor fits the displayed list.
    pub open spec fn wf(self) -> bool {
        sel_wf(self.selected, self.processes.len())
    }

    /// A fresh state: empty list, no cursor, the first catalog theme,
    /// Normal mode, empty buffers, sorting on CPU.
    pub fn new() -> (r: App)
        ensures
            r.model() == (AppModel {
                processes: Seq::empty(),
                selected: None,
                theme: AppTheme::Nord,
                mode: AppMode::Normal,
                command_buffer: Seq::empty(),
                sort_by: SortBy::Cpu,
                filter_query: Seq::empty(),
            }),
            r.wf(),
    {
        let r = App {
            processes: Vec::new(),
            selected: None,
            theme: AppTheme::Nord,
            mode: AppMode::Normal,
            command_buffer: String::new(),
            sort_by: SortBy::Cpu,
            filter_query: String::new(),
        };
        proof {
            assert(r.model() =~= AppModel {
                processes: Seq::empty(),
                selected: None,
                theme: AppTheme::Nord,
                mode: AppMode::Normal,
                command_buffer: Seq::empty(),
                sort_by: SortBy::Cpu,
                filter_query: Seq::empty(),
            });
        }
        r
    }

    /// Moves the sort key one step along its cycle.
    pub fn cycle_sort_coloumn(&mut self)
        ensures
            final(self).model() == (AppModel {
                sort_by: old(self).sort_by.next_spec(),
                ..old(self).model()
            }),
    {
        self.sort_by = self.sort_by.next();
        proof {
            assert(final(self).model() =~= AppModel {
                sort_by: old(self).sort_by.next_spec(),
                ..old(self).model()
            });
        }
    }

    /// The pid the kill key would ask the snapshot provider to
    /// terminate: the entry under the cursor, if any.
    pub fn kill_selected_process(&self) -> (r: Option<u64>)
        ensures
            r == kill_target(self.model()),
    {
        match self.selected {
            Some(i) => {
                if i < self.processes.len() {
                    Some(self.processes[i].pid)
                } else {
                    None
                }
            },
            None => None,
        }
    }

    /// Moves the cursor one entry down, wrapping at the end.
    pub fn next(&mut self)
        ensures
            final(self).model() == (AppModel {
                selected: sel_advance(old(self).selected, old(self).processes.len()),
                ..old(self).model()
            }),
            old(self).wf() ==> final(self).wf(),
    {
        let len = self.processes.len();
        if len == 0 {
            self.selected = None;
        } else {
            let i: usize = match self.selected {
                Some(i) => if i >= len - 1 {
                    0
                } else {
                    i + 1
                },
                None => 0,
            };
            self.selected = Some(i);
        }
        proof {
            assert(final(self).model() =~= AppModel {
                selected: sel_advance(old(self).selected, old(self).processes.len()),
                ..old(self).model()
            });
        }
    }

    /// Moves the cursor one entry up, wrapping at the top.
    pub fn previous(&mut self)
        ensures
            final(self).model() == (AppModel {
                selected: sel_retreat(old(self).selected, old(self).processes.len()),
                ..old(self).model()
            }),
            old(self).wf() ==> final(self).wf(),
    {
        let len = self.processes.len();
        if len == 0 {
            self.selected = None;
        } else {
            let i: usize = match self.selected {
                Some(i) => if i == 0 {
                    len - 1
                } else {
                    i - 1
                },
                None => 0,
            };
            self.selected = Some(i);
        }
        proof {
            assert(final(self).model() =~= AppModel {
                selected: sel_retreat(old(self).selected, old(self).processes.len()),
                ..old(self).model()
            });
        }
    }

    /// Replaces the displayed list with the raw snapshot, filtered on
    /// the active query and sorted on the active key, then clamps the
    /// cursor to the new list.
    pub fn refresh(&mut self, raw: Vec<ProcessItem>)
        ensures
            final(self).processes@ == sort_spec(
                raw@.filter(keep_for(old(self).filter_query@)),
                old(self).sort_by,
            ),
            sorted_by(final(self).processes@, le_for(old(self).sort_by)),
            final(self).processes@.to_multiset() == raw@.filter(
                keep_for(old(self).filter_query@),
            ).to_multiset(),
            final(self).processes@.len() == raw@.filter(keep_for(old(self).filter_query@)).len(),
            final(self).selected == sel_clamp(old(self).selected, final(self).processes.len()),
            final(self).wf(),
            final(self).theme == old(self).theme,
            final(self).mode == old(self).mode,
            final(self).command_buffer == old(self).command_buffer,
            final(self).sort_by == old(self).sort_by,
            final(self).filter_query == old(self).filter_query,
    {
        let list = refresh_list(raw, self.filter_query.as_str(), self.sort_by);
        self.processes = list;
        let len = self.processes.len();
        if len == 0 {
            self.selected = None;
        } else {
            match self.selected {
                Some(i) => {
                    if i >= len {
                        self.selected = Some(len - 1);
                    }
                },
                None => {
                    self.selected = Some(0);
                },
            }
        }
    }
}

/// Applies one key event to the state, returning the action the run
/// loop owes for it: exactly the transition `step_spec` describes.
pub fn handle_key_event(app: &mut App, key: Key) -> (r: KeyAction)
    ensures
        final(app).model() == step_spec(old(app).model(), key).0,
        r == step_spec(old(app).model(), key).1,
        old(app).wf() ==> final(app).wf(),
{
    let ghost pre = old(app).model();
    match app.mode {
        AppMode::Normal => {
            let r = match key {
                Key::Char(c) => {
                    if c == 'q' {
                        KeyAction::Quit
                    } else if c == ':' {
                        app.mode = AppMode::Command;
                        app.command_buffer = String::new();
                        KeyAction::Nothing
                    } else if c == '/' {
                        app.mode = AppMode::Filtering;
                        app.filter_query = String::new();
                        KeyAction::Nothing
                    } else if c == 'k' {
                        match app.kill_selected_process() {
                            Some(pid) => KeyAction::Kill(pid),
                            None => KeyAction::Nothing,
                        }
                    } else if c == 't' {
                        app.theme = app.theme.next();
                        KeyAction::Nothing
                    } else if c == 'c' {
                        app.cycle_sort_coloumn();
                        KeyAction::Nothing
                    } else {
                        KeyAction::Nothing
                    }
                },
                Key::Down => {
                    app.next();
                    KeyAction::Nothing
                },
                Key::Up => {
                    app.previous();
                    KeyAction::Nothing
                },
                _ => KeyAction::Nothing,
            };
            proof {
                assert(final(app).model() =~= step_spec(pre, key).0);
            }
            r
        },
        AppMode::Command => {
            let r = match key {
                Key::Enter => {
                    let toks = split_ws(app.command_buffer.as_str());
                    if toks.len() >= 2 && toks[0] == "theme".to_owned() {
                        proof {
                            assert(toks.deep_view()[0] == toks@[0]@);
                            assert(toks.deep_view()[1] == toks@[1]@);
                        }
                        match AppTheme::from_str(toks[1].as_str()) {
                            Some(t) => {
                                app.theme = t;
                            },
                            None => {},
                        }
                    } else {
                        proof {
                            if toks@.len() >= 1 {
                                assert(toks.deep_view()[0] == toks@[0]@);
                            }
                        }
                    }
                    app.mode = AppMode::Normal;
                    KeyAction::Nothing
                },
                Key::Char(c) => {
                    app.command_buffer = push_char(&app.command_buffer, c);
                    KeyAction::Nothing
                },
                Key::Backspace => {
                    app.command_buffer = pop_char(&app.command_buffer);
                    KeyAction::Nothing
                },
                Key::Esc => {
                    app.mode = AppMode::Normal;
                    KeyAction::Nothing
                },
                Key::Tab => {
                    let toks = split_ws(app.command_buffer.as_str());
                    if toks.len() >= 1 && toks[0] == "theme".to_owned() {
                        proof {
                            assert(toks.deep_view()[0] == toks@[0]@);
                            if toks@.len() >= 2 {
                                assert(toks.deep_view()[1] == toks@[1]@);
                            }
                        }
                        let lcur = if toks.len() >= 2 {
                            to_lower(toks[1].as_str())
                        } else {
                            to_lower("")
                        };
                        let ghost cur: Seq<char> = if toks.deep_view().len() >= 2 {
                            toks.deep_view()[1]
                        } else {
                            Seq::empty()
                        };
                        proof {
                            reveal_strlit("");
                            assert(""@ =~= Seq::<char>::empty());
                            assert(lcur@ == crate::text::lower_of(cur));
                        }
                        let vars = AppTheme::variants();
                        let mut pos: usize = 6;
                        let mut i: usize = 0;
                        while i < 6
                            invariant
                                vars@.len() == 6,
                                forall|j: int| 0 <= j < 6 ==> (#[trigger] vars@[j])@
                                    == catalog_names()[j],
                                lcur@ == crate::text::lower_of(cur),
                                0 <= i <= 6,
                                pos <= 6,
                                pos == 6 ==> theme_pos_from(cur, 0) == theme_pos_from(cur, i as int),
                                pos < 6 ==> theme_pos_from(cur, 0) == pos,
                            decreases 6 - i,
                        {
                            if pos == 6 {
                                let lv = to_lower(vars[i]);
                                if lv == lcur {
                                    pos = i;
                                }
                            }
                            i += 1;
                        }
                        let next_idx: usize = if pos >= 5 {
                            0
                        } else {
                            pos + 1
                        };
                        let nb = "theme ".to_owned().concat(vars[next_idx]);
                        proof {
                            let p = theme_pos_from(cur, 0);
                            if pos == 6 {
                                assert(theme_pos_from(cur, 6) == 6);
                                assert(p == 6);
                            } else {
                                assert(p == pos);
                            }
                            assert(next_theme_name(cur) == catalog_names()[next_idx as int]);
                            assert(vars@[next_idx as int]@ == catalog_names()[next_idx as int]);
                            assert(nb@ == "theme "@ + next_theme_name(cur));
                        }
                        app.command_buffer = nb;
                    } else {
                        proof {
                            if toks@.len() >= 1 {
                                assert(toks.deep_view()[0] == toks@[0]@);
                            }
                        }
                    }
                    KeyAction::Nothing
                },
                _ => KeyAction::Nothing,
            };
            proof {
                assert(final(app).model() =~= step_spec(pre, key).0);
            }
            r
        },
        AppMode::Filtering => {
            let r = match key {
                Key::Char(c) => {
                    app.filter_query = push_char(&app.filter_query, c);
                    KeyAction::Nothing
                },
                Key::Backspace => {
                    app.filter_query = pop_char(&app.filter_query);
                    KeyAction::Nothing
                },
                Key::Enter => {
                    app.mode = AppMode::Normal;
                    KeyAction::Nothing
                },
                Key::Esc => {
                    app.mode = AppMode::Normal;
                    KeyAction::Nothing
                },
                _ => KeyAction::Nothing,
            };
            proof {
                assert(final(app).model() =~= step_spec(pre, key).0);
            }
            r
        },
    }
}

/// Kill is a pure query: in Normal mode the kill key changes no state,
/// whatever action it emits for the run loop.
pub proof fn lemma_kill_preserves_state(m: AppModel)
    requires
        m.mode == AppMode::Normal,
    ensures
        step_spec(m, Key::Char('k')).0 == m,
{
}

/// No keystroke touches the displayed list: it changes only when a
/// refresh rebuilds it from a snapshot.
pub proof fn lemma_step_preserves_list(m: AppModel, key: Key)
    ensures
        step_spec(m, key).0.processes == m.processes,
{
}

} // verus!

