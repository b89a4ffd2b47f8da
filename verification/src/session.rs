//! The interactive session: the modal UI state machine, the selection
//! into the projection, the filter and kill-by-pid buffers, the frame
//! cadence, and the dispatch of key and mouse events into state
//! transitions or signal requests.
//!
//! The session never delivers a signal itself: dispatching an event
//! yields an [`Action`], and the unverified shell around the library
//! performs it. Likewise the shell refreshes the process table when
//! [`Session::tick`] says it is due and hands the new snapshot back
//! through [`Session::set_snapshot`].

use vstd::prelude::*;
use crate::history::{CpuHistory, CpuSample, bounded_push};
use crate::projection::project_spec;
use crate::projection::project;
use crate::projection::lemma_projection_complete;
use crate::snapshot::{Snapshot, has_pid};
use crate::text::{all_digits, is_digit_byte, parse_u32_spec, parse_u32};

verus! {

/// The single active UI state. Exactly one overlay can be active at a
/// time; the variants are mutually exclusive by construction.
#[derive(Clone, Copy, Debug, PartialEq, Eq, Structural)]
pub enum Mode {
    Normal,
    Searching,
    ConfirmKill,
    EnterKillPid,
    ViewingDetail,
}

/// A decoded key, reduced to what the session reacts to.
#[derive(Clone, Copy, Debug, PartialEq, Eq, Structural)]
pub enum Key {
    Char(u8),
    Esc,
    Enter,
    Backspace,
    Other,
}

/// A key press with its control-modifier flag.
#[derive(Clone, Copy, Debug, PartialEq, Eq, Structural)]
pub struct KeyInput {
    pub code: Key,
    pub ctrl: bool,
}

/// A decoded mouse event, reduced to what the session reacts to.
#[derive(Clone, Copy, Debug, PartialEq, Eq, Structural)]
pub enum MouseInput {
    ScrollUp,
    ScrollDown,
    LeftDown { column: u16, row: u16 },
    Other,
}

/// A screen rectangle: where the process table was drawn, for
/// resolving clicks to rows.
#[derive(Clone, Copy, Debug, PartialEq, Eq, Structural)]
pub struct Region {
    pub x: u16,
    pub y: u16,
    pub width: u16,
    pub height: u16,
}

/// The two signal strengths offered to the user.
#[derive(Clone, Copy, Debug, PartialEq, Eq, Structural)]
pub enum SignalKind {
    Terminate,
    ForceKill,
}

/// What the shell must do after dispatching one event: nothing, or
/// deliver one signal to one process.
#[derive(Clone, Copy, Debug, PartialEq, Eq, Structural)]
pub enum Action {
    Nothing,
    SendSignal { pid: u32, kind: SignalKind },
}

/// ASCII codes of the bound keys.
pub const KEY_QUIT: u8 = 113;
pub const KEY_CTRL_C_LOWER: u8 = 99;
pub const KEY_CTRL_C_UPPER: u8 = 67;
pub const KEY_DOWN: u8 = 106;
pub const KEY_UP: u8 = 107;
pub const KEY_SEARCH: u8 = 115;
pub const KEY_KILL: u8 = 100;
pub const KEY_KILL_BY_PID: u8 = 112;
pub const KEY_SIGNAL_GRACEFUL: u8 = 49;
pub const KEY_SIGNAL_FORCE: u8 = 50;

/// Re-fits a selection to a projection of length `len`: an in-bounds
/// index is kept, an index past the end is pulled to the last row, and
/// the selection becomes `None` when no rows remain.
pub open spec fn clamp_spec(sel: Option<usize>, len: nat) -> Option<usize> {
    match sel {
        None => None,
        Some(i) => if len == 0 {
            None
        } else if i < len {
            Some(i)
        } else {
            Some((len - 1) as usize)
        },
    }
}

/// Moving the selection one row down, clamped to the last row.
pub open spec fn sel_down(sel: Option<usize>, len: nat) -> Option<usize> {
    if len == 0 {
        None
    } else {
        match sel {
            None => Some(0usize),
            Some(i) => if i + 1 < len {
                Some((i + 1) as usize)
            } else {
                Some((len - 1) as usize)
            },
        }
    }
}

/// Moving the selection one row up, clamped to the first row.
pub open spec fn sel_up(sel: Option<usize>, len: nat) -> Option<usize> {
    if len == 0 {
        None
    } else {
        match sel {
            None => Some(0usize),
            Some(i) => if i > 0 {
                Some((i - 1) as usize)
            } else {
                Some(0usize)
            },
        }
    }
}

/// The keys that end the run loop from the normal mode.
pub open spec fn is_quit_key(key: KeyInput) -> bool {
    ||| key.code == Key::Esc
    ||| key.code == Key::Char(KEY_QUIT)
    ||| (key.ctrl && (key.code == Key::Char(KEY_CTRL_C_LOWER) || key.code == Key::Char(KEY_CTRL_C_UPPER)))
}

/// The table row a click at (`column`, `row`) lands on: rows of
/// content start two screen rows below the table's top, under its
/// border and header.
pub open spec fn click_target(area: Region, column: u16, row: u16) -> Option<usize> {
    if column >= area.x && (column as int) < area.x + area.width && (row as int) >= area.y + 2
        && (row as int) < area.y + area.height {
        Some((row - area.y - 2) as usize)
    } else {
        None
    }
}

/// The whole state of one interactive session, owned by the run loop
/// and mutated only through the methods here.
#[derive(Debug)]
pub struct Session {
    pub running: bool,
    pub mode: Mode,
    pub selection: Option<usize>,
    pub filter: Vec<u8>,
    pub pending_kill: Option<u32>,
    pub kill_input: Vec<u8>,
    pub frames: u64,
    pub history: CpuHistory,
    pub snapshot: Snapshot,
}

impl Session {
    /// The length of the current projection: how many rows are
    /// visible under the current snapshot and filter.
    pub open spec fn proj_len(self) -> nat {
        project_spec(self.snapshot, self.filter@).len()
    }

    /// The selection is `None` or in bounds of the current projection.
    pub open spec fn selection_ok(self) -> bool {
        match self.selection {
            None => true,
            Some(i) => i < self.proj_len(),
        }
    }

    /// Well-formedness, preserved by every transition: the selection
    /// is in bounds, the kill-by-pid buffer holds only digits, and a
    /// pending kill target exists exactly while it is being confirmed.
    pub open spec fn wf(self) -> bool {
        &&& self.selection_ok()
        &&& all_digits(self.kill_input@)
        &&& (self.mode == Mode::ConfirmKill ==> self.pending_kill is Some)
    }

    /// A fresh session over an initial snapshot: running, in normal
    /// mode, with an empty filter, and with the first row selected if
    /// any row is visible.
    pub fn new(snapshot: Snapshot) -> (s: Session)
        ensures
            s.running == true,
            s.mode == Mode::Normal,
            s.filter@ == Seq::<u8>::empty(),
            s.pending_kill is None,
            s.kill_input@ == Seq::<u8>::empty(),
            s.frames == 0,
            s.history.samples@ == Seq::<CpuSample>::empty(),
            s.snapshot == snapshot,
            s.selection == (if project_spec(snapshot, Seq::<u8>::empty()).len() > 0 {
                Some(0usize)
            } else {
                None::<usize>
            }),
            s.wf(),
    {
        let filter: Vec<u8> = Vec::new();
        let proj = project(&snapshot, &filter);
        let selection: Option<usize> = if proj.len() > 0 {
            Some(0)
        } else {
            None
        };
        Session {
            running: true,
            mode: Mode::Normal,
            selection,
            filter,
            pending_kill: None,
            kill_input: Vec::new(),
            frames: 0,
            history: CpuHistory::new(),
            snapshot,
        }
    }

    /// Advances one rendered frame: counts it, samples the global CPU
    /// usage into the history (bounded by the chart's width, itself
    /// capped at 120 columns), and reports whether this frame is one
    /// of the every-sixtieth frames on which the expensive process
    /// table refresh is due. The CPU sample is taken every frame
    /// regardless.
    pub fn tick(&mut self, chart_width: u16, cpu_tenths: u32) -> (refresh: bool)
        requires
            old(self).frames < u64::MAX,
        ensures
            final(self).frames == old(self).frames + 1,
            refresh == (final(self).frames % 60 == 0),
            final(self).history.samples@ == bounded_push(
                old(self).history.samples@,
                CpuSample { frame: (old(self).frames + 1) as u64, cpu_tenths },
                if chart_width <= 120 {
                    chart_width as nat
                } else {
                    120nat
                },
            ),
            final(self).running == old(self).running,
            final(self).mode == old(self).mode,
            final(self).selection == old(self).selection,
            final(self).filter == old(self).filter,
            final(self).pending_kill == old(self).pending_kill,
            final(self).kill_input == old(self).kill_input,
            final(self).snapshot == old(self).snapshot,
            old(self).wf() ==> final(self).wf(),
    {
        let max_points: usize = if chart_width > 120 {
            120
        } else {
            chart_width as usize
        };
        self.frames = self.frames + 1;
        let sample = CpuSample { frame: self.frames, cpu_tenths };
        self.history.record(sample, max_points);
        self.frames % 60 == 0
    }

    /// Replaces the snapshot wholesale with a fresh one and re-fits
    /// the selection to the projection the new snapshot yields.
    pub fn set_snapshot(&mut self, snapshot: Snapshot)
        requires
            old(self).wf(),
        ensures
            final(self).snapshot == snapshot,
            final(self).selection == clamp_spec(
                old(self).selection,
                project_spec(snapshot, old(self).filter@).len(),
            ),
            final(self).running == old(self).running,
            final(self).mode == old(self).mode,
            final(self).filter == old(self).filter,
            final(self).pending_kill == old(self).pending_kill,
            final(self).kill_input == old(self).kill_input,
            final(self).frames == old(self).frames,
            final(self).history == old(self).history,
            final(self).wf(),
    {
        self.snapshot = snapshot;
        self.clamp_selection();
    }

    /// Ends the run loop at the next iteration.
    pub fn quit(&mut self)
        ensures
            final(self).running == false,
            final(self).mode == old(self).mode,
            final(self).selection == old(self).selection,
            final(self).filter == old(self).filter,
            final(self).pending_kill == old(self).pending_kill,
            final(self).kill_input == old(self).kill_input,
            final(self).frames == old(self).frames,
            final(self).history == old(self).history,
            final(self).snapshot == old(self).snapshot,
            old(self).wf() ==> final(self).wf(),
    {
        self.running = false;
    }

    /// Re-fits the selection to the current projection.
    fn clamp_selection(&mut self)
        ensures
            final(self).selection == clamp_spec(
                old(self).selection,
                old(self).proj_len(),
            ),
            final(self).running == old(self).running,
            final(self).mode == old(self).mode,
            final(self).filter == old(self).filter,
            final(self).pending_kill == old(self).pending_kill,
            final(self).kill_input == old(self).kill_input,
            final(self).frames == old(self).frames,
            final(self).history == old(self).history,
            final(self).snapshot == old(self).snapshot,
            final(self).selection_ok(),
    {
        let proj = project(&self.snapshot, &self.filter);
        let len = proj.len();
        match self.selection {
            None => {},
            Some(i) => {
                if len == 0 {
                    self.selection = None;
                } else if i >= len {
                    self.selection = Some(len - 1);
                }
            },
        }
    }
}

/// `post` is `pre` with exactly the given control fields: everything
/// a key event can touch is listed, and the frame counter, the
/// history and the snapshot are untouched by every key event.
pub open spec fn steps_to(
    pre: Session,
    post: Session,
    running: bool,
    mode: Mode,
    selection: Option<usize>,
    pending_kill: Option<u32>,
    kill_input: Seq<u8>,
    filter: Seq<u8>,
) -> bool {
    &&& post.running == running
    &&& post.mode == mode
    &&& post.selection == selection
    &&& post.pending_kill == pending_kill
    &&& post.kill_input@ == kill_input
    &&& post.filter@ == filter
    &&& post.frames == pre.frames
    &&& post.history == pre.history
    &&& post.snapshot == pre.snapshot
}

/// `post` is `pre`, untouched.
pub open spec fn unchanged_session(pre: Session, post: Session) -> bool {
    steps_to(
        pre,
        post,
        pre.running,
        pre.mode,
        pre.selection,
        pre.pending_kill,
        pre.kill_input@,
        pre.filter@,
    )
}

/// The normal-mode row of the transition table: quit keys end the
/// loop; `j`/`k` move the selection with clamping; `s`, `p` and Enter
/// open the search, kill-by-pid and detail overlays; `d` captures the
/// selected row's pid as the pending kill target and opens the
/// confirmation overlay, a no-op without a valid selection. No key
/// emits a signal from normal mode.
pub open spec fn normal_key_rel(pre: Session, post: Session, key: KeyInput, action: Action) -> bool {
    let len = pre.proj_len();
    let proj = project_spec(pre.snapshot, pre.filter@);
    &&& action == Action::Nothing
    &&& if is_quit_key(key) {
        steps_to(
            pre,
            post,
            false,
            Mode::Normal,
            pre.selection,
            pre.pending_kill,
            pre.kill_input@,
            pre.filter@,
        )
    } else if key.code == Key::Char(KEY_DOWN) {
        steps_to(
            pre,
            post,
            pre.running,
            Mode::Normal,
            sel_down(pre.selection, len),
            pre.pending_kill,
            pre.kill_input@,
            pre.filter@,
        )
    } else if key.code == Key::Char(KEY_UP) {
        steps_to(
            pre,
            post,
            pre.running,
            Mode::Normal,
            sel_up(pre.selection, len),
            pre.pending_kill,
            pre.kill_input@,
            pre.filter@,
        )
    } else if key.code == Key::Char(KEY_SEARCH) {
        steps_to(
            pre,
            post,
            pre.running,
            Mode::Searching,
            pre.selection,
            pre.pending_kill,
            pre.kill_input@,
            pre.filter@,
        )
    } else if key.code == Key::Char(KEY_KILL) {
        match pre.selection {
            Some(i) => if i < len {
                steps_to(
                    pre,
                    post,
                    pre.running,
                    Mode::ConfirmKill,
                    pre.selection,
                    Some(pre.snapshot.procs@[proj[i as int] as int].pid),
                    pre.kill_input@,
                    pre.filter@,
                )
            } else {
                unchanged_session(pre, post)
            },
            None => unchanged_session(pre, post),
        }
    } else if key.code == Key::Char(KEY_KILL_BY_PID) {
        steps_to(
            pre,
            post,
            pre.running,
            Mode::EnterKillPid,
            pre.selection,
            pre.pending_kill,
            Seq::<u8>::empty(),
            pre.filter@,
        )
    } else if key.code == Key::Enter {
        steps_to(
            pre,
            post,
            pre.running,
            Mode::ViewingDetail,
            pre.selection,
            pre.pending_kill,
            pre.kill_input@,
            pre.filter@,
        )
    } else {
        unchanged_session(pre, post)
    }
}

/// The search-overlay row of the transition table: Escape and Enter
/// return to normal mode keeping the filter as committed; a character
/// is appended to the filter and a Backspace removes its last byte,
/// both applied live, with the selection re-fitted to the projection
/// under the new filter.
pub open spec fn searching_key_rel(
    pre: Session,
    post: Session,
    key: KeyInput,
    action: Action,
) -> bool {
    &&& action == Action::Nothing
    &&& match key.code {
        Key::Esc | Key::Enter => steps_to(
            pre,
            post,
            pre.running,
            Mode::Normal,
            pre.selection,
            pre.pending_kill,
            pre.kill_input@,
            pre.filter@,
        ),
        Key::Char(c) => {
            let nf = pre.filter@.push(c);
            steps_to(
                pre,
                post,
                pre.running,
                Mode::Searching,
                clamp_spec(pre.selection, project_spec(pre.snapshot, nf).len()),
                pre.pending_kill,
                pre.kill_input@,
                nf,
            )
        },
        Key::Backspace => {
            let nf = if pre.filter@.len() > 0 {
                pre.filter@.drop_last()
            } else {
                pre.filter@
            };
            steps_to(
                pre,
                post,
                pre.running,
                Mode::Searching,
                clamp_spec(pre.selection, project_spec(pre.snapshot, nf).len()),
                pre.pending_kill,
                pre.kill_input@,
                nf,
            )
        },
        Key::Other => unchanged_session(pre, post),
    }
}

/// The kill-confirmation row of the transition table: `1` requests the
/// graceful signal and `2` the forceful one for the captured target if
/// it is still live in the current snapshot, Escape discards the
/// target; all three return to normal mode and clear the target. The
/// target was captured when the overlay opened and is not re-resolved
/// here.
pub open spec fn confirm_key_rel(
    pre: Session,
    post: Session,
    key: KeyInput,
    action: Action,
) -> bool {
    match pre.pending_kill {
        Some(pid) => {
            if key.code == Key::Char(KEY_SIGNAL_GRACEFUL) || key.code == Key::Char(KEY_SIGNAL_FORCE) {
                let kind = if key.code == Key::Char(KEY_SIGNAL_GRACEFUL) {
                    SignalKind::Terminate
                } else {
                    SignalKind::ForceKill
                };
                &&& action == (if has_pid(pre.snapshot, pid) {
                    Action::SendSignal { pid, kind }
                } else {
                    Action::Nothing
                })
                &&& steps_to(
                    pre,
                    post,
                    pre.running,
                    Mode::Normal,
                    pre.selection,
                    None,
                    pre.kill_input@,
                    pre.filter@,
                )
            } else if key.code == Key::Esc {
                &&& action == Action::Nothing
                &&& steps_to(
                    pre,
                    post,
                    pre.running,
                    Mode::Normal,
                    pre.selection,
                    None,
                    pre.kill_input@,
                    pre.filter@,
                )
            } else {
                &&& action == Action::Nothing
                &&& unchanged_session(pre, post)
            }
        },
        None => {
            &&& action == Action::Nothing
            &&& steps_to(
                pre,
                post,
                pre.running,
                Mode::Normal,
                pre.selection,
                None,
                pre.kill_input@,
                pre.filter@,
            )
        },
    }
}

/// The kill-by-pid row of the transition table: digits are appended
/// to the buffer and Backspace removes the last one; Enter parses the
/// buffer and requests the forceful signal if it names a live
/// process, silently doing nothing otherwise; Enter and Escape both
/// clear the buffer and return to normal mode.
pub open spec fn enter_pid_key_rel(
    pre: Session,
    post: Session,
    key: KeyInput,
    action: Action,
) -> bool {
    match key.code {
        Key::Esc => {
            &&& action == Action::Nothing
            &&& steps_to(
                pre,
                post,
                pre.running,
                Mode::Normal,
                pre.selection,
                pre.pending_kill,
                Seq::<u8>::empty(),
                pre.filter@,
            )
        },
        Key::Enter => {
            &&& action == (match parse_u32_spec(pre.kill_input@) {
                Some(pid) => if has_pid(pre.snapshot, pid) {
                    Action::SendSignal { pid, kind: SignalKind::ForceKill }
                } else {
                    Action::Nothing
                },
                None => Action::Nothing,
            })
            &&& steps_to(
                pre,
                post,
                pre.running,
                Mode::Normal,
                pre.selection,
                pre.pending_kill,
                Seq::<u8>::empty(),
                pre.filter@,
            )
        },
        Key::Char(c) => {
            &&& action == Action::Nothing
            &&& if is_digit_byte(c) {
                steps_to(
                    pre,
                    post,
                    pre.running,
                    Mode::EnterKillPid,
                    pre.selection,
                    pre.pending_kill,
                    pre.kill_input@.push(c),
                    pre.filter@,
                )
            } else {
                unchanged_session(pre, post)
            }
        },
        Key::Backspace => {
            &&& action == Action::Nothing
            &&& steps_to(
                pre,
                post,
                pre.running,
                Mode::EnterKillPid,
                pre.selection,
                pre.pending_kill,
                if pre.kill_input@.len() > 0 {
                    pre.kill_input@.drop_last()
                } else {
                    pre.kill_input@
                },
                pre.filter@,
            )
        },
        Key::Other => {
            &&& action == Action::Nothing
            &&& unchanged_session(pre, post)
        },
    }
}

/// The detail-view row of the transition table: Escape closes it,
/// every other event is ignored.
pub open spec fn detail_key_rel(pre: Session, post: Session, key: KeyInput, action: Action) -> bool {
    &&& action == Action::Nothing
    &&& if key.code == Key::Esc {
        steps_to(
            pre,
            post,
            pre.running,
            Mode::Normal,
            pre.selection,
            pre.pending_kill,
            pre.kill_input@,
            pre.filter@,
        )
    } else {
        unchanged_session(pre, post)
    }
}

/// Mouse dispatch: accepted only in normal mode. Scrolling moves the
/// selection one row with clamping; a primary click inside the
/// table's content region selects the clicked projection row if one
/// is there. Everything else, and any mouse event while an overlay is
/// active, is ignored.
pub open spec fn mouse_rel(
    pre: Session,
    post: Session,
    mouse: MouseInput,
    area: Region,
) -> bool {
    let len = pre.proj_len();
    if pre.mode != Mode::Normal {
        unchanged_session(pre, post)
    } else {
        match mouse {
            MouseInput::ScrollUp => steps_to(
                pre,
                post,
                pre.running,
                Mode::Normal,
                match pre.selection {
                    Some(i) => if i > 0 {
                        Some((i - 1) as usize)
                    } else {
                        Some(0usize)
                    },
                    None => None,
                },
                pre.pending_kill,
                pre.kill_input@,
                pre.filter@,
            ),
            MouseInput::ScrollDown => steps_to(
                pre,
                post,
                pre.running,
                Mode::Normal,
                match pre.selection {
                    Some(i) => if i + 1 < len {
                        Some((i + 1) as usize)
                    } else {
                        Some(i)
                    },
                    None => None,
                },
                pre.pending_kill,
                pre.kill_input@,
                pre.filter@,
            ),
            MouseInput::LeftDown { column, row } => match click_target(area, column, row) {
                Some(r) => if r < len {
                    steps_to(
                        pre,
                        post,
                        pre.running,
                        Mode::Normal,
                        Some(r),
                        pre.pending_kill,
                        pre.kill_input@,
                        pre.filter@,
                    )
                } else {
                    unchanged_session(pre, post)
                },
                None => unchanged_session(pre, post),
            },
            MouseInput::Other => unchanged_session(pre, post),
        }
    }
}

impl Session {
    /// Dispatches one key press according to the transition table of
    /// the active mode, returning the action the shell must perform.
    pub fn on_key_event(&mut self, key: KeyInput) -> (action: Action)
        requires
            old(self).wf(),
        ensures
            final(self).wf(),
            match old(self).mode {
                Mode::Normal => normal_key_rel(*old(self), *final(self), key, action),
                Mode::Searching => searching_key_rel(*old(self), *final(self), key, action),
                Mode::ConfirmKill => confirm_key_rel(*old(self), *final(self), key, action),
                Mode::EnterKillPid => enter_pid_key_rel(*old(self), *final(self), key, action),
                Mode::ViewingDetail => detail_key_rel(*old(self), *final(self), key, action),
            },
    {
        match self.mode {
            Mode::ViewingDetail => {
                if key.code == Key::Esc {
                    self.mode = Mode::Normal;
                }
                Action::Nothing
            },
            Mode::EnterKillPid => {
                match key.code {
                    Key::Esc => {
                        self.kill_input = Vec::new();
                        self.mode = Mode::Normal;
                        Action::Nothing
                    },
                    Key::Enter => {
                        let action = match parse_u32(self.kill_input.as_slice()) {
                            Some(pid) => {
                                if self.snapshot.contains_pid(pid) {
                                    Action::SendSignal { pid, kind: SignalKind::ForceKill }
                                } else {
                                    Action::Nothing
                                }
                            },
                            None => Action::Nothing,
                        };
                        self.kill_input = Vec::new();
                        self.mode = Mode::Normal;
                        action
                    },
                    Key::Char(c) => {
                        if 48 <= c && c <= 57 {
                            self.kill_input.push(c);
                        }
                        Action::Nothing
                    },
                    Key::Backspace => {
                        if self.kill_input.len() > 0 {
                            self.kill_input.pop();
                        }
                        Action::Nothing
                    },
                    Key::Other => Action::Nothing,
                }
            },
            Mode::ConfirmKill => {
                match self.pending_kill {
                    Some(pid) => {
                        if key.code == Key::Char(KEY_SIGNAL_GRACEFUL) || key.code == Key::Char(KEY_SIGNAL_FORCE) {
                            let kind = if key.code == Key::Char(KEY_SIGNAL_GRACEFUL) {
                                SignalKind::Terminate
                            } else {
                                SignalKind::ForceKill
                            };
                            let action = if self.snapshot.contains_pid(pid) {
                                Action::SendSignal { pid, kind }
                            } else {
                                Action::Nothing
                            };
                            self.pending_kill = None;
                            self.mode = Mode::Normal;
                            action
                        } else if key.code == Key::Esc {
                            self.pending_kill = None;
                            self.mode = Mode::Normal;
                            Action::Nothing
                        } else {
                            Action::Nothing
                        }
                    },
                    None => {
                        self.pending_kill = None;
                        self.mode = Mode::Normal;
                        Action::Nothing
                    },
                }
            },
            Mode::Searching => {
                match key.code {
                    Key::Esc | Key::Enter => {
                        self.mode = Mode::Normal;
                        Action::Nothing
                    },
                    Key::Char(c) => {
                        self.filter.push(c);
                        self.clamp_selection();
                        Action::Nothing
                    },
                    Key::Backspace => {
                        if self.filter.len() > 0 {
                            self.filter.pop();
                        }
                        self.clamp_selection();
                        Action::Nothing
                    },
                    Key::Other => Action::Nothing,
                }
            },
            Mode::Normal => {
                let quit = match key.code {
                    Key::Esc => true,
                    Key::Char(c) => c == KEY_QUIT || (key.ctrl && (c == KEY_CTRL_C_LOWER || c == KEY_CTRL_C_UPPER)),
                    _ => false,
                };
                if quit {
                    self.running = false;
                    return Action::Nothing;
                }
                match key.code {
                    Key::Char(c) => {
                        if c == KEY_DOWN {
                            let proj = project(&self.snapshot, &self.filter);
                            let len = proj.len();
                            if len > 0 {
                                self.selection = match self.selection {
                                    None => Some(0),
                                    Some(i) => if i + 1 < len {
                                        Some(i + 1)
                                    } else {
                                        Some(len - 1)
                                    },
                                };
                            } else {
                                self.selection = None;
                            }
                        } else if c == KEY_UP {
                            let proj = project(&self.snapshot, &self.filter);
                            let len = proj.len();
                            if len > 0 {
                                self.selection = match self.selection {
                                    None => Some(0),
                                    Some(i) => if i > 0 {
                                        Some(i - 1)
                                    } else {
                                        Some(0)
                                    },
                                };
                            } else {
                                self.selection = None;
                            }
                        } else if c == KEY_SEARCH {
                            self.mode = Mode::Searching;
                        } else if c == KEY_KILL {
                            let proj = project(&self.snapshot, &self.filter);
                            match self.selection {
                                Some(i) => {
                                    if i < proj.len() {
                                        proof {
                                            assert(self.snapshot.procs.len()
                                                == self.snapshot.procs@.len());
                                            lemma_projection_complete(
                                                self.snapshot,
                                                self.filter@,
                                            );
                                        }
                                        let row = proj[i];
                                        let pid = self.snapshot.procs[row].pid;
                                        self.pending_kill = Some(pid);
                                        self.mode = Mode::ConfirmKill;
                                    }
                                },
                                None => {},
                            }
                        } else if c == KEY_KILL_BY_PID {
                            self.kill_input = Vec::new();
                            self.mode = Mode::EnterKillPid;
                        }
                        Action::Nothing
                    },
                    Key::Enter => {
                        self.mode = Mode::ViewingDetail;
                        Action::Nothing
                    },
                    _ => Action::Nothing,
                }
            },
        }
    }

    /// Dispatches one mouse event, accepted only in normal mode; the
    /// table's drawn region resolves a click to a projection row.
    pub fn on_mouse_event(&mut self, mouse: MouseInput, table_area: Region)
        requires
            old(self).wf(),
        ensures
            final(self).wf(),
            mouse_rel(*old(self), *final(self), mouse, table_area),
    {
        match self.mode {
            Mode::Normal => {},
            _ => {
                return;
            },
        }
        match mouse {
            MouseInput::ScrollUp => {
                match self.selection {
                    Some(i) => {
                        if i > 0 {
                            self.selection = Some(i - 1);
                        }
                    },
                    None => {},
                }
            },
            MouseInput::ScrollDown => {
                let proj = project(&self.snapshot, &self.filter);
                let len = proj.len();
                match self.selection {
                    Some(i) => {
                        if i + 1 < len {
                            self.selection = Some(i + 1);
                        }
                    },
                    None => {},
                }
            },
            MouseInput::LeftDown { column, row } => {
                let inside = column >= table_area.x && (column as u32) < (table_area.x as u32)
                    + (table_area.width as u32) && (row as u32) >= (table_area.y as u32) + 2 && (
                row as u32) < (table_area.y as u32) + (table_area.height as u32);
                if inside {
                    let clicked = (row - table_area.y - 2) as usize;
                    let proj = project(&self.snapshot, &self.filter);
                    if clicked < proj.len() {
                        self.selection = Some(clicked);
                    }
                }
            },
            MouseInput::Other => {},
        }
    }
}

/// The fixed help line shown under the dashboard.
pub fn help_line() -> (r: &'static str)
    ensures
        r@ == "[q/Esc] Quit  [s] Toggle Search  [j/k] Move  [d] Kill  [p] Kill by PID  [Enter] Details  [In Search: Esc] Exit Search  [In Details: Esc] Close"@,
{
    "[q/Esc] Quit  [s] Toggle Search  [j/k] Move  [d] Kill  [p] Kill by PID  [Enter] Details  [In Search: Esc] Exit Search  [In Details: Esc] Close"
}

} // verus!
