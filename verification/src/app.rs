use vstd::prelude::*;

use crate::autopilot::{Autopilot, AutopilotStep};
use crate::render::color::Palette;

verus! {

/// Iteration depth at start, after a reset, and the floor of adaptive depth.
pub const DEFAULT_MAX_ITER: u32 = 128;

/// Highest iteration depth, adaptive or manual.
pub const MAX_ITER_CAP: u32 = 16384;

/// Lowest iteration depth the `[` key goes down to.
pub const MIN_MANUAL_ITER: u32 = 32;

/// Change of iteration depth per `[` or `]` press.
pub const ITER_STEP: u32 = 64;

/// Frames a mouse button must be held before continuous zoom starts.
pub const HOLD_ZOOM_FRAMES: u32 = 4;

/// A button released before this many frames counts as a click.
pub const CLICK_FRAMES: u32 = 5;

/// A key, as far as the bindings tell keys apart.
#[derive(Clone, Copy, Debug, PartialEq, Eq, Structural)]
pub enum KeyCode {
    Char(char),
    Esc,
    Left,
    Right,
    Up,
    Down,
    Tab,
    BackTab,
    Other,
}

/// A key press with the modifiers the bindings read.
#[derive(Clone, Copy, Debug, PartialEq, Eq, Structural)]
pub struct KeyEvent {
    pub code: KeyCode,
    pub ctrl: bool,
    pub shift: bool,
}

#[derive(Clone, Copy, Debug, PartialEq, Eq, Structural)]
pub enum MouseButton {
    Left,
    Right,
    Middle,
}

#[derive(Clone, Copy, Debug, PartialEq, Eq, Structural)]
pub enum MouseEventKind {
    Down(MouseButton),
    Up(MouseButton),
    Drag(MouseButton),
    ScrollUp,
    ScrollDown,
    Other,
}

/// A mouse event at terminal cell (`column`, `row`); `ctrl` tells whether
/// Control was held.
#[derive(Clone, Copy, Debug, PartialEq, Eq, Structural)]
pub struct MouseEvent {
    pub kind: MouseEventKind,
    pub column: u16,
    pub row: u16,
    pub ctrl: bool,
}

/// What a key asks for.
#[derive(Clone, Copy, Debug, PartialEq, Eq, Structural)]
pub enum KeyAction {
    Quit,
    /// Pan by a tenth of the view width in the given direction.
    Pan { dx: i8, dy: i8 },
    /// Zoom by the key factor.
    Zoom { zoom_in: bool },
    NextFractal,
    PrevFractal,
    CyclePalette,
    Reset,
    MoreIterations,
    FewerIterations,
    ToggleAutopilot,
    ToggleHelp,
    Ignore,
}

/// The change of view (complex-plane geometry) that an input asks the front
/// end to make. Cells are terminal cells of the canvas.
#[derive(Clone, Copy, Debug, PartialEq, Eq, Structural)]
pub enum ViewCommand {
    Nothing,
    /// Pan by a tenth of the view per unit of `dx`, `dy`.
    Pan { dx: i8, dy: i8 },
    /// Zoom by the key factor.
    Zoom { zoom_in: bool },
    /// Restore the current fractal's default view, zoom reference and bounds.
    ResetView,
    /// Remember the current centre as the drag anchor.
    Anchor,
    /// Move the centre so that the anchor follows the drag from the start
    /// cell to the current cell; when `reanchor`, first remember the current
    /// centre as the anchor.
    DragPan { reanchor: bool, start_col: u16, start_row: u16, col: u16, row: u16 },
    /// Centre on the cell, then zoom by the click factor.
    ClickZoom { col: u16, row: u16, zoom_in: bool },
    /// Drift the centre toward the cell, then zoom by the scroll factor.
    ScrollZoom { col: u16, row: u16, zoom_in: bool },
    /// Drift the centre toward the cell, then zoom by the hold factor in the
    /// direction of the held button (left in, right out, other not at all).
    HoldZoom { col: u16, row: u16, button: MouseButton },
}

/// A mouse button being held on a cell for `frame_count` frames.
#[derive(Clone, Copy, Debug, PartialEq, Eq, Structural)]
pub struct MouseHold {
    pub button: MouseButton,
    pub col: u16,
    pub row: u16,
    pub frame_count: u32,
}

/// What the front end does in one frame of `tick`.
#[derive(Clone, Copy, Debug, PartialEq, Eq, Structural)]
pub struct TickPlan {
    pub hold: ViewCommand,
    pub autopilot: AutopilotStep,
}

/// The explorer's interaction state: which fractal, palette and iteration
/// depth are shown, the mode flags, and the mouse gesture in progress.
pub struct App {
    pub fractal_idx: usize,
    pub fractal_count: usize,
    pub max_iter: u32,
    pub palette: Palette,
    pub autopilot: Autopilot,
    pub show_help: bool,
    pub should_quit: bool,
    pub adaptive_iter: bool,
    pub dirty: bool,
    pub canvas_cols: u16,
    pub canvas_rows: u16,
    pub drag_start: Option<(u16, u16)>,
    pub last_ctrl: bool,
    pub mouse_hold: Option<MouseHold>,
    pub is_dragging: bool,
}

/// The binding of keys to actions.
pub open spec fn spec_key_action(key: KeyEvent) -> KeyAction {
    match key.code {
        KeyCode::Esc => KeyAction::Quit,
        KeyCode::Left => KeyAction::Pan { dx: -1i8, dy: 0 },
        KeyCode::Right => KeyAction::Pan { dx: 1, dy: 0 },
        KeyCode::Up => KeyAction::Pan { dx: 0, dy: 1 },
        KeyCode::Down => KeyAction::Pan { dx: 0, dy: -1i8 },
        KeyCode::Tab => if key.shift {
            KeyAction::PrevFractal
        } else {
            KeyAction::NextFractal
        },
        KeyCode::BackTab => KeyAction::PrevFractal,
        KeyCode::Other => KeyAction::Ignore,
        KeyCode::Char(c) => if c == 'q' {
            KeyAction::Quit
        } else if c == 'c' {
            if key.ctrl {
                KeyAction::Quit
            } else {
                KeyAction::CyclePalette
            }
        } else if c == 'a' {
            KeyAction::Pan { dx: -1i8, dy: 0 }
        } else if c == 'd' {
            KeyAction::Pan { dx: 1, dy: 0 }
        } else if c == 'w' {
            KeyAction::Pan { dx: 0, dy: 1 }
        } else if c == 's' {
            KeyAction::Pan { dx: 0, dy: -1i8 }
        } else if c == '+' || c == '=' {
            KeyAction::Zoom { zoom_in: true }
        } else if c == '-' {
            KeyAction::Zoom { zoom_in: false }
        } else if c == 'r' {
            KeyAction::Reset
        } else if c == ']' {
            KeyAction::MoreIterations
        } else if c == '[' {
            KeyAction::FewerIterations
        } else if c == ' ' {
            KeyAction::ToggleAutopilot
        } else if c == '?' {
            KeyAction::ToggleHelp
        } else {
            KeyAction::Ignore
        },
    }
}

/// The fractal after `i` in a cycle of `n`.
pub open spec fn next_index(i: int, n: int) -> int {
    (i + 1) % n
}

/// The fractal before `i` in a cycle of `n`.
pub open spec fn prev_index(i: int, n: int) -> int {
    if i == 0 {
        n - 1
    } else {
        i - 1
    }
}

/// Iteration depth after `]`: one step up, capped.
pub open spec fn iter_up(m: int) -> int {
    if m + ITER_STEP <= MAX_ITER_CAP {
        m + ITER_STEP
    } else {
        MAX_ITER_CAP as int
    }
}

/// Iteration depth after `[`: one step down, not below the manual floor.
pub open spec fn iter_down(m: int) -> int {
    let lowered = if m >= ITER_STEP {
        m - ITER_STEP
    } else {
        0
    };
    if lowered >= MIN_MANUAL_ITER {
        lowered
    } else {
        MIN_MANUAL_ITER as int
    }
}

/// The autopilot after a toggle.
pub open spec fn toggled(a: Autopilot) -> Autopilot {
    Autopilot { active: !a.active, needs_target: !a.active || a.needs_target }
}

/// How long the current hold has lasted (zero when nothing is held).
pub open spec fn held_frames(hold: Option<MouseHold>) -> u32 {
    match hold {
        Some(h) => h.frame_count,
        None => 0,
    }
}

impl App {
    /// The state invariant: the fractal index is in range and the iteration
    /// depth never exceeds the cap.
    pub open spec fn wf(self) -> bool {
        &&& 0 < self.fractal_count
        &&& self.fractal_idx < self.fractal_count
        &&& self.max_iter <= MAX_ITER_CAP
    }

    /// The effect of a key action on a state without the help overlay.
    pub open spec fn spec_apply_action(self, a: KeyAction) -> (App, ViewCommand) {
        match a {
            KeyAction::Quit => (App { should_quit: true, ..self }, ViewCommand::Nothing),
            KeyAction::Pan { dx, dy } => (App { dirty: true, ..self }, ViewCommand::Pan { dx, dy }),
            KeyAction::Zoom { zoom_in } => (
                App { dirty: true, ..self },
                ViewCommand::Zoom { zoom_in },
            ),
            KeyAction::NextFractal => (
                App {
                    fractal_idx: next_index(
                        self.fractal_idx as int,
                        self.fractal_count as int,
                    ) as usize,
                    adaptive_iter: true,
                    dirty: true,
                    ..self
                },
                ViewCommand::ResetView,
            ),
            KeyAction::PrevFractal => (
                App {
                    fractal_idx: prev_index(
                        self.fractal_idx as int,
                        self.fractal_count as int,
                    ) as usize,
                    adaptive_iter: true,
                    dirty: true,
                    ..self
                },
                ViewCommand::ResetView,
            ),
            KeyAction::CyclePalette => (
                App { palette: self.palette.spec_next(), dirty: true, ..self },
                ViewCommand::Nothing,
            ),
            KeyAction::Reset => (
                App { max_iter: DEFAULT_MAX_ITER, adaptive_iter: true, dirty: true, ..self },
                ViewCommand::ResetView,
            ),
            KeyAction::MoreIterations => (
                App {
                    adaptive_iter: false,
                    max_iter: iter_up(self.max_iter as int) as u32,
                    dirty: true,
                    ..self
                },
                ViewCommand::Nothing,
            ),
            KeyAction::FewerIterations => (
                App {
                    adaptive_iter: false,
                    max_iter: iter_down(self.max_iter as int) as u32,
                    dirty: true,
                    ..self
                },
                ViewCommand::Nothing,
            ),
            KeyAction::ToggleAutopilot => (
                App { autopilot: toggled(self.autopilot), dirty: true, ..self },
                ViewCommand::Nothing,
            ),
            KeyAction::ToggleHelp => (
                App { show_help: !self.show_help, ..self },
                ViewCommand::Nothing,
            ),
            KeyAction::Ignore => (self, ViewCommand::Nothing),
        }
    }

    /// The effect of a key press: with the help overlay shown, any key only
    /// closes it; otherwise the key's action applies.
    pub open spec fn spec_handle_key(self, key: KeyEvent) -> (App, ViewCommand) {
        if self.show_help {
            (App { show_help: false, ..self }, ViewCommand::Nothing)
        } else {
            self.spec_apply_action(spec_key_action(key))
        }
    }

    /// The effect of a mouse event. Nothing happens before the canvas has a
    /// size. A left press starts a gesture (anchor and hold); dragging pans
    /// from the anchor; a left release that was neither a drag nor a long
    /// hold is a click that centres and zooms (out with Control). A right
    /// press holds; a short right press zooms out at the cursor. The wheel
    /// zooms toward the cursor. Every view change stops the autopilot.
    pub open spec fn spec_handle_mouse(self, ev: MouseEvent) -> (App, ViewCommand) {
        let c = ev.column;
        let r = ev.row;
        if self.canvas_cols == 0 || self.canvas_rows == 0 {
            (self, ViewCommand::Nothing)
        } else {
            match ev.kind {
                MouseEventKind::Down(MouseButton::Left) => (
                    App {
                        last_ctrl: ev.ctrl,
                        drag_start: Some((c, r)),
                        is_dragging: false,
                        mouse_hold: Some(
                            MouseHold { button: MouseButton::Left, col: c, row: r, frame_count: 0 },
                        ),
                        ..self
                    },
                    ViewCommand::Anchor,
                ),
                MouseEventKind::Drag(MouseButton::Left) => {
                    let reanchor = self.mouse_hold is Some;
                    let start = if reanchor {
                        Some((c, r))
                    } else {
                        self.drag_start
                    };
                    let moved = App {
                        drag_start: start,
                        is_dragging: true,
                        mouse_hold: None,
                        ..self
                    };
                    match start {
                        Some((sc, sr)) => (
                            App {
                                autopilot: Autopilot { active: false, ..self.autopilot },
                                dirty: true,
                                ..moved
                            },
                            ViewCommand::DragPan {
                                reanchor,
                                start_col: sc,
                                start_row: sr,
                                col: c,
                                row: r,
                            },
                        ),
                        None => (moved, ViewCommand::Nothing),
                    }
                },
                MouseEventKind::Up(MouseButton::Left) => {
                    let released = App {
                        mouse_hold: None,
                        drag_start: None,
                        is_dragging: false,
                        ..self
                    };
                    if self.drag_start is Some {
                        let click = !self.is_dragging && held_frames(self.mouse_hold) < CLICK_FRAMES;
                        (
                            App {
                                autopilot: Autopilot { active: false, ..self.autopilot },
                                dirty: true,
                                ..released
                            },
                            if click {
                                ViewCommand::ClickZoom { col: c, row: r, zoom_in: !self.last_ctrl }
                            } else {
                                ViewCommand::Nothing
                            },
                        )
                    } else {
                        (released, ViewCommand::Nothing)
                    }
                },
                MouseEventKind::Down(MouseButton::Right) => (
                    App {
                        mouse_hold: Some(
                            MouseHold { button: MouseButton::Right, col: c, row: r, frame_count: 0 },
                        ),
                        ..self
                    },
                    ViewCommand::Nothing,
                ),
                MouseEventKind::Up(MouseButton::Right) => {
                    if held_frames(self.mouse_hold) < CLICK_FRAMES {
                        (
                            App {
                                mouse_hold: None,
                                autopilot: Autopilot { active: false, ..self.autopilot },
                                dirty: true,
                                ..self
                            },
                            ViewCommand::ClickZoom { col: c, row: r, zoom_in: false },
                        )
                    } else {
                        (App { mouse_hold: None, ..self }, ViewCommand::Nothing)
                    }
                },
                MouseEventKind::ScrollUp => (
                    App {
                        autopilot: Autopilot { active: false, ..self.autopilot },
                        dirty: true,
                        ..self
                    },
                    ViewCommand::ScrollZoom { col: c, row: r, zoom_in: true },
                ),
                MouseEventKind::ScrollDown => (
                    App {
                        autopilot: Autopilot { active: false, ..self.autopilot },
                        dirty: true,
                        ..self
                    },
                    ViewCommand::ScrollZoom { col: c, row: r, zoom_in: false },
                ),
                _ => (self, ViewCommand::Nothing),
            }
        }
    }

    /// The hold after one more frame (the frame counter wraps like an
    /// unchecked `u32` increment in a release build).
    pub open spec fn spec_aged_hold(hold: Option<MouseHold>) -> Option<MouseHold> {
        match hold {
            Some(h) => Some(
                MouseHold {
                    frame_count: (if h.frame_count < u32::MAX {
                        h.frame_count + 1
                    } else {
                        0
                    }) as u32,
                    ..h
                },
            ),
            None => None,
        }
    }

    /// The effect of one frame: a button held long enough, outside a drag,
    /// on a canvas with a size, zooms continuously and stops the autopilot;
    /// then an active autopilot with a computed frame advances.
    pub open spec fn spec_tick(self, has_results: bool) -> (App, TickPlan) {
        let hold = Self::spec_aged_hold(self.mouse_hold);
        let s1 = App { mouse_hold: hold, ..self };
        let (s2, hold_cmd) = match hold {
            Some(h) => if h.frame_count >= HOLD_ZOOM_FRAMES && !self.is_dragging && self.canvas_cols
                > 0 && self.canvas_rows > 0 {
                (
                    App {
                        autopilot: Autopilot { active: false, ..s1.autopilot },
                        dirty: true,
                        ..s1
                    },
                    ViewCommand::HoldZoom { col: h.col, row: h.row, button: h.button },
                )
            } else {
                (s1, ViewCommand::Nothing)
            },
            None => (s1, ViewCommand::Nothing),
        };
        if s2.autopilot.active && has_results {
            (
                App {
                    autopilot: Autopilot { active: true, needs_target: false },
                    dirty: true,
                    ..s2
                },
                TickPlan {
                    hold: hold_cmd,
                    autopilot: AutopilotStep::Drift { pick_first: s2.autopilot.needs_target },
                },
            )
        } else {
            (s2, TickPlan { hold: hold_cmd, autopilot: AutopilotStep::Idle })
        }
    }

    /// A fresh state over `fractal_count` fractals: the first fractal, the
    /// classic palette, adaptive depth starting at 128, autopilot off, and
    /// a first frame to compute.
    pub fn new(fractal_count: usize) -> (r: App)
        requires
            fractal_count > 0,
        ensures
            r.wf(),
            r.fractal_idx == 0,
            r.fractal_count == fractal_count,
            r.max_iter == DEFAULT_MAX_ITER,
            r.palette == Palette::Classic,
            !r.autopilot.active,
            r.autopilot.needs_target,
            !r.show_help,
            !r.should_quit,
            r.adaptive_iter,
            r.dirty,
            r.canvas_cols == 0,
            r.canvas_rows == 0,
            r.drag_start is None,
            !r.last_ctrl,
            r.mouse_hold is None,
            !r.is_dragging,
    {
        App {
            fractal_idx: 0,
            fractal_count,
            max_iter: DEFAULT_MAX_ITER,
            palette: Palette::Classic,
            autopilot: Autopilot::new(),
            show_help: false,
            should_quit: false,
            adaptive_iter: true,
            dirty: true,
            canvas_cols: 0,
            canvas_rows: 0,
            drag_start: None,
            last_ctrl: false,
            mouse_hold: None,
            is_dragging: false,
        }
    }

    /// Record the canvas size of a frame about to be computed and, in
    /// adaptive mode, take the depth the zoom level calls for.
    pub fn compute(&mut self, cols: u16, rows: u16, adaptive_max_iter: u32)
        requires
            old(self).wf(),
            adaptive_max_iter <= MAX_ITER_CAP,
        ensures
            *final(self) == (App {
                canvas_cols: cols,
                canvas_rows: rows,
                max_iter: if old(self).adaptive_iter {
                    adaptive_max_iter
                } else {
                    old(self).max_iter
                },
                ..*old(self)
            }),
            final(self).wf(),
    {
        self.canvas_cols = cols;
        self.canvas_rows = rows;
        if self.adaptive_iter {
            self.max_iter = adaptive_max_iter;
        }
    }

    fn next_fractal(&mut self)
        requires
            old(self).wf(),
        ensures
            *final(self) == (App {
                fractal_idx: next_index(
                    old(self).fractal_idx as int,
                    old(self).fractal_count as int,
                ) as usize,
                adaptive_iter: true,
                ..*old(self)
            }),
            final(self).wf(),
    {
        self.fractal_idx = (self.fractal_idx + 1) % self.fractal_count;
        self.adaptive_iter = true;
    }

    fn prev_fractal(&mut self)
        requires
            old(self).wf(),
        ensures
            *final(self) == (App {
                fractal_idx: prev_index(
                    old(self).fractal_idx as int,
                    old(self).fractal_count as int,
                ) as usize,
                adaptive_iter: true,
                ..*old(self)
            }),
            final(self).wf(),
    {
        if self.fractal_idx == 0 {
            self.fractal_idx = self.fractal_count - 1;
        } else {
            self.fractal_idx -= 1;
        }
        self.adaptive_iter = true;
    }

    /// Handle a key press and return the view change it asks for.
    pub fn handle_key(&mut self, key: KeyEvent) -> (cmd: ViewCommand)
        requires
            old(self).wf(),
        ensures
            (*final(self), cmd) == old(self).spec_handle_key(key),
            final(self).wf(),
    {
        if self.show_help {
            self.show_help = false;
            return ViewCommand::Nothing;
        }
        let action = key_action(&key);
        self.apply_action(action)
    }

    fn apply_action(&mut self, action: KeyAction) -> (cmd: ViewCommand)
        requires
            old(self).wf(),
        ensures
            (*final(self), cmd) == old(self).spec_apply_action(action),
            final(self).wf(),
    {
        match action {
            KeyAction::Quit => {
                self.should_quit = true;
                ViewCommand::Nothing
            },
            KeyAction::Pan { dx, dy } => {
                self.dirty = true;
                ViewCommand::Pan { dx, dy }
            },
            KeyAction::Zoom { zoom_in } => {
                self.dirty = true;
                ViewCommand::Zoom { zoom_in }
            },
            KeyAction::NextFractal => {
                self.next_fractal();
                self.dirty = true;
                ViewCommand::ResetView
            },
            KeyAction::PrevFractal => {
                self.prev_fractal();
                self.dirty = true;
                ViewCommand::ResetView
            },
            KeyAction::CyclePalette => {
                self.palette = self.palette.next();
                self.dirty = true;
                ViewCommand::Nothing
            },
            KeyAction::Reset => {
                self.max_iter = DEFAULT_MAX_ITER;
                self.adaptive_iter = true;
                self.dirty = true;
                ViewCommand::ResetView
            },
            KeyAction::MoreIterations => {
                self.adaptive_iter = false;
                let raised = self.max_iter + ITER_STEP;
                self.max_iter = if raised < MAX_ITER_CAP {
                    raised
                } else {
                    MAX_ITER_CAP
                };
                self.dirty = true;
                ViewCommand::Nothing
            },
            KeyAction::FewerIterations => {
                self.adaptive_iter = false;
                let lowered = self.max_iter.saturating_sub(ITER_STEP);
                self.max_iter = if lowered > MIN_MANUAL_ITER {
                    lowered
                } else {
                    MIN_MANUAL_ITER
                };
                self.dirty = true;
                ViewCommand::Nothing
            },
            KeyAction::ToggleAutopilot => {
                self.autopilot.toggle();
                self.dirty = true;
                ViewCommand::Nothing
            },
            KeyAction::ToggleHelp => {
                self.show_help = !self.show_help;
                ViewCommand::Nothing
            },
            KeyAction::Ignore => ViewCommand::Nothing,
        }
    }

    /// Handle a mouse event and return the view change it asks for.
    pub fn handle_mouse(&mut self, ev: MouseEvent) -> (cmd: ViewCommand)
        requires
            old(self).wf(),
        ensures
            (*final(self), cmd) == old(self).spec_handle_mouse(ev),
            final(self).wf(),
    {
        if self.canvas_cols == 0 || self.canvas_rows == 0 {
            return ViewCommand::Nothing;
        }
        let c = ev.column;
        let r = ev.row;
        match ev.kind {
            MouseEventKind::Down(MouseButton::Left) => {
                self.last_ctrl = ev.ctrl;
                self.drag_start = Some((c, r));
                self.is_dragging = false;
                self.mouse_hold = Some(
                    MouseHold { button: MouseButton::Left, col: c, row: r, frame_count: 0 },
                );
                ViewCommand::Anchor
            },
            MouseEventKind::Drag(MouseButton::Left) => self.left_drag(ev),
            MouseEventKind::Up(MouseButton::Left) => self.left_release(ev),
            MouseEventKind::Down(MouseButton::Right) => {
                self.mouse_hold = Some(
                    MouseHold { button: MouseButton::Right, col: c, row: r, frame_count: 0 },
                );
                ViewCommand::Nothing
            },
            MouseEventKind::Up(MouseButton::Right) => self.right_release(ev),
            MouseEventKind::ScrollUp => {
                self.autopilot.active = false;
                self.dirty = true;
                ViewCommand::ScrollZoom { col: c, row: r, zoom_in: true }
            },
            MouseEventKind::ScrollDown => {
                self.autopilot.active = false;
                self.dirty = true;
                ViewCommand::ScrollZoom { col: c, row: r, zoom_in: false }
            },
            _ => ViewCommand::Nothing,
        }
    }

    fn left_drag(&mut self, ev: MouseEvent) -> (cmd: ViewCommand)
        requires
            old(self).wf(),
            old(self).canvas_cols > 0,
            old(self).canvas_rows > 0,
            ev.kind == MouseEventKind::Drag(MouseButton::Left),
        ensures
            (*final(self), cmd) == old(self).spec_handle_mouse(ev),
            final(self).wf(),
    {
        let c = ev.column;
        let r = ev.row;
        // A hold that turns into a drag re-anchors at the current position,
        // so the pan starts from the post-zoom view.
        let reanchor = self.mouse_hold.is_some();
        if reanchor {
            self.drag_start = Some((c, r));
        }
        self.is_dragging = true;
        self.mouse_hold = None;
        match self.drag_start {
            Some((start_col, start_row)) => {
                self.autopilot.active = false;
                self.dirty = true;
                ViewCommand::DragPan { reanchor, start_col, start_row, col: c, row: r }
            },
            None => ViewCommand::Nothing,
        }
    }

    fn left_release(&mut self, ev: MouseEvent) -> (cmd: ViewCommand)
        requires
            old(self).wf(),
            old(self).canvas_cols > 0,
            old(self).canvas_rows > 0,
            ev.kind == MouseEventKind::Up(MouseButton::Left),
        ensures
            (*final(self), cmd) == old(self).spec_handle_mouse(ev),
            final(self).wf(),
    {
        let held = match &self.mouse_hold {
            Some(h) => h.frame_count,
            None => 0,
        };
        self.mouse_hold = None;
        let mut cmd = ViewCommand::Nothing;
        if self.drag_start.is_some() {
            self.drag_start = None;
            if !self.is_dragging && held < CLICK_FRAMES {
                // A short click centres on the point and zooms.
                cmd = ViewCommand::ClickZoom { col: ev.column, row: ev.row, zoom_in: !self.last_ctrl };
            }
            self.autopilot.active = false;
            self.dirty = true;
        }
        self.is_dragging = false;
        cmd
    }

    fn right_release(&mut self, ev: MouseEvent) -> (cmd: ViewCommand)
        requires
            old(self).wf(),
            old(self).canvas_cols > 0,
            old(self).canvas_rows > 0,
            ev.kind == MouseEventKind::Up(MouseButton::Right),
        ensures
            (*final(self), cmd) == old(self).spec_handle_mouse(ev),
            final(self).wf(),
    {
        let held = match &self.mouse_hold {
            Some(h) => h.frame_count,
            None => 0,
        };
        self.mouse_hold = None;
        if held < CLICK_FRAMES {
            self.autopilot.active = false;
            self.dirty = true;
            ViewCommand::ClickZoom { col: ev.column, row: ev.row, zoom_in: false }
        } else {
            ViewCommand::Nothing
        }
    }

    /// Advance one frame; `has_results` tells whether a frame has been
    /// computed for the autopilot to look at.
    pub fn tick(&mut self, has_results: bool) -> (plan: TickPlan)
        requires
            old(self).wf(),
        ensures
            (*final(self), plan) == old(self).spec_tick(has_results),
            final(self).wf(),
    {
        let mut hold_cmd = ViewCommand::Nothing;
        match self.mouse_hold {
            Some(h) => {
                let aged = MouseHold { frame_count: h.frame_count.wrapping_add(1), ..h };
                self.mouse_hold = Some(aged);
                if aged.frame_count >= HOLD_ZOOM_FRAMES && !self.is_dragging && self.canvas_cols > 0
                    && self.canvas_rows > 0 {
                    hold_cmd = ViewCommand::HoldZoom { col: aged.col, row: aged.row, button: aged.button };
                    self.autopilot.active = false;
                    self.dirty = true;
                }
            },
            None => {},
        }
        let mut step = AutopilotStep::Idle;
        if self.autopilot.active && has_results {
            step = self.autopilot.tick();
            self.dirty = true;
        }
        TickPlan { hold: hold_cmd, autopilot: step }
    }
}


/// The Tab key.
pub open spec fn tab_key() -> KeyEvent {
    KeyEvent { code: KeyCode::Tab, ctrl: false, shift: false }
}

/// The Shift+Tab key as terminals report it.
pub open spec fn back_tab_key() -> KeyEvent {
    KeyEvent { code: KeyCode::BackTab, ctrl: false, shift: false }
}

/// The fractal index reached from `i` after `k` steps forward in a cycle
/// of `n`.
pub open spec fn next_index_n(i: int, n: int, k: nat) -> int
    decreases k,
{
    if k == 0 {
        i
    } else {
        next_index(next_index_n(i, n, (k - 1) as nat), n)
    }
}

/// Switching to the next fractal and then back to the previous one (Tab,
/// then Shift+Tab) returns to the fractal shown before, and so does the
/// reverse order.
pub proof fn lemma_tab_then_back_tab(s: App)
    requires
        s.wf(),
        !s.show_help,
    ensures
        s.spec_handle_key(tab_key()).0.spec_handle_key(back_tab_key()).0.fractal_idx
            == s.fractal_idx,
        s.spec_handle_key(back_tab_key()).0.spec_handle_key(tab_key()).0.fractal_idx
            == s.fractal_idx,
{
    let i = s.fractal_idx as int;
    let n = s.fractal_count as int;
    if i + 1 < n {
        vstd::arithmetic::div_mod::lemma_small_mod((i + 1) as nat, n as nat);
    } else {
        vstd::arithmetic::div_mod::lemma_mod_self_0(n);
    }
    if i == 0 {
        vstd::arithmetic::div_mod::lemma_mod_self_0(n);
    } else {
        vstd::arithmetic::div_mod::lemma_small_mod(i as nat, n as nat);
    }
}

/// Pressing Tab as many times as there are fractals shows every fractal in
/// turn and comes back to the first one shown.
pub proof fn lemma_tab_cycles(i: int, n: int)
    requires
        0 <= i < n,
    ensures
        next_index_n(i, n, n as nat) == i,
        forall|k: nat| #[trigger] next_index_n(i, n, k) == (i + k) % n,
{
    assert forall|k: nat| #[trigger] next_index_n(i, n, k) == (i + k) % n by {
        lemma_next_index_n(i, n, k);
    }
    lemma_next_index_n(i, n, n as nat);
    vstd::arithmetic::div_mod::lemma_mod_add_multiples_vanish(i, n);
    vstd::arithmetic::div_mod::lemma_small_mod(i as nat, n as nat);
}

proof fn lemma_next_index_n(i: int, n: int, k: nat)
    requires
        0 <= i < n,
    ensures
        next_index_n(i, n, k) == (i + k) % n,
    decreases k,
{
    if k > 0 {
        lemma_next_index_n(i, n, (k - 1) as nat);
        vstd::arithmetic::div_mod::lemma_add_mod_noop_right(1, i + k - 1, n);
    } else {
        vstd::arithmetic::div_mod::lemma_small_mod(i as nat, n as nat);
    }
}

/// Raising the iteration depth with `]` and lowering it with `[` undo each
/// other away from the limits: `[` undoes `]` from 32 up to 16320, and `]`
/// undoes `[` from 96 up to the cap.
pub proof fn lemma_iteration_keys_undo(m: int)
    ensures
        MIN_MANUAL_ITER <= m <= MAX_ITER_CAP - ITER_STEP ==> iter_down(iter_up(m)) == m,
        MIN_MANUAL_ITER + ITER_STEP <= m <= MAX_ITER_CAP ==> iter_up(iter_down(m)) == m,
{
}

/// Manual depth changes keep the depth between 32 and the cap.
pub proof fn lemma_iteration_keys_bounded(m: int)
    requires
        0 <= m <= MAX_ITER_CAP,
    ensures
        MIN_MANUAL_ITER <= iter_up(m) <= MAX_ITER_CAP,
        MIN_MANUAL_ITER <= iter_down(m) <= MAX_ITER_CAP,
        m <= iter_up(m),
        iter_down(m) <= m || m < MIN_MANUAL_ITER,
{
}

/// Every mouse gesture that moves or zooms the view takes the controls back
/// from the autopilot and asks for a new frame.
pub proof fn lemma_mouse_view_change_stops_autopilot(s: App, ev: MouseEvent)
    requires
        s.wf(),
    ensures
        ({
            let (t, cmd) = s.spec_handle_mouse(ev);
            (cmd is DragPan || cmd is ClickZoom || cmd is ScrollZoom) ==> !t.autopilot.active
                && t.dirty
        }),
{
}

/// A continuous hold-zoom frame is never also an autopilot frame: holding a
/// button takes the controls back from the autopilot at once.
pub proof fn lemma_hold_zoom_stops_autopilot(s: App, has_results: bool)
    requires
        s.wf(),
    ensures
        ({
            let (t, plan) = s.spec_tick(has_results);
            plan.hold is HoldZoom ==> plan.autopilot == AutopilotStep::Idle && !t.autopilot.active
                && t.dirty
        }),
{
}

/// While the help overlay is shown, a key press only closes it: nothing
/// else changes and the view stays put.
pub proof fn lemma_help_swallows_keys(s: App, key: KeyEvent)
    requires
        s.show_help,
    ensures
        s.spec_handle_key(key) == (App { show_help: false, ..s }, ViewCommand::Nothing),
{
}

/// `q`, Esc and Ctrl+C quit (when the help overlay is not shown).
pub proof fn lemma_quit_keys(s: App, key: KeyEvent)
    requires
        !s.show_help,
        key.code == KeyCode::Char('q') || key.code == KeyCode::Esc || (key.code == KeyCode::Char(
            'c',
        ) && key.ctrl),
    ensures
        s.spec_handle_key(key).0.should_quit,
        s.spec_handle_key(key).1 == ViewCommand::Nothing,
{
}


/// The state after `k` frames.
pub open spec fn ticks(s: App, k: nat, has_results: bool) -> App
    decreases k,
{
    if k == 0 {
        s
    } else {
        ticks(s, (k - 1) as nat, has_results).spec_tick(has_results).0
    }
}

proof fn lemma_ticks_age_left_press(s: App, k: nat, has_results: bool, c: u16, r: u16, ctrl: bool)
    requires
        s.wf(),
        k < u32::MAX,
        s.drag_start == Some((c, r)),
        !s.is_dragging,
        s.last_ctrl == ctrl,
        s.mouse_hold == Some(MouseHold { button: MouseButton::Left, col: c, row: r, frame_count: 0 }),
    ensures
        ({
            let t = ticks(s, k, has_results);
            &&& t.wf()
            &&& t.drag_start == Some((c, r))
            &&& !t.is_dragging
            &&& t.last_ctrl == ctrl
            &&& t.canvas_cols == s.canvas_cols
            &&& t.canvas_rows == s.canvas_rows
            &&& t.mouse_hold == Some(
                MouseHold { button: MouseButton::Left, col: c, row: r, frame_count: k as u32 },
            )
        }),
    decreases k,
{
    if k > 0 {
        lemma_ticks_age_left_press(s, (k - 1) as nat, has_results, c, r, ctrl);
    }
}

/// A left press released after fewer than five frames is a click: it
/// centres on the release cell and zooms in, or out when Control was held
/// at the press. Released after five frames or more it is a hold, whose
/// zooming already happened frame by frame, and the release does not zoom.
pub proof fn lemma_click_or_hold(s: App, press: MouseEvent, k: nat, has_results: bool, release: MouseEvent)
    requires
        s.wf(),
        s.canvas_cols > 0,
        s.canvas_rows > 0,
        press.kind == MouseEventKind::Down(MouseButton::Left),
        release.kind == MouseEventKind::Up(MouseButton::Left),
        k < u32::MAX,
    ensures
        ({
            let pressed = s.spec_handle_mouse(press).0;
            let cmd = ticks(pressed, k, has_results).spec_handle_mouse(release).1;
            &&& k < CLICK_FRAMES ==> cmd == ViewCommand::ClickZoom {
                col: release.column,
                row: release.row,
                zoom_in: !press.ctrl,
            }
            &&& k >= CLICK_FRAMES ==> cmd == ViewCommand::Nothing
        }),
{
    let pressed = s.spec_handle_mouse(press).0;
    lemma_ticks_age_left_press(pressed, k, has_results, press.column, press.row, press.ctrl);
}


/// The key with code `code` and the given modifiers.
pub open spec fn key_of(code: KeyCode, ctrl: bool, shift: bool) -> KeyEvent {
    KeyEvent { code, ctrl, shift }
}

/// The key bindings, whatever modifiers are held: the arrows pan (left
/// `dx == -1`, right `dx == 1`, up `dy == 1`, down `dy == -1`) and `a`, `d`,
/// `w`, `s` do exactly what Left, Right, Up, Down do; `+` and `=` zoom in,
/// `-` zooms out; `q` and Esc quit, and `c` quits with Control and cycles the
/// palette without it; Tab goes to the next fractal, Shift+Tab and BackTab
/// to the previous one; `r` resets, `]` and `[` raise and lower the depth,
/// Space toggles the autopilot, `?` the help; every other key is ignored.
pub proof fn lemma_key_bindings(ctrl: bool, shift: bool, c: char)
    ensures
        spec_key_action(key_of(KeyCode::Left, ctrl, shift)) == (KeyAction::Pan { dx: -1i8, dy: 0 }),
        spec_key_action(key_of(KeyCode::Right, ctrl, shift)) == (KeyAction::Pan { dx: 1, dy: 0 }),
        spec_key_action(key_of(KeyCode::Up, ctrl, shift)) == (KeyAction::Pan { dx: 0, dy: 1 }),
        spec_key_action(key_of(KeyCode::Down, ctrl, shift)) == (KeyAction::Pan { dx: 0, dy: -1i8 }),
        spec_key_action(key_of(KeyCode::Char('a'), ctrl, shift)) == spec_key_action(
            key_of(KeyCode::Left, ctrl, shift),
        ),
        spec_key_action(key_of(KeyCode::Char('d'), ctrl, shift)) == spec_key_action(
            key_of(KeyCode::Right, ctrl, shift),
        ),
        spec_key_action(key_of(KeyCode::Char('w'), ctrl, shift)) == spec_key_action(
            key_of(KeyCode::Up, ctrl, shift),
        ),
        spec_key_action(key_of(KeyCode::Char('s'), ctrl, shift)) == spec_key_action(
            key_of(KeyCode::Down, ctrl, shift),
        ),
        spec_key_action(key_of(KeyCode::Char('+'), ctrl, shift)) == (KeyAction::Zoom { zoom_in: true }),
        spec_key_action(key_of(KeyCode::Char('='), ctrl, shift)) == (KeyAction::Zoom { zoom_in: true }),
        spec_key_action(key_of(KeyCode::Char('-'), ctrl, shift)) == (KeyAction::Zoom { zoom_in: false }),
        spec_key_action(key_of(KeyCode::Char('q'), ctrl, shift)) == KeyAction::Quit,
        spec_key_action(key_of(KeyCode::Esc, ctrl, shift)) == KeyAction::Quit,
        spec_key_action(key_of(KeyCode::Char('c'), ctrl, shift)) == (if ctrl {
            KeyAction::Quit
        } else {
            KeyAction::CyclePalette
        }),
        spec_key_action(key_of(KeyCode::Tab, ctrl, shift)) == (if shift {
            KeyAction::PrevFractal
        } else {
            KeyAction::NextFractal
        }),
        spec_key_action(key_of(KeyCode::BackTab, ctrl, shift)) == KeyAction::PrevFractal,
        spec_key_action(key_of(KeyCode::Char('r'), ctrl, shift)) == KeyAction::Reset,
        spec_key_action(key_of(KeyCode::Char(']'), ctrl, shift)) == KeyAction::MoreIterations,
        spec_key_action(key_of(KeyCode::Char('['), ctrl, shift)) == KeyAction::FewerIterations,
        spec_key_action(key_of(KeyCode::Char(' '), ctrl, shift)) == KeyAction::ToggleAutopilot,
        spec_key_action(key_of(KeyCode::Char('?'), ctrl, shift)) == KeyAction::ToggleHelp,
        spec_key_action(key_of(KeyCode::Other, ctrl, shift)) == KeyAction::Ignore,
        !(c == 'a' || c == 'd' || c == 'w' || c == 's' || c == '+' || c == '=' || c == '-' || c == 'q'
            || c == 'c' || c == 'r' || c == ']' || c == '[' || c == ' ' || c == '?') ==> spec_key_action(
            key_of(KeyCode::Char(c), ctrl, shift),
        ) == KeyAction::Ignore,
{
}

/// What a key press does to the state and the view, outside the help
/// overlay: a pan or zoom key asks for exactly that pan or zoom and changes
/// nothing but the request for a new frame; fractal switching moves the
/// index one step around the cycle, restores adaptive depth and resets the
/// view; `c` advances the palette; `r` resets depth and view; the help key
/// opens the help without a new frame; a quit key only quits; ignored keys
/// change nothing.
pub proof fn lemma_key_effects(s: App, key: KeyEvent)
    requires
        s.wf(),
        !s.show_help,
    ensures
        ({
            let (t, cmd) = s.spec_handle_key(key);
            let a = spec_key_action(key);
            &&& a matches KeyAction::Pan { dx, dy } ==> cmd == (ViewCommand::Pan { dx, dy }) && t == (App {
                dirty: true,
                ..s
            })
            &&& a matches KeyAction::Zoom { zoom_in } ==> cmd == (ViewCommand::Zoom { zoom_in }) && t == (
            App { dirty: true, ..s })
            &&& a is NextFractal ==> cmd == ViewCommand::ResetView && t.fractal_idx == (s.fractal_idx + 1)
                % (s.fractal_count as int) && t.adaptive_iter && t.dirty && t.max_iter == s.max_iter
                && t.palette == s.palette && t.autopilot == s.autopilot
            &&& a is PrevFractal ==> cmd == ViewCommand::ResetView && (t.fractal_idx + 1) % (s.fractal_count as int)
                == s.fractal_idx && t.fractal_idx < s.fractal_count && t.adaptive_iter && t.dirty
                && t.max_iter == s.max_iter && t.palette == s.palette && t.autopilot == s.autopilot
            &&& a is CyclePalette ==> cmd == ViewCommand::Nothing && t.palette.index() == (s.palette.index()
                + 1) % 5 && t.dirty && t.fractal_idx == s.fractal_idx && t.max_iter == s.max_iter
            &&& a is Reset ==> cmd == ViewCommand::ResetView && t.max_iter == 128 && t.adaptive_iter
                && t.dirty && t.fractal_idx == s.fractal_idx && t.palette == s.palette
            &&& a is MoreIterations ==> cmd == ViewCommand::Nothing && !t.adaptive_iter && t.dirty && (
            t.max_iter == s.max_iter + 64 || (t.max_iter == 16384 && s.max_iter + 64 >= 16384))
            &&& a is FewerIterations ==> cmd == ViewCommand::Nothing && !t.adaptive_iter && t.dirty && (
            t.max_iter == s.max_iter - 64 || (t.max_iter == 32 && s.max_iter - 64 <= 32))
            &&& a is ToggleHelp ==> cmd == ViewCommand::Nothing && t == (App { show_help: true, ..s })
            &&& a is Quit ==> cmd == ViewCommand::Nothing && t == (App { should_quit: true, ..s })
            &&& a is Ignore ==> cmd == ViewCommand::Nothing && t == s
        }),
{
    let n = s.fractal_count as int;
    let i = s.fractal_idx as int;
    if i + 1 < n {
        vstd::arithmetic::div_mod::lemma_small_mod((i + 1) as nat, n as nat);
    } else {
        vstd::arithmetic::div_mod::lemma_mod_self_0(n);
    }
    if i == 0 {
        vstd::arithmetic::div_mod::lemma_mod_self_0(n);
    } else {
        vstd::arithmetic::div_mod::lemma_small_mod(i as nat, n as nat);
    }
}

/// Space switches the autopilot on and off, with any modifiers. Switching
/// it on always asks for a fresh target, so its first frame (with a
/// computed frame to look at and no button held) picks one before drifting;
/// switching it off keeps the pending request as it was.
pub proof fn lemma_space_toggles_autopilot(s: App, ctrl: bool, shift: bool)
    requires
        s.wf(),
        !s.show_help,
    ensures
        ({
            let (t, cmd) = s.spec_handle_key(key_of(KeyCode::Char(' '), ctrl, shift));
            &&& cmd == ViewCommand::Nothing
            &&& t.autopilot.active == !s.autopilot.active
            &&& t.autopilot.active ==> t.autopilot.needs_target
            &&& !t.autopilot.active ==> t.autopilot.needs_target == s.autopilot.needs_target
            &&& t.dirty
            &&& (!s.autopilot.active && s.mouse_hold is None) ==> t.spec_tick(true).1.autopilot == (
            AutopilotStep::Drift { pick_first: true })
        }),
{
}

/// One frame of a held button: the hold ages by one frame; continuous zoom
/// is asked for exactly when the hold has lasted four frames or more, no
/// drag is under way and the canvas has a size, and it then zooms at the
/// held cell in the direction of the held button.
pub proof fn lemma_hold_zoom_follows_hold(s: App, has_results: bool)
    requires
        s.wf(),
    ensures
        ({
            let (t, plan) = s.spec_tick(has_results);
            &&& plan.hold is HoldZoom || plan.hold is Nothing
            &&& plan.hold matches ViewCommand::HoldZoom { col, row, button } ==> (s.mouse_hold matches Some(
                h,
            ) && col == h.col && row == h.row && button == h.button)
            &&& s.mouse_hold is None ==> t.mouse_hold is None && plan.hold is Nothing
            &&& s.mouse_hold matches Some(h) ==> (t.mouse_hold matches Some(g) && g.button == h.button
                && g.col == h.col && g.row == h.row && (h.frame_count < u32::MAX ==> g.frame_count
                == h.frame_count + 1))
            &&& (s.mouse_hold matches Some(h) && h.frame_count < u32::MAX && h.frame_count + 1 >= 4
                && !s.is_dragging && s.canvas_cols > 0 && s.canvas_rows > 0) ==> plan.hold is HoldZoom
            &&& (s.mouse_hold matches Some(h) && h.frame_count + 1 < 4) ==> plan.hold is Nothing
            &&& s.is_dragging ==> plan.hold is Nothing
        }),
{
}

/// Every mouse command aims at the event's own cell: clicks and wheel
/// steps zoom at (`ev.column`, `ev.row`), the wheel zooms in going up and
/// out going down, a right click zooms out, a left click zooms in unless
/// Control was held at the press, and a drag pans toward the event's cell
/// from the cell where the drag was anchored. A left press anchors at its
/// own cell and starts a hold there.
pub proof fn lemma_mouse_targets_event_cell(s: App, ev: MouseEvent)
    requires
        s.wf(),
    ensures
        ({
            let (t, cmd) = s.spec_handle_mouse(ev);
            &&& cmd matches ViewCommand::ScrollZoom { col, row, zoom_in } ==> col == ev.column && row
                == ev.row && (ev.kind == MouseEventKind::ScrollUp || ev.kind == MouseEventKind::ScrollDown)
                && zoom_in == (ev.kind == MouseEventKind::ScrollUp)
            &&& cmd matches ViewCommand::ClickZoom { col, row, zoom_in } ==> col == ev.column && row
                == ev.row && (ev.kind == MouseEventKind::Up(MouseButton::Left) || ev.kind
                == MouseEventKind::Up(MouseButton::Right)) && (ev.kind == MouseEventKind::Up(
                MouseButton::Right,
            ) ==> !zoom_in) && (ev.kind == MouseEventKind::Up(MouseButton::Left) ==> zoom_in
                == !s.last_ctrl)
            &&& cmd matches ViewCommand::DragPan { reanchor, start_col, start_row, col, row } ==> col
                == ev.column && row == ev.row && ev.kind == MouseEventKind::Drag(MouseButton::Left)
                && reanchor == (s.mouse_hold is Some) && (reanchor ==> start_col == ev.column
                && start_row == ev.row) && (!reanchor ==> s.drag_start == Some((start_col, start_row)))
            &&& cmd is HoldZoom ==> false
            &&& (s.canvas_cols > 0 && s.canvas_rows > 0) ==> {
                &&& ev.kind == MouseEventKind::ScrollUp ==> cmd == (ViewCommand::ScrollZoom {
                    col: ev.column,
                    row: ev.row,
                    zoom_in: true,
                })
                &&& ev.kind == MouseEventKind::ScrollDown ==> cmd == (ViewCommand::ScrollZoom {
                    col: ev.column,
                    row: ev.row,
                    zoom_in: false,
                })
                &&& ev.kind == MouseEventKind::Down(MouseButton::Left) ==> cmd == ViewCommand::Anchor
                    && t.drag_start == Some((ev.column, ev.row)) && t.last_ctrl == ev.ctrl
                    && t.mouse_hold == Some(
                    MouseHold {
                        button: MouseButton::Left,
                        col: ev.column,
                        row: ev.row,
                        frame_count: 0,
                    },
                )
                &&& ev.kind == MouseEventKind::Down(MouseButton::Right) ==> cmd == ViewCommand::Nothing
                    && t.mouse_hold == Some(
                    MouseHold {
                        button: MouseButton::Right,
                        col: ev.column,
                        row: ev.row,
                        frame_count: 0,
                    },
                )
            }
            &&& (s.canvas_cols == 0 || s.canvas_rows == 0) ==> t == s && cmd == ViewCommand::Nothing
        }),
{
}


/// Releasing a button ends the gesture. A right release zooms out at its
/// cell exactly when the button was held for fewer than five frames (or no
/// hold was recorded); a left release ends any drag and zooms only when a
/// press anchored it, it was not dragged and it was short.
pub proof fn lemma_release_ends_gesture(s: App, ev: MouseEvent)
    requires
        s.wf(),
        s.canvas_cols > 0,
        s.canvas_rows > 0,
    ensures
        ({
            let (t, cmd) = s.spec_handle_mouse(ev);
            let held: u32 = match s.mouse_hold {
                Some(h) => h.frame_count,
                None => 0,
            };
            &&& ev.kind == MouseEventKind::Up(MouseButton::Right) ==> t.mouse_hold is None && (cmd
                is ClickZoom <==> held < 5) && (cmd is ClickZoom || cmd is Nothing)
            &&& ev.kind == MouseEventKind::Up(MouseButton::Left) ==> t.mouse_hold is None
                && t.drag_start is None && !t.is_dragging && (cmd is ClickZoom <==> (s.drag_start is Some
                && !s.is_dragging && held < 5)) && (cmd is ClickZoom || cmd is Nothing)
        }),
{
}

/// One frame of the autopilot: it moves only when it is on, a frame has
/// been computed and no hold-zoom took over this frame; it then drifts,
/// picking a target first exactly when it needed one, and needs none
/// afterwards. A frame never changes the fractal, palette or depth.
pub proof fn lemma_tick_autopilot(s: App, has_results: bool)
    requires
        s.wf(),
    ensures
        ({
            let (t, plan) = s.spec_tick(has_results);
            &&& (!s.autopilot.active || !has_results) ==> plan.autopilot == AutopilotStep::Idle
                && t.autopilot.needs_target == s.autopilot.needs_target
            &&& (s.autopilot.active && has_results && plan.hold is Nothing) ==> plan.autopilot == (
            AutopilotStep::Drift { pick_first: s.autopilot.needs_target }) && t.autopilot.active
                && !t.autopilot.needs_target && t.dirty
            &&& t.fractal_idx == s.fractal_idx && t.palette == s.palette && t.max_iter == s.max_iter
                && t.show_help == s.show_help && t.should_quit == s.should_quit
        }),
{
}

/// Look up the action bound to a key.
pub fn key_action(key: &KeyEvent) -> (r: KeyAction)
    ensures
        r == spec_key_action(*key),
{
    match key.code {
        KeyCode::Esc => KeyAction::Quit,
        KeyCode::Left => KeyAction::Pan { dx: -1, dy: 0 },
        KeyCode::Right => KeyAction::Pan { dx: 1, dy: 0 },
        KeyCode::Up => KeyAction::Pan { dx: 0, dy: 1 },
        KeyCode::Down => KeyAction::Pan { dx: 0, dy: -1 },
        KeyCode::Tab => if key.shift {
            KeyAction::PrevFractal
        } else {
            KeyAction::NextFractal
        },
        KeyCode::BackTab => KeyAction::PrevFractal,
        KeyCode::Other => KeyAction::Ignore,
        KeyCode::Char(c) => match c {
            'q' => KeyAction::Quit,
            'c' => if key.ctrl {
                KeyAction::Quit
            } else {
                KeyAction::CyclePalette
            },
            'a' => KeyAction::Pan { dx: -1, dy: 0 },
            'd' => KeyAction::Pan { dx: 1, dy: 0 },
            'w' => KeyAction::Pan { dx: 0, dy: 1 },
            's' => KeyAction::Pan { dx: 0, dy: -1 },
            '+' | '=' => KeyAction::Zoom { zoom_in: true },
            '-' => KeyAction::Zoom { zoom_in: false },
            'r' => KeyAction::Reset,
            ']' => KeyAction::MoreIterations,
            '[' => KeyAction::FewerIterations,
            ' ' => KeyAction::ToggleAutopilot,
            '?' => KeyAction::ToggleHelp,
            _ => KeyAction::Ignore,
        },
    }
}

} // verus!
