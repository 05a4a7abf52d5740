use fractals_tui::app::{
    App, KeyCode, KeyEvent, MouseButton, MouseEvent, MouseEventKind, ViewCommand,
};
use fractals_tui::autopilot::{sample_points, Autopilot, AutopilotStep};
use fractals_tui::render::color::Palette;

fn key(c: KeyCode) -> KeyEvent {
    KeyEvent { code: c, ctrl: false, shift: false }
}

fn ch(c: char) -> KeyEvent {
    key(KeyCode::Char(c))
}

fn mouse(kind: MouseEventKind, column: u16, row: u16) -> MouseEvent {
    MouseEvent { kind, column, row, ctrl: false }
}

fn ready_app() -> App {
    let mut a = App::new(4);
    a.compute(80, 24, 128);
    a
}

#[test]
fn new_app_defaults() {
    let a = App::new(4);
    assert_eq!(a.fractal_idx, 0);
    assert_eq!(a.max_iter, 128);
    assert_eq!(a.palette, Palette::Classic);
    assert!(!a.autopilot.active);
    assert!(a.adaptive_iter && a.dirty && !a.show_help && !a.should_quit);
}

#[test]
fn quit_keys() {
    for k in [ch('q'), key(KeyCode::Esc), KeyEvent { code: KeyCode::Char('c'), ctrl: true, shift: false }] {
        let mut a = App::new(4);
        assert_eq!(a.handle_key(k), ViewCommand::Nothing);
        assert!(a.should_quit);
    }
}

#[test]
fn c_cycles_palette() {
    let mut a = App::new(4);
    a.dirty = false;
    a.handle_key(ch('c'));
    assert_eq!(a.palette, Palette::Fire);
    assert!(a.dirty && !a.should_quit);
}

#[test]
fn pan_and_zoom_keys() {
    let mut a = App::new(4);
    assert_eq!(a.handle_key(key(KeyCode::Left)), ViewCommand::Pan { dx: -1, dy: 0 });
    assert_eq!(a.handle_key(ch('d')), ViewCommand::Pan { dx: 1, dy: 0 });
    assert_eq!(a.handle_key(ch('w')), ViewCommand::Pan { dx: 0, dy: 1 });
    assert_eq!(a.handle_key(key(KeyCode::Down)), ViewCommand::Pan { dx: 0, dy: -1 });
    assert_eq!(a.handle_key(ch('+')), ViewCommand::Zoom { zoom_in: true });
    assert_eq!(a.handle_key(ch('=')), ViewCommand::Zoom { zoom_in: true });
    assert_eq!(a.handle_key(ch('-')), ViewCommand::Zoom { zoom_in: false });
    assert_eq!(a.handle_key(ch('x')), ViewCommand::Nothing);
}

#[test]
fn tab_cycles_fractals() {
    let mut a = App::new(4);
    for expected in [1, 2, 3, 0] {
        assert_eq!(a.handle_key(key(KeyCode::Tab)), ViewCommand::ResetView);
        assert_eq!(a.fractal_idx, expected);
    }
    a.handle_key(key(KeyCode::BackTab));
    assert_eq!(a.fractal_idx, 3);
    a.handle_key(KeyEvent { code: KeyCode::Tab, ctrl: false, shift: true });
    assert_eq!(a.fractal_idx, 2);
    a.handle_key(key(KeyCode::Tab));
    a.handle_key(key(KeyCode::BackTab));
    assert_eq!(a.fractal_idx, 2);
}

#[test]
fn switching_fractal_restores_adaptive_depth_only() {
    let mut a = App::new(4);
    a.handle_key(ch(']'));
    assert!(!a.adaptive_iter);
    a.handle_key(key(KeyCode::Tab));
    assert!(a.adaptive_iter);
    assert_eq!(a.max_iter, 192);
}

#[test]
fn iteration_keys_and_limits() {
    let mut a = App::new(4);
    a.handle_key(ch(']'));
    assert_eq!(a.max_iter, 192);
    assert!(!a.adaptive_iter);
    a.handle_key(ch('['));
    assert_eq!(a.max_iter, 128);
    a.handle_key(ch('['));
    a.handle_key(ch('['));
    assert_eq!(a.max_iter, 32);
    a.handle_key(ch('['));
    assert_eq!(a.max_iter, 32);
    a.handle_key(ch(']'));
    assert_eq!(a.max_iter, 96);
    for _ in 0..400 {
        a.handle_key(ch(']'));
    }
    assert_eq!(a.max_iter, 16384);
}

#[test]
fn reset_restores_depth() {
    let mut a = App::new(4);
    a.handle_key(ch(']'));
    assert_eq!(a.handle_key(ch('r')), ViewCommand::ResetView);
    assert_eq!(a.max_iter, 128);
    assert!(a.adaptive_iter);
}

#[test]
fn help_swallows_next_key() {
    let mut a = App::new(4);
    a.dirty = false;
    a.handle_key(ch('?'));
    assert!(a.show_help);
    assert_eq!(a.handle_key(ch('q')), ViewCommand::Nothing);
    assert!(!a.show_help);
    assert!(!a.should_quit);
    assert!(!a.dirty);
}

#[test]
fn space_toggles_autopilot() {
    let mut a = App::new(4);
    a.handle_key(ch(' '));
    assert!(a.autopilot.active);
    a.handle_key(ch(' '));
    assert!(!a.autopilot.active);
}

#[test]
fn compute_takes_adaptive_depth_only_in_adaptive_mode() {
    let mut a = App::new(4);
    a.compute(10, 5, 640);
    assert_eq!(a.max_iter, 640);
    a.handle_key(ch(']'));
    a.compute(10, 5, 1000);
    assert_eq!(a.max_iter, 704);
}

#[test]
fn mouse_ignored_before_first_frame() {
    let mut a = App::new(4);
    let cmd = a.handle_mouse(mouse(MouseEventKind::ScrollUp, 1, 1));
    assert_eq!(cmd, ViewCommand::Nothing);
    assert!(a.mouse_hold.is_none());
}

#[test]
fn left_click_zooms_in_ctrl_click_zooms_out() {
    let mut a = ready_app();
    assert_eq!(a.handle_mouse(mouse(MouseEventKind::Down(MouseButton::Left), 10, 5)), ViewCommand::Anchor);
    a.tick(false);
    let cmd = a.handle_mouse(mouse(MouseEventKind::Up(MouseButton::Left), 10, 5));
    assert_eq!(cmd, ViewCommand::ClickZoom { col: 10, row: 5, zoom_in: true });

    let mut down = mouse(MouseEventKind::Down(MouseButton::Left), 3, 4);
    down.ctrl = true;
    a.handle_mouse(down);
    let cmd = a.handle_mouse(mouse(MouseEventKind::Up(MouseButton::Left), 3, 4));
    assert_eq!(cmd, ViewCommand::ClickZoom { col: 3, row: 4, zoom_in: false });
}

#[test]
fn hold_zooms_continuously_and_release_is_no_click() {
    let mut a = ready_app();
    a.autopilot.active = true;
    a.handle_mouse(mouse(MouseEventKind::Down(MouseButton::Left), 7, 8));
    for _ in 0..3 {
        assert_eq!(a.tick(true).hold, ViewCommand::Nothing);
    }
    let plan = a.tick(true);
    assert_eq!(plan.hold, ViewCommand::HoldZoom { col: 7, row: 8, button: MouseButton::Left });
    assert_eq!(plan.autopilot, AutopilotStep::Idle);
    assert!(!a.autopilot.active);
    a.tick(true);
    let cmd = a.handle_mouse(mouse(MouseEventKind::Up(MouseButton::Left), 7, 8));
    assert_eq!(cmd, ViewCommand::Nothing);
    assert!(a.mouse_hold.is_none());
}

#[test]
fn drag_pans_from_anchor() {
    let mut a = ready_app();
    a.handle_mouse(mouse(MouseEventKind::Down(MouseButton::Left), 10, 10));
    let cmd = a.handle_mouse(mouse(MouseEventKind::Drag(MouseButton::Left), 12, 9));
    assert_eq!(
        cmd,
        ViewCommand::DragPan { reanchor: true, start_col: 12, start_row: 9, col: 12, row: 9 }
    );
    let cmd = a.handle_mouse(mouse(MouseEventKind::Drag(MouseButton::Left), 15, 7));
    assert_eq!(
        cmd,
        ViewCommand::DragPan { reanchor: false, start_col: 12, start_row: 9, col: 15, row: 7 }
    );
    let cmd = a.handle_mouse(mouse(MouseEventKind::Up(MouseButton::Left), 15, 7));
    assert_eq!(cmd, ViewCommand::Nothing);
    assert!(!a.is_dragging);
    assert!(a.drag_start.is_none());
}

#[test]
fn right_click_and_scroll() {
    let mut a = ready_app();
    a.autopilot.active = true;
    a.handle_mouse(mouse(MouseEventKind::Down(MouseButton::Right), 2, 3));
    let cmd = a.handle_mouse(mouse(MouseEventKind::Up(MouseButton::Right), 2, 3));
    assert_eq!(cmd, ViewCommand::ClickZoom { col: 2, row: 3, zoom_in: false });
    assert!(!a.autopilot.active);
    assert_eq!(
        a.handle_mouse(mouse(MouseEventKind::ScrollUp, 4, 4)),
        ViewCommand::ScrollZoom { col: 4, row: 4, zoom_in: true }
    );
    assert_eq!(
        a.handle_mouse(mouse(MouseEventKind::ScrollDown, 4, 4)),
        ViewCommand::ScrollZoom { col: 4, row: 4, zoom_in: false }
    );
}

#[test]
fn long_right_hold_release_does_not_zoom() {
    let mut a = ready_app();
    a.handle_mouse(mouse(MouseEventKind::Down(MouseButton::Right), 2, 3));
    for _ in 0..5 {
        a.tick(false);
    }
    assert_eq!(a.handle_mouse(mouse(MouseEventKind::Up(MouseButton::Right), 2, 3)), ViewCommand::Nothing);
}

#[test]
fn autopilot_picks_target_once() {
    let mut p = Autopilot::new();
    assert_eq!(p.tick(), AutopilotStep::Idle);
    p.toggle();
    assert_eq!(p.tick(), AutopilotStep::Drift { pick_first: true });
    assert_eq!(p.tick(), AutopilotStep::Drift { pick_first: false });
    p.toggle();
    assert_eq!(p.tick(), AutopilotStep::Idle);
    p.toggle();
    assert_eq!(p.tick(), AutopilotStep::Drift { pick_first: true });
}

#[test]
fn app_tick_runs_autopilot_only_with_results() {
    let mut a = ready_app();
    a.handle_key(ch(' '));
    a.dirty = false;
    assert_eq!(a.tick(false).autopilot, AutopilotStep::Idle);
    assert!(!a.dirty);
    assert_eq!(a.tick(true).autopilot, AutopilotStep::Drift { pick_first: true });
    assert!(a.dirty);
}

#[test]
fn sample_grid_positions_and_neighbours() {
    let pts = sample_points(400, 20, 20);
    let pos: Vec<(usize, usize)> = pts.iter().map(|p| (p.px, p.py)).collect();
    assert_eq!(pos, vec![(4, 4), (8, 4), (12, 4), (4, 8), (8, 8), (12, 8), (4, 12), (8, 12), (12, 12)]);
    assert_eq!(pts[0].idx, 84);
    assert_eq!(pts[0].neighbors, vec![0, 4, 8, 80, 84, 88, 160, 164, 168]);
    for p in &pts {
        assert_eq!(p.neighbors.len(), 9);
    }
}

#[test]
fn sample_grid_respects_results_length() {
    let pts = sample_points(170, 20, 20);
    let pos: Vec<(usize, usize)> = pts.iter().map(|p| (p.px, p.py)).collect();
    assert_eq!(pos, vec![(4, 4), (8, 4), (12, 4), (4, 8), (8, 8)]);
    assert_eq!(pts[0].neighbors, vec![0, 4, 8, 80, 84, 88, 160, 164, 168]);
    assert_eq!(pts[4].neighbors, vec![84, 88, 92, 164, 168]);
    assert!(sample_points(400, 8, 20).is_empty());
    assert!(sample_points(400, 20, 8).is_empty());
    assert_eq!(sample_points(400, 9, 9).len(), 1);
}
