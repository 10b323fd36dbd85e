//! End-to-end scenarios against the top-level reducer.

use komorebi::Flip;
use komorebi::Monitor;
use komorebi::OperationDirection;
use komorebi::OsCommand;
use komorebi::OsSink;
use komorebi::Rect;
use komorebi::Sizing;
use komorebi::Window;
use komorebi::WindowInfo;
use komorebi::WindowManager;
use komorebi::WmError;
use komorebi::WorkspaceRule;

fn win(hwnd: isize) -> Window {
    Window { hwnd }
}

fn work_area() -> Rect {
    Rect { left: 0, top: 0, right: 1920, bottom: 1080 }
}

/// One monitor, default workspace, bisection layout, zero paddings.
fn single_monitor_manager(sink: &mut OsSink) -> WindowManager {
    let mut wm = WindowManager::new(None);
    wm.init(vec![Monitor::new(100, work_area())], sink).unwrap();
    wm.set_workspace_padding(0, 0, 0, sink).unwrap();
    wm.set_container_padding(0, 0, 0, sink).unwrap();
    wm
}

fn positions(cmds: &[OsCommand]) -> Vec<(isize, Rect, bool)> {
    let mut out = Vec::new();
    for c in cmds {
        if let OsCommand::Position { hwnd, rect, topmost } = c {
            out.push((*hwnd, *rect, *topmost));
        }
    }
    out
}

#[test]
fn one_window_fills_the_border_corrected_work_area() {
    let mut sink = OsSink::new();
    let mut wm = single_monitor_manager(&mut sink);

    wm.focused_workspace_mut().new_container_for_window(win(1));
    sink.take_commands();
    wm.update_focused_workspace(false, &mut sink).unwrap();

    let cmds = sink.take_commands();
    let pos = positions(&cmds);
    assert_eq!(pos.len(), 1);
    assert_eq!(pos[0], (1, Rect { left: -12, top: 0, right: 1944, bottom: 1092 }, false));
}

#[test]
fn second_window_bisects_the_work_area() {
    let mut sink = OsSink::new();
    let mut wm = single_monitor_manager(&mut sink);

    wm.focused_workspace_mut().new_container_for_window(win(1));
    wm.focused_workspace_mut().new_container_for_window(win(2));
    sink.take_commands();
    wm.update_focused_workspace(false, &mut sink).unwrap();

    let cmds = sink.take_commands();
    let pos = positions(&cmds);
    assert_eq!(pos.len(), 2);
    // (0,0,960,1080) and (960,0,960,1080), each border-corrected
    assert_eq!(pos[0], (1, Rect { left: -12, top: 0, right: 984, bottom: 1092 }, false));
    assert_eq!(pos[1], (2, Rect { left: 948, top: 0, right: 984, bottom: 1092 }, false));
}

#[test]
fn toggle_monocle_stashes_and_restores_the_focused_container() {
    let mut sink = OsSink::new();
    let mut wm = single_monitor_manager(&mut sink);
    wm.focused_workspace_mut().new_container_for_window(win(1));
    wm.focused_workspace_mut().new_container_for_window(win(2));
    wm.focused_workspace_mut().focus_container(0);

    wm.toggle_monocle(&mut sink).unwrap();
    {
        let ws = wm.focused_workspace().unwrap();
        assert!(ws.monocle_container().is_some());
        assert_eq!(ws.monocle_restore_idx(), Some(0));
        assert_eq!(ws.len(), 1);
    }

    wm.toggle_monocle(&mut sink).unwrap();
    {
        let ws = wm.focused_workspace().unwrap();
        assert!(ws.monocle_container().is_none());
        assert_eq!(ws.len(), 2);
        assert_eq!(ws.focused_container_idx(), 0);
    }
}

#[test]
fn workspace_rule_moves_window_and_hides_it_from_focused_workspace() {
    let mut sink = OsSink::new();
    let mut wm = single_monitor_manager(&mut sink);
    wm.focused_workspace_mut().new_container_for_window(win(7));
    wm.add_workspace_rule(WorkspaceRule {
        identifier: "notepad.exe".to_string(),
        monitor_idx: 0,
        workspace_idx: 1,
    });

    let infos = vec![WindowInfo {
        hwnd: 7,
        title: Some("Untitled - Notepad".to_string()),
        exe: Some("notepad.exe".to_string()),
        class: Some("Notepad".to_string()),
        cloaked: false,
        style: 0,
        ex_style: 0,
    }];
    sink.take_commands();
    wm.enforce_workspace_rules(&infos, &mut sink).unwrap();

    let m = wm.monitors().get(0).unwrap();
    assert_eq!(m.workspaces().len(), 2);
    assert_eq!(m.workspaces().get(0).unwrap().len(), 0);
    let target = m.workspaces().get(1).unwrap();
    assert_eq!(target.len(), 1);
    assert!(target.containers().get(0).unwrap().contains_window(7));

    // the window left the focused workspace, so it was hidden
    let cmds = sink.take_commands();
    assert!(cmds.contains(&OsCommand::Hide(7)));
    assert!(sink.hidden_hwnds.contains(&7));
}

#[test]
fn enforce_workspace_rules_is_a_no_op_once_enforced() {
    let mut sink = OsSink::new();
    let mut wm = single_monitor_manager(&mut sink);
    wm.focused_workspace_mut().new_container_for_window(win(7));
    wm.add_workspace_rule(WorkspaceRule {
        identifier: "notepad.exe".to_string(),
        monitor_idx: 0,
        workspace_idx: 1,
    });
    let infos = vec![WindowInfo {
        hwnd: 7,
        title: None,
        exe: Some("notepad.exe".to_string()),
        class: None,
        cloaked: false,
        style: 0,
        ex_style: 0,
    }];
    wm.enforce_workspace_rules(&infos, &mut sink).unwrap();
    sink.take_commands();

    wm.enforce_workspace_rules(&infos, &mut sink).unwrap();
    // second run: nothing moves, nothing is hidden, nothing is emitted
    assert_eq!(sink.take_commands().len(), 0);
    let m = wm.monitors().get(0).unwrap();
    assert_eq!(m.workspaces().get(0).unwrap().len(), 0);
    assert_eq!(m.workspaces().get(1).unwrap().len(), 1);
}

#[test]
fn rule_targeting_the_focused_workspace_is_left_alone() {
    let mut sink = OsSink::new();
    let mut wm = single_monitor_manager(&mut sink);
    wm.focused_workspace_mut().new_container_for_window(win(7));
    wm.add_workspace_rule(WorkspaceRule {
        identifier: "notepad.exe".to_string(),
        monitor_idx: 0,
        workspace_idx: 0,
    });
    let infos = vec![WindowInfo {
        hwnd: 7,
        title: None,
        exe: Some("notepad.exe".to_string()),
        class: None,
        cloaked: false,
        style: 0,
        ex_style: 0,
    }];
    sink.take_commands();
    wm.enforce_workspace_rules(&infos, &mut sink).unwrap();
    assert_eq!(sink.take_commands().len(), 0);
    assert_eq!(wm.focused_workspace().unwrap().len(), 1);
}

#[test]
fn resize_under_horizontal_flip_inverts_the_direction() {
    let mut sink = OsSink::new();
    let mut wm = single_monitor_manager(&mut sink);
    wm.focused_workspace_mut().new_container_for_window(win(1));
    wm.focused_workspace_mut().new_container_for_window(win(2));
    wm.focused_workspace_mut().focus_container(0);
    wm.flip_layout(Flip::Horizontal, &mut sink).unwrap();

    wm.resize_window(OperationDirection::Right, Sizing::Increase, Some(50), &mut sink).unwrap();

    let ws = wm.focused_workspace().unwrap();
    // Right was inverted to Left, which moves the left edge out by 50
    assert_eq!(
        ws.resize_dimensions()[0],
        Some(Rect { left: -50, top: 0, right: 50, bottom: 0 })
    );
}

#[test]
fn resize_in_an_invalid_direction_is_refused_without_mutation() {
    let mut sink = OsSink::new();
    let mut wm = single_monitor_manager(&mut sink);
    wm.focused_workspace_mut().new_container_for_window(win(1));
    sink.take_commands();
    // a single container has no neighbour in any direction
    assert_eq!(
        wm.resize_window(OperationDirection::Right, Sizing::Increase, Some(50), &mut sink),
        Err(WmError::InvalidDirection)
    );
    assert_eq!(wm.focused_workspace().unwrap().resize_dimensions()[0], None);
    assert_eq!(sink.take_commands().len(), 0);
}

#[test]
fn cross_monitor_move_follows_the_container() {
    let mut sink = OsSink::new();
    let mut wm = WindowManager::new(None);
    wm.init(
        vec![
            Monitor::new(100, work_area()),
            Monitor::new(200, Rect { left: 1920, top: 0, right: 1920, bottom: 1080 }),
        ],
        &mut sink,
    )
    .unwrap();
    wm.focused_workspace_mut().new_container_for_window(win(5));

    wm.move_container_to_monitor(1, true, &mut sink).unwrap();

    assert_eq!(wm.focused_monitor_idx(), 1);
    let m0 = wm.monitors().get(0).unwrap();
    assert_eq!(m0.workspaces().get(0).unwrap().len(), 0);
    let m1 = wm.monitors().get(1).unwrap();
    let target = m1.focused_workspace().unwrap();
    assert_eq!(target.len(), 1);
    assert!(target.containers().get(0).unwrap().contains_window(5));
}

#[test]
fn toggle_float_twice_restores_the_workspace() {
    let mut sink = OsSink::new();
    let mut wm = single_monitor_manager(&mut sink);
    wm.focused_workspace_mut().new_container_for_window(win(1));
    wm.focused_workspace_mut().new_container_for_window(win(2));

    wm.toggle_float(2, &mut sink).unwrap();
    assert_eq!(wm.focused_workspace().unwrap().len(), 1);
    assert_eq!(wm.focused_workspace().unwrap().floating_windows().len(), 1);

    wm.toggle_float(2, &mut sink).unwrap();
    let ws = wm.focused_workspace().unwrap();
    assert_eq!(ws.len(), 2);
    assert_eq!(ws.floating_windows().len(), 0);
    assert_eq!(ws.focused_container_idx(), 1);
    assert!(ws.containers().get(0).unwrap().contains_window(1));
    assert!(ws.containers().get(1).unwrap().contains_window(2));
}

#[test]
fn floating_a_window_centers_it_above_the_tiled_layer() {
    let mut sink = OsSink::new();
    let mut wm = single_monitor_manager(&mut sink);
    wm.focused_workspace_mut().new_container_for_window(win(1));
    sink.take_commands();
    wm.float_window(&mut sink).unwrap();
    let cmds = sink.take_commands();
    // centered at half size: (480,270,960,540), then border-corrected
    assert_eq!(
        cmds[0],
        OsCommand::Position {
            hwnd: 1,
            rect: Rect { left: 468, top: 270, right: 984, bottom: 552 },
            topmost: true
        }
    );
    assert_eq!(cmds[1], OsCommand::Focus(1));
}

#[test]
fn move_container_in_direction_swaps_and_follows() {
    let mut sink = OsSink::new();
    let mut wm = single_monitor_manager(&mut sink);
    wm.focused_workspace_mut().new_container_for_window(win(1));
    wm.focused_workspace_mut().new_container_for_window(win(2));
    wm.focused_workspace_mut().focus_container(0);

    wm.move_container_in_direction(OperationDirection::Right, &mut sink).unwrap();
    let ws = wm.focused_workspace().unwrap();
    assert_eq!(ws.focused_container_idx(), 1);
    assert!(ws.containers().get(0).unwrap().contains_window(2));
    assert!(ws.containers().get(1).unwrap().contains_window(1));
}

#[test]
fn focus_workspace_creates_missing_workspaces() {
    let mut sink = OsSink::new();
    let mut wm = single_monitor_manager(&mut sink);
    wm.focus_workspace(2, &mut sink).unwrap();
    let m = wm.monitors().get(0).unwrap();
    assert_eq!(m.workspaces().len(), 3);
    assert_eq!(m.focused_workspace_idx(), 2);
}

#[test]
fn maximize_toggle_emits_native_maximize() {
    let mut sink = OsSink::new();
    let mut wm = single_monitor_manager(&mut sink);
    wm.focused_workspace_mut().new_container_for_window(win(9));
    sink.take_commands();
    wm.toggle_maximize(&mut sink).unwrap();
    assert_eq!(wm.focused_workspace().unwrap().maximized_window(), Some(win(9)));
    let cmds = sink.take_commands();
    assert!(cmds.contains(&OsCommand::Maximize(9)));
}

#[test]
fn errors_name_what_is_missing() {
    let mut sink = OsSink::new();

    let mut empty = WindowManager::new(None);
    assert_eq!(empty.toggle_tiling(&mut sink), Err(WmError::NoSuchMonitor));

    let mut wm = single_monitor_manager(&mut sink);
    assert_eq!(wm.monocle_on(), Err(WmError::NoSuchContainer));
    assert_eq!(wm.unfloat_window(1), Err(WmError::NoSuchWindow));
    assert_eq!(wm.set_workspace_tiling(0, 5, false, &mut sink), Err(WmError::NoSuchWorkspace));
    assert_eq!(wm.set_workspace_tiling(3, 0, false, &mut sink), Err(WmError::NoSuchMonitor));

    wm.focused_workspace_mut().new_container_for_window(win(1));
    assert_eq!(
        wm.focus_container_in_direction(OperationDirection::Left, &mut sink),
        Err(WmError::InvalidDirection)
    );
    assert_eq!(
        wm.cycle_container_window_in_direction(komorebi::CycleDirection::Next, &mut sink),
        Err(WmError::InvalidOverlayTransition)
    );

    wm.focused_workspace_mut().set_workspace_padding(None);
    assert_eq!(
        wm.adjust_workspace_padding(Sizing::Increase, 10, &mut sink),
        Err(WmError::NoPadding)
    );

    assert!(WmError::NoSuchMonitor.message().len() > 0);
}

#[test]
fn pause_toggle_flips_the_flag() {
    let mut wm = WindowManager::new(None);
    assert!(!wm.is_paused());
    wm.toggle_pause();
    assert!(wm.is_paused());
    wm.toggle_pause();
    assert!(!wm.is_paused());
}

#[test]
fn virtual_desktop_validation_compares_known_ids() {
    let wm = WindowManager::new(Some(3));
    assert!(wm.validate_virtual_desktop_id(Some(3)));
    assert!(!wm.validate_virtual_desktop_id(Some(4)));
    assert!(wm.validate_virtual_desktop_id(None));
}

#[test]
fn restore_all_windows_restores_every_tiled_window() {
    let mut sink = OsSink::new();
    let mut wm = single_monitor_manager(&mut sink);
    wm.focused_workspace_mut().new_container_for_window(win(1));
    wm.focused_workspace_mut().new_container_for_window(win(2));
    sink.take_commands();
    wm.restore_all_windows(&mut sink);
    let cmds = sink.take_commands();
    assert_eq!(cmds, vec![OsCommand::Restore(1), OsCommand::Restore(2)]);
}

#[test]
fn workspace_names_are_recorded_persistently() {
    let mut sink = OsSink::new();
    let mut wm = single_monitor_manager(&mut sink);
    wm.set_workspace_name(0, 0, "main".to_string()).unwrap();
    let m = wm.monitors().get(0).unwrap();
    assert_eq!(m.workspaces().get(0).unwrap().name().as_deref(), Some("main"));
    assert_eq!(m.workspace_names().len(), 1);
    assert_eq!(m.workspace_names()[0], (0, "main".to_string()));
}

#[test]
fn adjust_workspace_padding_applies_the_arithmetic() {
    let mut sink = OsSink::new();
    let mut wm = single_monitor_manager(&mut sink);
    wm.adjust_workspace_padding(Sizing::Increase, 8, &mut sink).unwrap();
    assert_eq!(wm.focused_workspace().unwrap().workspace_padding(), Some(8));
    wm.adjust_workspace_padding(Sizing::Decrease, 3, &mut sink).unwrap();
    assert_eq!(wm.focused_workspace().unwrap().workspace_padding(), Some(5));
}

#[test]
fn move_to_workspace_creates_and_follows() {
    let mut sink = OsSink::new();
    let mut wm = single_monitor_manager(&mut sink);
    wm.focused_workspace_mut().new_container_for_window(win(3));
    wm.move_container_to_workspace(2, true, &mut sink).unwrap();
    let m = wm.monitors().get(0).unwrap();
    assert_eq!(m.workspaces().len(), 3);
    assert_eq!(m.focused_workspace_idx(), 2);
    assert!(m.workspaces().get(2).unwrap().containers().get(0).unwrap().contains_window(3));
    assert_eq!(m.workspaces().get(0).unwrap().len(), 0);
}

#[test]
fn stacking_in_a_direction_merges_containers() {
    let mut sink = OsSink::new();
    let mut wm = single_monitor_manager(&mut sink);
    wm.focused_workspace_mut().new_container_for_window(win(1));
    wm.focused_workspace_mut().new_container_for_window(win(2));
    wm.focused_workspace_mut().focus_container(1);

    wm.add_window_to_container(OperationDirection::Left, &mut sink).unwrap();
    let ws = wm.focused_workspace().unwrap();
    assert_eq!(ws.len(), 1);
    let c = ws.focused_container().unwrap();
    assert!(c.contains_window(1));
    assert!(c.contains_window(2));
}

#[test]
fn cycling_the_stack_wraps_and_reloads() {
    let mut sink = OsSink::new();
    let mut wm = single_monitor_manager(&mut sink);
    wm.focused_workspace_mut().new_container_for_window(win(1));
    {
        let c = wm.focused_workspace_mut().focused_container_mut();
        c.add_window(win(2));
    }
    wm.cycle_container_window_in_direction(komorebi::CycleDirection::Next, &mut sink).unwrap();
    let c = wm.focused_workspace().unwrap().focused_container().unwrap();
    // focus was on the second window; next wraps to the first
    assert_eq!(c.focused_window_idx(), 0);
}

#[test]
fn set_workspace_layout_retiles_a_visible_workspace_on_another_monitor() {
    let mut sink = OsSink::new();
    let mut wm = WindowManager::new(None);
    wm.init(
        vec![
            Monitor::new(100, work_area()),
            Monitor::new(200, Rect { left: 1920, top: 0, right: 1000, bottom: 1000 }),
        ],
        &mut sink,
    )
    .unwrap();
    wm.set_workspace_padding(1, 0, 0, &mut sink).unwrap();
    wm.set_container_padding(1, 0, 0, &mut sink).unwrap();
    // put a window on the visible workspace of the second monitor
    {
        let m = wm.monitors().get(1).unwrap();
        assert_eq!(m.focused_workspace_idx(), 0);
    }
    wm.focus_monitor(1).unwrap();
    wm.focused_workspace_mut().new_container_for_window(win(4));
    wm.focus_monitor(0).unwrap();
    sink.take_commands();

    wm.set_workspace_layout(1, 0, komorebi::Layout::Columns, &mut sink).unwrap();
    let m = wm.monitors().get(1).unwrap();
    assert_eq!(m.workspaces().get(0).unwrap().layout(), komorebi::Layout::Columns);
    // the other monitor's visible workspace was retiled in place
    let cmds = sink.take_commands();
    let pos = positions(&cmds);
    assert_eq!(pos.len(), 1);
    assert_eq!(pos[0].0, 4);
}

#[test]
fn promote_via_manager_moves_focused_container_to_front() {
    let mut sink = OsSink::new();
    let mut wm = single_monitor_manager(&mut sink);
    wm.focused_workspace_mut().new_container_for_window(win(1));
    wm.focused_workspace_mut().new_container_for_window(win(2));
    wm.promote_container_to_front(&mut sink).unwrap();
    let ws = wm.focused_workspace().unwrap();
    assert_eq!(ws.focused_container_idx(), 0);
    assert!(ws.containers().get(0).unwrap().contains_window(2));
}

#[test]
fn unstack_via_manager_requires_a_stacked_container() {
    let mut sink = OsSink::new();
    let mut wm = single_monitor_manager(&mut sink);
    wm.focused_workspace_mut().new_container_for_window(win(1));
    assert_eq!(
        wm.remove_window_from_container(&mut sink),
        Err(WmError::InvalidOverlayTransition)
    );
    {
        let c = wm.focused_workspace_mut().focused_container_mut();
        c.add_window(win(2));
    }
    wm.remove_window_from_container(&mut sink).unwrap();
    assert_eq!(wm.focused_workspace().unwrap().len(), 2);
}

#[test]
fn state_snapshot_mirrors_the_manager() {
    let mut sink = OsSink::new();
    let mut wm = single_monitor_manager(&mut sink);
    wm.focused_workspace_mut().new_container_for_window(win(1));
    wm.add_float_identifier("splash.exe".to_string());

    let state = komorebi::State::from_manager(&wm);
    assert!(!state.is_paused);
    assert_eq!(state.monitors.len(), 1);
    let m = state.monitors.get(0).unwrap();
    assert_eq!(m.id(), 100);
    assert!(m
        .workspaces()
        .get(0)
        .unwrap()
        .containers()
        .get(0)
        .unwrap()
        .contains_window(1));
    assert_eq!(state.float_identifiers, vec!["splash.exe".to_string()]);

    // the snapshot is decoupled: mutating the manager leaves it alone
    wm.focused_workspace_mut().new_container_for_window(win(2));
    assert_eq!(state.monitors.get(0).unwrap().workspaces().get(0).unwrap().len(), 1);
}

#[test]
fn re_adding_a_rule_replaces_the_earlier_one() {
    let mut sink = OsSink::new();
    let mut wm = single_monitor_manager(&mut sink);
    wm.focused_workspace_mut().new_container_for_window(win(7));
    wm.add_workspace_rule(WorkspaceRule {
        identifier: "notepad.exe".to_string(),
        monitor_idx: 0,
        workspace_idx: 1,
    });
    // the second rule for the same identifier wins
    wm.add_workspace_rule(WorkspaceRule {
        identifier: "notepad.exe".to_string(),
        monitor_idx: 0,
        workspace_idx: 2,
    });
    let infos = vec![WindowInfo {
        hwnd: 7,
        title: None,
        exe: Some("notepad.exe".to_string()),
        class: None,
        cloaked: false,
        style: 0,
        ex_style: 0,
    }];
    wm.enforce_workspace_rules(&infos, &mut sink).unwrap();
    let m = wm.monitors().get(0).unwrap();
    assert_eq!(m.workspaces().len(), 3);
    assert!(m.workspaces().get(2).unwrap().containers().get(0).unwrap().contains_window(7));
}

#[test]
fn rule_naming_a_missing_monitor_is_refused_without_mutation() {
    let mut sink = OsSink::new();
    let mut wm = single_monitor_manager(&mut sink);
    wm.focused_workspace_mut().new_container_for_window(win(7));
    wm.add_workspace_rule(WorkspaceRule {
        identifier: "notepad.exe".to_string(),
        monitor_idx: 5,
        workspace_idx: 0,
    });
    let infos = vec![WindowInfo {
        hwnd: 7,
        title: None,
        exe: Some("notepad.exe".to_string()),
        class: None,
        cloaked: false,
        style: 0,
        ex_style: 0,
    }];
    sink.take_commands();
    assert_eq!(
        wm.enforce_workspace_rules(&infos, &mut sink),
        Err(WmError::NoSuchMonitor)
    );
    assert_eq!(wm.focused_workspace().unwrap().len(), 1);
    assert_eq!(sink.take_commands().len(), 0);
}

#[test]
fn restore_all_windows_covers_floating_and_overlays() {
    let mut sink = OsSink::new();
    let mut wm = single_monitor_manager(&mut sink);
    wm.focused_workspace_mut().new_container_for_window(win(1));
    wm.focused_workspace_mut().new_container_for_window(win(2));
    wm.focused_workspace_mut().new_container_for_window(win(3));
    // one floating window and one maximized window beside a tiled one
    wm.toggle_float(3, &mut sink).unwrap();
    wm.focused_workspace_mut().focus_container(1);
    wm.toggle_maximize(&mut sink).unwrap();
    sink.take_commands();
    wm.restore_all_windows(&mut sink);
    let cmds = sink.take_commands();
    assert!(cmds.contains(&OsCommand::Restore(1)));
    assert!(cmds.contains(&OsCommand::Restore(2)));
    assert!(cmds.contains(&OsCommand::Restore(3)));
}

#[test]
fn workspace_focus_hides_floating_windows_of_the_left_workspace() {
    let mut sink = OsSink::new();
    let mut wm = single_monitor_manager(&mut sink);
    wm.focused_workspace_mut().new_container_for_window(win(1));
    wm.focused_workspace_mut().new_container_for_window(win(2));
    wm.toggle_float(2, &mut sink).unwrap();
    sink.take_commands();
    wm.focus_workspace(1, &mut sink).unwrap();
    let cmds = sink.take_commands();
    // both the tiled and the floating window of workspace 0 are hidden
    assert!(cmds.contains(&OsCommand::Hide(1)));
    assert!(cmds.contains(&OsCommand::Hide(2)));
}
