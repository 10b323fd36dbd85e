//! Workspace and container reducers on concrete states.

use komorebi::Container;
use komorebi::OsSink;
use komorebi::Window;
use komorebi::Workspace;

fn win(hwnd: isize) -> Window {
    Window { hwnd }
}

fn workspace_with_windows(handles: &[isize]) -> Workspace {
    let mut ws = Workspace::new();
    for &h in handles {
        ws.new_container_for_window(win(h));
    }
    ws
}

#[test]
fn new_container_focuses_the_new_container() {
    let ws = workspace_with_windows(&[1, 2, 3]);
    assert_eq!(ws.len(), 3);
    assert_eq!(ws.focused_container_idx(), 2);
    assert_eq!(ws.resize_dimensions().len(), 3);
}

#[test]
fn container_identity_is_a_fresh_21_character_id() {
    let c = Container::new();
    assert_eq!(c.id().len(), 21);
}

#[test]
fn container_add_and_remove_focus_rules() {
    let mut c = Container::new();
    c.add_window(win(10));
    c.add_window(win(11));
    c.add_window(win(12));
    assert_eq!(c.focused_window_idx(), 2);

    // removing the focused window re-focuses the one before it
    let removed = c.remove_focused_window();
    assert_eq!(removed, Some(win(12)));
    assert_eq!(c.focused_window_idx(), 1);

    // removing at the front keeps the focus at the front
    c.focus_window(0);
    let removed = c.remove_focused_window();
    assert_eq!(removed, Some(win(10)));
    assert_eq!(c.focused_window_idx(), 0);
}

#[test]
fn container_lookup_by_handle() {
    let mut c = Container::new();
    c.add_window(win(7));
    c.add_window(win(8));
    assert!(c.contains_window(7));
    assert!(!c.contains_window(9));
    assert_eq!(c.idx_for_window(8), Some(1));
    assert_eq!(c.idx_for_window(9), None);
}

#[test]
fn remove_window_drops_emptied_container_and_its_resize_slot() {
    let mut ws = workspace_with_windows(&[1, 2]);
    ws.remove_window(1).unwrap();
    assert_eq!(ws.len(), 1);
    assert_eq!(ws.resize_dimensions().len(), 1);
    assert!(!ws.contains_window(1));
    assert!(ws.contains_window(2));
}

#[test]
fn remove_window_reports_missing_windows() {
    let mut ws = workspace_with_windows(&[1]);
    assert!(ws.remove_window(99).is_err());
}

#[test]
fn monocle_round_trip_restores_arrangement_and_focus() {
    let mut ws = workspace_with_windows(&[1, 2]);
    ws.focus_container(0);

    ws.new_monocle_container().unwrap();
    assert!(ws.monocle_container().is_some());
    assert_eq!(ws.monocle_restore_idx(), Some(0));
    assert_eq!(ws.len(), 1);

    ws.reintegrate_monocle_container().unwrap();
    assert!(ws.monocle_container().is_none());
    assert_eq!(ws.len(), 2);
    assert_eq!(ws.focused_container_idx(), 0);
    assert!(ws.containers().get(0).unwrap().contains_window(1));
    assert!(ws.containers().get(1).unwrap().contains_window(2));
}

#[test]
fn maximize_round_trip_restores_window_order_and_sub_index() {
    let mut ws = Workspace::new();
    ws.new_container_for_window(win(1));
    {
        // stack two more windows into the same container
        let c = ws.focused_container_mut();
        c.add_window(win(2));
        c.add_window(win(3));
        c.focus_window(1);
    }

    ws.new_maximized_window().unwrap();
    assert_eq!(ws.maximized_window(), Some(win(2)));
    let r = ws.maximized_restore().clone().unwrap();
    assert_eq!(r.container_idx, 0);
    assert_eq!(r.window_idx, 1);

    ws.reintegrate_maximized_window().unwrap();
    assert!(ws.maximized_window().is_none());
    let c = ws.focused_container().unwrap();
    assert_eq!(c.idx_for_window(1), Some(0));
    assert_eq!(c.idx_for_window(2), Some(1));
    assert_eq!(c.idx_for_window(3), Some(2));
    assert_eq!(c.focused_window_idx(), 1);
}

#[test]
fn maximize_refuses_a_second_overlay() {
    let mut ws = workspace_with_windows(&[1, 2]);
    ws.new_monocle_container().unwrap();
    assert!(ws.new_maximized_window().is_err());
}

#[test]
fn maximized_window_reintegrates_into_fresh_container_when_origin_is_gone() {
    let mut ws = workspace_with_windows(&[1]);
    ws.new_maximized_window().unwrap();
    // the only container emptied and was dropped
    assert_eq!(ws.len(), 0);
    ws.reintegrate_maximized_window().unwrap();
    assert_eq!(ws.len(), 1);
    assert!(ws.containers().get(0).unwrap().contains_window(1));
}

#[test]
fn float_round_trip_restores_membership_and_focus() {
    let mut ws = workspace_with_windows(&[1, 2]);
    assert_eq!(ws.focused_container_idx(), 1);

    ws.new_floating_window().unwrap();
    assert_eq!(ws.len(), 1);
    assert_eq!(ws.floating_windows().len(), 1);
    assert_eq!(ws.floating_windows()[0], win(2));

    ws.new_container_for_floating_window(2).unwrap();
    assert_eq!(ws.len(), 2);
    assert_eq!(ws.floating_windows().len(), 0);
    assert_eq!(ws.focused_container_idx(), 1);
    assert!(ws.containers().get(0).unwrap().contains_window(1));
    assert!(ws.containers().get(1).unwrap().contains_window(2));
}

#[test]
fn unfloat_of_unknown_window_is_refused() {
    let mut ws = workspace_with_windows(&[1]);
    assert!(ws.new_container_for_floating_window(42).is_err());
}

#[test]
fn promote_container_moves_focused_to_front() {
    let mut ws = workspace_with_windows(&[1, 2, 3]);
    assert_eq!(ws.focused_container_idx(), 2);
    ws.promote_container().unwrap();
    assert_eq!(ws.focused_container_idx(), 0);
    assert!(ws.containers().get(0).unwrap().contains_window(3));
    assert!(ws.containers().get(1).unwrap().contains_window(1));
    assert!(ws.containers().get(2).unwrap().contains_window(2));
}

#[test]
fn swap_containers_follows_focus() {
    let mut ws = workspace_with_windows(&[1, 2]);
    ws.focus_container(0);
    ws.swap_containers(0, 1);
    assert_eq!(ws.focused_container_idx(), 1);
    assert!(ws.containers().get(0).unwrap().contains_window(2));
    assert!(ws.containers().get(1).unwrap().contains_window(1));
}

#[test]
fn move_window_to_container_stacks_and_cleans_up() {
    let mut ws = workspace_with_windows(&[1, 2]);
    ws.focus_container(0);
    // moving the lone window of container 0 into container 0 of the ring
    // as it stands after the removal, which is the container holding 2
    ws.move_window_to_container(0).unwrap();
    assert_eq!(ws.len(), 1);
    let c = ws.focused_container().unwrap();
    assert!(c.contains_window(1));
    assert!(c.contains_window(2));
    assert_eq!(c.focused_window_idx(), 1);
}

#[test]
fn unstacking_promotes_focused_window_to_new_container() {
    let mut ws = Workspace::new();
    ws.new_container_for_window(win(1));
    {
        let c = ws.focused_container_mut();
        c.add_window(win(2));
    }
    ws.new_container_for_focused_window().unwrap();
    assert_eq!(ws.len(), 2);
    assert!(ws.containers().get(0).unwrap().contains_window(1));
    assert!(ws.containers().get(1).unwrap().contains_window(2));
    assert_eq!(ws.focused_container_idx(), 1);
}

#[test]
fn load_focused_window_restores_focused_and_hides_rest() {
    let mut c = Container::new();
    c.add_window(win(1));
    c.add_window(win(2));
    c.add_window(win(3));
    c.focus_window(1);

    let mut sink = OsSink::new();
    c.load_focused_window(&mut sink);
    let cmds = sink.take_commands();
    assert_eq!(cmds.len(), 3);
    assert_eq!(cmds[0], komorebi::OsCommand::Hide(1));
    assert_eq!(cmds[1], komorebi::OsCommand::Restore(2));
    assert_eq!(cmds[2], komorebi::OsCommand::Hide(3));
    // the hidden registry tracks the programmatic hides, not the restore
    assert!(sink.hidden_hwnds.contains(&1));
    assert!(!sink.hidden_hwnds.contains(&2));
    assert!(sink.hidden_hwnds.contains(&3));
}
