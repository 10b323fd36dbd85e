//! The classification predicate and the hidden-window registry.

use komorebi::CycleDirection;
use komorebi::OsSink;
use komorebi::Window;
use komorebi::WindowInfo;
use komorebi::WindowManagerEvent;

const CAPTION: u32 = 0x00C0_0000;
const WINDOWEDGE: u32 = 0x0000_0100;
const DLGMODALFRAME: u32 = 0x0000_0001;
const LAYERED: u32 = 0x0008_0000;

fn plain_info(hwnd: isize) -> WindowInfo {
    WindowInfo {
        hwnd,
        title: Some("Document".to_string()),
        exe: Some("editor.exe".to_string()),
        class: Some("EditorClass".to_string()),
        cloaked: false,
        style: CAPTION,
        ex_style: WINDOWEDGE,
    }
}

fn classify(info: &WindowInfo, event: Option<WindowManagerEvent>, float: &[&str], manage: &[&str], layered: &[&str]) -> bool {
    let float: Vec<String> = float.iter().map(|s| s.to_string()).collect();
    let manage: Vec<String> = manage.iter().map(|s| s.to_string()).collect();
    let layered: Vec<String> = layered.iter().map(|s| s.to_string()).collect();
    Window { hwnd: info.hwnd }.should_manage(event, info, &float, &manage, &layered)
}

#[test]
fn ordinary_captioned_window_is_managed() {
    assert!(classify(&plain_info(1), None, &[], &[], &[]));
}

#[test]
fn window_without_title_is_not_managed() {
    let mut info = plain_info(1);
    info.title = None;
    assert!(!classify(&info, None, &[], &[], &[]));
}

#[test]
fn cloaked_window_is_not_managed_unless_the_event_is_a_hide() {
    let mut info = plain_info(1);
    info.cloaked = true;
    assert!(!classify(&info, None, &[], &[], &[]));
    let hide = Some(WindowManagerEvent::Hide(Window { hwnd: 1 }));
    assert!(classify(&info, hide, &[], &[], &[]));
}

#[test]
fn float_identifiers_win_over_everything() {
    let info = plain_info(1);
    assert!(!classify(&info, None, &["editor.exe"], &[], &[]));
    assert!(!classify(&info, None, &["Document"], &[], &[]));
    assert!(!classify(&info, None, &["EditorClass"], &[], &[]));
}

#[test]
fn missing_styles_need_a_manage_override() {
    let mut info = plain_info(1);
    info.style = 0;
    assert!(!classify(&info, None, &[], &[], &[]));
    assert!(classify(&info, None, &[], &["editor.exe"], &[]));
    assert!(classify(&info, None, &[], &["EditorClass"], &[]));
}

#[test]
fn modal_dialog_frame_is_not_managed() {
    let mut info = plain_info(1);
    info.ex_style = WINDOWEDGE | DLGMODALFRAME;
    assert!(!classify(&info, None, &[], &[], &[]));
}

#[test]
fn layered_windows_need_the_whitelist() {
    let mut info = plain_info(1);
    info.ex_style = WINDOWEDGE | LAYERED;
    assert!(!classify(&info, None, &[], &[], &[]));
    assert!(classify(&info, None, &[], &[], &["editor.exe"]));
}

#[test]
fn hidden_registry_records_programmatic_hides_once() {
    let mut sink = OsSink::new();
    let w = Window { hwnd: 5 };
    w.hide_window(&mut sink);
    w.hide_window(&mut sink);
    assert_eq!(sink.hidden_hwnds, vec![5]);

    w.restore(&mut sink);
    assert!(sink.hidden_hwnds.is_empty());

    w.hide_window(&mut sink);
    w.maximize(&mut sink);
    assert!(sink.hidden_hwnds.is_empty());

    let cmds = sink.take_commands();
    assert_eq!(cmds.len(), 5);
}

#[test]
fn set_position_applies_the_invisible_border_correction() {
    let mut sink = OsSink::new();
    let w = Window { hwnd: 9 };
    let layout = komorebi::Rect { left: 100, top: 200, right: 300, bottom: 400 };
    w.set_position(&layout, false, &mut sink);
    let cmds = sink.take_commands();
    assert_eq!(
        cmds[0],
        komorebi::OsCommand::Position {
            hwnd: 9,
            rect: komorebi::Rect { left: 88, top: 200, right: 324, bottom: 412 },
            topmost: false
        }
    );
}

#[test]
fn ring_semantics_on_cycle_direction() {
    let prev = CycleDirection::Previous;
    let next = CycleDirection::Next;
    assert_eq!(prev.next_idx(0, 3), 2);
    assert_eq!(prev.next_idx(2, 3), 1);
    assert_eq!(next.next_idx(2, 3), 0);
    assert_eq!(next.next_idx(0, 3), 1);
}
