use hermito::action::Action;
use hermito::app::persist::Recovery;
use hermito::app::snapshot::AppSnapshot;
use hermito::app::status::KindNames;
use hermito::app::App;
use hermito::input::crossterm_adapter::{
    Event, KeyCode, KeyEvent, KeyModifiers, MouseButton, MouseEvent, MouseEventKind,
};
use hermito::input::keyboard::{map_key, terminal_key_bytes, SelectedEntry};
use hermito::input::mouse::{landmark_at, map_mouse};
use hermito::input::{handle_event, is_alt_tool, is_command_k, is_f6, is_shift_f6};
use hermito::layout::Landmark;

const PLAIN: KeyModifiers = KeyModifiers {
    shift: false,
    control: false,
    alt: false,
    command: false,
};
const CONTROL: KeyModifiers = KeyModifiers { control: true, ..PLAIN };
const SHIFT: KeyModifiers = KeyModifiers { shift: true, ..PLAIN };
const ALT: KeyModifiers = KeyModifiers { alt: true, ..PLAIN };

fn key(code: KeyCode, modifiers: KeyModifiers) -> KeyEvent {
    KeyEvent { code, modifiers }
}

fn app() -> App {
    App::new_from_recovery(Recovery::default(), 10)
}

fn seen(app: &App) -> AppSnapshot {
    app.snapshot(&KindNames {
        local: "l".to_owned(),
        ssh: "s".to_owned(),
        dev_container: "d".to_owned(),
    })
}

fn captured() -> AppSnapshot {
    let mut app = app();
    app.attach_terminal("host".to_owned(), None);
    seen(&app)
}

fn mapped(app: &App, code: KeyCode, modifiers: KeyModifiers) -> Option<Action> {
    map_key(key(code, modifiers), &seen(app), &None)
}

#[test]
fn enter_grants_only_a_focused_grant() {
    let mut app = app();
    app.apply_action(Action::ReviewTrust);
    assert_eq!(mapped(&app, KeyCode::Enter, PLAIN), Some(Action::CancelModal));
    assert_eq!(mapped(&app, KeyCode::Tab, PLAIN), Some(Action::NextControl));
    assert_eq!(mapped(&app, KeyCode::Char('x'), PLAIN), None);
    app.apply_action(Action::NextControl);
    assert_eq!(mapped(&app, KeyCode::Enter, PLAIN), Some(Action::GrantTrust));
    app.apply_action(Action::GrantTrust);
    app.apply_action(Action::ReviewTrust);
    app.apply_action(Action::NextControl);
    assert_eq!(mapped(&app, KeyCode::Enter, PLAIN), Some(Action::RevokeTrust));
}

#[test]
fn keys_stand_for_actions_of_the_workbench() {
    let mut app = app();
    let cases = vec![
        (KeyCode::F(6), PLAIN, Some(Action::CycleLandmarkForward)),
        (KeyCode::F(6), SHIFT, Some(Action::CycleLandmarkBackward)),
        (KeyCode::F(7), PLAIN, Some(Action::CycleAuthority)),
        (KeyCode::F(12), PLAIN, Some(Action::RequestDefinition)),
        (KeyCode::F(2), PLAIN, Some(Action::RequestRename)),
        (KeyCode::F(1), PLAIN, None),
        (KeyCode::Char('3'), ALT, Some(Action::ActivateLeftTool(3))),
        (KeyCode::Char('K'), CONTROL, Some(Action::OpenCommandPalette)),
        (KeyCode::Char('s'), CONTROL, Some(Action::Save)),
        (KeyCode::Char(' '), CONTROL, Some(Action::RequestCompletion)),
        (
            KeyCode::Char('h'),
            KeyModifiers { shift: true, ..CONTROL },
            Some(Action::RequestHover),
        ),
        (KeyCode::Char('`'), CONTROL, Some(Action::OpenTerminal)),
        (KeyCode::Char('x'), PLAIN, Some(Action::EditorInsert('x'))),
        (KeyCode::Backspace, PLAIN, Some(Action::EditorDeleteBackward)),
        (
            KeyCode::Up,
            SHIFT,
            Some(Action::EditorMoveCursor {
                line_delta: -1,
                col_delta: 0,
                extend_selection: true,
            }),
        ),
        (KeyCode::PageDown, PLAIN, Some(Action::EditorPage { up: false, extend: false })),
        (KeyCode::Enter, PLAIN, Some(Action::ActivateFocused)),
        (KeyCode::Esc, PLAIN, Some(Action::CancelModal)),
    ];
    for (code, modifiers, action) in cases {
        assert_eq!(mapped(&app, code, modifiers), action, "{code:?}");
    }
    app.focus = Landmark::Authority;
    assert_eq!(mapped(&app, KeyCode::Enter, PLAIN), Some(Action::ReviewTrust));
    assert_eq!(mapped(&app, KeyCode::Char('x'), PLAIN), None);
}

#[test]
fn enter_opens_the_selected_entry() {
    let mut app = app();
    app.focus = Landmark::PrimaryPane;
    let file = Some(SelectedEntry { path: "/w/a".to_owned(), is_dir: false });
    assert_eq!(map_key(key(KeyCode::Enter, PLAIN), &seen(&app), &file), None);
    let epoch = app.epoch;
    app.apply_action(Action::UpdateProjectState { tree: Some(1), epoch });
    assert_eq!(
        map_key(key(KeyCode::Enter, PLAIN), &seen(&app), &file),
        Some(Action::RequestProjectFile { path: "/w/a".to_owned() })
    );
    let dir = Some(SelectedEntry { path: "/w/d".to_owned(), is_dir: true });
    assert_eq!(
        map_key(key(KeyCode::Enter, PLAIN), &seen(&app), &dir),
        Some(Action::ProjectToggleDir { path: "/w/d".to_owned() })
    );
    assert_eq!(
        mapped(&app, KeyCode::Down, PLAIN),
        Some(Action::ProjectMoveSelection { delta: 1 })
    );
}

#[test]
fn terminals_get_the_bytes_of_keys() {
    let bytes = |code, modifiers| terminal_key_bytes(key(code, modifiers));
    assert_eq!(bytes(KeyCode::Char('c'), CONTROL), Some(vec![3]));
    assert_eq!(bytes(KeyCode::Char('['), CONTROL), Some(vec![27]));
    assert_eq!(bytes(KeyCode::Char('é'), CONTROL), None);
    assert_eq!(bytes(KeyCode::Char('é'), PLAIN), Some(vec![0xc3, 0xa9]));
    assert_eq!(bytes(KeyCode::Char('x'), ALT), Some(vec![27, b'x']));
    assert_eq!(bytes(KeyCode::Enter, PLAIN), Some(vec![13]));
    assert_eq!(bytes(KeyCode::BackTab, PLAIN), Some(b"\x1b[Z".to_vec()));
    assert_eq!(bytes(KeyCode::Left, PLAIN), Some(b"\x1b[D".to_vec()));
    assert_eq!(bytes(KeyCode::Delete, PLAIN), Some(b"\x1b[3~".to_vec()));
    assert_eq!(bytes(KeyCode::PageDown, PLAIN), Some(b"\x1b[6~".to_vec()));
    assert_eq!(bytes(KeyCode::F(5), PLAIN), None);
}

#[test]
fn quitting_is_left_to_the_terminal_while_it_captures() {
    let quit = || Event::Key(key(KeyCode::Char('c'), CONTROL));
    assert_eq!(handle_event(quit(), &seen(&app()), &None), vec![Action::Quit]);
    assert_eq!(
        handle_event(quit(), &captured(), &None),
        vec![Action::TerminalInput(vec![3])]
    );
    let esc = Event::Key(key(KeyCode::Esc, PLAIN));
    assert_eq!(
        handle_event(esc, &captured(), &None),
        vec![Action::ReleaseTerminalCapture]
    );
}

#[test]
fn pastes_go_where_typing_goes() {
    let paste = || Event::Paste("é".to_owned());
    assert_eq!(
        handle_event(paste(), &seen(&app()), &None),
        vec![Action::EditorPaste("é".to_owned())]
    );
    assert_eq!(
        handle_event(paste(), &captured(), &None),
        vec![Action::TerminalInput(vec![0xc3, 0xa9])]
    );
    let mut elsewhere = app();
    elsewhere.focus = Landmark::Toolbar;
    assert!(handle_event(paste(), &seen(&elsewhere), &None).is_empty());
    assert_eq!(
        handle_event(Event::Resize(90, 30), &seen(&app()), &None),
        vec![Action::TerminalResize { width: 90, height: 30 }]
    );
}

#[test]
fn some_shortcuts_hold_everywhere() {
    let mut modal = app();
    modal.apply_action(Action::ReviewTrust);
    let f6 = Event::Key(key(KeyCode::F(6), PLAIN));
    assert_eq!(
        handle_event(f6, &seen(&modal), &None),
        vec![Action::CycleLandmarkForward]
    );
    let tool = Event::Key(key(KeyCode::Char('1'), ALT));
    assert_eq!(
        handle_event(tool, &seen(&modal), &None),
        vec![Action::ActivateLeftTool(1)]
    );
    assert!(is_f6(&Event::Key(key(KeyCode::F(6), SHIFT))));
    assert!(is_shift_f6(&Event::Key(key(KeyCode::F(6), SHIFT))));
    assert_eq!(is_alt_tool(&Event::Key(key(KeyCode::Char('4'), ALT))), Some(4));
    assert_eq!(is_alt_tool(&Event::Key(key(KeyCode::Char('5'), ALT))), None);
    assert!(is_command_k(&Event::Key(key(KeyCode::Char('k'), CONTROL))));
    assert!(handle_event(Event::FocusLost, &seen(&app()), &None).is_empty());
}

fn mouse(kind: MouseEventKind, column: u16, row: u16) -> MouseEvent {
    MouseEvent { kind, column, row }
}

#[test]
fn the_mouse_points_at_landmarks() {
    let app = app();
    let s = seen(&app);
    let authority = s.layout.rect_authority();
    let left = MouseEventKind::Down(MouseButton::Left);
    assert_eq!(
        map_mouse(mouse(left, authority.x, authority.y), &s),
        Some(Action::ReviewTrust)
    );
    let editor = s.layout.rect_editor();
    assert_eq!(
        map_mouse(mouse(left, editor.x, editor.y), &s),
        Some(Action::EditorSetCursor { byte: 0 })
    );
    assert_eq!(
        map_mouse(mouse(MouseEventKind::Drag(MouseButton::Left), editor.x, editor.y), &s),
        Some(Action::EditorSetSelection { anchor: 0, cursor: 0 })
    );
    assert_eq!(
        map_mouse(mouse(MouseEventKind::ScrollUp, editor.x, editor.y), &s),
        Some(Action::Wheel { landmark: Landmark::Editor, lines: -3 })
    );
    let status = s.layout.rect_status();
    assert_eq!(landmark_at(&s.layout, 0, status.y, Landmark::Editor), Landmark::StatusBar);
    assert_eq!(landmark_at(&s.layout, 0, 0, Landmark::Editor), Landmark::Toolbar);
    assert_eq!(
        map_mouse(mouse(MouseEventKind::Down(MouseButton::Right), 0, 0), &s),
        Some(Action::MouseDown { x: 0, y: 0, button: 1 })
    );
    assert_eq!(map_mouse(mouse(MouseEventKind::Moved, 0, 0), &s), None);
}
