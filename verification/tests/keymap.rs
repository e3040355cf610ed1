use gpam::tui::keymap::{Action, Focus, KeyCode, KeyEvent, SearchMove, dispatch};

fn key(code: KeyCode) -> KeyEvent {
    KeyEvent { code, ctrl: false }
}
fn ctrl(code: KeyCode) -> KeyEvent {
    KeyEvent { code, ctrl: true }
}

#[test]
fn j_moves_down_in_list() {
    match dispatch(Focus::List, key(KeyCode::Char('j'))).unwrap() {
        Action::MoveDown(1) => {}
        other => panic!("got {other:?}"),
    }
}

#[test]
fn j_types_into_search() {
    match dispatch(Focus::Search, key(KeyCode::Char('j'))).unwrap() {
        Action::SearchInsert('j') => {}
        other => panic!("got {other:?}"),
    }
}

#[test]
fn space_selects() {
    assert!(matches!(
        dispatch(Focus::List, key(KeyCode::Char(' '))),
        Some(Action::ToggleSelect)
    ));
}

#[test]
fn search_focus_is_action_rich() {
    assert!(matches!(
        dispatch(Focus::Search, key(KeyCode::Down)),
        Some(Action::MoveDown(1))
    ));
    assert!(matches!(
        dispatch(Focus::Search, key(KeyCode::Up)),
        Some(Action::MoveUp(1))
    ));
    assert!(matches!(
        dispatch(Focus::Search, ctrl(KeyCode::Char('n'))),
        Some(Action::MoveDown(1))
    ));
    assert!(matches!(
        dispatch(Focus::Search, ctrl(KeyCode::Char('p'))),
        Some(Action::MoveUp(1))
    ));
    assert!(matches!(
        dispatch(Focus::Search, key(KeyCode::Enter)),
        Some(Action::Submit)
    ));
    assert!(matches!(
        dispatch(Focus::Search, key(KeyCode::Esc)),
        Some(Action::FocusList)
    ));
}

#[test]
fn ctrl_c_quits_from_anywhere() {
    assert!(matches!(
        dispatch(Focus::List, ctrl(KeyCode::Char('c'))),
        Some(Action::Quit)
    ));
    assert!(matches!(
        dispatch(Focus::Search, ctrl(KeyCode::Char('c'))),
        Some(Action::Quit)
    ));
}

#[test]
fn ctrl_d_and_u_only_in_list_focus() {
    assert!(matches!(
        dispatch(Focus::List, ctrl(KeyCode::Char('d'))),
        Some(Action::MoveDown(10))
    ));
    assert!(matches!(
        dispatch(Focus::List, ctrl(KeyCode::Char('u'))),
        Some(Action::MoveUp(10))
    ));
    assert!(dispatch(Focus::Search, ctrl(KeyCode::Char('d'))).is_none());
    assert!(dispatch(Focus::Search, ctrl(KeyCode::Char('u'))).is_none());
}

#[test]
fn f_cycles_scope_filter_in_list_focus_only() {
    assert!(matches!(
        dispatch(Focus::List, key(KeyCode::Char('f'))),
        Some(Action::CycleScopeFilter)
    ));
    // 'f' in the search box must remain a literal character.
    assert!(matches!(
        dispatch(Focus::Search, key(KeyCode::Char('f'))),
        Some(Action::SearchInsert('f'))
    ));
}

#[test]
fn m_toggles_marked_view_in_list_focus_only() {
    assert!(matches!(
        dispatch(Focus::List, key(KeyCode::Char('m'))),
        Some(Action::ToggleMarkedView)
    ));
    assert!(matches!(
        dispatch(Focus::Search, key(KeyCode::Char('m'))),
        Some(Action::SearchInsert('m'))
    ));
}

#[test]
fn capital_a_opens_approval_queue_in_list_focus_only() {
    assert!(matches!(
        dispatch(Focus::List, key(KeyCode::Char('A'))),
        Some(Action::OpenApprovalQueue)
    ));
    // 'A' in the search box stays a literal character.
    assert!(matches!(
        dispatch(Focus::Search, key(KeyCode::Char('A'))),
        Some(Action::SearchInsert('A'))
    ));
}

#[test]
fn capital_l_shows_logs_in_list_focus_only() {
    assert!(matches!(
        dispatch(Focus::List, key(KeyCode::Char('L'))),
        Some(Action::ShowLogs)
    ));
    assert!(matches!(
        dispatch(Focus::Search, key(KeyCode::Char('L'))),
        Some(Action::SearchInsert('L'))
    ));
}

#[test]
fn readline_keys_in_search_focus() {
    assert!(matches!(
        dispatch(Focus::Search, ctrl(KeyCode::Char('a'))),
        Some(Action::SearchCursor(SearchMove::Home))
    ));
    assert!(matches!(
        dispatch(Focus::Search, ctrl(KeyCode::Char('e'))),
        Some(Action::SearchCursor(SearchMove::End))
    ));
    assert!(matches!(
        dispatch(Focus::Search, ctrl(KeyCode::Char('w'))),
        Some(Action::SearchDeleteWordBack)
    ));
}

#[test]
fn letters_without_a_meaning_do_nothing_in_the_list() {
    assert!(dispatch(Focus::List, key(KeyCode::Char('x'))).is_none());
    assert!(dispatch(Focus::List, key(KeyCode::Char('c'))).is_none());
    assert!(dispatch(Focus::List, ctrl(KeyCode::Char('j'))).is_none());
    assert!(dispatch(Focus::List, key(KeyCode::Tab)).is_none());
    assert_eq!(dispatch(Focus::List, ctrl(KeyCode::Char('q'))), Some(Action::Quit));
    assert_eq!(dispatch(Focus::List, key(KeyCode::Esc)), Some(Action::ClearSelection));
}
