//! What a key does, by what has the focus.
use vstd::prelude::*;

verus! {

/// A key, as far as the screens tell keys apart.
#[derive(Debug, Clone, Copy, PartialEq, Eq, Structural)]
pub enum KeyCode {
    Char(char),
    Enter,
    Esc,
    Tab,
    Backspace,
    Left,
    Right,
    Up,
    Down,
    Home,
    End,
    Other,
}

/// A key press, with or without the control key.
#[derive(Debug, Clone, Copy, PartialEq, Eq, Structural)]
pub struct KeyEvent {
    pub code: KeyCode,
    pub ctrl: bool,
}

/// The key that ends the program from anywhere.
pub open spec fn is_ctrl_c(key: KeyEvent) -> bool {
    key.ctrl && key.code == KeyCode::Char('c')
}

/// Tells whether a key is the one that ends the program from anywhere.
pub fn ctrl_c(key: KeyEvent) -> (r: bool)
    ensures
        r == is_ctrl_c(key),
{
    key.ctrl && key.code == KeyCode::Char('c')
}

/// What part of the screen takes the next key.
#[derive(Debug, Clone, Copy, PartialEq, Eq, Structural)]
pub enum Focus {
    List,
    Search,
}

#[derive(Debug, Clone, Copy, PartialEq, Eq, Structural)]
pub enum Action {
    Quit,
    MoveUp(usize),
    MoveDown(usize),
    JumpTop,
    JumpBottom,
    ToggleSelect,
    Submit,
    Refresh,
    FocusSearch,
    FocusList,
    ClearSelection,
    SearchInsert(char),
    SearchBackspace,
    SearchCursor(SearchMove),
    SearchDeleteWordBack,
    Help,
    ShowLogs,
    ToggleRaw,
    CycleScopeFilter,
    ToggleMarkedView,
    OpenApprovalQueue,
}

#[derive(Debug, Clone, Copy, PartialEq, Eq, Structural)]
pub enum SearchMove {
    Left,
    Right,
    Home,
    End,
}

/// What a letter does in the list, with the control key and without it.
pub open spec fn list_letter(c: char, ctrl: bool) -> Option<Action> {
    if c == 'q' {
        Some(Action::Quit)
    } else if c == 'c' && ctrl {
        Some(Action::Quit)
    } else if (c == 'j' && !ctrl) || (c == 'n' && ctrl) {
        Some(Action::MoveDown(1))
    } else if (c == 'k' && !ctrl) || (c == 'p' && ctrl) {
        Some(Action::MoveUp(1))
    } else if c == 'd' && ctrl {
        Some(Action::MoveDown(10))
    } else if c == 'u' && ctrl {
        Some(Action::MoveUp(10))
    } else if c == 'g' {
        Some(Action::JumpTop)
    } else if c == 'G' {
        Some(Action::JumpBottom)
    } else if c == ' ' {
        Some(Action::ToggleSelect)
    } else if c == 'R' {
        Some(Action::Refresh)
    } else if c == '/' {
        Some(Action::FocusSearch)
    } else if c == '?' {
        Some(Action::Help)
    } else if c == 'L' {
        Some(Action::ShowLogs)
    } else if c == 'J' {
        Some(Action::ToggleRaw)
    } else if c == 'f' && !ctrl {
        Some(Action::CycleScopeFilter)
    } else if c == 'm' && !ctrl {
        Some(Action::ToggleMarkedView)
    } else if c == 'A' {
        Some(Action::OpenApprovalQueue)
    } else {
        None
    }
}

/// What a letter does in the search box: without the control key it is typed.
pub open spec fn search_letter(c: char, ctrl: bool) -> Option<Action> {
    if !ctrl {
        Some(Action::SearchInsert(c))
    } else if c == 'c' {
        Some(Action::Quit)
    } else if c == 'n' {
        Some(Action::MoveDown(1))
    } else if c == 'p' {
        Some(Action::MoveUp(1))
    } else if c == 'a' {
        Some(Action::SearchCursor(SearchMove::Home))
    } else if c == 'e' {
        Some(Action::SearchCursor(SearchMove::End))
    } else if c == 'w' {
        Some(Action::SearchDeleteWordBack)
    } else {
        None
    }
}

/// What a key does. A key that does nothing is ignored.
pub open spec fn dispatched(focus: Focus, key: KeyEvent) -> Option<Action> {
    match (focus, key.code) {
        (Focus::List, KeyCode::Char(c)) => list_letter(c, key.ctrl),
        (Focus::List, KeyCode::Down) => Some(Action::MoveDown(1)),
        (Focus::List, KeyCode::Up) => Some(Action::MoveUp(1)),
        (Focus::List, KeyCode::Home) => Some(Action::JumpTop),
        (Focus::List, KeyCode::End) => Some(Action::JumpBottom),
        (Focus::List, KeyCode::Enter) => Some(Action::Submit),
        (Focus::List, KeyCode::Esc) => Some(Action::ClearSelection),
        (Focus::List, _) => None,
        (Focus::Search, KeyCode::Char(c)) => search_letter(c, key.ctrl),
        (Focus::Search, KeyCode::Esc) => Some(Action::FocusList),
        (Focus::Search, KeyCode::Enter) => Some(Action::Submit),
        (Focus::Search, KeyCode::Up) => Some(Action::MoveUp(1)),
        (Focus::Search, KeyCode::Down) => Some(Action::MoveDown(1)),
        (Focus::Search, KeyCode::Backspace) => Some(Action::SearchBackspace),
        (Focus::Search, KeyCode::Left) => Some(Action::SearchCursor(SearchMove::Left)),
        (Focus::Search, KeyCode::Right) => Some(Action::SearchCursor(SearchMove::Right)),
        (Focus::Search, KeyCode::Home) => Some(Action::SearchCursor(SearchMove::Home)),
        (Focus::Search, KeyCode::End) => Some(Action::SearchCursor(SearchMove::End)),
        (Focus::Search, _) => None,
    }
}

/// What a key does. `None` means that the key is ignored in this focus.
pub fn dispatch(focus: Focus, key: KeyEvent) -> (r: Option<Action>)
    ensures
        r == dispatched(focus, key),
{
    match focus {
        Focus::List => list_action(key),
        Focus::Search => search_action(key),
    }
}

fn list_action(key: KeyEvent) -> (r: Option<Action>)
    ensures
        r == dispatched(Focus::List, key),
{
    let ctrl: bool = key.ctrl;
    match key.code {
        KeyCode::Char('q') => Some(Action::Quit),
        KeyCode::Char('c') if ctrl => Some(Action::Quit),
        KeyCode::Char('j') if !ctrl => Some(Action::MoveDown(1)),
        KeyCode::Down => Some(Action::MoveDown(1)),
        KeyCode::Char('n') if ctrl => Some(Action::MoveDown(1)),
        KeyCode::Char('k') if !ctrl => Some(Action::MoveUp(1)),
        KeyCode::Up => Some(Action::MoveUp(1)),
        KeyCode::Char('p') if ctrl => Some(Action::MoveUp(1)),
        KeyCode::Char('d') if ctrl => Some(Action::MoveDown(10)),
        KeyCode::Char('u') if ctrl => Some(Action::MoveUp(10)),
        KeyCode::Char('g') => Some(Action::JumpTop),
        KeyCode::Char('G') => Some(Action::JumpBottom),
        KeyCode::Home => Some(Action::JumpTop),
        KeyCode::End => Some(Action::JumpBottom),
        KeyCode::Char(' ') => Some(Action::ToggleSelect),
        KeyCode::Enter => Some(Action::Submit),
        KeyCode::Char('R') => Some(Action::Refresh),
        KeyCode::Char('/') => Some(Action::FocusSearch),
        KeyCode::Esc => Some(Action::ClearSelection),
        KeyCode::Char('?') => Some(Action::Help),
        KeyCode::Char('L') => Some(Action::ShowLogs),
        KeyCode::Char('J') => Some(Action::ToggleRaw),
        KeyCode::Char('f') if !ctrl => Some(Action::CycleScopeFilter),
        KeyCode::Char('m') if !ctrl => Some(Action::ToggleMarkedView),
        KeyCode::Char('A') => Some(Action::OpenApprovalQueue),
        _ => None,
    }
}

fn search_action(key: KeyEvent) -> (r: Option<Action>)
    ensures
        r == dispatched(Focus::Search, key),
{
    let ctrl: bool = key.ctrl;
    match key.code {
        KeyCode::Esc => Some(Action::FocusList),
        KeyCode::Enter => Some(Action::Submit),
        KeyCode::Char('c') if ctrl => Some(Action::Quit),

        // The screen hands the focus back to the list before it moves, so that
        // a row can be selected right after a look into the filtered list.
        KeyCode::Up => Some(Action::MoveUp(1)),
        KeyCode::Down => Some(Action::MoveDown(1)),
        KeyCode::Char('n') if ctrl => Some(Action::MoveDown(1)),
        KeyCode::Char('p') if ctrl => Some(Action::MoveUp(1)),

        // Editing as in a shell.
        KeyCode::Char('a') if ctrl => Some(Action::SearchCursor(SearchMove::Home)),
        KeyCode::Char('e') if ctrl => Some(Action::SearchCursor(SearchMove::End)),
        KeyCode::Char('w') if ctrl => Some(Action::SearchDeleteWordBack),

        KeyCode::Backspace => Some(Action::SearchBackspace),
        KeyCode::Left => Some(Action::SearchCursor(SearchMove::Left)),
        KeyCode::Right => Some(Action::SearchCursor(SearchMove::Right)),
        KeyCode::Home => Some(Action::SearchCursor(SearchMove::Home)),
        KeyCode::End => Some(Action::SearchCursor(SearchMove::End)),
        KeyCode::Char(c) if !ctrl => Some(Action::SearchInsert(c)),
        _ => None,
    }
}

/// Ctrl-C quits from anywhere.
pub proof fn law_ctrl_c_quits(focus: Focus, key: KeyEvent)
    requires
        is_ctrl_c(key),
    ensures
        dispatched(focus, key) == Some(Action::Quit),
{
}

/// Every character that is pressed alone in the search box is typed.
pub proof fn law_letters_are_typed_in_search(c: char)
    ensures
        dispatched(Focus::Search, KeyEvent { code: KeyCode::Char(c), ctrl: false }) == Some(
            Action::SearchInsert(c),
        ),
{
}

/// Nothing is typed while the list has the focus.
pub proof fn law_list_never_types(key: KeyEvent)
    ensures
        dispatched(Focus::List, key) matches Some(a) ==> !(a is SearchInsert)
            && !(a is SearchBackspace) && !(a is SearchCursor) && !(a is SearchDeleteWordBack),
{
}

/// A key moves by one row or by ten.
pub proof fn law_moves_are_small(focus: Focus, key: KeyEvent)
    ensures
        dispatched(focus, key) matches Some(Action::MoveUp(n)) ==> n == 1 || n == 10,
        dispatched(focus, key) matches Some(Action::MoveDown(n)) ==> n == 1 || n == 10,
{
}

/// The keys of the list. Those for which `ctrl` stands do the same with the
/// control key and without it.
pub proof fn law_keys_of_the_list(ctrl: bool)
    ensures
        dispatched(Focus::List, KeyEvent { code: KeyCode::Char('q'), ctrl: ctrl }) == Some(Action::Quit),
        dispatched(Focus::List, KeyEvent { code: KeyCode::Char('c'), ctrl: true }) == Some(Action::Quit),
        dispatched(Focus::List, KeyEvent { code: KeyCode::Char('j'), ctrl: false }) == Some(Action::MoveDown(1)),
        dispatched(Focus::List, KeyEvent { code: KeyCode::Char('n'), ctrl: true }) == Some(Action::MoveDown(1)),
        dispatched(Focus::List, KeyEvent { code: KeyCode::Down, ctrl: ctrl }) == Some(Action::MoveDown(1)),
        dispatched(Focus::List, KeyEvent { code: KeyCode::Char('k'), ctrl: false }) == Some(Action::MoveUp(1)),
        dispatched(Focus::List, KeyEvent { code: KeyCode::Char('p'), ctrl: true }) == Some(Action::MoveUp(1)),
        dispatched(Focus::List, KeyEvent { code: KeyCode::Up, ctrl: ctrl }) == Some(Action::MoveUp(1)),
        dispatched(Focus::List, KeyEvent { code: KeyCode::Char('d'), ctrl: true }) == Some(Action::MoveDown(10)),
        dispatched(Focus::List, KeyEvent { code: KeyCode::Char('u'), ctrl: true }) == Some(Action::MoveUp(10)),
        dispatched(Focus::List, KeyEvent { code: KeyCode::Char('g'), ctrl: ctrl }) == Some(Action::JumpTop),
        dispatched(Focus::List, KeyEvent { code: KeyCode::Home, ctrl: ctrl }) == Some(Action::JumpTop),
        dispatched(Focus::List, KeyEvent { code: KeyCode::Char('G'), ctrl: ctrl }) == Some(Action::JumpBottom),
        dispatched(Focus::List, KeyEvent { code: KeyCode::End, ctrl: ctrl }) == Some(Action::JumpBottom),
        dispatched(Focus::List, KeyEvent { code: KeyCode::Char(' '), ctrl: ctrl }) == Some(Action::ToggleSelect),
        dispatched(Focus::List, KeyEvent { code: KeyCode::Enter, ctrl: ctrl }) == Some(Action::Submit),
        dispatched(Focus::List, KeyEvent { code: KeyCode::Char('R'), ctrl: ctrl }) == Some(Action::Refresh),
        dispatched(Focus::List, KeyEvent { code: KeyCode::Char('/'), ctrl: ctrl }) == Some(Action::FocusSearch),
        dispatched(Focus::List, KeyEvent { code: KeyCode::Esc, ctrl: ctrl }) == Some(Action::ClearSelection),
        dispatched(Focus::List, KeyEvent { code: KeyCode::Char('?'), ctrl: ctrl }) == Some(Action::Help),
        dispatched(Focus::List, KeyEvent { code: KeyCode::Char('L'), ctrl: ctrl }) == Some(Action::ShowLogs),
        dispatched(Focus::List, KeyEvent { code: KeyCode::Char('J'), ctrl: ctrl }) == Some(Action::ToggleRaw),
        dispatched(Focus::List, KeyEvent { code: KeyCode::Char('f'), ctrl: false }) == Some(Action::CycleScopeFilter),
        dispatched(Focus::List, KeyEvent { code: KeyCode::Char('m'), ctrl: false }) == Some(Action::ToggleMarkedView),
        dispatched(Focus::List, KeyEvent { code: KeyCode::Char('A'), ctrl: ctrl }) == Some(Action::OpenApprovalQueue),
        dispatched(Focus::List, KeyEvent { code: KeyCode::Tab, ctrl: ctrl }) is None,
        dispatched(Focus::List, KeyEvent { code: KeyCode::Backspace, ctrl: ctrl }) is None,
{
}

/// The keys of the search box.
pub proof fn law_keys_of_the_search_box(ctrl: bool)
    ensures
        dispatched(Focus::Search, KeyEvent { code: KeyCode::Esc, ctrl: ctrl }) == Some(Action::FocusList),
        dispatched(Focus::Search, KeyEvent { code: KeyCode::Enter, ctrl: ctrl }) == Some(Action::Submit),
        dispatched(Focus::Search, KeyEvent { code: KeyCode::Up, ctrl: ctrl }) == Some(Action::MoveUp(1)),
        dispatched(Focus::Search, KeyEvent { code: KeyCode::Down, ctrl: ctrl }) == Some(Action::MoveDown(1)),
        dispatched(Focus::Search, KeyEvent { code: KeyCode::Char('n'), ctrl: true }) == Some(Action::MoveDown(1)),
        dispatched(Focus::Search, KeyEvent { code: KeyCode::Char('p'), ctrl: true }) == Some(Action::MoveUp(1)),
        dispatched(Focus::Search, KeyEvent { code: KeyCode::Char('a'), ctrl: true }) == Some(Action::SearchCursor(SearchMove::Home)),
        dispatched(Focus::Search, KeyEvent { code: KeyCode::Char('e'), ctrl: true }) == Some(Action::SearchCursor(SearchMove::End)),
        dispatched(Focus::Search, KeyEvent { code: KeyCode::Char('w'), ctrl: true }) == Some(Action::SearchDeleteWordBack),
        dispatched(Focus::Search, KeyEvent { code: KeyCode::Backspace, ctrl: ctrl }) == Some(Action::SearchBackspace),
        dispatched(Focus::Search, KeyEvent { code: KeyCode::Left, ctrl: ctrl }) == Some(Action::SearchCursor(SearchMove::Left)),
        dispatched(Focus::Search, KeyEvent { code: KeyCode::Right, ctrl: ctrl }) == Some(Action::SearchCursor(SearchMove::Right)),
        dispatched(Focus::Search, KeyEvent { code: KeyCode::Home, ctrl: ctrl }) == Some(Action::SearchCursor(SearchMove::Home)),
        dispatched(Focus::Search, KeyEvent { code: KeyCode::End, ctrl: ctrl }) == Some(Action::SearchCursor(SearchMove::End)),
        dispatched(Focus::Search, KeyEvent { code: KeyCode::Char('c'), ctrl: true }) == Some(Action::Quit),
        dispatched(Focus::Search, KeyEvent { code: KeyCode::Tab, ctrl: ctrl }) is None,
{
}

/// Different letters do different things in the list, but for the arrows' and
/// the jumps' twins; a letter without a meaning does nothing.
pub proof fn law_letters_without_meaning(c: char, ctrl: bool)
    requires
        c != 'q' && c != 'g' && c != 'G' && c != ' ' && c != 'R' && c != '/' && c != '?' && c != 'L'
            && c != 'J' && c != 'A',
        ctrl ==> c != 'c' && c != 'n' && c != 'p' && c != 'd' && c != 'u',
        !ctrl ==> c != 'j' && c != 'k' && c != 'f' && c != 'm',
    ensures
        dispatched(Focus::List, KeyEvent { code: KeyCode::Char(c), ctrl }) is None,
{
}

/// The key that ends the program is C with the control key.
pub proof fn law_ctrl_c(key: KeyEvent)
    ensures
        is_ctrl_c(key) <==> key.ctrl && key.code == KeyCode::Char('c'),
{
}

} // verus!
