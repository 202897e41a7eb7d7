//! The terminal screen's state and how keys move it.
use vstd::prelude::*;

verus! {

/// The screens of the terminal interface.
#[derive(Debug, Clone, Copy, PartialEq, Eq, Structural)]
pub enum Screen {
    Dashboard,
    Today,
}

/// The keys the interface tells apart.
#[derive(Debug, Clone, Copy, PartialEq, Eq, Structural)]
pub enum Key {
    Char(char),
    Esc,
    Other,
}

/// The interface's state: the screen shown, and whether to leave.
#[derive(Debug)]
pub struct App {
    pub screen: Screen,
    pub should_quit: bool,
}

impl App {
    /// The interface opens on the dashboard.
    pub fn new() -> (r: App)
        ensures
            r.screen == Screen::Dashboard,
            !r.should_quit,
    {
        App { screen: Screen::Dashboard, should_quit: false }
    }
}

/// The screen after `key` is pressed on `screen`.
pub open spec fn next_screen(screen: Screen, key: Key) -> Screen {
    match (screen, key) {
        (Screen::Dashboard, Key::Char('t')) => Screen::Today,
        (Screen::Today, Key::Esc) => Screen::Dashboard,
        _ => screen,
    }
}

/// Whether pressing `key` on `screen` asks to leave.
pub open spec fn quits(screen: Screen, key: Key) -> bool {
    key == Key::Char('q')
}

/// Applies a key press: `q` leaves from any screen, `t` opens today from the
/// dashboard, `Esc` goes back from today to the dashboard; other keys change
/// nothing.
pub fn handle_key(code: Key, app: &mut App)
    ensures
        final(app).screen == next_screen(old(app).screen, code),
        final(app).should_quit == (old(app).should_quit || quits(old(app).screen, code)),
{
    match app.screen {
        Screen::Dashboard => match code {
            Key::Char('q') => app.should_quit = true,
            Key::Char('t') => app.screen = Screen::Today,
            _ => {},
        },
        Screen::Today => match code {
            Key::Esc => app.screen = Screen::Dashboard,
            Key::Char('q') => app.should_quit = true,
            _ => {},
        },
    }
}

/// `q` leaves from every screen and changes no screen; no other key leaves;
/// `Esc` on today and `t` on the dashboard move between the two screens.
pub proof fn law_keys(screen: Screen, key: Key)
    ensures
        quits(screen, Key::Char('q')),
        next_screen(screen, Key::Char('q')) == screen,
        key != Key::Char('q') ==> !quits(screen, key),
        next_screen(Screen::Dashboard, Key::Char('t')) == Screen::Today,
        next_screen(Screen::Today, Key::Esc) == Screen::Dashboard,
        next_screen(next_screen(Screen::Dashboard, Key::Char('t')), Key::Esc) == Screen::Dashboard,
{
}

/// Only one key leaves each screen: on today every key but `Esc` keeps the
/// today screen, and on the dashboard every key but `t` keeps the dashboard.
pub proof fn law_one_key_leaves_each_screen(key: Key)
    ensures
        key != Key::Esc ==> next_screen(Screen::Today, key) == Screen::Today,
        key != Key::Char('t') ==> next_screen(Screen::Dashboard, key) == Screen::Dashboard,
        next_screen(Screen::Today, key) != Screen::Today <==> key == Key::Esc,
        next_screen(Screen::Dashboard, key) != Screen::Dashboard <==> key == Key::Char('t'),
{
}

} // verus!
