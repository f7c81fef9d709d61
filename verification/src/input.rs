//! What keys and the mouse do to a session, and what one turn of the render
//! loop does with the results and the event that it was handed.

use crate::crawl::{CrawlResult, Record};
use crate::session::{AppState, SessionView};
use crate::text::views;
use vstd::prelude::*;

verus! {

/// The address of the browser driver that a crawl connects to.
pub const WEBDRIVER_URL: &'static str = "http://localhost:4444";

/// How many results the channel from the crawl worker holds before the worker
/// has to wait.
pub const CRAWLER_CHANNEL_BUFFER: usize = 100;

/// How long the render loop waits for an event, in milliseconds.
pub const EVENT_POLL_TIMEOUT_MILLIS: u64 = 100;

/// How many lines one scroll step moves the content.
pub const SCROLL_LINES: u16 = 3;

/// A key, as far as the session tells keys apart.
#[derive(Debug, Clone, Copy, PartialEq, Eq)]
pub enum KeyCode {
    Enter,
    Backspace,
    Esc,
    Up,
    Down,
    PageUp,
    PageDown,
    Char(char),
    /// Any other key.
    Other,
}

/// A key press: the key, and whether the control key was held.
#[derive(Debug, Clone, Copy, PartialEq, Eq)]
pub struct KeyEvent {
    pub code: KeyCode,
    pub control: bool,
}

/// What the mouse did, as far as the session tells it apart.
#[derive(Debug, Clone, Copy, PartialEq, Eq)]
pub enum MouseEventKind {
    ScrollDown,
    ScrollUp,
    /// Anything else: a click, a drag, a move.
    Other,
}

/// A mouse event at a screen cell.
#[derive(Debug, Clone, Copy, PartialEq, Eq)]
pub struct MouseEvent {
    pub kind: MouseEventKind,
    pub column: u16,
    pub row: u16,
}

/// An input event.
#[derive(Debug, Clone, Copy, PartialEq, Eq)]
pub enum Event {
    Key(KeyEvent),
    Mouse(MouseEvent),
    /// A resize or anything else: the next frame takes care of it.
    Other,
}

/// What the render loop is to do after an event.
#[derive(Debug, Clone, Copy, PartialEq, Eq)]
pub enum AppControl {
    /// Go on with the session.
    Continue,
    /// Stop the crawl and go back to the prompt for a start address.
    ExitCrawlerView,
    /// Stop the crawl and leave the program.
    ExitApp,
}

impl KeyEvent {
    /// The key combination that leaves the program: control and `q`.
    pub open spec fn is_quit(self) -> bool {
        self.control && self.code == KeyCode::Char('q')
    }

    /// The key combination that goes back to the prompt: control and `c`.
    pub open spec fn is_back(self) -> bool {
        self.control && self.code == KeyCode::Char('c')
    }
}

/// What a key does to a session in which no query is being typed.
pub open spec fn browse_key(s: SessionView, key: KeyEvent) -> SessionView {
    match key.code {
        KeyCode::Down => s.select_next(),
        KeyCode::Up => s.select_previous(),
        KeyCode::PageDown => s.scroll_content_down(SCROLL_LINES),
        KeyCode::PageUp => s.scroll_content_up(SCROLL_LINES),
        KeyCode::Esc => if s.query.len() > 0 {
            s.clear_search()
        } else {
            s
        },
        KeyCode::Char(c) => if c == 'j' {
            s.select_next()
        } else if c == 'k' {
            s.select_previous()
        } else if c == 'd' && key.control {
            s.scroll_content_down((2 * SCROLL_LINES) as u16)
        } else if c == 'u' && key.control {
            s.scroll_content_up((2 * SCROLL_LINES) as u16)
        } else if c == '/' {
            s.start_search()
        } else {
            s
        },
        _ => s,
    }
}

/// What a key does to a session in which a query is being typed.
pub open spec fn edit_key(s: SessionView, key: KeyEvent) -> SessionView {
    match key.code {
        KeyCode::Enter => s.finalize_search(),
        KeyCode::Char(c) => s.push_search_char(c),
        KeyCode::Backspace => s.pop_search_char(),
        KeyCode::Esc => s.cancel_search(),
        _ => s,
    }
}

/// What a key does: the session after it, and what the render loop is to do.
/// The two leaving combinations work whether or not a query is being typed and
/// leave the session as it is; every other key goes by the mode.
pub open spec fn key_effect(s: SessionView, key: KeyEvent) -> (SessionView, AppControl) {
    if key.is_quit() {
        (s, AppControl::ExitApp)
    } else if key.is_back() {
        (s, AppControl::ExitCrawlerView)
    } else if s.searching {
        (edit_key(s, key), AppControl::Continue)
    } else {
        (browse_key(s, key), AppControl::Continue)
    }
}

/// What a mouse event does: the wheel over the content panel scrolls the
/// content, anything else does nothing.
pub open spec fn mouse_effect(s: SessionView, mouse: MouseEvent) -> SessionView {
    if s.area.holds(mouse.column, mouse.row) {
        match mouse.kind {
            MouseEventKind::ScrollDown => s.scroll_content_down(SCROLL_LINES),
            MouseEventKind::ScrollUp => s.scroll_content_up(SCROLL_LINES),
            MouseEventKind::Other => s,
        }
    } else {
        s
    }
}

/// What an event does.
pub open spec fn event_effect(s: SessionView, event: Event) -> (SessionView, AppControl) {
    match event {
        Event::Key(key) => key_effect(s, key),
        Event::Mouse(mouse) => (mouse_effect(s, mouse), AppControl::Continue),
        Event::Other => (s, AppControl::Continue),
    }
}

/// What one turn of the render loop does: the results that arrived are
/// recorded in their order, then the event, if there is one, takes effect.
pub open spec fn turn_effect(s: SessionView, arrived: Seq<Record>, event: Option<Event>) -> (
    SessionView,
    AppControl,
) {
    match event {
        Some(e) => event_effect(s.add_all(arrived), e),
        None => (s.add_all(arrived), AppControl::Continue),
    }
}

/// The two leaving combinations give their signal whether or not a query is
/// being typed, and leave the session as it is. No other key gives a signal.
pub proof fn lemma_leaving_keys(s: SessionView, key: KeyEvent)
    ensures
        key.is_quit() ==> key_effect(s, key) == (s, AppControl::ExitApp),
        key.is_back() ==> key_effect(s, key) == (s, AppControl::ExitCrawlerView),
        !key.is_quit() && !key.is_back() ==> key_effect(s, key).1 == AppControl::Continue,
{
}

impl AppControl {
    /// Whether the crawl has to be stopped: on every signal but `Continue`.
    pub fn ends_session(&self) -> (r: bool)
        ensures
            r == (*self != AppControl::Continue),
    {
        match self {
            AppControl::Continue => false,
            _ => true,
        }
    }
}

/// Handles a key while no query is being typed.
fn handle_browse_key(key: KeyEvent, app_state: &mut AppState)
    requires
        old(app_state).inv(),
    ensures
        final(app_state)@ == browse_key(old(app_state)@, key),
        final(app_state).inv(),
{
    match key.code {
        KeyCode::Down => app_state.select_next(),
        KeyCode::Up => app_state.select_previous(),
        KeyCode::PageDown => app_state.scroll_content_down(SCROLL_LINES),
        KeyCode::PageUp => app_state.scroll_content_up(SCROLL_LINES),
        KeyCode::Esc => {
            if !app_state.active_search_query().is_empty() {
                app_state.clear_search();
            }
        },
        KeyCode::Char(c) => {
            if c == 'j' {
                app_state.select_next();
            } else if c == 'k' {
                app_state.select_previous();
            } else if c == 'd' && key.control {
                app_state.scroll_content_down(SCROLL_LINES * 2);
            } else if c == 'u' && key.control {
                app_state.scroll_content_up(SCROLL_LINES * 2);
            } else if c == '/' {
                app_state.start_search();
            }
        },
        _ => {},
    }
}

/// Handles a key while a query is being typed.
fn handle_edit_key(key: KeyEvent, app_state: &mut AppState)
    requires
        old(app_state).inv(),
    ensures
        final(app_state)@ == edit_key(old(app_state)@, key),
        final(app_state).inv(),
{
    match key.code {
        KeyCode::Enter => app_state.finalize_search(),
        KeyCode::Char(c) => app_state.push_search_char(c),
        KeyCode::Backspace => app_state.pop_search_char(),
        KeyCode::Esc => app_state.cancel_search(),
        _ => {},
    }
}

/// Handles a key press and says what the render loop is to do next.
pub fn handle_key_input(key: KeyEvent, app_state: &mut AppState) -> (control: AppControl)
    requires
        old(app_state).inv(),
    ensures
        (final(app_state)@, control) == key_effect(old(app_state)@, key),
        final(app_state).inv(),
{
    match key.code {
        KeyCode::Char(c) => {
            if key.control && c == 'q' {
                return AppControl::ExitApp;
            }
            if key.control && c == 'c' {
                return AppControl::ExitCrawlerView;
            }
        },
        _ => {},
    }
    if app_state.is_searching() {
        handle_edit_key(key, app_state);
    } else {
        handle_browse_key(key, app_state);
    }
    AppControl::Continue
}

/// Handles a mouse event: the wheel over the content panel scrolls.
pub fn handle_mouse_input(mouse_event: MouseEvent, app_state: &mut AppState)
    requires
        old(app_state).inv(),
    ensures
        final(app_state)@ == mouse_effect(old(app_state)@, mouse_event),
        final(app_state).inv(),
{
    if app_state.content_area().contains_cell(mouse_event.column, mouse_event.row) {
        match mouse_event.kind {
            MouseEventKind::ScrollDown => {
                app_state.scroll_content_down(SCROLL_LINES);
            },
            MouseEventKind::ScrollUp => {
                app_state.scroll_content_up(SCROLL_LINES);
            },
            MouseEventKind::Other => {},
        }
    }
}

/// Handles an input event and says what the render loop is to do next.
pub fn handle_event(event: Event, app_state: &mut AppState) -> (control: AppControl)
    requires
        old(app_state).inv(),
    ensures
        (final(app_state)@, control) == event_effect(old(app_state)@, event),
        final(app_state).inv(),
{
    match event {
        Event::Key(key) => handle_key_input(key, app_state),
        Event::Mouse(mouse) => {
            handle_mouse_input(mouse, app_state);
            AppControl::Continue
        },
        Event::Other => AppControl::Continue,
    }
}

/// One turn of the render loop: records the results that arrived, then
/// handles the event, if one came within the wait. On any signal but
/// `Continue` the caller stops the crawl worker before it returns.
pub fn run_app_turn(app_state: &mut AppState, arrived: Vec<CrawlResult>, event: Option<Event>) -> (control:
    AppControl)
    requires
        old(app_state).inv(),
        old(app_state)@.urls.len() + arrived.len() <= usize::MAX,
    ensures
        (final(app_state)@, control) == turn_effect(old(app_state)@, views(arrived@), event),
        final(app_state).inv(),
{
    app_state.add_crawl_results(arrived);
    match event {
        Some(e) => handle_event(e, app_state),
        None => AppControl::Continue,
    }
}

} // verus!
