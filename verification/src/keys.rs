//! What the keys do.

use crate::app;
use crate::app::{App, AppAction, Focus, ViewMode};
use crate::input::{InputView, TextInput};
use crate::listing;
use crate::preview;
use crate::preview::{request_preview, PreviewRequest};
use vstd::prelude::*;

verus! {

/// A key, without the modifiers held with it.
#[derive(Debug, Clone, Copy, PartialEq, Eq, Structural)]
pub enum KeyCode {
    Backspace,
    Enter,
    Left,
    Right,
    Up,
    Down,
    Home,
    End,
    PageUp,
    PageDown,
    Tab,
    Delete,
    Esc,
    Char(char),
    /// Any key that nothing is bound to.
    Other,
}

/// The modifiers held with a key. Nothing is bound to shift: the character typed
/// tells it already.
#[derive(Debug, Clone, Copy, PartialEq, Eq, Structural)]
pub struct KeyModifiers {
    pub shift: bool,
    pub control: bool,
    pub alt: bool,
    /// The command, or super, key.
    pub command: bool,
}

/// A key press.
#[derive(Debug, Clone, Copy, PartialEq, Eq, Structural)]
pub struct KeyEvent {
    pub code: KeyCode,
    pub modifiers: KeyModifiers,
}

/// What a key press does to a text input, and whether the text may have changed.
/// It is typing only without modifiers other than shift.
pub open spec fn typed(v: InputView, key: KeyEvent) -> (InputView, bool) {
    let ctrl = key.modifiers.control;
    let alt = key.modifiers.alt;
    let cmd = key.modifiers.command;
    let word_deleted = (v.without(v.word_left(), v.cursor), true);
    let start_deleted = (v.without(0, v.cursor), true);
    match key.code {
        KeyCode::Backspace => if alt || ctrl {
            word_deleted
        } else if cmd {
            start_deleted
        } else {
            (v.backspaced(), true)
        },
        KeyCode::Delete => (v.deleted_forward(), true),
        KeyCode::Left => if alt || ctrl {
            (v.at(v.word_left()), false)
        } else if cmd {
            (v.at(0), false)
        } else {
            (v.left(), false)
        },
        KeyCode::Right => if alt || ctrl {
            (v.at(v.word_right()), false)
        } else if cmd {
            (v.at(v.text.len() as int), false)
        } else {
            (v.right(), false)
        },
        KeyCode::Home => (v.at(0), false),
        KeyCode::End => (v.at(v.text.len() as int), false),
        KeyCode::Char(c) => if ctrl && c == 'w' {
            word_deleted
        } else if ctrl && c == 'u' {
            start_deleted
        } else if ctrl && c == 'k' {
            (v.without(v.cursor, v.text.len() as int), true)
        } else if ctrl && c == 'a' {
            (v.at(0), false)
        } else if ctrl && c == 'e' {
            (v.at(v.text.len() as int), false)
        } else if !ctrl && !alt && !cmd {
            (v.inserted(c), true)
        } else {
            (v, false)
        },
        _ => (v, false),
    }
}

/// Shared line editing for the search inputs: cursor movement (arrows, word
/// jumps, Home/End and their macOS/readline synonyms) and edits at the cursor.
/// Returns true for edits (cursor-only moves return false).
pub fn handle_text_input_key(input: &mut TextInput, key: KeyEvent) -> (r: bool)
    ensures
        (final(input)@, r) == typed(old(input)@, key),
{
    let ctrl = key.modifiers.control;
    let alt = key.modifiers.alt;
    let cmd = key.modifiers.command;
    match key.code {
        KeyCode::Backspace => {
            if alt || ctrl {
                input.delete_word_backwards();
            } else if cmd {
                input.delete_to_start();
            } else {
                input.backspace();
            }
            true
        },
        KeyCode::Delete => {
            input.delete_forward();
            true
        },
        KeyCode::Left => {
            if alt || ctrl {
                input.move_word_left();
            } else if cmd {
                input.move_home();
            } else {
                input.move_left();
            }
            false
        },
        KeyCode::Right => {
            if alt || ctrl {
                input.move_word_right();
            } else if cmd {
                input.move_end();
            } else {
                input.move_right();
            }
            false
        },
        KeyCode::Home => {
            input.move_home();
            false
        },
        KeyCode::End => {
            input.move_end();
            false
        },
        KeyCode::Char(c) => {
            if ctrl && c == 'w' {
                input.delete_word_backwards();
                true
            } else if ctrl && c == 'u' {
                input.delete_to_start();
                true
            } else if ctrl && c == 'k' {
                input.delete_to_end();
                true
            } else if ctrl && c == 'a' {
                input.move_home();
                false
            } else if ctrl && c == 'e' {
                input.move_end();
                false
            } else if !ctrl && !alt && !cmd {
                input.insert(c);
                true
            } else {
                false
            }
        },
        _ => false,
    }
}

/// Keys that only move the cursor leave the text alone.
pub proof fn moves_leave_the_text(v: InputView, key: KeyEvent)
    ensures
        !typed(v, key).1 ==> typed(v, key).0.text == v.text,
{
}

/// No key takes the cursor out of the text.
pub proof fn typing_keeps_the_cursor_within(v: InputView, key: KeyEvent)
    requires
        v.wf(),
    ensures
        typed(v, key).0.wf(),
{
    crate::input::word_moves_stay_within(v);
}

/// What is to be done outside the browser after a key press.
pub enum Effect {
    Nothing,
    /// Load a conversation.
    Load(PreviewRequest),
    /// Save the bookmarks.
    SaveBookmarks,
    /// Export the selected session.
    Export,
    /// Delete the file of the selected session.
    Delete,
}

/// Whether `after` and `effect` are what a request for the conversation of the
/// selected session makes of `before`.
pub open spec fn requests(before: App, after: App, effect: Effect) -> bool {
    match effect {
        Effect::Load(r) => preview::requested(before, after, Some(r)),
        Effect::Nothing => preview::requested(before, after, None),
        _ => false,
    }
}

/// The effect of a request for a conversation.
fn load(r: Option<PreviewRequest>) -> (effect: Effect)
    ensures
        match r {
            Some(q) => effect == Effect::Load(q),
            None => effect == Effect::Nothing,
        },
{
    match r {
        Some(q) => Effect::Load(q),
        None => Effect::Nothing,
    }
}

/// Whether `after` and `effect` are what a key press makes of `before` while a
/// search is typed.
pub open spec fn search_key(before: App, key: KeyEvent, after: App, effect: Effect) -> bool {
    match key.code {
        KeyCode::Esc => preview::escaped(before, after) && effect == Effect::Nothing,
        KeyCode::Enter => after == App { focus: Focus::List, ..before } && effect
            == Effect::Nothing,
        _ => {
            let (input, changed) = typed(before.search_query@, key);
            &&& after.search_query@ == input
            &&& if changed {
                exists|listed: App|
                    #[trigger] listing::relisted(
                        App { search_query: after.search_query, ..before },
                        listed,
                    ) && requests(listed, after, effect)
            } else {
                after == App { search_query: after.search_query, ..before } && effect
                    == Effect::Nothing
            }
        },
    }
}

/// A key press while a search is typed.
#[verifier::rlimit(60)]
pub fn handle_search_key(app: &mut App, key: KeyEvent) -> (effect: Effect)
    requires
        old(app).wf(),
    ensures
        final(app).wf(),
        search_key(*old(app), key, *final(app), effect),
{
    match key.code {
        KeyCode::Esc => {
            app.handle_esc();
            Effect::Nothing
        },
        KeyCode::Enter => {
            app.focus = Focus::List;
            Effect::Nothing
        },
        _ => {
            if handle_text_input_key(&mut app.search_query, key) {
                app.apply_search();
                let ghost listed = *app;
                let r = request_preview(app);
                assert(listing::relisted(
                    App { search_query: app.search_query, ..*old(app) },
                    listed,
                ));
                load(r)
            } else {
                Effect::Nothing
            }
        },
    }
}

/// Whether `after` is what a key press makes of `before` while a search within
/// the conversation is typed: Esc cancels, Enter commits.
pub open spec fn preview_search_key(before: App, key: KeyEvent, after: App) -> bool {
    match key.code {
        KeyCode::Esc => {
            &&& after.seeks_nothing()
            &&& after == App {
                focus: Focus::Preview,
                preview_search_query: after.preview_search_query,
                preview_search_matches: after.preview_search_matches,
                preview_search_current: 0,
                ..before
            }
        },
        KeyCode::Enter => after == App { focus: Focus::Preview, ..before },
        _ => {
            let (input, changed) = typed(before.preview_search_query@, key);
            let edited = App { preview_search_query: after.preview_search_query, ..before };
            &&& after.preview_search_query@ == input
            &&& if changed {
                preview::sought_anew(edited, after)
            } else {
                after == edited
            }
        },
    }
}

/// A key press while a search within the conversation is typed.
#[verifier::rlimit(60)]
pub fn handle_preview_search_key(app: &mut App, key: KeyEvent)
    requires
        old(app).wf(),
    ensures
        final(app).wf(),
        preview_search_key(*old(app), key, *final(app)),
{
    match key.code {
        KeyCode::Esc => app.exit_preview_search(),
        KeyCode::Enter => app.commit_preview_search(),
        _ => {
            if handle_text_input_key(&mut app.preview_search_query, key) {
                app.update_preview_search();
            }
        },
    }
}

/// What follows an attempt to delete the file of the selected session, as far as
/// the browser goes: the session goes if the file was removed, and the
/// conversation of the one now selected is asked for. Tells whether the
/// bookmarks have to be saved, too.
#[verifier::rlimit(60)]
pub fn finish_deletion(app: &mut App, removed: bool) -> (r: (bool, Effect))
    requires
        old(app).wf(),
    ensures
        final(app).wf(),
        exists|left: App|
            {
                &&& #[trigger] app::deleted(*old(app), left, removed, r.0)
                &&& requests(left, *final(app), r.1)
            },
{
    let save = app.delete_selected(removed);
    let ghost left = *app;
    let r = request_preview(app);
    let told = (save, load(r));
    assert(app::deleted(*old(app), left, removed, told.0) && requests(left, *app, told.1));
    told
}

/// Whether `after` and `effect` are what a key press makes of `before` in the
/// conversation pane.
pub open spec fn preview_key(before: App, code: KeyCode, after: App, effect: Effect) -> bool {
    let quiet = effect == Effect::Nothing;
    match code {
        KeyCode::Tab => quiet && after == App { focus: Focus::List, ..before },
        KeyCode::Esc => quiet && preview::escaped(before, after),
        KeyCode::Up | KeyCode::Char('k') => quiet && after == App {
            preview_scroll: preview::minus(before.preview_scroll as int, 3) as u16,
            ..before
        },
        KeyCode::Down | KeyCode::Char('j') => quiet && after == App {
            preview_scroll: before.scrolled_down(3) as u16,
            ..before
        },
        KeyCode::PageUp => quiet && after == App {
            preview_scroll: preview::minus(
                before.preview_scroll as int,
                before.terminal_height as int / 2,
            ) as u16,
            ..before
        },
        KeyCode::PageDown => quiet && after == App {
            preview_scroll: before.scrolled_down(before.terminal_height as int / 2) as u16,
            ..before
        },
        KeyCode::Char('/') => {
            &&& quiet
            &&& after.seeks_nothing()
            &&& after == App {
                focus: Focus::PreviewSearch,
                preview_search_query: after.preview_search_query,
                preview_search_matches: after.preview_search_matches,
                preview_search_current: 0,
                ..before
            }
        },
        KeyCode::Char('n') => quiet && preview::next_match(before, after),
        KeyCode::Char('N') => quiet && preview::prev_match(before, after),
        KeyCode::Char('T') => exists|changed: App| #[trigger]
            preview::tools_toggled(before, changed) && requests(changed, after, effect),
        KeyCode::Char('f') => quiet && after == App { show_files: !before.show_files, ..before },
        KeyCode::Char('q') => quiet && after == App { action: AppAction::Quit, ..before },
        _ => quiet && after == before,
    }
}

/// A key press in the conversation pane. Tab always returns to the list; Esc
/// first clears an active search.
#[verifier::rlimit(60)]
pub fn handle_preview_key(app: &mut App, code: KeyCode) -> (effect: Effect)
    requires
        old(app).wf(),
    ensures
        final(app).wf(),
        preview_key(*old(app), code, *final(app), effect),
{
    match code {
        KeyCode::Tab => {
            app.focus = Focus::List;
        },
        KeyCode::Esc => app.handle_esc(),
        KeyCode::Up | KeyCode::Char('k') => app.scroll_preview_up(),
        KeyCode::Down | KeyCode::Char('j') => app.scroll_preview_down(),
        KeyCode::PageUp => {
            let page = app.terminal_height / 2;
            app.scroll_preview_page_up(page);
        },
        KeyCode::PageDown => {
            let page = app.terminal_height / 2;
            app.scroll_preview_page_down(page);
        },
        KeyCode::Char('/') => app.start_preview_search(),
        KeyCode::Char('n') => app.next_preview_match(),
        KeyCode::Char('N') => app.prev_preview_match(),
        KeyCode::Char('T') => {
            app.toggle_tools();
            let ghost changed = *app;
            let r = request_preview(app);
            assert(preview::tools_toggled(*old(app), changed));
            return load(r);
        },
        KeyCode::Char('f') => app.toggle_files(),
        KeyCode::Char('q') => {
            app.action = AppAction::Quit;
        },
        _ => {},
    }
    Effect::Nothing
}

/// How far a page of the list goes.
pub open spec fn page_of(app: App) -> usize {
    let n = app.terminal_height as int / 4;
    if n > 1 {
        n as usize
    } else {
        1
    }
}

/// The browser with the selection moved, for the keys that do that.
pub open spec fn navigated<'a>(before: App<'a>, code: KeyCode) -> Option<App<'a>> {
    match code {
        KeyCode::Up | KeyCode::Char('k') => Some(before.up()),
        KeyCode::Down | KeyCode::Char('j') => Some(before.down()),
        KeyCode::PageUp => Some(before.paged_up(page_of(before))),
        KeyCode::PageDown => Some(before.paged_down(page_of(before))),
        KeyCode::Home | KeyCode::Char('g') => Some(before.at_top()),
        KeyCode::End | KeyCode::Char('G') => Some(before.at_bottom()),
        _ => None,
    }
}

/// Whether a key changes what is listed or read.
pub open spec fn is_refiltering(code: KeyCode) -> bool {
    match code {
        KeyCode::Char(c) => c == 'a' || c == 's' || c == 'T' || c == '0' || c == '1' || c == '2'
            || c == '3' || c == '4',
        _ => false,
    }
}

/// Whether `after` is `before` with what is listed or read changed by a key.
pub open spec fn refiltered(before: App, code: KeyCode, after: App) -> bool {
    match code {
        KeyCode::Char('a') => listing::relisted(
            App { scope: before.scope.other(), ..before },
            after,
        ),
        KeyCode::Char('s') => listing::resorted(before, after),
        KeyCode::Char('T') => preview::tools_toggled(before, after),
        KeyCode::Char('0') => listing::relisted(App { size_filter: None, ..before }, after),
        KeyCode::Char('1') => listing::size_toggled(before, "quick", after),
        KeyCode::Char('2') => listing::size_toggled(before, "medium", after),
        KeyCode::Char('3') => listing::size_toggled(before, "deep", after),
        KeyCode::Char('4') => listing::size_toggled(before, "massive", after),
        _ => false,
    }
}

/// What a key asks to be done with the selected session when the browser closes.
pub open spec fn chosen(before: App, code: KeyCode) -> Option<AppAction> {
    match code {
        KeyCode::Enter => Some(
            if before.print_mode {
                AppAction::Print(before.selected)
            } else {
                AppAction::LaunchDangerously(before.selected)
            },
        ),
        KeyCode::Char('l') => Some(AppAction::Launch(before.selected)),
        KeyCode::Char('c') => Some(AppAction::Yank(before.selected)),
        KeyCode::Char('p') => Some(AppAction::Print(before.selected)),
        _ => None,
    }
}

/// Whether `after` and `effect` are what one of the remaining keys makes of
/// `before` in the list.
pub open spec fn plain_key(before: App, code: KeyCode, after: App, effect: Effect) -> bool {
    let quiet = effect == Effect::Nothing;
    match code {
        KeyCode::Esc => quiet && preview::escaped(before, after),
        KeyCode::Tab => quiet && after == App { focus: Focus::Preview, ..before },
        KeyCode::Char('q') => quiet && after == App { action: AppAction::Quit, ..before },
        KeyCode::Char('/') => quiet && after == App { focus: Focus::Search, ..before },
        KeyCode::Char('?') => quiet && after == App { show_help: true, ..before },
        KeyCode::Char('e') => {
            &&& after == before
            &&& effect == if before.selection() is Some {
                Effect::Export
            } else {
                Effect::Nothing
            }
        },
        KeyCode::Char('b') => {
            &&& listing::bookmarked(before, after)
            &&& effect == if before.selection() is Some {
                Effect::SaveBookmarks
            } else {
                Effect::Nothing
            }
        },
        KeyCode::Char('t') => quiet && after == App {
            view_mode: before.view_mode.other(),
            ..before
        },
        KeyCode::Char('f') => quiet && after == App { show_files: !before.show_files, ..before },
        KeyCode::Char('d') => quiet && after == if before.filtered_indices@.len() > 0 {
            App { confirm_delete: true, ..before }
        } else {
            before
        },
        _ => quiet && after == before,
    }
}

/// Whether `after` and `effect` are what a key press makes of `before` in the
/// list: the help overlay is closed by any key, the timeline takes only the keys
/// that leave it, and else each key has its meaning.
pub open spec fn list_key(before: App, code: KeyCode, after: App, effect: Effect) -> bool {
    if before.show_help {
        effect == Effect::Nothing && after == App { show_help: false, ..before }
    } else if before.view_mode == ViewMode::Timeline {
        &&& effect == Effect::Nothing
        &&& match code {
            KeyCode::Esc | KeyCode::Char('t') => preview::escaped(before, after),
            KeyCode::Char('q') => after == App { action: AppAction::Quit, ..before },
            _ => after == before,
        }
    } else if navigated(before, code) is Some {
        requests(navigated(before, code)->0, after, effect)
    } else if is_refiltering(code) {
        exists|changed: App| #[trigger]
            refiltered(before, code, changed) && requests(changed, after, effect)
    } else if chosen(before, code) is Some {
        &&& effect == Effect::Nothing
        &&& after == if before.selection() is Some {
            App { action: chosen(before, code)->0, ..before }
        } else {
            before
        }
    } else {
        plain_key(before, code, after, effect)
    }
}

/// Moves the selection, if the key does that.
#[verifier::rlimit(60)]
fn navigate(app: &mut App, code: KeyCode) -> (r: Option<Effect>)
    requires
        old(app).wf(),
    ensures
        final(app).wf(),
        match r {
            Some(effect) => navigated(*old(app), code) is Some && requests(
                navigated(*old(app), code)->0,
                *final(app),
                effect,
            ),
            None => navigated(*old(app), code) is None && *final(app) == *old(app),
        },
{
    let page: usize = if app.terminal_height / 4 > 1 {
        (app.terminal_height / 4) as usize
    } else {
        1
    };
    match code {
        KeyCode::Up | KeyCode::Char('k') => app.move_up(),
        KeyCode::Down | KeyCode::Char('j') => app.move_down(),
        KeyCode::PageUp => app.page_up(page),
        KeyCode::PageDown => app.page_down(page),
        KeyCode::Home | KeyCode::Char('g') => app.move_to_top(),
        KeyCode::End | KeyCode::Char('G') => app.move_to_bottom(),
        _ => {
            return None;
        },
    }
    let r = request_preview(app);
    Some(load(r))
}

/// Changes what is listed or read, if the key does that.
#[verifier::rlimit(60)]
fn refilter(app: &mut App, code: KeyCode) -> (r: bool)
    requires
        old(app).wf(),
    ensures
        final(app).wf(),
        r == is_refiltering(code),
        r ==> refiltered(*old(app), code, *final(app)),
        !r ==> *final(app) == *old(app),
{
    match code {
        KeyCode::Char('a') => app.toggle_scope(),
        KeyCode::Char('s') => app.cycle_sort(),
        KeyCode::Char('T') => app.toggle_tools(),
        KeyCode::Char('0') => app.clear_size_filter(),
        KeyCode::Char('1') => app.toggle_size_filter("quick"),
        KeyCode::Char('2') => app.toggle_size_filter("medium"),
        KeyCode::Char('3') => app.toggle_size_filter("deep"),
        KeyCode::Char('4') => app.toggle_size_filter("massive"),
        _ => {
            return false;
        },
    }
    true
}

/// What a key asks to be done with the selected session when the browser closes.
fn choose_action(app: &App, code: KeyCode) -> (r: Option<AppAction>)
    ensures
        r == chosen(*app, code),
{
    match code {
        KeyCode::Enter => if app.print_mode {
            Some(AppAction::Print(app.selected))
        } else {
            Some(AppAction::LaunchDangerously(app.selected))
        },
        KeyCode::Char('l') => Some(AppAction::Launch(app.selected)),
        KeyCode::Char('c') => Some(AppAction::Yank(app.selected)),
        KeyCode::Char('p') => Some(AppAction::Print(app.selected)),
        _ => None,
    }
}

/// One of the remaining keys in the list.
#[verifier::rlimit(60)]
fn press_plain_key(app: &mut App, code: KeyCode) -> (effect: Effect)
    requires
        old(app).wf(),
    ensures
        final(app).wf(),
        plain_key(*old(app), code, *final(app), effect),
{
    match code {
        KeyCode::Esc => app.handle_esc(),
        KeyCode::Tab => {
            app.focus = Focus::Preview;
        },
        KeyCode::Char('q') => {
            app.action = AppAction::Quit;
        },
        KeyCode::Char('/') => {
            app.focus = Focus::Search;
        },
        KeyCode::Char('?') => {
            app.show_help = true;
        },
        KeyCode::Char('e') => {
            if app.selected_session().is_some() {
                return Effect::Export;
            }
        },
        KeyCode::Char('b') => {
            if app.toggle_bookmark() {
                return Effect::SaveBookmarks;
            }
        },
        KeyCode::Char('t') => app.toggle_timeline(),
        KeyCode::Char('f') => app.toggle_files(),
        KeyCode::Char('d') => {
            if app.filtered_indices.len() > 0 {
                app.confirm_delete = true;
            }
        },
        _ => {},
    }
    Effect::Nothing
}

/// A key press in the list.
#[verifier::rlimit(60)]
pub fn handle_list_key(app: &mut App, code: KeyCode) -> (effect: Effect)
    requires
        old(app).wf(),
    ensures
        final(app).wf(),
        list_key(*old(app), code, *final(app), effect),
{
    if app.show_help {
        app.show_help = false;
        return Effect::Nothing;
    }
    if app.view_mode == ViewMode::Timeline {
        match code {
            KeyCode::Esc | KeyCode::Char('t') => app.handle_esc(),
            KeyCode::Char('q') => {
                app.action = AppAction::Quit;
            },
            _ => {},
        }
        return Effect::Nothing;
    }
    match navigate(app, code) {
        Some(effect) => {
            return effect;
        },
        None => {},
    }
    if refilter(app, code) {
        let ghost changed = *app;
        let r = request_preview(app);
        assert(refiltered(*old(app), code, changed));
        return load(r);
    }
    match choose_action(app, code) {
        Some(action) => {
            if app.selected_session().is_some() {
                app.action = action;
            }
            return Effect::Nothing;
        },
        None => {},
    }
    press_plain_key(app, code)
}

/// Whether `after` and `effect` are what a key press makes of `before`: while a
/// deletion waits to be confirmed, d and y confirm it and all other keys cancel
/// it; else the key goes to where the focus is.
pub open spec fn pressed(before: App, key: KeyEvent, after: App, effect: Effect) -> bool {
    if before.confirm_delete {
        match key.code {
            KeyCode::Char('d') | KeyCode::Char('y') => after == before && effect == Effect::Delete,
            _ => after == App { confirm_delete: false, ..before } && effect == Effect::Nothing,
        }
    } else {
        match before.focus {
            Focus::Search => search_key(before, key, after, effect),
            Focus::PreviewSearch => preview_search_key(before, key, after) && effect
                == Effect::Nothing,
            Focus::Preview => preview_key(before, key.code, after, effect),
            Focus::List => list_key(before, key.code, after, effect),
        }
    }
}

/// A key press.
#[verifier::rlimit(60)]
pub fn handle_key(app: &mut App, key: KeyEvent) -> (effect: Effect)
    requires
        old(app).wf(),
    ensures
        final(app).wf(),
        pressed(*old(app), key, *final(app), effect),
{
    if app.confirm_delete {
        match key.code {
            KeyCode::Char('d') | KeyCode::Char('y') => {
                return Effect::Delete;
            },
            _ => {
                app.confirm_delete = false;
                return Effect::Nothing;
            },
        }
    }
    match app.focus {
        Focus::Search => handle_search_key(app, key),
        Focus::PreviewSearch => {
            handle_preview_search_key(app, key);
            Effect::Nothing
        },
        Focus::Preview => handle_preview_key(app, key.code),
        Focus::List => handle_list_key(app, key.code),
    }
}

/// No key takes the selection out of the list.
#[verifier::rlimit(60)]
pub proof fn selection_stays_within(before: App, key: KeyEvent, after: App, effect: Effect)
    requires
        before.wf(),
        before.selection_within(),
        pressed(before, key, after, effect),
    ensures
        after.selection_within(),
{
    assert(before.filtered_indices.len() <= usize::MAX);
}

/// While the help overlay is open, any key in the list closes it and does
/// nothing else.
pub proof fn help_swallows_keys(before: App, code: KeyCode, after: App, effect: Effect)
    requires
        before.show_help,
        list_key(before, code, after, effect),
    ensures
        after == (App { show_help: false, ..before }),
        effect == Effect::Nothing,
{
}

/// Nothing is deleted unless it was asked for and then confirmed: a file is to
/// be deleted only after a key press that follows one that asked for it.
pub proof fn deletion_is_confirmed(before: App, key: KeyEvent, after: App, effect: Effect)
    requires
        pressed(before, key, after, effect),
    ensures
        effect == Effect::Delete ==> before.confirm_delete && (key.code == KeyCode::Char('d')
            || key.code == KeyCode::Char('y')),
        after.confirm_delete && !before.confirm_delete ==> before.focus == Focus::List && key.code
            == KeyCode::Char('d'),
{
}

/// Whether a key press goes to the list of sessions and has its usual meaning there.
pub open spec fn in_list(app: App) -> bool {
    &&& app.focus == Focus::List
    &&& !app.confirm_delete
    &&& !app.show_help
    &&& app.view_mode == ViewMode::Normal
}

/// The arrows and j and k go from session to session and round at the ends; a page is a
/// quarter of the screen, at least one session; Home and g go to the first session, End
/// and G to the last. None of them changes what is listed.
#[verifier::rlimit(60)]
pub proof fn keys_move_the_selection(before: App, key: KeyEvent, after: App, effect: Effect)
    requires
        pressed(before, key, after, effect),
        in_list(before),
        before.selected < before.filtered_indices@.len(),
    ensures
        ({
            let n = before.filtered_indices@.len() as int;
            let at = before.selected as int;
            let quarter = before.terminal_height as int / 4;
            let page = if quarter < 1 {
                1
            } else {
                quarter
            };
            let up = key.code == KeyCode::Up || key.code == KeyCode::Char('k');
            let down = key.code == KeyCode::Down || key.code == KeyCode::Char('j');
            let top = key.code == KeyCode::Home || key.code == KeyCode::Char('g');
            let bottom = key.code == KeyCode::End || key.code == KeyCode::Char('G');
            let page_up = key.code == KeyCode::PageUp;
            let page_down = key.code == KeyCode::PageDown;
            &&& up && at > 0 ==> after.selected == at - 1
            &&& up && at == 0 ==> after.selected == n - 1
            &&& down && at < n - 1 ==> after.selected == at + 1
            &&& down && at == n - 1 ==> after.selected == 0
            &&& page_up && at >= page ==> after.selected == at - page
            &&& page_up && at < page ==> after.selected == 0
            &&& page_down && at + page < n ==> after.selected == at + page
            &&& page_down && at + page >= n ==> after.selected == n - 1
            &&& top ==> after.selected == 0
            &&& bottom ==> after.selected == n - 1
            &&& up || down || top || bottom || page_up || page_down ==> after.filtered_indices
                == before.filtered_indices && after.sessions == before.sessions
                && after.action == before.action && after.focus == before.focus
        }),
{
    assert(before.filtered_indices.len() <= usize::MAX);
}

/// The keys that change what is listed: a changes the scope, s the order, the digits
/// from 1 to 4 choose a size or drop it again, and 0 drops it.
#[verifier::rlimit(60)]
pub proof fn keys_change_what_is_listed(before: App, key: KeyEvent, after: App, effect: Effect)
    requires
        pressed(before, key, after, effect),
        in_list(before),
    ensures
        ({
            let held = |size: Seq<char>| before.size_filter is Some && before.size_filter->0@ == size;
            let holds = |size: Seq<char>| after.size_filter is Some && after.size_filter->0@ == size;
            let c = key.code;
            &&& c == KeyCode::Char('a') ==> after.scope != before.scope
            &&& c != KeyCode::Char('a') ==> after.scope == before.scope
            &&& c == KeyCode::Char('s') && before.sort_mode == app::SortMode::Date ==> after.sort_mode
                == app::SortMode::Size
            &&& c == KeyCode::Char('s') && before.sort_mode == app::SortMode::Size ==> after.sort_mode
                == app::SortMode::Duration
            &&& c == KeyCode::Char('s') && before.sort_mode == app::SortMode::Duration
                ==> after.sort_mode == app::SortMode::Messages
            &&& c == KeyCode::Char('s') && before.sort_mode == app::SortMode::Messages
                ==> after.sort_mode == app::SortMode::Date
            &&& c != KeyCode::Char('s') ==> after.sort_mode == before.sort_mode
            &&& c == KeyCode::Char('0') ==> after.size_filter is None
            &&& c == KeyCode::Char('1') ==> if held("quick"@) {
                after.size_filter is None
            } else {
                holds("quick"@)
            }
            &&& c == KeyCode::Char('2') ==> if held("medium"@) {
                after.size_filter is None
            } else {
                holds("medium"@)
            }
            &&& c == KeyCode::Char('3') ==> if held("deep"@) {
                after.size_filter is None
            } else {
                holds("deep"@)
            }
            &&& c == KeyCode::Char('4') ==> if held("massive"@) {
                after.size_filter is None
            } else {
                holds("massive"@)
            }
            &&& c == KeyCode::Char('T') ==> after.show_tools == !before.show_tools
            &&& c != KeyCode::Char('T') ==> after.show_tools == before.show_tools
            &&& c == KeyCode::Char('f') ==> after.show_files == !before.show_files
            &&& c != KeyCode::Char('f') ==> after.show_files == before.show_files
        }),
{
}

/// The keys that choose what is done with the selected session: Enter resumes it
/// without asking for permissions, or prints its id where only that is wanted; l resumes
/// it; c copies the command; p prints its id. Where no session is selected they do
/// nothing; q leaves.
#[verifier::rlimit(60)]
pub proof fn keys_choose_what_is_done(before: App, key: KeyEvent, after: App, effect: Effect)
    requires
        pressed(before, key, after, effect),
        in_list(before),
    ensures
        ({
            let at = before.selected;
            let some = before.selected < before.filtered_indices@.len();
            let c = key.code;
            let chooses = c == KeyCode::Enter || c == KeyCode::Char('l') || c == KeyCode::Char('c')
                || c == KeyCode::Char('p');
            &&& c == KeyCode::Enter && some && !before.print_mode ==> after.action
                == AppAction::LaunchDangerously(at)
            &&& c == KeyCode::Enter && some && before.print_mode ==> after.action
                == AppAction::Print(at)
            &&& c == KeyCode::Char('l') && some ==> after.action == AppAction::Launch(at)
            &&& c == KeyCode::Char('c') && some ==> after.action == AppAction::Yank(at)
            &&& c == KeyCode::Char('p') && some ==> after.action == AppAction::Print(at)
            &&& c == KeyCode::Char('q') || c == KeyCode::Esc ==> after.action == AppAction::Quit
            &&& chooses && !some ==> after == before
            &&& chooses ==> effect == Effect::Nothing
            &&& !chooses && c != KeyCode::Char('q') && c != KeyCode::Esc ==> after.action
                == before.action
        }),
{
}

/// The keys that open something: Tab the conversation, / the search, ? the help, t the
/// timeline, and d the question whether to delete the selected session; e exports it, and
/// b bookmarks it or not.
#[verifier::rlimit(60)]
pub proof fn keys_open_what_they_name(before: App, key: KeyEvent, after: App, effect: Effect)
    requires
        pressed(before, key, after, effect),
        in_list(before),
    ensures
        ({
            let some = before.selected < before.filtered_indices@.len();
            let c = key.code;
            &&& c == KeyCode::Tab ==> after.focus == Focus::Preview
            &&& c == KeyCode::Char('/') ==> after.focus == Focus::Search
            &&& c != KeyCode::Tab && c != KeyCode::Char('/') ==> after.focus == Focus::List
            &&& c == KeyCode::Char('?') <==> after.show_help
            &&& c == KeyCode::Char('t') <==> after.view_mode == ViewMode::Timeline
            &&& c == KeyCode::Char('d') && before.filtered_indices@.len() > 0
                <==> after.confirm_delete
            &&& c == KeyCode::Char('e') && some <==> effect == Effect::Export
            &&& c == KeyCode::Char('b') && some <==> effect == Effect::SaveBookmarks
        }),
{
}

/// The key b bookmarks the selected session, or takes its bookmark away, and leaves all
/// others alone.
#[verifier::rlimit(60)]
pub proof fn bookmarks_are_set_and_taken(
    before: App,
    key: KeyEvent,
    after: App,
    effect: Effect,
    id: Seq<char>,
)
    requires
        before.wf(),
        pressed(before, key, after, effect),
        in_list(before),
        key.code == KeyCode::Char('b'),
        before.selected < before.filtered_indices@.len(),
    ensures
        ({
            let s = before.sessions@[before.filtered_indices@[before.selected as int] as int];
            &&& after.bookmarks@.contains(s.id@) == !before.bookmarks@.contains(s.id@)
            &&& id != s.id@ ==> after.bookmarks@.contains(id) == before.bookmarks@.contains(id)
            &&& after.selected == before.selected
            &&& after.sessions == before.sessions
        }),
{
}

/// While a deletion waits to be confirmed, d and y confirm it, and every other key takes
/// it back and does nothing else.
pub proof fn deletions_are_confirmed_or_taken_back(
    before: App,
    key: KeyEvent,
    after: App,
    effect: Effect,
)
    requires
        pressed(before, key, after, effect),
        before.confirm_delete,
    ensures
        key.code == KeyCode::Char('d') || key.code == KeyCode::Char('y') ==> effect
            == Effect::Delete,
        key.code != KeyCode::Char('d') && key.code != KeyCode::Char('y') ==> effect
            == Effect::Nothing && !after.confirm_delete,
        after == (App { confirm_delete: after.confirm_delete, ..before }),
{
}

/// In the conversation, the arrows and j and k scroll by three rows, the page keys by
/// half a screen; n and N go from match to match; Tab returns to the list.
#[verifier::rlimit(60)]
pub proof fn keys_scroll_the_conversation(before: App, key: KeyEvent, after: App, effect: Effect)
    requires
        pressed(before, key, after, effect),
        before.focus == Focus::Preview,
        !before.confirm_delete,
        before.preview_total_rows >= before.preview_viewport_height,
        before.preview_scroll <= before.preview_total_rows - before.preview_viewport_height,
    ensures
        ({
            let at = before.preview_scroll as int;
            let end = before.preview_total_rows - before.preview_viewport_height;
            let half = before.terminal_height as int / 2;
            let up = key.code == KeyCode::Up || key.code == KeyCode::Char('k');
            let down = key.code == KeyCode::Down || key.code == KeyCode::Char('j');
            &&& up && at >= 3 ==> after.preview_scroll == at - 3
            &&& up && at < 3 ==> after.preview_scroll == 0
            &&& down && at + 3 <= end ==> after.preview_scroll == at + 3
            &&& down && at + 3 > end ==> after.preview_scroll == end
            &&& key.code == KeyCode::PageUp && at >= half ==> after.preview_scroll == at - half
            &&& key.code == KeyCode::PageUp && at < half ==> after.preview_scroll == 0
            &&& key.code == KeyCode::PageDown && at + half <= end ==> after.preview_scroll == at
                + half
            &&& key.code == KeyCode::PageDown && at + half > end ==> after.preview_scroll == end
            &&& key.code == KeyCode::Tab ==> after.focus == Focus::List
            &&& key.code == KeyCode::Char('/') ==> after.focus == Focus::PreviewSearch
            &&& key.code == KeyCode::Char('q') ==> after.action == AppAction::Quit
            &&& key.code == KeyCode::Char('f') ==> after.show_files == !before.show_files
            &&& key.code == KeyCode::Char('T') ==> after.show_tools == !before.show_tools
            &&& after.selected == before.selected
            &&& after.filtered_indices == before.filtered_indices
            &&& after.sessions == before.sessions
        }),
{
}

/// In the conversation, n goes to the next match and N to the one before, round at the
/// ends.
#[verifier::rlimit(60)]
pub proof fn keys_go_from_match_to_match(before: App, key: KeyEvent, after: App, effect: Effect)
    requires
        pressed(before, key, after, effect),
        before.focus == Focus::Preview,
        !before.confirm_delete,
        before.preview_search_current < before.preview_search_matches@.len(),
    ensures
        ({
            let n = before.preview_search_matches@.len() as int;
            let at = before.preview_search_current as int;
            let next = key.code == KeyCode::Char('n');
            let back = key.code == KeyCode::Char('N');
            &&& next && at + 1 < n ==> after.preview_search_current == at + 1
            &&& next && at + 1 == n ==> after.preview_search_current == 0
            &&& back && at > 0 ==> after.preview_search_current == at - 1
            &&& back && at == 0 ==> after.preview_search_current == n - 1
        }),
{
    preview::matches_follow_each_other(before, after);
}

/// A key without modifiers types its character at the cursor, and the editing keys work
/// at the cursor as well: backspace and delete take out the character before it and
/// behind it, the arrows go over one.
pub proof fn keys_edit_at_the_cursor(a: Seq<char>, c: char, b: Seq<char>, shift: bool)
    ensures
        ({
            let free = KeyModifiers { shift, control: false, alt: false, command: false };
            let parted = InputView { text: a + b, cursor: a.len() as int };
            let ahead = InputView { text: a + seq![c] + b, cursor: a.len() as int };
            let behind = InputView { text: a + seq![c] + b, cursor: a.len() as int + 1 };
            let end = a.len() as int + 1 + b.len();
            &&& typed(parted, KeyEvent { code: KeyCode::Char(c), modifiers: free }) == (behind, true)
            &&& typed(behind, KeyEvent { code: KeyCode::Backspace, modifiers: free }) == (
                parted,
                true,
            )
            &&& typed(ahead, KeyEvent { code: KeyCode::Delete, modifiers: free }) == (parted, true)
            &&& typed(behind, KeyEvent { code: KeyCode::Left, modifiers: free }) == (ahead, false)
            &&& typed(ahead, KeyEvent { code: KeyCode::Right, modifiers: free }) == (behind, false)
            &&& typed(ahead, KeyEvent { code: KeyCode::Home, modifiers: free }) == (
                InputView { cursor: 0, ..ahead },
                false,
            )
            &&& typed(ahead, KeyEvent { code: KeyCode::End, modifiers: free }) == (
                InputView { cursor: end, ..ahead },
                false,
            )
        }),
{
    crate::input::edits_are_made_at_the_cursor(a, c, b);
    crate::input::steps_go_over_one_character(a, c, b);
}

/// With control held, u and k delete to the start and to the end, and a and e go there;
/// with the command key, backspace deletes to the start and the arrows go to the ends.
pub proof fn shortcuts_reach_the_ends(a: Seq<char>, b: Seq<char>, m: KeyModifiers)
    ensures
        ({
            let v = InputView { text: a + b, cursor: a.len() as int };
            let start = InputView { text: a + b, cursor: 0 };
            let end = InputView { text: a + b, cursor: (a + b).len() as int };
            let front = InputView { text: a, cursor: a.len() as int };
            let back = InputView { text: b, cursor: 0 };
            let only_command = m.command && !m.control && !m.alt;
            let press = |code: KeyCode| KeyEvent { code, modifiers: m };
            &&& m.control ==> typed(v, press(KeyCode::Char('u'))) == (back, true)
            &&& m.control ==> typed(v, press(KeyCode::Char('k'))) == (front, true)
            &&& m.control ==> typed(v, press(KeyCode::Char('a'))) == (start, false)
            &&& m.control ==> typed(v, press(KeyCode::Char('e'))) == (end, false)
            &&& only_command ==> typed(v, press(KeyCode::Backspace)) == (back, true)
            &&& only_command ==> typed(v, press(KeyCode::Left)) == (start, false)
            &&& only_command ==> typed(v, press(KeyCode::Right)) == (end, false)
        }),
{
    crate::input::deletions_leave_the_other_side(a, b);
}

/// With control or alt held, backspace and the left arrow reach to the start of the word
/// before the cursor, and the right arrow to the end of the word behind it; control and
/// w delete a word, too.
pub proof fn shortcuts_go_by_words(
    a: Seq<char>,
    word: Seq<char>,
    blanks: Seq<char>,
    next: Seq<char>,
    b: Seq<char>,
    m: KeyModifiers,
)
    requires
        a.len() == 0 || crate::text::is_space(a.last()),
        word.len() > 0,
        forall|i: int| 0 <= i < word.len() ==> !crate::text::is_space(#[trigger] word[i]),
        crate::text::all_blank(blanks),
        next.len() > 0,
        forall|i: int| 0 <= i < next.len() ==> !crate::text::is_space(#[trigger] next[i]),
        b.len() == 0 || crate::text::is_space(b[0]),
        m.control || m.alt,
    ensures
        ({
            let all = a + word + blanks + next + b;
            let v = InputView {
                text: all,
                cursor: a.len() as int + word.len() + blanks.len(),
            };
            let without = InputView { text: a + next + b, cursor: a.len() as int };
            let press = |code: KeyCode| KeyEvent { code, modifiers: m };
            &&& typed(v, press(KeyCode::Backspace)) == (without, true)
            &&& m.control ==> typed(v, press(KeyCode::Char('w'))) == (without, true)
            &&& typed(v, press(KeyCode::Left)) == (
                InputView { text: all, cursor: a.len() as int },
                false,
            )
            &&& typed(v, press(KeyCode::Right)) == (
                InputView {
                    text: all,
                    cursor: a.len() as int + word.len() + blanks.len() + next.len(),
                },
                false,
            )
        }),
{
    let all = a + word + blanks + next + b;
    let none = Seq::<char>::empty();
    let cursor = a.len() as int + word.len() + blanks.len();
    crate::input::jumps_left_go_to_the_start_of_the_word(a, word, blanks, next + b);
    assert(a + word + blanks + (next + b) =~= all);
    crate::input::jumps_right_go_to_the_end_of_the_word(a + word + blanks, none, next, b);
    assert(a + word + blanks + none + next + b =~= all);
    let v = InputView { text: all, cursor };
    assert(v.without(a.len() as int, cursor).text =~= a + next + b);
}

/// What is typed into the search lists anew, from the top; Enter returns to the list.
#[verifier::rlimit(60)]
pub proof fn typing_searches(before: App, key: KeyEvent, after: App, effect: Effect)
    requires
        pressed(before, key, after, effect),
        before.focus == Focus::Search,
        !before.confirm_delete,
    ensures
        key.code == KeyCode::Enter ==> after == (App { focus: Focus::List, ..before }),
        key.code != KeyCode::Enter ==> after.focus != Focus::Preview && after.focus
            != Focus::PreviewSearch,
        key.code != KeyCode::Enter && key.code != KeyCode::Esc ==> after.search_query@ == typed(
            before.search_query@,
            key,
        ).0 && after.focus == Focus::Search,
        key.code != KeyCode::Enter && key.code != KeyCode::Esc && typed(
            before.search_query@,
            key,
        ).1 ==> after.selected == 0,
        after.sessions == before.sessions,
        after.bookmarks == before.bookmarks,
        after.scope == before.scope,
        after.sort_mode == before.sort_mode,
        after.size_filter == before.size_filter,
{
}

/// Where no session is selected, b does nothing.
pub proof fn nothing_is_bookmarked_where_nothing_is_selected(
    before: App,
    key: KeyEvent,
    after: App,
    effect: Effect,
)
    requires
        pressed(before, key, after, effect),
        in_list(before),
        key.code == KeyCode::Char('b') || key.code == KeyCode::Char('e'),
        before.selected >= before.filtered_indices@.len(),
    ensures
        after == before,
        effect == Effect::Nothing,
{
}

/// A change of what is listed selects the first session and shows its conversation from
/// the start.
#[verifier::rlimit(60)]
pub proof fn changed_lists_are_shown_from_the_top(
    before: App,
    key: KeyEvent,
    after: App,
    effect: Effect,
)
    requires
        pressed(before, key, after, effect),
        in_list(before),
        key.code == KeyCode::Char('a') || key.code == KeyCode::Char('s') || key.code
            == KeyCode::Char('0') || key.code == KeyCode::Char('1') || key.code == KeyCode::Char(
            '2',
        ) || key.code == KeyCode::Char('3') || key.code == KeyCode::Char('4'),
    ensures
        after.selected == 0,
        after.preview_scroll == 0,
        after.sessions == before.sessions,
        after.bookmarks == before.bookmarks,
        after.search_query == before.search_query,
{
}

/// What is typed into the search within the conversation goes into its text, and leaves
/// the search of the list alone; Enter keeps it, Esc gives it up, and both return to the
/// conversation.
#[verifier::rlimit(60)]
pub proof fn typing_searches_the_conversation(
    before: App,
    key: KeyEvent,
    after: App,
    effect: Effect,
)
    requires
        pressed(before, key, after, effect),
        before.focus == Focus::PreviewSearch,
        !before.confirm_delete,
    ensures
        key.code == KeyCode::Enter ==> after == (App { focus: Focus::Preview, ..before }),
        key.code == KeyCode::Esc ==> after.focus == Focus::Preview
            && after.preview_search_query@.text.len() == 0 && after.preview_search_matches@.len()
            == 0,
        key.code != KeyCode::Enter && key.code != KeyCode::Esc ==> after.focus
            == Focus::PreviewSearch && after.preview_search_query@ == typed(
            before.preview_search_query@,
            key,
        ).0,
        key.code != KeyCode::Enter && key.code != KeyCode::Esc && !typed(
            before.preview_search_query@,
            key,
        ).1 ==> after.preview_search_matches == before.preview_search_matches
            && after.preview_scroll == before.preview_scroll,
        after.search_query == before.search_query,
        after.selected == before.selected,
        after.filtered_indices == before.filtered_indices,
        after.preview_lines == before.preview_lines,
        effect == Effect::Nothing,
{
}

} // verus!
