//! The state of the terminal client and what each key does to it.
use vstd::prelude::*;
use crate::notifications::{Notification, Status};
use crate::text::{
    byte_offset, contains, contains_seq, decimal, decimal_string, string_insert, utf8_len,
};

verus! {

/// Whether keys move around the list or type into the input line.
#[derive(Debug, Clone, Copy, PartialEq, Eq, Structural)]
pub enum InputMode {
    Normal,
    Insert,
}

/// The selected row of the list and the first row shown (the row state of a table).
#[derive(Debug, Clone, Copy, PartialEq, Eq, Structural)]
pub struct Selection {
    pub selected: Option<usize>,
    pub offset: usize,
}

/// The notifications on show and the selected one.
pub struct NotificationList {
    pub items: Vec<Notification>,
    pub state: Selection,
}

/// A key as the terminal reports it.
#[derive(Debug, Clone, Copy, PartialEq, Eq, Structural)]
pub enum KeyCode {
    Char(char),
    Enter,
    Backspace,
    Esc,
    Left,
    Right,
    Up,
    Down,
    Home,
    End,
    /// Any other key.
    Other,
}

/// A key event: the key, and whether it was pressed (rather than repeated or released).
#[derive(Debug, Clone, Copy, PartialEq, Eq, Structural)]
pub struct KeyEvent {
    pub code: KeyCode,
    pub press: bool,
}

/// Work with GitHub and the cache that a key asks for, done by the caller.
#[derive(Debug, Clone, Copy, PartialEq, Eq, Structural)]
pub enum Effect {
    Nothing,
    /// Push local status changes to GitHub, then fetch the notifications again
    /// (then `on_state_pushed` and `on_notifications_fetched`).
    Sync,
    /// Sync as for `Sync`, then write the cache (then `on_cache_written`); the client
    /// then exits.
    SyncSaveExit,
}

/// The state of the client.
pub struct App {
    pub should_exit: bool,
    pub should_show_info: bool,
    pub should_show_message: bool,
    pub message: String,
    pub notifications_list: NotificationList,
    pub input_mode: InputMode,
    /// The text typed into the input line.
    pub input: String,
    /// The cursor in the input line, counted in characters.
    pub character_index: usize,
}

/// The state of the client, as values.
pub struct AppView {
    pub should_exit: bool,
    pub should_show_info: bool,
    pub should_show_message: bool,
    pub message: Seq<char>,
    pub items: Seq<Notification>,
    pub selection: Selection,
    pub input_mode: InputMode,
    pub input: Seq<char>,
    pub cursor: usize,
}

impl View for App {
    type V = AppView;

    open spec fn view(&self) -> AppView {
        AppView {
            should_exit: self.should_exit,
            should_show_info: self.should_show_info,
            should_show_message: self.should_show_message,
            message: self.message@,
            items: self.notifications_list.items@,
            selection: self.notifications_list.state,
            input_mode: self.input_mode,
            input: self.input@,
            cursor: self.character_index,
        }
    }
}

// ---------------------------------------------------------------------------
// What each operation does, as values
// ---------------------------------------------------------------------------

pub open spec fn sat_inc(i: usize) -> usize {
    if i == usize::MAX {
        i
    } else {
        (i + 1) as usize
    }
}

pub open spec fn sat_dec(i: usize) -> usize {
    if i == 0 {
        0
    } else {
        (i - 1) as usize
    }
}

pub open spec fn min(a: int, b: int) -> int {
    if a <= b {
        a
    } else {
        b
    }
}

/// `v` showing the message `m`.
pub open spec fn message_shown(v: AppView, m: Seq<char>) -> AppView {
    AppView { should_show_message: true, message: m, ..v }
}

/// `v` with the message hidden.
pub open spec fn message_hidden(v: AppView) -> AppView {
    AppView { should_show_message: false, ..v }
}

/// The row selection after `select(index)`: the first row shown goes back to the top
/// when nothing is selected.
pub open spec fn selection_set(s: Selection, index: Option<usize>) -> Selection {
    Selection { selected: index, offset: if index is None { 0 } else { s.offset } }
}

pub open spec fn selected(v: AppView, index: Option<usize>) -> AppView {
    AppView { selection: selection_set(v.selection, index), ..v }
}

/// The row after the selected one (the first row when none is selected).
pub open spec fn next_row(s: Selection) -> usize {
    match s.selected {
        Some(i) => sat_inc(i),
        None => 0,
    }
}

/// The row before the selected one (the last row when none is selected).
pub open spec fn previous_row(s: Selection) -> usize {
    match s.selected {
        Some(i) => sat_dec(i),
        None => usize::MAX,
    }
}

/// The selected row exists (or none is selected).
pub open spec fn selection_in_range(v: AppView) -> bool {
    v.selection.selected matches Some(i) ==> i < v.items.len()
}

/// `n` with the status `s`.
pub open spec fn with_status(n: Notification, s: Status) -> Notification {
    Notification { status: s, ..n }
}

/// `v` with the selected notification, if any, given the status `s`.
pub open spec fn status_changed(v: AppView, s: Status) -> AppView {
    match v.selection.selected {
        Some(i) => AppView { items: v.items.update(i as int, with_status(v.items[i as int], s)), ..v },
        None => v,
    }
}

/// The cursor position `pos`, kept within the input line.
pub open spec fn clamped(v: AppView, pos: usize) -> usize {
    min(pos as int, v.input.len() as int) as usize
}

pub open spec fn cursor_at(v: AppView, pos: usize) -> AppView {
    AppView { cursor: pos, ..v }
}

pub open spec fn cursor_left(v: AppView) -> AppView {
    cursor_at(v, clamped(v, sat_dec(v.cursor)))
}

pub open spec fn cursor_right(v: AppView) -> AppView {
    cursor_at(v, clamped(v, sat_inc(v.cursor)))
}

/// The character position of the cursor, kept within the input line.
pub open spec fn cursor_char(v: AppView) -> int {
    min(v.cursor as int, v.input.len() as int)
}

/// `v` with `c` typed at the cursor, and the cursor moved past it.
pub open spec fn char_entered(v: AppView, c: char) -> AppView {
    let k = cursor_char(v);
    cursor_right(AppView { input: v.input.take(k).push(c) + v.input.skip(k), ..v })
}

/// `v` with the character before the cursor removed, and the cursor moved back.
pub open spec fn char_deleted(v: AppView) -> AppView {
    if v.cursor == 0 {
        v
    } else {
        let a = min(v.cursor - 1, v.input.len() as int);
        let b = min(v.cursor as int, v.input.len() as int);
        cursor_left(AppView { input: v.input.take(a) + v.input.skip(b), ..v })
    }
}

/// `n` as marking by `m` leaves it: done when its title or its repository's
/// `owner/name` holds `m`.
pub open spec fn marked(n: Notification, m: Seq<char>) -> Notification {
    if contains_seq(n.title@, m) || contains_seq(n.repo.nwo@, m) {
        with_status(n, Status::Done)
    } else {
        n
    }
}

/// `v` with every notification that matches `m` marked done; nothing changes for an
/// empty `m`.
pub open spec fn marked_done(v: AppView, m: Seq<char>) -> AppView {
    if m.len() == 0 {
        v
    } else {
        AppView { items: v.items.map_values(|n: Notification| marked(n, m)), ..v }
    }
}

/// `v` after the input line is submitted: matching notifications are marked done, and the
/// input line is emptied and left.
pub open spec fn submitted(v: AppView) -> AppView {
    let w = marked_done(v, v.input);
    AppView { input: Seq::empty(), cursor: 0, input_mode: InputMode::Normal, ..w }
}

/// `v` after a close request: a shown message is hidden first, then the detail pane; with
/// neither shown, the client syncs, saves and exits.
pub open spec fn closed(v: AppView) -> (AppView, Effect) {
    if v.should_show_message {
        (message_hidden(v), Effect::Nothing)
    } else if v.should_show_info {
        (AppView { should_show_info: false, ..v }, Effect::Nothing)
    } else {
        (AppView { should_exit: true, ..v }, Effect::SyncSaveExit)
    }
}

/// What a key does when the list has the keys.
pub open spec fn normal_key(v: AppView, code: KeyCode) -> (AppView, Effect) {
    match code {
        KeyCode::Char('$') => (v, Effect::Sync),
        KeyCode::Char('q') => closed(v),
        KeyCode::Char('h') | KeyCode::Left => (selected(v, None), Effect::Nothing),
        KeyCode::Char('j') | KeyCode::Down => (selected(v, Some(next_row(v.selection))), Effect::Nothing),
        KeyCode::Char('k') | KeyCode::Up => (
            selected(v, Some(previous_row(v.selection))),
            Effect::Nothing,
        ),
        KeyCode::Char('g') | KeyCode::Home => (selected(v, Some(0)), Effect::Nothing),
        KeyCode::Char('G') | KeyCode::End => (selected(v, Some(usize::MAX)), Effect::Nothing),
        KeyCode::Char('N') => (status_changed(v, Status::Unread), Effect::Nothing),
        KeyCode::Char('d') => {
            let w = status_changed(v, Status::Done);
            (selected(w, Some(next_row(w.selection))), Effect::Nothing)
        },
        KeyCode::Char('D') => (AppView { input_mode: InputMode::Insert, ..v }, Effect::Nothing),
        KeyCode::Enter => (AppView { should_show_info: true, ..v }, Effect::Nothing),
        _ => (v, Effect::Nothing),
    }
}

/// What a key does when the input line has the keys.
pub open spec fn insert_key(v: AppView, key: KeyEvent) -> AppView {
    if !key.press {
        v
    } else {
        match key.code {
            KeyCode::Enter => submitted(v),
            KeyCode::Char(c) => char_entered(v, c),
            KeyCode::Backspace => char_deleted(v),
            KeyCode::Esc => AppView { input_mode: InputMode::Normal, ..v },
            _ => v,
        }
    }
}

/// What a key does.
pub open spec fn key_handled(v: AppView, key: KeyEvent) -> (AppView, Effect) {
    match v.input_mode {
        InputMode::Normal => normal_key(v, key.code),
        InputMode::Insert => (insert_key(v, key), Effect::Nothing),
    }
}

/// A key that sets the status of the selected notification.
pub open spec fn is_status_key(code: KeyCode) -> bool {
    code == KeyCode::Char('N') || code == KeyCode::Char('d')
}

/// The input line can grow by one character without its length overflowing.
pub open spec fn input_can_grow(v: AppView) -> bool {
    utf8_len(v.input) + 4 <= isize::MAX
}

/// What a key asks of the state: a status key needs the selected row to exist (the list
/// is indexed by it); a typed character needs room in the input line.
pub open spec fn key_acceptable(v: AppView, key: KeyEvent) -> bool {
    match v.input_mode {
        InputMode::Normal => is_status_key(key.code) ==> selection_in_range(v),
        InputMode::Insert => input_can_grow(v),
    }
}


// ---------------------------------------------------------------------------
// Operations
// ---------------------------------------------------------------------------

/// The cursor stays within the input line.
pub open spec fn cursor_in_line(v: AppView) -> bool {
    v.cursor <= v.input.len()
}

/// The state the client starts in: the notifications fetched, or no notifications and
/// the failure on show.
pub open spec fn initial_view(r: Result<Seq<Notification>, Seq<char>>, v: AppView) -> bool {
    &&& !v.should_exit
    &&& !v.should_show_info
    &&& v.selection == Selection { selected: None, offset: 0 }
    &&& v.input_mode == InputMode::Normal
    &&& v.input.len() == 0
    &&& v.cursor == 0
    &&& match r {
        Ok(items) => !v.should_show_message && v.message.len() == 0 && v.items == items,
        Err(e) => v.should_show_message && v.message == "Failed to get initial notifications: "@
            + e && v.items.len() == 0,
    }
}

/// The plain view of a fetched list or its failure.
pub open spec fn fetch_view(r: Result<Vec<Notification>, String>) -> Result<Seq<Notification>, Seq<char>> {
    match r {
        Ok(v) => Ok(v@),
        Err(e) => Err(e@),
    }
}

/// The plain view of an outcome that carries no value.
pub open spec fn unit_view(r: Result<(), String>) -> Result<(), Seq<char>> {
    match r {
        Ok(()) => Ok(()),
        Err(e) => Err(e@),
    }
}

/// `v` after the cache was written (`r`): a failure is recorded as the message, which
/// stays hidden.
pub open spec fn cache_written(v: AppView, r: Result<(), Seq<char>>) -> AppView {
    match r {
        Err(e) => message_hidden(message_shown(v, "Failed to sync notificatons state: "@ + e)),
        Ok(()) => message_hidden(v),
    }
}

/// `v` after local status changes were pushed (`r`): the client says it is re-fetching
/// (this message replaces any failure's).
pub open spec fn state_pushed(v: AppView, r: Result<(), Seq<char>>) -> AppView {
    let w = match r {
        Err(e) => message_shown(v, "Failed to sync notificatons state: "@ + e),
        Ok(()) => v,
    };
    message_shown(w, "Done updating notificatons state, re-fetching..."@)
}

/// `v` after the notifications were fetched again (`r`): they replace the list; a failure
/// is recorded as the message. The message is hidden either way.
pub open spec fn notifications_fetched(v: AppView, r: Result<Seq<Notification>, Seq<char>>) -> AppView {
    let w = match r {
        Err(e) => message_shown(v, "Failed to fetch updated notificatons: "@ + e),
        Ok(items) => AppView { items: items, ..v },
    };
    message_hidden(w)
}

impl App {
    /// The client as it starts, from the result of the first fetch of the notifications.
    pub fn default(fetched: Result<Vec<Notification>, String>) -> (app: App)
        ensures
            initial_view(fetch_view(fetched), app@),
    {
        let mut items: Vec<Notification> = Vec::new();
        let mut should_show_error = false;
        let mut error_message = String::new();
        match fetched {
            Err(e) => {
                should_show_error = true;
                error_message = String::from_str("Failed to get initial notifications: ");
                error_message.append(e.as_str());
            },
            Ok(notifications) => {
                items = notifications;
            },
        }
        App {
            should_exit: false,
            should_show_info: false,
            should_show_message: should_show_error,
            message: error_message,
            notifications_list: NotificationList {
                items,
                state: Selection { selected: None, offset: 0 },
            },
            input_mode: InputMode::Normal,
            input: String::new(),
            character_index: 0,
        }
    }

    /// Shows the message `msg`.
    pub fn show_message(&mut self, msg: String)
        ensures
            final(self)@ == message_shown(old(self)@, msg@),
    {
        self.should_show_message = true;
        self.message = msg;
    }

    /// Records the result of writing the cache.
    pub fn on_cache_written(&mut self, r: Result<(), String>)
        ensures
            final(self)@ == cache_written(old(self)@, unit_view(r)),
    {
        match r {
            Err(e) => {
                let mut m = String::from_str("Failed to sync notificatons state: ");
                m.append(e.as_str());
                self.show_message(m);
            },
            Ok(_) => {},
        }
        self.should_show_message = false;
    }

    /// Records the result of pushing local status changes to GitHub.
    pub fn on_state_pushed(&mut self, r: Result<(), String>)
        ensures
            final(self)@ == state_pushed(old(self)@, unit_view(r)),
    {
        match r {
            Err(e) => {
                let mut m = String::from_str("Failed to sync notificatons state: ");
                m.append(e.as_str());
                self.show_message(m);
            },
            Ok(_) => {},
        }
        self.show_message(String::from_str("Done updating notificatons state, re-fetching..."));
    }

    /// Records the notifications fetched after a sync.
    pub fn on_notifications_fetched(&mut self, r: Result<Vec<Notification>, String>)
        ensures
            final(self)@ == notifications_fetched(old(self)@, fetch_view(r)),
    {
        match r {
            Err(e) => {
                let mut m = String::from_str("Failed to fetch updated notificatons: ");
                m.append(e.as_str());
                self.show_message(m);
            },
            Ok(notifications) => {
                self.notifications_list.items = notifications;
            },
        }
        self.should_show_message = false;
    }

    /// Shows the detail pane.
    pub fn show_info(&mut self)
        ensures
            final(self)@ == (AppView { should_show_info: true, ..old(self)@ }),
    {
        self.should_show_info = true;
    }

    fn select(&mut self, index: Option<usize>)
        ensures
            final(self)@ == selected(old(self)@, index),
    {
        self.notifications_list.state.selected = index;
        if index.is_none() {
            self.notifications_list.state.offset = 0;
        }
    }

    /// Selects no row.
    pub fn select_none(&mut self)
        ensures
            final(self)@ == selected(old(self)@, None),
    {
        self.select(None);
    }

    /// Selects the next row (the first when none is selected).
    pub fn select_next(&mut self)
        ensures
            final(self)@ == selected(old(self)@, Some(next_row(old(self)@.selection))),
    {
        let next = match self.notifications_list.state.selected {
            Some(i) => i.saturating_add(1),
            None => 0,
        };
        self.select(Some(next));
    }

    /// Selects the previous row (the last when none is selected).
    pub fn select_previous(&mut self)
        ensures
            final(self)@ == selected(old(self)@, Some(previous_row(old(self)@.selection))),
    {
        let previous = match self.notifications_list.state.selected {
            Some(i) => i.saturating_sub(1),
            None => usize::MAX,
        };
        self.select(Some(previous));
    }

    /// Selects the first row.
    pub fn select_first(&mut self)
        ensures
            final(self)@ == selected(old(self)@, Some(0)),
    {
        self.select(Some(0));
    }

    /// Selects the last row (the largest index; drawing the list brings it back to the
    /// last row there is).
    pub fn select_last(&mut self)
        ensures
            final(self)@ == selected(old(self)@, Some(usize::MAX)),
    {
        self.select(Some(usize::MAX));
    }

    /// Gives the selected notification, if any, the status `status`.
    pub fn change_status(&mut self, status: Status)
        requires
            selection_in_range(old(self)@),
        ensures
            final(self)@ == status_changed(old(self)@, status),
    {
        if let Some(i) = self.notifications_list.state.selected {
            let mut n = self.notifications_list.items.remove(i);
            n.status = status;
            self.notifications_list.items.insert(i, n);
            proof {
                assert(self.notifications_list.items@ =~= old(self).notifications_list.items@.update(
                    i as int,
                    with_status(old(self).notifications_list.items@[i as int], status),
                ));
            }
        }
    }

    /// Marks done every notification whose title or repository (`owner/name`) holds
    /// `match_string`; an empty `match_string` marks nothing. It always succeeds.
    pub fn mark_messages_done(&mut self, match_string: String) -> (r: Result<(), String>)
        ensures
            r is Ok,
            final(self)@ == marked_done(old(self)@, match_string@),
    {
        if match_string.unicode_len() == 0 {
            return Ok(());
        }
        let ghost before = self.notifications_list.items@;
        let n = self.notifications_list.items.len();
        let mut i: usize = 0;
        while i < n
            invariant
                n == before.len(),
                i <= n,
                self.notifications_list.items@.len() == n,
                forall|j: int|
                    0 <= j < i ==> self.notifications_list.items@[j] == marked(
                        before[j],
                        match_string@,
                    ),
                forall|j: int| i <= j < n ==> self.notifications_list.items@[j] == before[j],
                self.should_exit == old(self).should_exit,
                self.should_show_info == old(self).should_show_info,
                self.should_show_message == old(self).should_show_message,
                self.message == old(self).message,
                self.notifications_list.state == old(self).notifications_list.state,
                self.input_mode == old(self).input_mode,
                self.input == old(self).input,
                self.character_index == old(self).character_index,
            decreases n - i,
        {
            let hit = contains(self.notifications_list.items[i].title.as_str(), match_string.as_str())
                || contains(
                self.notifications_list.items[i].repo.nwo.as_str(),
                match_string.as_str(),
            );
            if hit {
                let mut item = self.notifications_list.items.remove(i);
                item.status = Status::Done;
                self.notifications_list.items.insert(i, item);
            }
            proof {
                let cur = self.notifications_list.items@;
                assert forall|j: int| 0 <= j < i + 1 implies cur[j] == marked(
                    before[j],
                    match_string@,
                ) by {}
            }
            i = i + 1;
        }
        proof {
            assert(self.notifications_list.items@ =~= before.map_values(
                |x: Notification| marked(x, match_string@),
            ));
        }
        Ok(())
    }

    /// The cursor position `new_cursor_pos`, kept within the input line.
    pub fn clamp_cursor(&self, new_cursor_pos: usize) -> (r: usize)
        ensures
            r == clamped(self@, new_cursor_pos),
    {
        let count = self.input.as_str().unicode_len();
        if new_cursor_pos < count {
            new_cursor_pos
        } else {
            count
        }
    }

    /// Moves the cursor one character left.
    pub fn move_cursor_left(&mut self)
        ensures
            final(self)@ == cursor_left(old(self)@),
    {
        let cursor_moved_left = self.character_index.saturating_sub(1);
        self.character_index = self.clamp_cursor(cursor_moved_left);
    }

    /// Moves the cursor one character right.
    pub fn move_cursor_right(&mut self)
        ensures
            final(self)@ == cursor_right(old(self)@),
    {
        let cursor_moved_right = self.character_index.saturating_add(1);
        self.character_index = self.clamp_cursor(cursor_moved_right);
    }

    /// Moves the cursor to the start of the input line.
    pub fn reset_cursor(&mut self)
        ensures
            final(self)@ == cursor_at(old(self)@, 0),
    {
        self.character_index = 0;
    }

    /// The byte position in the input line of the character at the cursor (the byte
    /// length of the line when the cursor is past its end).
    pub fn byte_index(&self) -> (r: usize)
        requires
            utf8_len(self@.input) <= usize::MAX,
        ensures
            r == utf8_len(self@.input.take(cursor_char(self@))),
    {
        let count = self.input.as_str().unicode_len();
        let k = if self.character_index < count {
            self.character_index
        } else {
            count
        };
        byte_offset(self.input.as_str(), k)
    }

    /// Types `new_char` at the cursor and moves the cursor past it.
    pub fn enter_char(&mut self, new_char: char)
        requires
            input_can_grow(old(self)@),
        ensures
            final(self)@ == char_entered(old(self)@, new_char),
    {
        let index = self.byte_index();
        let ghost k = cursor_char(self@);
        proof {
            assert(encode_scalar_len_at_most_4(new_char));
        }
        string_insert(&mut self.input, index, new_char);
        proof {
            assert(self.input@ == old(self).input@.take(k).push(new_char) + old(self).input@.skip(k));
        }
        self.move_cursor_right();
    }

    /// Removes the character before the cursor, if any, and moves the cursor back.
    pub fn delete_char(&mut self)
        ensures
            final(self)@ == char_deleted(old(self)@),
    {
        let is_not_cursor_leftmost = self.character_index != 0;
        if is_not_cursor_leftmost {
            let current_index = self.character_index;
            let from_left_to_current_index = current_index - 1;
            let count = self.input.as_str().unicode_len();
            let a = if from_left_to_current_index < count {
                from_left_to_current_index
            } else {
                count
            };
            let b = if current_index < count {
                current_index
            } else {
                count
            };
            let mut kept = String::from_str(self.input.as_str().substring_char(0, a));
            kept.append(self.input.as_str().substring_char(b, count));
            proof {
                assert(kept@ =~= old(self).input@.take(a as int) + old(self).input@.skip(b as int));
            }
            self.input = kept;
            self.move_cursor_left();
        }
    }

    /// Submits the input line: marks done the notifications that match it, then empties it
    /// and leaves it.
    pub fn submit_message(&mut self)
        ensures
            final(self)@ == submitted(old(self)@),
    {
        if let Err(e) = self.mark_messages_done(self.input.clone()) {
            let mut m = String::from_str("Unable to mark as done: ");
            m.append(e.as_str());
            self.show_message(m);
        }
        self.input = String::new();
        self.reset_cursor();
        self.input_mode = InputMode::Normal;
    }

    /// Hides the message if one is shown, else the detail pane if it is shown; with
    /// neither, asks to sync, save and exit.
    pub fn close_content_or_app(&mut self) -> (e: Effect)
        ensures
            (final(self)@, e) == closed(old(self)@),
    {
        if self.should_show_message {
            self.should_show_message = false;
            return Effect::Nothing;
        }
        if self.should_show_info {
            self.should_show_info = false;
            Effect::Nothing
        } else {
            self.should_exit = true;
            Effect::SyncSaveExit
        }
    }

    /// What a key does while the list has the keys.
    pub fn handle_normal_mode_key(&mut self, code: KeyCode) -> (e: Effect)
        requires
            is_status_key(code) ==> selection_in_range(old(self)@),
        ensures
            (final(self)@, e) == normal_key(old(self)@, code),
    {
        match code {
            KeyCode::Char('$') => Effect::Sync,
            KeyCode::Char('q') => self.close_content_or_app(),
            KeyCode::Char('h') | KeyCode::Left => {
                self.select_none();
                Effect::Nothing
            },
            KeyCode::Char('j') | KeyCode::Down => {
                self.select_next();
                Effect::Nothing
            },
            KeyCode::Char('k') | KeyCode::Up => {
                self.select_previous();
                Effect::Nothing
            },
            KeyCode::Char('g') | KeyCode::Home => {
                self.select_first();
                Effect::Nothing
            },
            KeyCode::Char('G') | KeyCode::End => {
                self.select_last();
                Effect::Nothing
            },
            KeyCode::Char('N') => {
                self.change_status(Status::Unread);
                Effect::Nothing
            },
            KeyCode::Char('d') => {
                self.change_status(Status::Done);
                self.select_next();
                Effect::Nothing
            },
            KeyCode::Char('D') => {
                self.input_mode = InputMode::Insert;
                Effect::Nothing
            },
            KeyCode::Enter => {
                self.show_info();
                Effect::Nothing
            },
            _ => Effect::Nothing,
        }
    }

    /// What a key does while the input line has the keys; only key presses count.
    pub fn handle_insert_mode_key(&mut self, key: KeyEvent)
        requires
            input_can_grow(old(self)@),
        ensures
            final(self)@ == insert_key(old(self)@, key),
    {
        if key.press {
            match key.code {
                KeyCode::Enter => self.submit_message(),
                KeyCode::Char(to_insert) => self.enter_char(to_insert),
                KeyCode::Backspace => self.delete_char(),
                KeyCode::Esc => self.input_mode = InputMode::Normal,
                _ => {},
            }
        }
    }

    /// What a key does, by whether the list or the input line has the keys.
    pub fn handle_key(&mut self, key: KeyEvent) -> (e: Effect)
        requires
            key_acceptable(old(self)@, key),
        ensures
            (final(self)@, e) == key_handled(old(self)@, key),
    {
        match self.input_mode {
            InputMode::Normal => self.handle_normal_mode_key(key.code),
            InputMode::Insert => {
                self.handle_insert_mode_key(key);
                Effect::Nothing
            },
        }
    }
}

/// A character takes at most four bytes in UTF-8.
pub open spec fn encode_scalar_len_at_most_4(c: char) -> bool {
    vstd::utf8::encode_scalar(c as u32).len() <= 4
}


// ---------------------------------------------------------------------------
// What the screen shows
// ---------------------------------------------------------------------------

/// The key help shown at the bottom when no message is shown.
pub const HELP_TEXT: &'static str = "Use j/k to move, g/G to go top/bottom, d to mark done, D to mark done by substring match, N to mark unread, $ to sync state";

/// The widths, in terminal cells, of the columns of the notification list.
pub struct IndexWidths {
    pub status: u16,
    pub datetime: u16,
    pub author: u16,
    pub repo: u16,
    pub title: u16,
    pub github_type: u16,
    pub state: u16,
    pub reason: u16,
}

impl Default for IndexWidths {
    fn default() -> (w: IndexWidths)
        ensures
            w.status == 2 && w.datetime == 18 && w.author == 20 && w.repo == 20 && w.title == 100
                && w.github_type == 15 && w.state == 8 && w.reason == 17,
    {
        IndexWidths {
            status: 2,
            datetime: 18,
            author: 20,
            repo: 20,
            title: 100,
            github_type: 15,
            state: 8,
            reason: 17,
        }
    }
}

/// The minute that the time `secs` seconds and `nanos` nanoseconds after the Unix epoch
/// falls in, as chrono writes it with `%Y-%m-%d %H:%M` (in UTC); `None` where chrono
/// cannot represent that time.
pub uninterp spec fn minute_text(secs: i64, nanos: u32) -> Option<Seq<char>>;

/// `DateTime::<Utc>::from_timestamp` then `format("%Y-%m-%d %H:%M")` of chrono. Its
/// result is named by `minute_text`; nothing more is claimed of it.
#[verifier::external_body]
fn format_minute(secs: i64, nanos: u32) -> (r: Option<String>)
    ensures
        r.deep_view() == minute_text(secs, nanos),
{
    match chrono::DateTime::from_timestamp(secs, nanos) {
        Some(t) => Some(t.format("%Y-%m-%d %H:%M").to_string()),
        None => None,
    }
}

/// The texts of a row of the notification list.
pub struct RowTexts {
    pub status: String,
    /// The minute of the last update.
    pub updated: String,
    pub repo: String,
    pub kind: String,
    pub author: String,
    pub title: String,
    pub reason: String,
}

pub open spec fn status_marker(s: Status) -> Seq<char> {
    match s {
        Status::Unread => "N"@,
        Status::Read => "R"@,
        Status::Done => "D"@,
    }
}

/// The state of an issue or pull request, shortened: `C` closed, `O` open, else nothing.
pub open spec fn state_marker(n: Notification) -> Seq<char> {
    match n.details {
        Ok(d) => if d.state@ == "closed"@ {
            "C"@
        } else if d.state@ == "open"@ {
            "O"@
        } else {
            Seq::empty()
        },
        Err(_) => Seq::empty(),
    }
}

/// Who a row names: the author of the latest comment, else of the issue or pull request;
/// `n/a` where the details are missing.
pub open spec fn author_text(n: Notification) -> Seq<char> {
    match n.details {
        Err(_) => "n/a"@,
        Ok(d) => match d.latest_comment {
            Some(c) => c.author@,
            None => d.author@,
        },
    }
}

/// `r` holds the texts of the row that shows `n`.
pub open spec fn row_texts_of(n: Notification, r: RowTexts) -> bool {
    &&& r.status@ == status_marker(n.status)
    &&& r.updated@ == minute_text(n.updated_at.secs, n.updated_at.nanos)->Some_0
    &&& r.repo@ == n.repo.nwo@
    &&& r.kind@ == n.github_type@ + " ("@ + state_marker(n) + ")"@
    &&& r.author@ == author_text(n)
    &&& r.title@ == n.title@
    &&& r.reason@ == n.reason@
}

/// The time of `n` can be written out.
pub open spec fn time_writable(n: Notification) -> bool {
    minute_text(n.updated_at.secs, n.updated_at.nanos) is Some
}

/// The texts of the row that shows `n`.
pub fn row_texts(n: &Notification) -> (r: RowTexts)
    requires
        time_writable(*n),
    ensures
        row_texts_of(*n, r),
{
    let updated = match format_minute(n.updated_at.secs, n.updated_at.nanos) {
        Some(t) => t,
        None => String::new(),
    };
    let status = match n.status {
        Status::Unread => String::from_str("N"),
        Status::Read => String::from_str("R"),
        Status::Done => String::from_str("D"),
    };
    let marker = match &n.details {
        Ok(d) => {
            if d.state == String::from_str("closed") {
                String::from_str("C")
            } else if d.state == String::from_str("open") {
                String::from_str("O")
            } else {
                String::new()
            }
        },
        Err(_) => String::new(),
    };
    let mut kind = n.github_type.clone();
    kind.append(" (");
    kind.append(marker.as_str());
    kind.append(")");
    let author = match &n.details {
        Err(_) => String::from_str("n/a"),
        Ok(d) => match &d.latest_comment {
            Some(c) => c.author.clone(),
            None => d.author.clone(),
        },
    };
    RowTexts {
        status,
        updated,
        repo: n.repo.nwo.clone(),
        kind,
        author,
        title: n.title.clone(),
        reason: n.reason.clone(),
    }
}

/// The texts of the row that shows `n`, where its time can be written out; `None` where
/// it cannot.
pub fn try_row_texts(n: &Notification) -> (r: Option<RowTexts>)
    ensures
        r is None <==> !time_writable(*n),
        r matches Some(t) ==> row_texts_of(*n, t),
{
    match format_minute(n.updated_at.secs, n.updated_at.nanos) {
        Some(_) => Some(row_texts(n)),
        None => None,
    }
}

/// What the detail pane shows of the selected notification.
pub open spec fn info_text(v: AppView) -> Seq<char> {
    match v.selection.selected {
        None => "Nothing selected..."@,
        Some(i) => {
            let n = v.items[i as int];
            match n.details {
                Err(e) => "URL: "@ + n.url@ + "\nUnable to get notification details: "@ + e@,
                Ok(d) => {
                    let (author, url, body) = match d.latest_comment {
                        Some(c) => (c.author@, c.url@, c.body@),
                        None => (Seq::empty(), Seq::empty(), Seq::empty()),
                    };
                    "URL: "@ + d.url@ + "\nauthor: "@ + d.author@ + "\n\n"@ + author + " ("@ + url
                        + "):\n\n"@ + body
                },
            }
        },
    }
}

impl App {
    /// The line at the bottom: the message when one is shown, else the key help.
    pub fn footer_text(&self) -> (r: String)
        ensures
            r@ == (if self.should_show_message {
                self.message@
            } else {
                HELP_TEXT@
            }),
    {
        if self.should_show_message {
            self.message.clone()
        } else {
            String::from_str(HELP_TEXT)
        }
    }

    /// The input line as shown while typing a match.
    pub fn input_line(&self) -> (r: String)
        ensures
            r@ == "Match to mark as done: "@ + self.input@,
    {
        let mut r = String::from_str("Match to mark as done: ");
        r.append(self.input.as_str());
        r
    }

    /// The title of the list, with the number of notifications.
    pub fn list_title(&self) -> (r: String)
        ensures
            r@ == "Notifications ("@ + decimal(self.notifications_list.items@.len()) + ")"@,
    {
        let count = self.notifications_list.items.len();
        let mut r = String::from_str("Notifications (");
        let c = decimal_string(count as u64);
        r.append(c.as_str());
        r.append(")");
        r
    }

    /// What the detail pane shows of the selected notification.
    pub fn selected_info(&self) -> (r: String)
        requires
            selection_in_range(self@),
        ensures
            r@ == info_text(self@),
    {
        match self.notifications_list.state.selected {
            None => String::from_str("Nothing selected..."),
            Some(i) => {
                let n = &self.notifications_list.items[i];
                match &n.details {
                    Err(e) => {
                        let mut r = String::from_str("URL: ");
                        r.append(n.url.as_str());
                        r.append("\nUnable to get notification details: ");
                        r.append(e.as_str());
                        r
                    },
                    Ok(d) => {
                        let comment = match &d.latest_comment {
                            Some(c) => c.duplicate(),
                            None => crate::notifications::Comment::default(),
                        };
                        let mut r = String::from_str("URL: ");
                        r.append(d.url.as_str());
                        r.append("\nauthor: ");
                        r.append(d.author.as_str());
                        r.append("\n\n");
                        r.append(comment.author.as_str());
                        r.append(" (");
                        r.append(comment.url.as_str());
                        r.append("):\n\n");
                        r.append(comment.body.as_str());
                        r
                    },
                }
            },
        }
    }
}


// ---------------------------------------------------------------------------
// Laws
// ---------------------------------------------------------------------------

/// The cursor never leaves the input line: the client starts with it in the line, and
/// no key takes it out.
pub proof fn law_cursor_stays_in_line(v: AppView, key: KeyEvent)
    requires
        cursor_in_line(v),
    ensures
        cursor_in_line(key_handled(v, key).0),
{
    let w = key_handled(v, key).0;
    match v.input_mode {
        InputMode::Normal => {
            match key.code {
                KeyCode::Char('d') => {
                    let u = status_changed(v, Status::Done);
                    assert(u.input == v.input && u.cursor == v.cursor);
                },
                KeyCode::Char('N') => {
                    let u = status_changed(v, Status::Unread);
                    assert(u.input == v.input && u.cursor == v.cursor);
                },
                _ => {},
            }
        },
        InputMode::Insert => {
            if key.press {
                match key.code {
                    KeyCode::Enter => {
                        assert(w.input.len() == 0 && w.cursor == 0);
                    },
                    KeyCode::Char(c) => {
                        let k = cursor_char(v);
                        let grown = v.input.take(k).push(c) + v.input.skip(k);
                        assert(grown.len() == v.input.len() + 1);
                    },
                    KeyCode::Backspace => {
                        if v.cursor != 0 {
                            let a = min(v.cursor - 1, v.input.len() as int);
                            let b = min(v.cursor as int, v.input.len() as int);
                            assert((v.input.take(a) + v.input.skip(b)).len() == v.input.len() - 1);
                        }
                    },
                    _ => {},
                }
            }
        },
    }
}

/// The client starts with the cursor in the input line.
pub proof fn law_initial_cursor_in_line(r: Result<Seq<Notification>, Seq<char>>, v: AppView)
    requires
        initial_view(r, v),
    ensures
        cursor_in_line(v),
{
}

/// Backspace right after typing a character gives back the input line and the cursor as
/// they were.
pub proof fn law_delete_undoes_enter(v: AppView, c: char)
    requires
        cursor_in_line(v),
        input_can_grow(v),
    ensures
        char_deleted(char_entered(v, c)) == v,
{
    let k = v.cursor as int;
    let grown = v.input.take(k).push(c) + v.input.skip(k);
    assert(v.input.len() <= utf8_len(v.input)) by {
        crate::text::lemma_utf8_len_at_least_len(v.input);
    }
    assert(grown.take(k) + grown.skip(k + 1) =~= v.input);
    assert(char_deleted(char_entered(v, c)).input =~= v.input);
}

/// Marking by a match twice marks nothing more than marking once.
pub proof fn law_marking_is_idempotent(v: AppView, m: Seq<char>)
    ensures
        marked_done(marked_done(v, m), m) == marked_done(v, m),
{
    if m.len() > 0 {
        let once = marked_done(v, m);
        let twice = marked_done(once, m);
        assert forall|i: int| 0 <= i < v.items.len() implies #[trigger] twice.items[i]
            == once.items[i] by {
            let n = v.items[i];
            assert(marked(n, m).title == n.title && marked(n, m).repo == n.repo);
        }
        assert(twice.items =~= once.items);
    }
}

/// Marking by a match changes nothing but statuses, and only to done.
pub proof fn law_marking_only_marks_done(v: AppView, m: Seq<char>, i: int)
    requires
        0 <= i < v.items.len(),
    ensures
        marked_done(v, m).items.len() == v.items.len(),
        marked_done(v, m).items[i] == v.items[i] || marked_done(v, m).items[i] == with_status(
            v.items[i],
            Status::Done,
        ),
{
}


/// Marking by a non-empty match sets done exactly the notifications whose title or
/// repository (`owner/name`) holds it; any other keeps its status. Nothing else of a
/// notification changes.
pub proof fn law_marking_matches_title_or_repository(v: AppView, m: Seq<char>, i: int)
    requires
        0 <= i < v.items.len(),
        m.len() > 0,
    ensures
        marked_done(v, m).items.len() == v.items.len(),
        (contains_seq(v.items[i].title@, m) || contains_seq(v.items[i].repo.nwo@, m))
            ==> marked_done(v, m).items[i].status == Status::Done,
        !(contains_seq(v.items[i].title@, m) || contains_seq(v.items[i].repo.nwo@, m))
            ==> marked_done(v, m).items[i].status == v.items[i].status,
        marked_done(v, m).items[i].id == v.items[i].id,
        marked_done(v, m).items[i].title == v.items[i].title,
        marked_done(v, m).items[i].repo == v.items[i].repo,
        marked_done(v, m).items[i].reason == v.items[i].reason,
        marked_done(v, m).items[i].details == v.items[i].details,
        marked_done(v, m).items[i].updated_at == v.items[i].updated_at,
{
}

/// Each status has its own marker in the list: `N` unread, `R` read, `D` done; two
/// different statuses never show the same marker.
pub proof fn law_status_markers_distinct(a: Status, b: Status)
    ensures
        a == Status::Unread ==> status_marker(a) == seq!['N'],
        a == Status::Read ==> status_marker(a) == seq!['R'],
        a == Status::Done ==> status_marker(a) == seq!['D'],
        a != b ==> status_marker(a) != status_marker(b),
{
    reveal_strlit("N");
    reveal_strlit("R");
    reveal_strlit("D");
    assert("N"@ =~= seq!['N']);
    assert("R"@ =~= seq!['R']);
    assert("D"@ =~= seq!['D']);
    if a != b {
        assert(status_marker(a)[0] != status_marker(b)[0]);
    }
}

/// After `d` on a selected notification its row shows it done, and after `N` unread.
pub proof fn law_status_keys_show_in_row(v: AppView, r: RowTexts, s: RowTexts)
    requires
        v.selection.selected matches Some(i) && i < v.items.len(),
        row_texts_of(normal_key(v, KeyCode::Char('d')).0.items[v.selection.selected->Some_0 as int], r),
        row_texts_of(normal_key(v, KeyCode::Char('N')).0.items[v.selection.selected->Some_0 as int], s),
    ensures
        r.status@ == seq!['D'],
        s.status@ == seq!['N'],
{
    reveal_strlit("N");
    reveal_strlit("D");
}

/// The state marker of a row: `O` for details in the state `open`, `C` for `closed`,
/// nothing otherwise (or without details).
pub proof fn law_state_marker(n: Notification)
    ensures
        (n.details matches Ok(d) && d.state@ == seq!['o', 'p', 'e', 'n']) ==> state_marker(n)
            == seq!['O'],
        (n.details matches Ok(d) && d.state@ == seq!['c', 'l', 'o', 's', 'e', 'd']) ==> state_marker(
            n,
        ) == seq!['C'],
        !(n.details matches Ok(d) && (d.state@ == seq!['o', 'p', 'e', 'n'] || d.state@ == seq![
            'c',
            'l',
            'o',
            's',
            'e',
            'd',
        ])) ==> state_marker(n).len() == 0,
{
    reveal_strlit("open");
    reveal_strlit("closed");
    reveal_strlit("O");
    reveal_strlit("C");
    assert("open"@ =~= seq!['o', 'p', 'e', 'n']);
    assert("closed"@ =~= seq!['c', 'l', 'o', 's', 'e', 'd']);
    assert("O"@ =~= seq!['O']);
    assert("C"@ =~= seq!['C']);
}

} // verus!
