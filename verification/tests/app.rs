use ghn::app::{row_texts, try_row_texts, App, Effect, IndexWidths, InputMode, KeyCode, KeyEvent, HELP_TEXT};
use ghn::notifications::{Comment, Notification, NotificationDetail, Repo, Status, Timestamp};

fn note(id: u64, title: &str, nwo: &str) -> Notification {
    Notification {
        id,
        title: String::from(title),
        repo: Repo { owner: String::from("o"), name: String::from("n"), nwo: String::from(nwo) },
        url: format!("https://github.com/{}/issues/{}", nwo, id),
        latest_comment_url: None,
        github_type: String::from("Issue"),
        reason: String::from("mention"),
        status: Status::Unread,
        updated_at: Timestamp { secs: id as i64, nanos: 0 },
        details: Err(String::from("Not yet retrieved")),
    }
}

fn app() -> App {
    App::default(Ok(vec![note(1, "Fix parser", "foo/bla"), note(2, "Docs", "foo/other"), note(3, "Parser tests", "bar/baz")]))
}

fn key(c: KeyCode) -> KeyEvent {
    KeyEvent { code: c, press: true }
}

fn statuses(a: &App) -> Vec<Status> {
    a.notifications_list.items.iter().map(|n| n.status).collect()
}

#[test]
fn initial_failure_is_shown() {
    let a = App::default(Err(String::from("no token")));
    assert!(a.should_show_message);
    assert_eq!(a.message, "Failed to get initial notifications: no token");
    assert!(a.notifications_list.items.is_empty());
    let a = app();
    assert!(!a.should_show_message);
    assert_eq!(a.notifications_list.items.len(), 3);
    assert_eq!(a.notifications_list.state.selected, None);
}

#[test]
fn moving_through_the_list() {
    let mut a = app();
    assert_eq!(a.handle_key(key(KeyCode::Char('j'))), Effect::Nothing);
    assert_eq!(a.notifications_list.state.selected, Some(0));
    a.handle_key(key(KeyCode::Down));
    assert_eq!(a.notifications_list.state.selected, Some(1));
    a.handle_key(key(KeyCode::Char('k')));
    assert_eq!(a.notifications_list.state.selected, Some(0));
    a.handle_key(key(KeyCode::Up));
    assert_eq!(a.notifications_list.state.selected, Some(0));
    a.handle_key(key(KeyCode::Char('G')));
    assert_eq!(a.notifications_list.state.selected, Some(usize::MAX));
    a.handle_key(key(KeyCode::Char('g')));
    assert_eq!(a.notifications_list.state.selected, Some(0));
    a.notifications_list.state.offset = 4;
    a.handle_key(key(KeyCode::Char('h')));
    assert_eq!(a.notifications_list.state.selected, None);
    assert_eq!(a.notifications_list.state.offset, 0);
    a.handle_key(key(KeyCode::Up));
    assert_eq!(a.notifications_list.state.selected, Some(usize::MAX));
}

#[test]
fn marking_done_and_unread() {
    let mut a = app();
    a.handle_key(key(KeyCode::Char('j')));
    a.handle_key(key(KeyCode::Char('d')));
    assert_eq!(statuses(&a), vec![Status::Done, Status::Unread, Status::Unread]);
    assert_eq!(a.notifications_list.state.selected, Some(1));
    a.handle_key(key(KeyCode::Char('k')));
    a.handle_key(key(KeyCode::Char('N')));
    assert_eq!(statuses(&a), vec![Status::Unread, Status::Unread, Status::Unread]);
    let mut b = app();
    b.handle_key(key(KeyCode::Char('N')));
    assert_eq!(statuses(&b), vec![Status::Unread; 3]);
    b.handle_key(key(KeyCode::Char('d')));
    assert_eq!(statuses(&b), vec![Status::Unread; 3]);
    assert_eq!(b.notifications_list.state.selected, Some(0));
}

#[test]
fn mark_by_match() {
    let mut a = app();
    a.handle_key(key(KeyCode::Char('D')));
    assert_eq!(a.input_mode, InputMode::Insert);
    for c in "arse".chars() {
        a.handle_key(key(KeyCode::Char(c)));
    }
    assert_eq!(a.input, "arse");
    assert_eq!(a.input_line(), "Match to mark as done: arse");
    a.handle_key(key(KeyCode::Enter));
    assert_eq!(statuses(&a), vec![Status::Done, Status::Unread, Status::Done]);
    assert_eq!(a.input, "");
    assert_eq!(a.character_index, 0);
    assert_eq!(a.input_mode, InputMode::Normal);
}

#[test]
fn mark_by_repository() {
    let mut a = app();
    assert!(a.mark_messages_done(String::from("foo/")).is_ok());
    assert_eq!(statuses(&a), vec![Status::Done, Status::Done, Status::Unread]);
    let mut b = app();
    assert!(b.mark_messages_done(String::new()).is_ok());
    assert_eq!(statuses(&b), vec![Status::Unread; 3]);
}

#[test]
fn editing_the_input_line() {
    let mut a = app();
    a.input_mode = InputMode::Insert;
    for c in ['a', '€', 'c'] {
        a.handle_key(key(KeyCode::Char(c)));
    }
    assert_eq!(a.byte_index(), "a€c".len());
    a.move_cursor_left();
    a.move_cursor_left();
    assert_eq!(a.byte_index(), 1);
    a.handle_key(key(KeyCode::Char('é')));
    assert_eq!(a.input, "aé€c");
    assert_eq!(a.character_index, 2);
    a.handle_key(key(KeyCode::Backspace));
    assert_eq!(a.input, "a€c");
    assert_eq!(a.character_index, 1);
    a.move_cursor_right();
    a.move_cursor_right();
    a.move_cursor_right();
    assert_eq!(a.character_index, 3);
    a.reset_cursor();
    a.handle_key(key(KeyCode::Backspace));
    assert_eq!(a.input, "a€c");
    assert_eq!(a.clamp_cursor(10), 3);
    a.handle_key(KeyEvent { code: KeyCode::Char('z'), press: false });
    assert_eq!(a.input, "a€c");
    a.handle_key(key(KeyCode::Esc));
    assert_eq!(a.input_mode, InputMode::Normal);
}

#[test]
fn backspace_undoes_typing() {
    let mut a = app();
    a.input_mode = InputMode::Insert;
    for c in "héllo".chars() {
        a.handle_key(key(KeyCode::Char(c)));
    }
    a.move_cursor_left();
    a.move_cursor_left();
    let (input, cursor) = (a.input.clone(), a.character_index);
    a.enter_char('ß');
    a.delete_char();
    assert_eq!(a.input, input);
    assert_eq!(a.character_index, cursor);
}

#[test]
fn cursor_stays_in_line() {
    let mut a = app();
    a.input_mode = InputMode::Insert;
    let keys = [KeyCode::Char('x'), KeyCode::Backspace, KeyCode::Backspace, KeyCode::Char('y'), KeyCode::Left, KeyCode::Right, KeyCode::Char('z')];
    for k in keys {
        a.handle_key(key(k));
        assert!(a.character_index <= a.input.chars().count());
    }
}

#[test]
fn marking_twice_marks_nothing_more() {
    let mut a = app();
    a.mark_messages_done(String::from("Parser")).unwrap();
    let once = statuses(&a);
    a.mark_messages_done(String::from("Parser")).unwrap();
    assert_eq!(statuses(&a), once);
    assert_eq!(once, vec![Status::Unread, Status::Unread, Status::Done]);
}

#[test]
fn closing_steps() {
    let mut a = app();
    a.show_message(String::from("hi"));
    a.show_info();
    assert_eq!(a.handle_key(key(KeyCode::Char('q'))), Effect::Nothing);
    assert!(!a.should_show_message && a.should_show_info);
    assert_eq!(a.handle_key(key(KeyCode::Char('q'))), Effect::Nothing);
    assert!(!a.should_show_info && !a.should_exit);
    assert_eq!(a.handle_key(key(KeyCode::Char('q'))), Effect::SyncSaveExit);
    assert!(a.should_exit);
    let mut b = app();
    assert_eq!(b.handle_key(key(KeyCode::Char('$'))), Effect::Sync);
    b.handle_key(key(KeyCode::Enter));
    assert!(b.should_show_info);
    assert_eq!(b.handle_key(key(KeyCode::Other)), Effect::Nothing);
}

#[test]
fn sync_results_are_recorded() {
    let mut a = app();
    a.on_state_pushed(Err(String::from("401")));
    assert!(a.should_show_message);
    assert_eq!(a.message, "Done updating notificatons state, re-fetching...");
    a.on_notifications_fetched(Err(String::from("offline")));
    assert!(!a.should_show_message);
    assert_eq!(a.message, "Failed to fetch updated notificatons: offline");
    assert_eq!(a.notifications_list.items.len(), 3);
    a.on_notifications_fetched(Ok(vec![note(7, "t", "a/b")]));
    assert_eq!(a.notifications_list.items.len(), 1);
    a.on_cache_written(Err(String::from("disk full")));
    assert!(!a.should_show_message);
    assert_eq!(a.message, "Failed to sync notificatons state: disk full");
}

#[test]
fn screen_texts() {
    let mut a = app();
    assert_eq!(a.footer_text(), HELP_TEXT);
    a.show_message(String::from("oops"));
    assert_eq!(a.footer_text(), "oops");
    assert_eq!(a.list_title(), "Notifications (3)");
    assert_eq!(a.selected_info(), "Nothing selected...");
    a.select_first();
    assert_eq!(a.selected_info(), "URL: https://github.com/foo/bla/issues/1\nUnable to get notification details: Not yet retrieved");
    a.notifications_list.items[0].details = Ok(NotificationDetail {
        state: String::from("open"),
        latest_comment: Some(Comment { body: String::from("Looks fine"), author: String::from("bob"), url: String::from("https://c") }),
        url: String::from("https://p"),
        author: String::from("alice"),
    });
    assert_eq!(a.selected_info(), "URL: https://p\nauthor: alice\n\nbob (https://c):\n\nLooks fine");
    let r = row_texts(&a.notifications_list.items[0]);
    assert_eq!(r.status, "N");
    assert_eq!(r.kind, "Issue (O)");
    assert_eq!(r.author, "bob");
    assert_eq!(r.repo, "foo/bla");
    let r = row_texts(&a.notifications_list.items[1]);
    assert_eq!(r.kind, "Issue ()");
    assert_eq!(r.author, "n/a");
    assert_eq!(r.title, "Docs");
    assert_eq!(r.reason, "mention");
    assert_eq!(r.updated, "1970-01-01 00:00");
}

#[test]
fn row_time_is_written_by_minute() {
    let mut n = note(1, "t", "a/b");
    n.updated_at = Timestamp { secs: 1431648059, nanos: 999 };
    assert_eq!(try_row_texts(&n).unwrap().updated, "2015-05-15 00:00");
    n.updated_at = Timestamp { secs: i64::MAX, nanos: 0 };
    assert!(try_row_texts(&n).is_none());
}

#[test]
fn column_widths() {
    let w = IndexWidths::default();
    assert_eq!((w.status, w.datetime, w.author, w.repo, w.title, w.github_type, w.state, w.reason), (2, 18, 20, 20, 100, 15, 8, 17));
}
