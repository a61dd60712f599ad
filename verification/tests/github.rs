use ghn::github::{
    combine_update_results, convert_to_html_url, notifications_from_threads, finish_refresh, hydrate_comment_fetched,
    hydrate_issue_fetched, hydrate_pull_fetched, hydrate_start, plan_refresh, sort_by_update,
    thread_update, thread_update_outcome, CommentInfo, HydrateStep, IssueInfo, IssueState,
    PullInfo, ThreadSummary, ThreadUpdate,
};
use ghn::notifications::{Comment, Notification, NotificationDetail, Repo, Status, Timestamp};

fn note(id: u64, secs: i64, github_type: &str, url: &str) -> Notification {
    Notification {
        id,
        title: format!("title {}", id),
        repo: Repo { owner: String::from("foo"), name: String::from("bla"), nwo: String::from("foo/bla") },
        url: String::from(url),
        latest_comment_url: None,
        github_type: String::from(github_type),
        reason: String::from("mention"),
        status: Status::Unread,
        updated_at: Timestamp { secs, nanos: 0 },
        details: Err(String::from("Not yet retrieved")),
    }
}

fn detail(state: &str) -> NotificationDetail {
    NotificationDetail {
        state: String::from(state),
        latest_comment: None,
        url: String::from("https://github.com/foo/bla/issues/1"),
        author: String::from("alice"),
    }
}

#[test]
fn api_url_becomes_page_url() {
    let r = convert_to_html_url(String::from("https://api.github.com/repos/foo/bla/pulls/1234"));
    assert_eq!(r.unwrap(), "https://github.com/foo/bla/pull/1234");
    let r = convert_to_html_url(String::from("https://api.github.com/repos/foo/bla/issues/7"));
    assert_eq!(r.unwrap(), "https://github.com/foo/bla/issues/7");
    assert_eq!(convert_to_html_url(String::new()).unwrap(), "");
}

fn thread(latest: Option<&str>) -> ThreadSummary {
    ThreadSummary {
        id: 9,
        title: String::from("Fix it"),
        github_type: String::from("PullRequest"),
        reason: String::from("review_requested"),
        full_name: None,
        owner_login: Some(String::from("foo")),
        repo_name: String::from("bla"),
        subject_url: Some(String::from("https://api.github.com/repos/foo/bla/pulls/3")),
        latest_comment_url: latest.map(String::from),
        updated_at: Timestamp { secs: 100, nanos: 5 },
    }
}

#[test]
fn thread_becomes_unread_notification() {
    let n = Notification::from_thread(&thread(Some("https://api.github.com/repos/foo/bla/issues/comments/77")));
    assert_eq!(n.id, 9);
    assert_eq!(n.repo.nwo, "no-name");
    assert_eq!(n.repo.owner, "foo");
    assert_eq!(n.repo.name, "bla");
    assert_eq!(n.url, "https://github.com/foo/bla/pull/3");
    assert_eq!(n.status, Status::Unread);
    assert_eq!(n.latest_comment_url.unwrap(), "https://api.github.com/repos/foo/bla/issues/comments/77");
    assert_eq!(n.details.err().unwrap(), "Not yet retrieved");
    assert_eq!(n.updated_at, Timestamp { secs: 100, nanos: 5 });
}

#[test]
fn latest_comment_equal_to_subject_is_dropped() {
    let n = Notification::from_thread(&thread(Some("https://api.github.com/repos/foo/bla/pulls/3")));
    assert!(n.latest_comment_url.is_none());
    let mut t = thread(None);
    t.subject_url = None;
    t.latest_comment_url = Some(String::new());
    t.full_name = Some(String::from("foo/bla"));
    let n = Notification::from_thread(&t);
    assert!(n.latest_comment_url.is_none());
    assert_eq!(n.url, "");
    assert_eq!(n.repo.nwo, "foo/bla");
}

#[test]
fn refresh_reuses_details_not_updated_since() {
    let mut known_a = note(1, 100, "Issue", "u1");
    known_a.details = Ok(detail("open"));
    let mut known_b = note(2, 100, "Issue", "u2");
    known_b.details = Ok(detail("closed"));
    let known = vec![known_a, known_b];
    let fresh = vec![note(1, 100, "Issue", "u1"), note(2, 200, "Issue", "u2"), note(3, 50, "Issue", "u3")];
    let plan = plan_refresh(&fresh, &known);
    assert_eq!(plan.ready.len(), 1);
    assert_eq!(plan.ready[0].id, 1);
    assert_eq!(plan.ready[0].details.as_ref().unwrap().state, "open");
    assert_eq!(plan.pending.iter().map(|n| n.id).collect::<Vec<_>>(), vec![2, 3]);
    let details = vec![Ok(detail("closed")), Err(String::from("boom"))];
    let out = finish_refresh(plan.ready, plan.pending, details);
    assert_eq!(out.iter().map(|n| n.id).collect::<Vec<_>>(), vec![3, 1, 2]);
    assert_eq!(out[0].details.as_ref().err().unwrap(), "boom");
    assert_eq!(out[2].details.as_ref().unwrap().state, "closed");
}

#[test]
fn refresh_uses_last_known_with_an_id() {
    let mut first = note(5, 10, "Issue", "u");
    first.details = Ok(detail("first"));
    let mut second = note(5, 10, "Issue", "u");
    second.details = Ok(detail("second"));
    let plan = plan_refresh(&vec![note(5, 10, "Issue", "u")], &vec![first, second]);
    assert_eq!(plan.ready[0].details.as_ref().unwrap().state, "second");
    assert!(plan.pending.is_empty());
}

#[test]
fn sort_is_stable_by_update_time() {
    let v = vec![note(1, 30, "x", ""), note(2, 10, "x", ""), note(3, 30, "x", ""), note(4, 10, "x", ""), note(5, 20, "x", "")];
    let out = sort_by_update(v);
    assert_eq!(out.iter().map(|n| n.id).collect::<Vec<_>>(), vec![2, 4, 5, 1, 3]);
    let mut a = note(1, 7, "x", "");
    a.updated_at.nanos = 9;
    let b = note(2, 7, "x", "");
    let out = sort_by_update(vec![a, b]);
    assert_eq!(out.iter().map(|n| n.id).collect::<Vec<_>>(), vec![2, 1]);
}

#[test]
fn refresh_keeps_every_listed_notification() {
    let fresh: Vec<Notification> = (0..6).map(|i| note(i, (i as i64 * 7) % 4, "Issue", "u")).collect();
    let plan = plan_refresh(&fresh, &vec![]);
    let details = (0..plan.pending.len()).map(|_| Ok(detail("open"))).collect();
    let out = finish_refresh(plan.ready, plan.pending, details);
    let mut ids: Vec<u64> = out.iter().map(|n| n.id).collect();
    ids.sort();
    assert_eq!(ids, vec![0, 1, 2, 3, 4, 5]);
    assert!(out.windows(2).all(|w| w[0].updated_at.secs <= w[1].updated_at.secs));
}

#[test]
fn hydrate_issue_with_comment() {
    let mut n = note(1, 0, "Issue", "https://github.com/foo/bla/issues/12");
    n.latest_comment_url = Some(String::from("https://api.github.com/repos/foo/bla/issues/comments/99"));
    let step = hydrate_start(&n);
    let number = match step {
        HydrateStep::FetchIssue { owner, repo, number } => {
            assert_eq!((owner.as_str(), repo.as_str()), ("foo", "bla"));
            number
        }
        _ => panic!("expected an issue fetch"),
    };
    assert_eq!(number, 12);
    let info = IssueInfo { html_url: String::from("https://github.com/foo/bla/issues/12"), author: String::from("bob"), state: IssueState::Closed };
    let step = hydrate_issue_fetched(&n, number, Ok(info));
    let (id, d) = match step {
        HydrateStep::FetchComment { comment_id, detail, .. } => (comment_id, detail),
        _ => panic!("expected a comment fetch"),
    };
    assert_eq!(id, 99);
    assert_eq!(d.state, "closed");
    assert_eq!(d.author, "bob");
    let c = CommentInfo { body: None, author: String::from("carol"), html_url: String::from("https://c") };
    let d = hydrate_comment_fetched(&n, d, Ok(c)).unwrap();
    let c = d.latest_comment.unwrap();
    assert_eq!((c.body.as_str(), c.author.as_str(), c.url.as_str()), ("no body information", "carol", "https://c"));
}

#[test]
fn hydrate_issue_failure_message() {
    let n = note(1, 0, "Issue", "https://github.com/foo/bla/issues/12");
    let step = hydrate_issue_fetched(&n, 12, Err(String::from("404")));
    match step {
        HydrateStep::Done(Err(m)) => assert_eq!(m, "unable to retrieve issue foo/bla#12: 404"),
        _ => panic!("expected a failure"),
    }
    let step = hydrate_issue_fetched(&n, 12, Ok(IssueInfo { html_url: String::from("h"), author: String::from("a"), state: IssueState::Other }));
    match step {
        HydrateStep::Done(Ok(d)) => {
            assert_eq!(d.state, "n/a");
            assert!(d.latest_comment.is_none());
        }
        _ => panic!("expected details"),
    }
}

#[test]
fn hydrate_pull_without_comment_uses_body() {
    let n = note(2, 0, "PullRequest", "https://github.com/foo/bla/pull/3");
    match hydrate_start(&n) {
        HydrateStep::FetchPull { number, .. } => assert_eq!(number, 3),
        _ => panic!("expected a pull request fetch"),
    }
    let info = PullInfo { author: None, html_url: None, body: None, state: Some(IssueState::Open) };
    match hydrate_pull_fetched(&n, 3, Ok(info)) {
        HydrateStep::Done(Ok(d)) => {
            assert_eq!(d.author, "nologin");
            assert_eq!(d.url, "no html_url found");
            assert_eq!(d.state, "open");
            let c = d.latest_comment.unwrap();
            assert_eq!(c.body, "No body found for no html_url found");
            assert_eq!(c.author, "nologin");
        }
        _ => panic!("expected details"),
    }
    match hydrate_pull_fetched(&n, 3, Err(String::from("gone"))) {
        HydrateStep::Done(Err(m)) => assert_eq!(m, "unable to retrieve PR foo/bla#3: gone"),
        _ => panic!("expected a failure"),
    }
}

#[test]
fn hydrate_other_kinds_at_once() {
    let n = note(3, 0, "Release", "https://github.com/foo/bla/releases/1");
    match hydrate_start(&n) {
        HydrateStep::Done(Ok(d)) => {
            assert_eq!(d.url, "https://github.com/foo/bla/releases/1");
            assert_eq!(d.author, "");
        }
        _ => panic!("expected details"),
    }
}

#[test]
fn failed_comment_fetch_is_recorded() {
    let mut n = note(1, 0, "Issue", "x/1");
    n.latest_comment_url = Some(String::from("api/comments/5"));
    let d = hydrate_comment_fetched(&n, detail("open"), Err(String::from("timeout"))).unwrap();
    let c: Comment = d.latest_comment.unwrap();
    assert_eq!(c.body, "failed to retrieve comment from api/comments/5\ntimeout");
    assert_eq!(c.author, "");
    assert_eq!(d.state, "open");
}

#[test]
fn thread_updates_by_status() {
    let mut n = note(42, 0, "Issue", "https://github.com/foo/bla/issues/1");
    assert!(matches!(thread_update(&n), ThreadUpdate::Skip));
    n.status = Status::Read;
    assert!(matches!(thread_update(&n), ThreadUpdate::MarkRead { id: 42 }));
    assert!(thread_update_outcome(&n, Ok(())).is_ok());
    assert_eq!(thread_update_outcome(&n, Err(String::from("e"))).err().unwrap(), "Failed to mark thread 'https://github.com/foo/bla/issues/1, as read: e");
    n.status = Status::Done;
    match thread_update(&n) {
        ThreadUpdate::MarkDone { id, url } => {
            assert_eq!(id, 42);
            assert_eq!(url, "https://api.github.com/notifications/threads/42");
        }
        _ => panic!("expected a done mark"),
    }
    assert_eq!(thread_update_outcome(&n, Err(String::from("x"))).err().unwrap(), "Failed to mark thread 'https://github.com/foo/bla/issues/1, as done: x");
    n.status = Status::Unread;
    assert!(thread_update_outcome(&n, Err(String::from("x"))).is_ok());
}

#[test]
fn sync_result_is_last_failure() {
    assert!(combine_update_results(&vec![Ok(()), Ok(())]).is_ok());
    assert!(combine_update_results(&vec![]).is_ok());
    let r = combine_update_results(&vec![Err(String::from("a")), Ok(()), Err(String::from("b")), Ok(())]);
    assert_eq!(r.err().unwrap(), "unable to update thread: b");
}

#[test]
fn failed_fetch_ignores_comment_url() {
    let mut n = note(1, 0, "Issue", "https://github.com/foo/bla/issues/12");
    n.latest_comment_url = Some(String::from("https://api.github.com/comments/"));
    match hydrate_issue_fetched(&n, 12, Err(String::from("500"))) {
        HydrateStep::Done(Err(m)) => assert_eq!(m, "unable to retrieve issue foo/bla#12: 500"),
        _ => panic!("expected a failure"),
    }
    n.github_type = String::from("PullRequest");
    match hydrate_pull_fetched(&n, 12, Err(String::from("500"))) {
        HydrateStep::Done(Err(m)) => assert_eq!(m, "unable to retrieve PR foo/bla#12: 500"),
        _ => panic!("expected a failure"),
    }
}

#[test]
fn refreshed_notifications_are_unread() {
    let mut k = note(1, 10, "Issue", "u");
    k.status = Status::Done;
    k.details = Ok(detail("open"));
    let fresh = vec![note(1, 10, "Issue", "u"), note(2, 5, "Issue", "u")];
    let plan = plan_refresh(&fresh, &vec![k]);
    let out = finish_refresh(plan.ready, plan.pending, vec![Ok(detail("closed"))]);
    assert_eq!(out.len(), 2);
    assert!(out.iter().all(|n| n.status == Status::Unread));
}

#[test]
fn unread_sync_asks_nothing() {
    let ns = vec![note(1, 0, "Issue", "a"), note(2, 0, "Issue", "b")];
    let mut rs = Vec::new();
    for n in &ns {
        assert!(matches!(thread_update(n), ThreadUpdate::Skip));
        rs.push(thread_update_outcome(n, Err(String::from("never asked"))));
    }
    assert!(combine_update_results(&rs).is_ok());
}

#[test]
fn threads_are_recorded_in_order() {
    let mut t2 = thread(None);
    t2.id = 10;
    let ns = notifications_from_threads(&vec![thread(None), t2]);
    assert_eq!(ns.iter().map(|n| n.id).collect::<Vec<_>>(), vec![9, 10]);
    assert!(ns.iter().all(|n| n.status == Status::Unread));
}
