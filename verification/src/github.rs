//! What the client decides around its GitHub requests: turning API threads into
//! notifications, merging a fresh listing with the known one, completing details, and
//! pushing local status changes back.
use vstd::prelude::*;
use crate::notifications::{
    Comment, Notification, NotificationDetail, Repo, Status, Timestamp, ts_lt,
};
use crate::text::{
    after_last_slash, decimal, decimal_string, last_segment, parse_u64, parsed_u64, replace,
    replace_all,
};
use std::collections::HashMap;

verus! {

/// The web page of an API resource: `url` with `/repos/` turned into `/`, `/pulls/`
/// into `/pull/`, then `api.github.com` into `github.com`.
pub open spec fn html_url_of(url: Seq<char>) -> Seq<char> {
    replace_all(
        replace_all(replace_all(url, "/repos/"@, "/"@), "/pulls/"@, "/pull/"@),
        "api.github.com"@,
        "github.com"@,
    )
}

/// Converts an API url such as `https://api.github.com/repos/foo/bla/pulls/1234` into
/// the url of its web page, `https://github.com/foo/bla/pull/1234`. It always succeeds.
pub fn convert_to_html_url(url: String) -> (r: Result<String, String>)
    ensures
        r is Ok,
        r->Ok_0@ == html_url_of(url@),
{
    proof {
        reveal_strlit("/repos/");
        reveal_strlit("/pulls/");
        reveal_strlit("api.github.com");
    }
    let a = replace(url.as_str(), "/repos/", "/");
    let b = replace(a.as_str(), "/pulls/", "/pull/");
    let c = replace(b.as_str(), "api.github.com", "github.com");
    Ok(c)
}

/// The fields of a notification thread as the GitHub API lists it.
pub struct ThreadSummary {
    pub id: u64,
    pub title: String,
    pub github_type: String,
    pub reason: String,
    /// The repository's `owner/name`, where the API gives it.
    pub full_name: Option<String>,
    /// The login of the repository's owner, where the API gives it.
    pub owner_login: Option<String>,
    pub repo_name: String,
    pub subject_url: Option<String>,
    pub latest_comment_url: Option<String>,
    pub updated_at: Timestamp,
}

/// The subject url of a thread, the empty string where it has none.
pub open spec fn subject_url_of(t: ThreadSummary) -> Seq<char> {
    match t.subject_url {
        Some(u) => u@,
        None => Seq::empty(),
    }
}

/// A thread as the client first records it.
pub open spec fn notification_from_thread(t: ThreadSummary, n: Notification) -> bool {
    &&& n.id == t.id
    &&& n.title@ == t.title@
    &&& n.github_type@ == t.github_type@
    &&& n.reason@ == t.reason@
    &&& n.repo.nwo@ == (match t.full_name {
        Some(f) => f@,
        None => "no-name"@,
    })
    &&& n.repo.owner@ == t.owner_login->Some_0@
    &&& n.repo.name@ == t.repo_name@
    &&& (match t.latest_comment_url {
        None => n.latest_comment_url is None,
        Some(c) => if c@ == subject_url_of(t) {
            n.latest_comment_url is None
        } else {
            n.latest_comment_url is Some && n.latest_comment_url->Some_0@ == c@
        },
    })
    &&& n.updated_at == t.updated_at
    &&& n.status == Status::Unread
    &&& n.url@ == html_url_of(subject_url_of(t))
    &&& n.details is Err
    &&& n.details->Err_0@ == "Not yet retrieved"@
}

impl Notification {
    /// Records a thread of the API as a new, unread notification whose details are
    /// not retrieved yet. A latest comment url equal to the subject url is dropped.
    pub fn from_thread(t: &ThreadSummary) -> (n: Notification)
        requires
            t.owner_login is Some,
        ensures
            notification_from_thread(*t, n),
    {
        let subject_url = match &t.subject_url {
            Some(v) => v.clone(),
            None => String::new(),
        };
        let nwo = match &t.full_name {
            Some(f) => f.clone(),
            None => String::from_str("no-name"),
        };
        let owner = match &t.owner_login {
            Some(o) => o.clone(),
            None => String::new(),
        };
        let latest_comment_url = match &t.latest_comment_url {
            None => None,
            Some(v) => {
                if *v == subject_url {
                    None
                } else {
                    Some(v.clone())
                }
            },
        };
        let url = match convert_to_html_url(subject_url) {
            Ok(u) => u,
            Err(e) => e,
        };
        Notification {
            id: t.id,
            title: t.title.clone(),
            repo: Repo { nwo, owner, name: t.repo_name.clone() },
            latest_comment_url,
            github_type: t.github_type.clone(),
            reason: t.reason.clone(),
            updated_at: t.updated_at,
            status: Status::Unread,
            url,
            details: Err(String::from_str("Not yet retrieved")),
        }
    }
}


/// Records every thread of a listing, in order, as `Notification::from_thread` does.
pub fn notifications_from_threads(threads: &Vec<ThreadSummary>) -> (ns: Vec<Notification>)
    requires
        forall|i: int| 0 <= i < threads.len() ==> (#[trigger] threads[i]).owner_login is Some,
    ensures
        ns.len() == threads.len(),
        forall|i: int| 0 <= i < ns.len() ==> notification_from_thread(threads[i], #[trigger] ns[i]),
{
    let mut ns: Vec<Notification> = Vec::new();
    let mut i: usize = 0;
    while i < threads.len()
        invariant
            i <= threads.len(),
            forall|j: int| 0 <= j < threads.len() ==> (#[trigger] threads[j]).owner_login is Some,
            ns.len() == i,
            forall|j: int| 0 <= j < i ==> notification_from_thread(threads[j], #[trigger] ns[j]),
        decreases threads.len() - i,
    {
        let n = Notification::from_thread(&threads[i]);
        ns.push(n);
        i = i + 1;
    }
    ns
}

// ---------------------------------------------------------------------------
// Merging a fresh listing with the known notifications
// ---------------------------------------------------------------------------

/// Position of the last notification in `known` with id `id`.
pub open spec fn last_index_of(known: Seq<Notification>, id: u64) -> Option<int>
    decreases known.len(),
{
    if known.len() == 0 {
        None
    } else if known.last().id == id {
        Some(known.len() - 1)
    } else {
        last_index_of(known.drop_last(), id)
    }
}

pub proof fn lemma_last_index_of(known: Seq<Notification>, id: u64)
    ensures
        last_index_of(known, id) matches Some(j) ==> 0 <= j < known.len() && known[j].id == id,
    decreases known.len(),
{
    if known.len() > 0 && known.last().id != id {
        lemma_last_index_of(known.drop_last(), id);
    }
}

/// The known notification whose details a fresh one `n` takes over: the last known one
/// with its id, unless `n` was updated after it.
pub open spec fn reused_from(known: Seq<Notification>, n: Notification) -> Option<int> {
    match last_index_of(known, n.id) {
        Some(j) => if ts_lt(known[j].updated_at, n.updated_at) {
            None
        } else {
            Some(j)
        },
        None => None,
    }
}

/// Every known notification whose details a fresh one takes over has details.
pub open spec fn reused_details_present(known: Seq<Notification>, fresh: Seq<Notification>) -> bool {
    forall|i: int|
        0 <= i < fresh.len() ==> match #[trigger] reused_from(known, fresh[i]) {
            Some(j) => known[j].details is Ok,
            None => true,
        }
}

/// `n` with its details replaced by `d`.
pub open spec fn with_details(n: Notification, d: Result<NotificationDetail, String>) -> Notification {
    Notification { details: d, ..n }
}

/// The fresh notifications that take over known details, in order, with those details.
pub open spec fn reused_part(known: Seq<Notification>, fresh: Seq<Notification>) -> Seq<Notification>
    decreases fresh.len(),
{
    if fresh.len() == 0 {
        Seq::empty()
    } else {
        let rest = reused_part(known, fresh.drop_last());
        match reused_from(known, fresh.last()) {
            Some(j) => rest.push(with_details(fresh.last(), known[j].details)),
            None => rest,
        }
    }
}

/// The fresh notifications whose details must be retrieved, in order.
pub open spec fn pending_part(known: Seq<Notification>, fresh: Seq<Notification>) -> Seq<Notification>
    decreases fresh.len(),
{
    if fresh.len() == 0 {
        Seq::empty()
    } else {
        let rest = pending_part(known, fresh.drop_last());
        match reused_from(known, fresh.last()) {
            Some(j) => rest,
            None => rest.push(fresh.last()),
        }
    }
}

/// A fresh listing split by what its notifications need.
pub struct RefreshPlan {
    /// Notifications that took over the details already known for them.
    pub ready: Vec<Notification>,
    /// Notifications whose details must be retrieved.
    pub pending: Vec<Notification>,
}

/// Splits the freshly listed notifications: each one that is known (by id, the last
/// known one counting) and was not updated since takes over the known details; the
/// others must have their details retrieved.
pub fn plan_refresh(fresh: &Vec<Notification>, known: &Vec<Notification>) -> (p: RefreshPlan)
    requires
        reused_details_present(known@, fresh@),
    ensures
        p.ready@ == reused_part(known@, fresh@),
        p.pending@ == pending_part(known@, fresh@),
{
    broadcast use vstd::std_specs::hash::group_hash_axioms;

    let mut index: HashMap<u64, usize> = HashMap::new();
    let mut i: usize = 0;
    while i < known.len()
        invariant
            i <= known@.len(),
            forall|id: u64|
                #![trigger index@.contains_key(id)]
                match last_index_of(known@.take(i as int), id) {
                    Some(j) => index@.contains_key(id) && index@[id] == j,
                    None => !index@.contains_key(id),
                },
        decreases known@.len() - i,
    {
        let ghost before = index@;
        let key = known[i].id;
        index.insert(key, i);
        proof {
            let t = known@.take(i + 1);
            assert(t.drop_last() =~= known@.take(i as int));
            assert forall|id: u64|
                #![trigger index@.contains_key(id)]
                match last_index_of(t, id) {
                    Some(j) => index@.contains_key(id) && index@[id] == j,
                    None => !index@.contains_key(id),
                } by {
                if id != key {
                    assert(before.contains_key(id) == index@.contains_key(id));
                }
            }
        }
        i = i + 1;
    }
    proof {
        assert(known@.take(known@.len() as int) =~= known@);
    }
    let mut ready: Vec<Notification> = Vec::new();
    let mut pending: Vec<Notification> = Vec::new();
    let mut k: usize = 0;
    while k < fresh.len()
        invariant
            k <= fresh@.len(),
            reused_details_present(known@, fresh@),
            forall|id: u64|
                #![trigger index@.contains_key(id)]
                match last_index_of(known@, id) {
                    Some(j) => index@.contains_key(id) && index@[id] == j,
                    None => !index@.contains_key(id),
                },
            ready@ == reused_part(known@, fresh@.take(k as int)),
            pending@ == pending_part(known@, fresh@.take(k as int)),
        decreases fresh@.len() - k,
    {
        proof {
            assert(fresh@.take(k + 1).drop_last() =~= fresh@.take(k as int));
            assert(fresh@.take(k + 1).last() == fresh@[k as int]);
        }
        let n = &fresh[k];
        proof {
            lemma_last_index_of(known@, n.id);
        }
        let found = index.get(&n.id);
        let reuse: Option<usize> = match found {
            None => None,
            Some(j) => {
                let j = *j;
                assert(index@.contains_key(n.id));
                if known[j].updated_at.is_before(&n.updated_at) {
                    None
                } else {
                    Some(j)
                }
            },
        };
        match reuse {
            Some(j) => {
                assert(reused_from(known@, fresh@[k as int]) == Some(j as int));
                let mut m = n.duplicate();
                let d = match &known[j].details {
                    Ok(d) => Ok(d.duplicate()),
                    Err(e) => Err(e.clone()),
                };
                m.details = d;
                ready.push(m);
            },
            None => {
                pending.push(n.duplicate());
            },
        }
        k = k + 1;
    }
    proof {
        assert(fresh@.take(fresh@.len() as int) =~= fresh@);
    }
    RefreshPlan { ready, pending }
}


// ---------------------------------------------------------------------------
// Ordering by update time
// ---------------------------------------------------------------------------

/// `s` runs from the earliest update to the latest.
pub open spec fn sorted_by_update(s: Seq<Notification>) -> bool {
    forall|a: int, b: int|
        0 <= a < b < s.len() ==> !ts_lt(#[trigger] s[b].updated_at, #[trigger] s[a].updated_at)
}

/// `p` says where each element of `out` stood in `inp`: a one-to-one placement that keeps
/// the order of elements updated at the same time.
pub open spec fn stable_placement(p: Seq<int>, out: Seq<Notification>, inp: Seq<Notification>) -> bool {
    &&& p.len() == out.len()
    &&& out.len() == inp.len()
    &&& forall|k: int| 0 <= k < p.len() ==> 0 <= #[trigger] p[k] < inp.len() && out[k] == inp[p[k]]
    &&& forall|a: int, b: int| 0 <= a < b < p.len() ==> #[trigger] p[a] != #[trigger] p[b]
    &&& forall|a: int, b: int|
        0 <= a < b < p.len() && (#[trigger] out[a]).updated_at == (#[trigger] out[b]).updated_at
            ==> p[a] < p[b]
}

/// `out` holds the elements of `inp`, ordered by update time; elements updated at the same
/// time keep their order (what a stable sort by update time gives).
pub open spec fn stably_sorted_by_update(out: Seq<Notification>, inp: Seq<Notification>) -> bool {
    &&& sorted_by_update(out)
    &&& exists|p: Seq<int>| stable_placement(p, out, inp)
}

/// Orders `v` by update time, keeping the order of notifications updated at the same time.
#[verifier::spinoff_prover]
#[verifier::rlimit(40)]
pub fn sort_by_update(v: Vec<Notification>) -> (r: Vec<Notification>)
    ensures
        stably_sorted_by_update(r@, v@),
{
    let ghost inp = v@;
    let n = v.len();
    let mut rest = v;
    let mut out: Vec<Notification> = Vec::new();
    let ghost mut p: Seq<int> = Seq::empty();
    let mut i: usize = 0;
    while i < n
        invariant
            n == inp.len(),
            i <= n,
            rest@ == inp.skip(i as int),
            out@.len() == i,
            p.len() == i,
            sorted_by_update(out@),
            forall|k: int| 0 <= k < i ==> 0 <= #[trigger] p[k] < i && out@[k] == inp[p[k]],
            forall|a: int, b: int| 0 <= a < b < i ==> #[trigger] p[a] != #[trigger] p[b],
            forall|a: int, b: int|
                0 <= a < b < i && (#[trigger] out@[a]).updated_at
                    == (#[trigger] out@[b]).updated_at ==> p[a] < p[b],
        decreases n - i,
    {
        proof {
            assert(rest@.len() == n - i);
        }
        let x = rest.remove(0);
        proof {
            assert(x == inp[i as int]);
            assert(rest@ =~= inp.skip(i + 1));
        }
        let mut pos: usize = out.len();
        while pos > 0 && x.updated_at.is_before(&out[pos - 1].updated_at)
            invariant
                pos <= out@.len(),
                forall|j: int| pos <= j < out@.len() ==> ts_lt(x.updated_at, #[trigger] out@[j].updated_at),
            decreases pos,
        {
            pos = pos - 1;
        }
        let ghost o = out@;
        out.insert(pos, x);
        proof {
            let q = out@;
            let pp = p.insert(pos as int, i as int);
            o.insert_ensures(pos as int, x);
            p.insert_ensures(pos as int, i as int);
            assert(pos > 0 ==> !ts_lt(x.updated_at, o[pos - 1].updated_at));
            assert forall|k: int| 0 <= k < i + 1 implies 0 <= #[trigger] pp[k] < i + 1 && q[k]
                == inp[pp[k]] by {
                if k > pos {
                    assert(q[k] == o[k - 1]);
                    assert(pp[k] == p[k - 1]);
                }
            }
            assert forall|a: int, b: int| 0 <= a < b < i + 1 implies #[trigger] pp[a]
                != #[trigger] pp[b] by {
                if a < pos && b > pos {
                    assert(pp[b] == p[b - 1]);
                } else if a > pos {
                    assert(pp[a] == p[a - 1]);
                    assert(pp[b] == p[b - 1]);
                } else if a == pos {
                    assert(pp[b] == p[b - 1]);
                }
            }
            assert forall|a: int, b: int| 0 <= a < b < q.len() implies !ts_lt(
                #[trigger] q[b].updated_at,
                #[trigger] q[a].updated_at,
            ) by {
                if b < pos {
                } else if b == pos {
                    if a < pos - 1 {
                        assert(!ts_lt(o[pos - 1].updated_at, o[a].updated_at));
                    }
                } else if a > pos {
                    assert(q[a] == o[a - 1]);
                    assert(q[b] == o[b - 1]);
                } else if a == pos {
                    assert(q[b] == o[b - 1]);
                    assert(ts_lt(x.updated_at, o[b - 1].updated_at));
                } else {
                    assert(q[b] == o[b - 1]);
                    assert(ts_lt(x.updated_at, o[b - 1].updated_at));
                    if a < pos - 1 {
                        assert(!ts_lt(o[pos - 1].updated_at, o[a].updated_at));
                    }
                    assert(!ts_lt(x.updated_at, o[a].updated_at));
                }
            }
            assert forall|a: int, b: int|
                0 <= a < b < i + 1 && (#[trigger] q[a]).updated_at == (#[trigger] q[b]).updated_at
                    implies pp[a] < pp[b] by {
                if b < pos {
                } else if b == pos {
                } else if a > pos {
                    assert(q[a] == o[a - 1]);
                    assert(q[b] == o[b - 1]);
                    assert(pp[a] == p[a - 1]);
                    assert(pp[b] == p[b - 1]);
                } else if a == pos {
                    assert(q[b] == o[b - 1]);
                    assert(ts_lt(x.updated_at, o[b - 1].updated_at));
                } else {
                    assert(q[b] == o[b - 1]);
                    assert(ts_lt(x.updated_at, o[b - 1].updated_at));
                    if a < pos - 1 {
                        assert(!ts_lt(o[pos - 1].updated_at, o[a].updated_at));
                    }
                    assert(!ts_lt(x.updated_at, o[a].updated_at));
                }
            }
            p = pp;
        }
        i = i + 1;
    }
    proof {
        assert(stable_placement(p, out@, inp));
    }
    out
}


/// Each of `ns` with the details at the same position of `ds`.
pub open spec fn with_all_details(
    ns: Seq<Notification>,
    ds: Seq<Result<NotificationDetail, String>>,
) -> Seq<Notification> {
    Seq::new(ns.len(), |i: int| with_details(ns[i], ds[i]))
}

/// The refreshed list: the notifications that took over known details, then the pending
/// ones with the details retrieved for them, all ordered by update time (stably).
pub fn finish_refresh(
    ready: Vec<Notification>,
    pending: Vec<Notification>,
    details: Vec<Result<NotificationDetail, String>>,
) -> (r: Vec<Notification>)
    requires
        pending@.len() == details@.len(),
    ensures
        stably_sorted_by_update(r@, ready@ + with_all_details(pending@, details@)),
{
    let ghost target = ready@ + with_all_details(pending@, details@);
    let ghost pend = pending@;
    let ghost dets = details@;
    let mut all = ready;
    let mut pending = pending;
    let mut details = details;
    let ghost r0 = all@;
    let n = pending.len();
    let mut i: usize = 0;
    while i < n
        invariant
            n == pend.len(),
            n == dets.len(),
            i <= n,
            pending@ == pend.skip(i as int),
            details@ == dets.skip(i as int),
            all@ == r0 + with_all_details(pend, dets).take(i as int),
        decreases n - i,
    {
        proof {
            assert(pending@.len() == n - i);
            assert(details@.len() == n - i);
        }
        let mut m = pending.remove(0);
        let d = details.remove(0);
        m.details = d;
        all.push(m);
        proof {
            assert(pending@ =~= pend.skip(i + 1));
            assert(details@ =~= dets.skip(i + 1));
            assert(with_all_details(pend, dets).take(i + 1) =~= with_all_details(pend, dets).take(
                i as int,
            ).push(with_details(pend[i as int], dets[i as int])));
            assert(all@ =~= r0 + with_all_details(pend, dets).take(i + 1));
        }
        i = i + 1;
    }
    proof {
        assert(with_all_details(pend, dets).take(n as int) =~= with_all_details(pend, dets));
    }
    sort_by_update(all)
}


// ---------------------------------------------------------------------------
// Retrieving the details of a notification
// ---------------------------------------------------------------------------

/// The state of an issue or a pull request, as the API reports it.
pub enum IssueState {
    Open,
    Closed,
    /// A state that this client does not name.
    Other,
}

/// What the API returns of an issue.
pub struct IssueInfo {
    pub html_url: String,
    pub author: String,
    pub state: IssueState,
}

/// What the API returns of a pull request.
pub struct PullInfo {
    pub author: Option<String>,
    pub html_url: Option<String>,
    pub body: Option<String>,
    pub state: Option<IssueState>,
}

/// What the API returns of a comment.
pub struct CommentInfo {
    pub body: Option<String>,
    pub author: String,
    pub html_url: String,
}

/// The next thing to do while completing the details of a notification.
pub enum HydrateStep {
    /// Fetch issue `number` of `owner/repo`, then call `hydrate_issue_fetched`.
    FetchIssue { owner: String, repo: String, number: u64 },
    /// Fetch pull request `number` of `owner/repo`, then call `hydrate_pull_fetched`.
    FetchPull { owner: String, repo: String, number: u64 },
    /// Fetch comment `comment_id` of `owner/repo`, then call `hydrate_comment_fetched`
    /// with `detail`.
    FetchComment { owner: String, repo: String, comment_id: u64, detail: NotificationDetail },
    /// The details are complete, or could not be had.
    Done(Result<NotificationDetail, String>),
}

/// The number that ends a url (`.../issues/12` gives 12).
pub open spec fn trailing_number(url: Seq<char>) -> Option<u64> {
    parsed_u64(after_last_slash(url))
}

pub open spec fn state_text(s: IssueState) -> Seq<char> {
    match s {
        IssueState::Open => "open"@,
        IssueState::Closed => "closed"@,
        IssueState::Other => "n/a"@,
    }
}

pub open spec fn pull_state_text(s: Option<IssueState>) -> Seq<char> {
    match s {
        Some(IssueState::Open) => "open"@,
        Some(IssueState::Closed) => "closed"@,
        _ => "n/a"@,
    }
}

pub open spec fn is_issue(n: Notification) -> bool {
    n.github_type@ == "Issue"@
}

pub open spec fn is_pull(n: Notification) -> bool {
    n.github_type@ == "PullRequest"@
}

/// The details of a notification can be asked for: an issue or a pull request has its
/// number at the end of its url.
pub open spec fn hydrate_startable(n: Notification) -> bool {
    (is_issue(n) || is_pull(n)) ==> trailing_number(n.url@) is Some
}

/// The latest comment of a notification, where it has one, has its id at the end of its url.
pub open spec fn comment_addressable(n: Notification) -> bool {
    n.latest_comment_url matches Some(u) ==> trailing_number(u@) is Some
}

/// `owner` and `repo` name the repository of `n`.
pub open spec fn fetches_from_repo(owner: String, repo: String, n: Notification) -> bool {
    owner@ == n.repo.owner@ && repo@ == n.repo.name@
}

/// Where to go once `detail` is known, but for its latest comment: fetch that comment if
/// the notification names one, else finish with `detail` as it is.
pub open spec fn comment_or_done(n: Notification, detail: NotificationDetail, step: HydrateStep) -> bool {
    match n.latest_comment_url {
        Some(u) => step matches HydrateStep::FetchComment { owner, repo, comment_id, detail: d }
            && fetches_from_repo(owner, repo, n) && comment_id == trailing_number(u@)->Some_0
            && d == detail,
        None => step == HydrateStep::Done(Ok(detail)),
    }
}

pub open spec fn issue_error_message(n: Notification, number: u64, e: Seq<char>) -> Seq<char> {
    "unable to retrieve issue "@ + n.repo.owner@ + "/"@ + n.repo.name@ + "#"@ + decimal(
        number as nat,
    ) + ": "@ + e
}

pub open spec fn pull_error_message(n: Notification, number: u64, e: Seq<char>) -> Seq<char> {
    "unable to retrieve PR "@ + n.repo.owner@ + "/"@ + n.repo.name@ + "#"@ + decimal(number as nat)
        + ": "@ + e
}

/// The number at the end of `url`.
fn trailing_number_of(url: &String) -> (r: u64)
    requires
        trailing_number(url@) is Some,
    ensures
        r == trailing_number(url@)->Some_0,
{
    let last = last_segment(url.as_str());
    match parse_u64(last.as_str()) {
        Some(v) => v,
        None => 0,
    }
}

/// The first step of completing the details of `n`: an issue or a pull request is
/// fetched; any other kind of notification is done at once, with only its url known.
pub fn hydrate_start(n: &Notification) -> (step: HydrateStep)
    requires
        hydrate_startable(*n),
    ensures
        is_issue(*n) ==> (step matches HydrateStep::FetchIssue { owner, repo, number }
            && fetches_from_repo(owner, repo, *n) && number == trailing_number(n.url@)->Some_0),
        is_pull(*n) ==> (step matches HydrateStep::FetchPull { owner, repo, number }
            && fetches_from_repo(owner, repo, *n) && number == trailing_number(n.url@)->Some_0),
        !is_issue(*n) && !is_pull(*n) ==> (step matches HydrateStep::Done(Ok(d)) && d.url@
            == n.url@ && d.state@ == Seq::<char>::empty() && d.author@ == Seq::<char>::empty()
            && d.latest_comment is None),
{
    proof {
        reveal_strlit("Issue");
        reveal_strlit("PullRequest");
        assert("Issue"@.len() != "PullRequest"@.len());
    }
    if n.github_type == String::from_str("Issue") {
        let number = trailing_number_of(&n.url);
        HydrateStep::FetchIssue { owner: n.repo.owner.clone(), repo: n.repo.name.clone(), number }
    } else if n.github_type == String::from_str("PullRequest") {
        let number = trailing_number_of(&n.url);
        HydrateStep::FetchPull { owner: n.repo.owner.clone(), repo: n.repo.name.clone(), number }
    } else {
        let mut detail = NotificationDetail::default();
        detail.url = n.url.clone();
        HydrateStep::Done(Ok(detail))
    }
}

fn state_string(s: &IssueState) -> (r: String)
    ensures
        r@ == state_text(*s),
{
    match s {
        IssueState::Open => String::from_str("open"),
        IssueState::Closed => String::from_str("closed"),
        IssueState::Other => String::from_str("n/a"),
    }
}

fn comment_or_done_step(n: &Notification, detail: NotificationDetail) -> (step: HydrateStep)
    requires
        comment_addressable(*n),
    ensures
        comment_or_done(*n, detail, step),
{
    match &n.latest_comment_url {
        Some(u) => {
            let comment_id = trailing_number_of(u);
            HydrateStep::FetchComment {
                owner: n.repo.owner.clone(),
                repo: n.repo.name.clone(),
                comment_id,
                detail,
            }
        },
        None => HydrateStep::Done(Ok(detail)),
    }
}

/// The step after issue `v` of `n` was fetched: its page, author and state are recorded,
/// then the notification's latest comment is fetched if it names one.
pub open spec fn issue_step(n: Notification, v: IssueInfo, step: HydrateStep) -> bool {
    match n.latest_comment_url {
        Some(u) => step matches HydrateStep::FetchComment { owner, repo, comment_id, detail: d }
            && fetches_from_repo(owner, repo, n) && comment_id == trailing_number(u@)->Some_0
            && d.url@ == v.html_url@ && d.author@ == v.author@ && d.state@ == state_text(v.state)
            && d.latest_comment is None,
        None => step matches HydrateStep::Done(Ok(d)) && d.url@ == v.html_url@ && d.author@
            == v.author@ && d.state@ == state_text(v.state) && d.latest_comment is None,
    }
}

/// The step after issue `number` of `n` was fetched: a failure ends with its message;
/// otherwise the issue's page, author and state are recorded and its latest comment, if
/// the notification names one, is fetched next.
pub fn hydrate_issue_fetched(n: &Notification, number: u64, r: Result<IssueInfo, String>) -> (step:
    HydrateStep)
    requires
        r is Ok ==> comment_addressable(*n),
    ensures
        r matches Err(e) ==> (step matches HydrateStep::Done(Err(m)) && m@ == issue_error_message(
            *n,
            number,
            e@,
        )),
        r matches Ok(v) ==> issue_step(*n, v, step),
{
    match r {
        Err(e) => {
            let mut m = String::from_str("unable to retrieve issue ");
            m.append(n.repo.owner.as_str());
            m.append("/");
            m.append(n.repo.name.as_str());
            m.append("#");
            let num = decimal_string(number);
            m.append(num.as_str());
            m.append(": ");
            m.append(e.as_str());
            HydrateStep::Done(Err(m))
        },
        Ok(v) => {
            let detail = NotificationDetail {
                url: v.html_url,
                author: v.author,
                state: state_string(&v.state),
                latest_comment: None,
            };
            comment_or_done_step(n, detail)
        },
    }
}

/// The step after pull request `v` of `n` was fetched: its page, author and state are
/// recorded, then the notification's latest comment is fetched if it names one, and else
/// the pull request's description stands as the latest comment.
pub open spec fn pull_step(n: Notification, v: PullInfo, step: HydrateStep) -> bool {
    let author = match v.author {
        Some(a) => a@,
        None => "nologin"@,
    };
    let html = match v.html_url {
        Some(u) => u@,
        None => "no html_url found"@,
    };
    match n.latest_comment_url {
        Some(u) => step matches HydrateStep::FetchComment { owner, repo, comment_id, detail: d }
            && fetches_from_repo(owner, repo, n) && comment_id == trailing_number(u@)->Some_0
            && d.url@ == html && d.author@ == author && d.state@ == pull_state_text(v.state)
            && d.latest_comment is None,
        None => step matches HydrateStep::Done(Ok(d)) && d.url@ == html && d.author@ == author
            && d.state@ == pull_state_text(v.state) && (d.latest_comment matches Some(c)
            && c.author@ == author && c.url@ == html && c.body@ == (match v.body {
            Some(b) => b@,
            None => "No body found for "@ + html,
        })),
    }
}

/// The step after pull request `number` of `n` was fetched: a failure ends with its
/// message; otherwise the pull request's page, author and state are recorded, then its
/// latest comment is fetched if the notification names one, and else its description
/// stands as the latest comment.
pub fn hydrate_pull_fetched(n: &Notification, number: u64, r: Result<PullInfo, String>) -> (step:
    HydrateStep)
    requires
        r is Ok ==> comment_addressable(*n),
    ensures
        r matches Err(e) ==> (step matches HydrateStep::Done(Err(m)) && m@ == pull_error_message(
            *n,
            number,
            e@,
        )),
        r matches Ok(v) ==> pull_step(*n, v, step),
{
    match r {
        Err(e) => {
            let mut m = String::from_str("unable to retrieve PR ");
            m.append(n.repo.owner.as_str());
            m.append("/");
            m.append(n.repo.name.as_str());
            m.append("#");
            let num = decimal_string(number);
            m.append(num.as_str());
            m.append(": ");
            m.append(e.as_str());
            HydrateStep::Done(Err(m))
        },
        Ok(v) => {
            let author = match v.author {
                Some(a) => a,
                None => String::from_str("nologin"),
            };
            let html_url = match v.html_url {
                Some(u) => u,
                None => String::from_str("no html_url found"),
            };
            let state = match &v.state {
                Some(IssueState::Open) => String::from_str("open"),
                Some(IssueState::Closed) => String::from_str("closed"),
                _ => String::from_str("n/a"),
            };
            match &n.latest_comment_url {
                Some(_) => {
                    let detail = NotificationDetail {
                        url: html_url,
                        author,
                        state,
                        latest_comment: None,
                    };
                    comment_or_done_step(n, detail)
                },
                None => {
                    let body = match v.body {
                        Some(b) => b,
                        None => {
                            let mut b = String::from_str("No body found for ");
                            b.append(html_url.as_str());
                            b
                        },
                    };
                    let comment = Comment { author: author.clone(), body, url: html_url.clone() };
                    let detail = NotificationDetail {
                        url: html_url,
                        author,
                        state,
                        latest_comment: Some(comment),
                    };
                    HydrateStep::Done(Ok(detail))
                },
            }
        },
    }
}

/// The latest comment of `n` as fetched from the API (`r`); a failed fetch leaves only a
/// body that says so.
pub open spec fn comment_from_fetch(n: Notification, r: Result<CommentInfo, String>, c: Comment) -> bool {
    match r {
        Err(e) => c.body@ == "failed to retrieve comment from "@ + n.latest_comment_url->Some_0@
            + "\n"@ + e@ && c.author@ == Seq::<char>::empty() && c.url@ == Seq::<char>::empty(),
        Ok(v) => c.body@ == (match v.body {
            Some(b) => b@,
            None => "no body information"@,
        }) && c.author@ == v.author@ && c.url@ == v.html_url@,
    }
}

/// The last step: the latest comment of `n` was fetched (`r`) and completes `detail`.
pub fn hydrate_comment_fetched(
    n: &Notification,
    detail: NotificationDetail,
    r: Result<CommentInfo, String>,
) -> (result: Result<NotificationDetail, String>)
    requires
        n.latest_comment_url is Some,
    ensures
        result matches Ok(d) && d.url == detail.url && d.author == detail.author && d.state
            == detail.state && (d.latest_comment matches Some(c) && comment_from_fetch(*n, r, c)),
{
    let mut c = Comment::default();
    match r {
        Err(e) => {
            let mut body = String::from_str("failed to retrieve comment from ");
            match &n.latest_comment_url {
                Some(u) => body.append(u.as_str()),
                None => {},
            }
            body.append("\n");
            body.append(e.as_str());
            c.body = body;
        },
        Ok(v) => {
            c.body = match v.body {
                Some(b) => b,
                None => String::from_str("no body information"),
            };
            c.author = v.author;
            c.url = v.html_url;
        },
    }
    let mut d = detail;
    d.latest_comment = Some(c);
    Ok(d)
}


// ---------------------------------------------------------------------------
// Pushing local status changes to GitHub
// ---------------------------------------------------------------------------

/// What syncing one notification asks of GitHub.
pub enum ThreadUpdate {
    /// Nothing: the notification is unread.
    Skip,
    /// Mark thread `id` as read.
    MarkRead { id: u64 },
    /// Mark thread `id` as done, by deleting the thread at `url`.
    MarkDone { id: u64, url: String },
}

/// The API url through which thread `id` is marked as done.
pub open spec fn thread_url(id: u64) -> Seq<char> {
    "https://api.github.com/notifications/threads/"@ + decimal(id as nat)
}

/// What syncing `n` asks of GitHub: a read notification is marked as read, a done one
/// as done, an unread one asks nothing.
pub fn thread_update(n: &Notification) -> (u: ThreadUpdate)
    ensures
        n.status == Status::Unread ==> u == ThreadUpdate::Skip,
        n.status == Status::Read ==> u == (ThreadUpdate::MarkRead { id: n.id }),
        n.status == Status::Done ==> (u matches ThreadUpdate::MarkDone { id, url } && id == n.id
            && url@ == thread_url(n.id)),
{
    match n.status {
        Status::Unread => ThreadUpdate::Skip,
        Status::Read => ThreadUpdate::MarkRead { id: n.id },
        Status::Done => {
            let mut url = String::from_str("https://api.github.com/notifications/threads/");
            let id = decimal_string(n.id);
            url.append(id.as_str());
            ThreadUpdate::MarkDone { id: n.id, url }
        },
    }
}

/// The result of syncing `n`, given what GitHub answered (`r`) to its update.
pub open spec fn thread_outcome(n: Notification, r: Result<(), String>) -> Result<(), Seq<char>> {
    match (n.status, r) {
        (Status::Read, Err(e)) => Err("Failed to mark thread '"@ + n.url@ + ", as read: "@ + e@),
        (Status::Done, Err(e)) => Err("Failed to mark thread '"@ + n.url@ + ", as done: "@ + e@),
        _ => Ok(()),
    }
}

/// The result of syncing `n`: GitHub's refusal (`r`) of a read or done mark becomes a
/// message naming the notification; an unread notification never fails.
pub fn thread_update_outcome(n: &Notification, r: Result<(), String>) -> (o: Result<(), String>)
    ensures
        match thread_outcome(*n, r) {
            Ok(()) => o is Ok,
            Err(m) => o matches Err(e) && e@ == m,
        },
{
    match (n.status, r) {
        (Status::Read, Err(e)) => {
            let mut m = String::from_str("Failed to mark thread '");
            m.append(n.url.as_str());
            m.append(", as read: ");
            m.append(e.as_str());
            Err(m)
        },
        (Status::Done, Err(e)) => {
            let mut m = String::from_str("Failed to mark thread '");
            m.append(n.url.as_str());
            m.append(", as done: ");
            m.append(e.as_str());
            Err(m)
        },
        _ => Ok(()),
    }
}

/// The last failure among `rs`.
pub open spec fn last_error(rs: Seq<Result<(), String>>) -> Option<String>
    decreases rs.len(),
{
    if rs.len() == 0 {
        None
    } else {
        match rs.last() {
            Err(e) => Some(e),
            Ok(_) => last_error(rs.drop_last()),
        }
    }
}

/// The result of syncing all notifications, from the result of each: success when all
/// succeeded, else the last failure.
pub fn combine_update_results(rs: &Vec<Result<(), String>>) -> (r: Result<(), String>)
    ensures
        match last_error(rs@) {
            None => r is Ok,
            Some(e) => r matches Err(m) && m@ == "unable to update thread: "@ + e@,
        },
{
    let mut ret: Result<(), String> = Ok(());
    let mut i: usize = 0;
    while i < rs.len()
        invariant
            i <= rs@.len(),
            match last_error(rs@.take(i as int)) {
                None => ret is Ok,
                Some(e) => ret matches Err(m) && m@ == "unable to update thread: "@ + e@,
            },
        decreases rs@.len() - i,
    {
        proof {
            assert(rs@.take(i + 1).drop_last() =~= rs@.take(i as int));
        }
        match &rs[i] {
            Err(e) => {
                let mut m = String::from_str("unable to update thread: ");
                m.append(e.as_str());
                ret = Err(m);
            },
            Ok(_) => {},
        }
        i = i + 1;
    }
    proof {
        assert(rs@.take(rs@.len() as int) =~= rs@);
    }
    ret
}


// ---------------------------------------------------------------------------
// Laws
// ---------------------------------------------------------------------------

/// A sync succeeds exactly when every notification's update succeeded.
pub proof fn law_sync_fails_iff_an_update_failed(rs: Seq<Result<(), String>>)
    ensures
        (last_error(rs) is None) <==> (forall|i: int| 0 <= i < rs.len() ==> #[trigger] rs[i] is Ok),
    decreases rs.len(),
{
    if rs.len() > 0 {
        law_sync_fails_iff_an_update_failed(rs.drop_last());
        if last_error(rs) is None {
            assert forall|i: int| 0 <= i < rs.len() implies #[trigger] rs[i] is Ok by {
                if i < rs.len() - 1 {
                    assert(rs.drop_last()[i] == rs[i]);
                }
            }
        } else {
            if rs.last() is Ok {
                let i = choose|i: int| 0 <= i < rs.drop_last().len() && !(#[trigger] rs.drop_last()[i] is Ok);
                assert(rs[i] == rs.drop_last()[i]);
            }
        }
    }
}

/// Positions in `fresh` of the notifications that take over known details.
pub open spec fn reused_positions(known: Seq<Notification>, fresh: Seq<Notification>) -> Seq<int>
    decreases fresh.len(),
{
    if fresh.len() == 0 {
        Seq::empty()
    } else {
        let rest = reused_positions(known, fresh.drop_last());
        if reused_from(known, fresh.last()) is Some {
            rest.push(fresh.len() - 1)
        } else {
            rest
        }
    }
}

/// Positions in `fresh` of the notifications whose details must be retrieved.
pub open spec fn pending_positions(known: Seq<Notification>, fresh: Seq<Notification>) -> Seq<int>
    decreases fresh.len(),
{
    if fresh.len() == 0 {
        Seq::empty()
    } else {
        let rest = pending_positions(known, fresh.drop_last());
        if reused_from(known, fresh.last()) is Some {
            rest
        } else {
            rest.push(fresh.len() - 1)
        }
    }
}

/// `q` places each element of `out` at a position of a list `n` long, one to one.
pub open spec fn one_to_one(q: Seq<int>, n: int) -> bool {
    &&& q.len() == n
    &&& forall|k: int| 0 <= k < q.len() ==> 0 <= #[trigger] q[k] < n
    &&& forall|a: int, b: int| 0 <= a < b < q.len() ==> #[trigger] q[a] != #[trigger] q[b]
}

proof fn lemma_split_positions(known: Seq<Notification>, fresh: Seq<Notification>)
    ensures
        ({
            let rp = reused_positions(known, fresh);
            let pp = pending_positions(known, fresh);
            let rd = reused_part(known, fresh);
            let pd = pending_part(known, fresh);
            &&& rp.len() == rd.len()
            &&& pp.len() == pd.len()
            &&& rp.len() + pp.len() == fresh.len()
            &&& forall|i: int| 0 <= i < rp.len() ==> 0 <= #[trigger] rp[i] < fresh.len()
            &&& forall|i: int| 0 <= i < pp.len() ==> 0 <= #[trigger] pp[i] < fresh.len()
            &&& forall|a: int, b: int| 0 <= a < b < rp.len() ==> #[trigger] rp[a] < #[trigger] rp[b]
            &&& forall|a: int, b: int| 0 <= a < b < pp.len() ==> #[trigger] pp[a] < #[trigger] pp[b]
            &&& forall|a: int, b: int|
                0 <= a < rp.len() && 0 <= b < pp.len() ==> #[trigger] rp[a] != #[trigger] pp[b]
            &&& forall|i: int|
                0 <= i < rd.len() ==> #[trigger] rd[i] == with_details(fresh[rp[i]], rd[i].details)
            &&& forall|i: int| 0 <= i < pd.len() ==> #[trigger] pd[i] == fresh[pp[i]]
        }),
    decreases fresh.len(),
{
    if fresh.len() > 0 {
        let f = fresh.drop_last();
        lemma_split_positions(known, f);
        assert forall|i: int| 0 <= i < f.len() implies #[trigger] f[i] == fresh[i] by {}
    }
}

/// A refresh loses no listed notification and makes up none: the refreshed list is the
/// fresh listing in another order, each notification with its details filled in.
pub proof fn law_refresh_keeps_listing(
    known: Seq<Notification>,
    fresh: Seq<Notification>,
    details: Seq<Result<NotificationDetail, String>>,
    out: Seq<Notification>,
)
    requires
        pending_part(known, fresh).len() == details.len(),
        stably_sorted_by_update(
            out,
            reused_part(known, fresh) + with_all_details(pending_part(known, fresh), details),
        ),
    ensures
        out.len() == fresh.len(),
        exists|q: Seq<int>|
            one_to_one(q, fresh.len() as int) && forall|k: int|
                0 <= k < out.len() ==> #[trigger] out[k] == with_details(fresh[q[k]], out[k].details),
{
    let rp = reused_positions(known, fresh);
    let pp = pending_positions(known, fresh);
    let rd = reused_part(known, fresh);
    let pd = pending_part(known, fresh);
    let inp = rd + with_all_details(pd, details);
    lemma_split_positions(known, fresh);
    let c = rp + pp;
    let p = choose|p: Seq<int>| stable_placement(p, out, inp);
    let q = Seq::new(out.len(), |k: int| c[p[k]]);
    assert forall|k: int| 0 <= k < out.len() implies 0 <= #[trigger] q[k] < fresh.len() && out[k]
        == with_details(fresh[q[k]], out[k].details) by {
        let j = p[k];
        if j < rd.len() {
            assert(inp[j] == rd[j]);
        } else {
            assert(inp[j] == with_details(pd[j - rd.len()], details[j - rd.len()]));
            assert(c[j] == pp[j - rd.len()]);
        }
    }
    assert forall|a: int, b: int| 0 <= a < b < q.len() implies #[trigger] q[a] != #[trigger] q[b] by {
        let ja = p[a];
        let jb = p[b];
        assert(ja != jb);
        if ja < rp.len() && jb < rp.len() {
            if ja < jb {
                assert(rp[ja] < rp[jb]);
            } else {
                assert(rp[jb] < rp[ja]);
            }
        } else if ja >= rp.len() && jb >= rp.len() {
            if ja < jb {
                assert(pp[ja - rp.len()] < pp[jb - rp.len()]);
            } else {
                assert(pp[jb - rp.len()] < pp[ja - rp.len()]);
            }
        } else if ja < rp.len() {
            assert(rp[ja] != pp[jb - rp.len()]);
        } else {
            assert(rp[jb] != pp[ja - rp.len()]);
        }
    }
    assert(one_to_one(q, fresh.len() as int));
}


/// Statuses held in the known list do not carry over a refresh: where every listed
/// notification is unread (as `Notification::from_thread` makes them), so is every
/// refreshed one.
pub proof fn law_refreshed_notifications_are_unread(
    known: Seq<Notification>,
    fresh: Seq<Notification>,
    details: Seq<Result<NotificationDetail, String>>,
    out: Seq<Notification>,
)
    requires
        forall|i: int| 0 <= i < fresh.len() ==> (#[trigger] fresh[i]).status == Status::Unread,
        pending_part(known, fresh).len() == details.len(),
        stably_sorted_by_update(
            out,
            reused_part(known, fresh) + with_all_details(pending_part(known, fresh), details),
        ),
    ensures
        forall|k: int| 0 <= k < out.len() ==> (#[trigger] out[k]).status == Status::Unread,
{
    law_refresh_keeps_listing(known, fresh, details, out);
    let q = choose|q: Seq<int>|
        one_to_one(q, fresh.len() as int) && forall|k: int|
            0 <= k < out.len() ==> #[trigger] out[k] == with_details(fresh[q[k]], out[k].details);
    assert forall|k: int| 0 <= k < out.len() implies (#[trigger] out[k]).status == Status::Unread by {
        assert(out[k] == with_details(fresh[q[k]], out[k].details));
        assert(fresh[q[k]].status == Status::Unread);
    }
}

/// Syncing only unread notifications asks nothing of GitHub and succeeds: each asks
/// nothing, each outcome is a success whatever came back, and so is the whole.
pub proof fn law_unread_sync_succeeds(
    ns: Seq<Notification>,
    answers: Seq<Result<(), String>>,
    rs: Seq<Result<(), String>>,
)
    requires
        forall|i: int| 0 <= i < ns.len() ==> (#[trigger] ns[i]).status == Status::Unread,
        rs.len() == ns.len(),
        answers.len() == ns.len(),
        forall|i: int|
            0 <= i < rs.len() ==> (thread_outcome(ns[i], answers[i]) is Ok ==> (#[trigger] rs[i]) is Ok),
    ensures
        forall|i: int| 0 <= i < ns.len() ==> thread_outcome(#[trigger] ns[i], answers[i]) is Ok,
        last_error(rs) is None,
{
    assert forall|i: int| 0 <= i < rs.len() implies #[trigger] rs[i] is Ok by {
        assert(ns[i].status == Status::Unread);
    }
    law_sync_fails_iff_an_update_failed(rs);
}


/// A refresh of the listing `threads`, recorded by `notifications_from_threads`, keeps
/// each thread once: the refreshed list is as long as the listing, every notification in
/// it is unread, and each is the record of its own thread in every field but its details.
pub proof fn law_refresh_of_threads(
    threads: Seq<ThreadSummary>,
    known: Seq<Notification>,
    fresh: Seq<Notification>,
    details: Seq<Result<NotificationDetail, String>>,
    out: Seq<Notification>,
)
    requires
        fresh.len() == threads.len(),
        forall|i: int| 0 <= i < fresh.len() ==> notification_from_thread(threads[i], #[trigger] fresh[i]),
        pending_part(known, fresh).len() == details.len(),
        stably_sorted_by_update(
            out,
            reused_part(known, fresh) + with_all_details(pending_part(known, fresh), details),
        ),
    ensures
        out.len() == threads.len(),
        sorted_by_update(out),
        forall|k: int| 0 <= k < out.len() ==> (#[trigger] out[k]).status == Status::Unread,
        exists|q: Seq<int>|
            one_to_one(q, threads.len() as int) && forall|k: int|
                0 <= k < out.len() ==> #[trigger] out[k] == with_details(fresh[q[k]], out[k].details)
                    && notification_from_thread(threads[q[k]], fresh[q[k]]),
{
    law_refresh_keeps_listing(known, fresh, details, out);
    law_refreshed_notifications_are_unread(known, fresh, details, out);
    let q = choose|q: Seq<int>|
        one_to_one(q, fresh.len() as int) && forall|k: int|
            0 <= k < out.len() ==> #[trigger] out[k] == with_details(fresh[q[k]], out[k].details);
    assert forall|k: int| 0 <= k < out.len() implies #[trigger] out[k] == with_details(
        fresh[q[k]],
        out[k].details,
    ) && notification_from_thread(threads[q[k]], fresh[q[k]]) by {
        assert(out[k] == with_details(fresh[q[k]], out[k].details));
        assert(0 <= q[k] < fresh.len());
    }
}


/// A reused notification takes over the known details exactly as they are: every entry of
/// the ready part is a fresh notification, reused from the last known one with its id
/// that was not updated before it, carrying that known notification's details unchanged;
/// and every fresh notification that can be reused is in the ready part.
pub proof fn law_reuse_takes_known_details(known: Seq<Notification>, fresh: Seq<Notification>)
    ensures
        reused_positions(known, fresh).len() == reused_part(known, fresh).len(),
        forall|k: int|
            0 <= k < reused_part(known, fresh).len() ==> {
                let i = #[trigger] reused_positions(known, fresh)[k];
                &&& 0 <= i < fresh.len()
                &&& last_index_of(known, fresh[i].id) matches Some(j) && !ts_lt(
                    known[j].updated_at,
                    fresh[i].updated_at,
                ) && reused_part(known, fresh)[k].details == known[j].details
                &&& reused_part(known, fresh)[k].id == fresh[i].id
                &&& reused_part(known, fresh)[k].title == fresh[i].title
                &&& reused_part(known, fresh)[k].updated_at == fresh[i].updated_at
                &&& reused_part(known, fresh)[k].status == fresh[i].status
            },
        forall|i: int|
            #![trigger fresh[i]]
            0 <= i < fresh.len() && (last_index_of(known, fresh[i].id) matches Some(j) && !ts_lt(
                known[j].updated_at,
                fresh[i].updated_at,
            )) ==> exists|k: int|
                0 <= k < reused_positions(known, fresh).len() && #[trigger] reused_positions(
                    known,
                    fresh,
                )[k] == i,
    decreases fresh.len(),
{
    if fresh.len() > 0 {
        let f = fresh.drop_last();
        law_reuse_takes_known_details(known, f);
        assert forall|i: int| 0 <= i < f.len() implies #[trigger] f[i] == fresh[i] by {}
        let rp = reused_positions(known, fresh);
        let rpf = reused_positions(known, f);
        assert forall|i: int|
            #![trigger fresh[i]]
            0 <= i < fresh.len() && (last_index_of(known, fresh[i].id) matches Some(j) && !ts_lt(
                known[j].updated_at,
                fresh[i].updated_at,
            )) implies exists|k: int| 0 <= k < rp.len() && #[trigger] rp[k] == i by {
            if i == fresh.len() - 1 {
                assert(rp[rp.len() - 1] == i);
            } else {
                assert(f[i] == fresh[i]);
                let k = choose|k: int| 0 <= k < rpf.len() && #[trigger] rpf[k] == i;
                assert(rp[k] == i);
            }
        }
    }
}

/// Where a fetched issue completes the details, the recorded state says what the API
/// reported: `open` for an open issue, `closed` for a closed one, `n/a` otherwise; so an
/// open and a closed issue never record the same state.
pub proof fn law_issue_state_recorded(n: Notification, v: IssueInfo, step: HydrateStep)
    requires
        issue_step(n, v, step),
    ensures
        step_detail(step) is Some,
        v.state is Open ==> step_detail(step)->Some_0.state@ == seq!['o', 'p', 'e', 'n'],
        v.state is Closed ==> step_detail(step)->Some_0.state@ == seq!['c', 'l', 'o', 's', 'e', 'd'],
        v.state is Other ==> step_detail(step)->Some_0.state@ == seq!['n', '/', 'a'],
        step_detail(step)->Some_0.author@ == v.author@,
        step_detail(step)->Some_0.url@ == v.html_url@,
{
    reveal_strlit("open");
    reveal_strlit("closed");
    reveal_strlit("n/a");
}

/// Where a fetched pull request completes the details, the recorded state says what the
/// API reported: `open`, `closed`, or `n/a` where it reported no state or another one.
pub proof fn law_pull_state_recorded(n: Notification, v: PullInfo, step: HydrateStep)
    requires
        pull_step(n, v, step),
    ensures
        step_detail(step) is Some,
        v.state matches Some(IssueState::Open) ==> step_detail(step)->Some_0.state@ == seq![
            'o',
            'p',
            'e',
            'n',
        ],
        v.state matches Some(IssueState::Closed) ==> step_detail(step)->Some_0.state@ == seq![
            'c',
            'l',
            'o',
            's',
            'e',
            'd',
        ],
        !(v.state matches Some(IssueState::Open)) && !(v.state matches Some(IssueState::Closed))
            ==> step_detail(step)->Some_0.state@ == seq!['n', '/', 'a'],
{
    reveal_strlit("open");
    reveal_strlit("closed");
    reveal_strlit("n/a");
}

/// The details a step carries: those it finished with, or those waiting for the latest
/// comment.
pub open spec fn step_detail(step: HydrateStep) -> Option<NotificationDetail> {
    match step {
        HydrateStep::Done(Ok(d)) => Some(d),
        HydrateStep::FetchComment { detail, .. } => Some(detail),
        _ => None,
    }
}

/// A thread's kind and reason go to the recorded notification's kind and reason, never
/// the one for the other: its kind decides whether an issue or a pull request is fetched,
/// and it keeps its id, title, time and repository name.
pub proof fn law_thread_kind_and_reason_kept(t: ThreadSummary, n: Notification)
    requires
        notification_from_thread(t, n),
    ensures
        n.github_type@ == t.github_type@,
        n.reason@ == t.reason@,
        is_issue(n) <==> t.github_type@ == "Issue"@,
        is_pull(n) <==> t.github_type@ == "PullRequest"@,
        n.id == t.id,
        n.title@ == t.title@,
        n.updated_at == t.updated_at,
        n.repo.name@ == t.repo_name@,
        n.status == Status::Unread,
{
}

} // verus!
