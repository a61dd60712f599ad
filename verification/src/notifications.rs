//! The notification records that the client keeps, shows and syncs.
use vstd::prelude::*;

verus! {

/// What the user has done with a notification.
#[derive(Debug, Clone, Copy, PartialEq, Eq, Structural, PartialOrd, Ord, Hash)]
pub enum Status {
    Unread,
    Read,
    Done,
}

/// A point in time, UTC: whole seconds since the Unix epoch and the nanoseconds past them.
#[derive(Debug, Clone, Copy, PartialEq, Eq, Structural)]
pub struct Timestamp {
    pub secs: i64,
    pub nanos: u32,
}

/// `a` is strictly earlier than `b`.
pub open spec fn ts_lt(a: Timestamp, b: Timestamp) -> bool {
    a.secs < b.secs || (a.secs == b.secs && a.nanos < b.nanos)
}

impl Timestamp {
    /// Is `self` strictly earlier than `other`?
    pub fn is_before(&self, other: &Timestamp) -> (r: bool)
        ensures
            r == ts_lt(*self, *other),
    {
        self.secs < other.secs || (self.secs == other.secs && self.nanos < other.nanos)
    }
}

/// The repository a notification belongs to.
#[derive(Clone, Debug)]
pub struct Repo {
    pub owner: String,
    pub name: String,
    /// "name with owner", as `owner/name`.
    pub nwo: String,
}

/// A comment on an issue or a pull request.
#[derive(Clone, Debug)]
pub struct Comment {
    pub body: String,
    pub author: String,
    pub url: String,
}

/// What is known of the issue or pull request behind a notification.
#[derive(Clone, Debug)]
pub struct NotificationDetail {
    pub state: String,
    pub latest_comment: Option<Comment>,
    pub url: String,
    pub author: String,
}

/// One notification thread.
#[derive(Debug)]
pub struct Notification {
    pub id: u64,
    pub title: String,
    pub repo: Repo,
    pub url: String,
    pub latest_comment_url: Option<String>,
    pub github_type: String,
    pub reason: String,
    pub status: Status,
    pub updated_at: Timestamp,
    pub details: Result<NotificationDetail, String>,
}

impl Default for Comment {
    fn default() -> (r: Comment)
        ensures
            r.body@ == Seq::<char>::empty(),
            r.author@ == Seq::<char>::empty(),
            r.url@ == Seq::<char>::empty(),
    {
        Comment { body: String::new(), author: String::new(), url: String::new() }
    }
}

impl Default for NotificationDetail {
    fn default() -> (r: NotificationDetail)
        ensures
            r.state@ == Seq::<char>::empty(),
            r.latest_comment is None,
            r.url@ == Seq::<char>::empty(),
            r.author@ == Seq::<char>::empty(),
    {
        NotificationDetail {
            state: String::new(),
            latest_comment: None,
            url: String::new(),
            author: String::new(),
        }
    }
}

impl Comment {
    /// A copy of `self`.
    pub fn duplicate(&self) -> (r: Comment)
        ensures
            r == *self,
    {
        Comment { body: self.body.clone(), author: self.author.clone(), url: self.url.clone() }
    }
}

impl NotificationDetail {
    /// A copy of `self`.
    pub fn duplicate(&self) -> (r: NotificationDetail)
        ensures
            r == *self,
    {
        let latest_comment = match &self.latest_comment {
            Some(c) => Some(c.duplicate()),
            None => None,
        };
        NotificationDetail {
            state: self.state.clone(),
            latest_comment,
            url: self.url.clone(),
            author: self.author.clone(),
        }
    }
}

impl Repo {
    /// A copy of `self`.
    pub fn duplicate(&self) -> (r: Repo)
        ensures
            r == *self,
    {
        Repo { owner: self.owner.clone(), name: self.name.clone(), nwo: self.nwo.clone() }
    }
}

impl Notification {
    /// A copy of `self`.
    pub fn duplicate(&self) -> (r: Notification)
        ensures
            r == *self,
    {
        let latest_comment_url = match &self.latest_comment_url {
            Some(u) => Some(u.clone()),
            None => None,
        };
        let details = match &self.details {
            Ok(d) => Ok(d.duplicate()),
            Err(e) => Err(e.clone()),
        };
        Notification {
            id: self.id,
            title: self.title.clone(),
            repo: self.repo.duplicate(),
            url: self.url.clone(),
            latest_comment_url,
            github_type: self.github_type.clone(),
            reason: self.reason.clone(),
            status: self.status,
            updated_at: self.updated_at,
            details,
        }
    }
}

impl Clone for Notification {
    fn clone(&self) -> (r: Notification)
        ensures
            r == *self,
    {
        self.duplicate()
    }
}

} // verus!
