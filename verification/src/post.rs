//! A blog post whose moderation stage lives in its type.
//!
//! `Post<New>` can only be published, `Post<Unmoderated>` can be allowed or
//! denied, `Post<Published>` can be deleted and `Post<Deleted>` is final.
//! Every transition keeps the content and the creation time and stamps the
//! update time.

use std::marker::PhantomData;
use vstd::prelude::*;

verus! {

/// Marker: a freshly written post.
pub struct New;

/// Marker: a post waiting for moderation.
pub struct Unmoderated;

/// Marker: a post that moderation let through.
pub struct Published;

/// Marker: a post that was denied or deleted.
pub struct Deleted;

#[derive(Debug, PartialEq, Eq)]
pub struct Title(pub String);

impl Clone for Title {
    fn clone(&self) -> (r: Self)
        ensures
            r == *self,
    {
        Title(self.0.clone())
    }
}

#[derive(Debug, PartialEq, Eq)]
pub struct Body(pub String);

impl Clone for Body {
    fn clone(&self) -> (r: Self)
        ensures
            r == *self,
    {
        Body(self.0.clone())
    }
}

#[derive(Debug, PartialEq, Eq)]
pub struct Author(pub String);

impl Clone for Author {
    fn clone(&self) -> (r: Self)
        ensures
            r == *self,
    {
        Author(self.0.clone())
    }
}

/// Milliseconds since the Unix epoch, UTC.
#[derive(Debug, Clone, Copy, PartialEq, Eq, Structural)]
pub struct UtcMillis(pub i64);

/// The stages of the moderation lifecycle.
pub enum Stage {
    New,
    Unmoderated,
    Published,
    Deleted,
}

/// The transitions of the moderation lifecycle.
pub enum Action {
    Publish,
    Allow,
    Deny,
    Delete,
}

/// The stage that a marker type stands for.
pub trait PostState {
    spec fn stage() -> Stage;
}

impl PostState for New {
    open spec fn stage() -> Stage {
        Stage::New
    }
}

impl PostState for Unmoderated {
    open spec fn stage() -> Stage {
        Stage::Unmoderated
    }
}

impl PostState for Published {
    open spec fn stage() -> Stage {
        Stage::Published
    }
}

impl PostState for Deleted {
    open spec fn stage() -> Stage {
        Stage::Deleted
    }
}

/// What a post is, mathematically.
pub struct PostView {
    pub title: Seq<char>,
    pub body: Seq<char>,
    pub author: Seq<char>,
    pub created_at: int,
    pub updated_at: int,
    pub stage: Stage,
}

#[derive(Debug)]
pub struct Post<State> {
    pub title: Title,
    pub body: Body,
    pub author: Author,
    pub created_at: UtcMillis,
    pub updated_at: UtcMillis,
    _state: PhantomData<State>,
}

impl<S: PostState> View for Post<S> {
    type V = PostView;

    closed spec fn view(&self) -> PostView {
        PostView {
            title: self.title.0@,
            body: self.body.0@,
            author: self.author.0@,
            created_at: self.created_at.0 as int,
            updated_at: self.updated_at.0 as int,
            stage: S::stage(),
        }
    }
}

impl<S: PostState> Post<S> {
    /// The title; its text is the view's.
    pub fn title(&self) -> (r: &Title)
        ensures
            r.0@ == self@.title,
    {
        &self.title
    }

    /// The body; its text is the view's.
    pub fn body(&self) -> (r: &Body)
        ensures
            r.0@ == self@.body,
    {
        &self.body
    }

    /// The author; its text is the view's.
    pub fn author(&self) -> (r: &Author)
        ensures
            r.0@ == self@.author,
    {
        &self.author
    }

    /// When the post was made.
    pub fn created_at(&self) -> (r: UtcMillis)
        ensures
            r.0 == self@.created_at,
    {
        self.created_at
    }

    /// When the post last changed stage.
    pub fn updated_at(&self) -> (r: UtcMillis)
        ensures
            r.0 == self@.updated_at,
    {
        self.updated_at
    }
}

impl<S> Clone for Post<S> {
    fn clone(&self) -> (r: Self)
        ensures
            r == *self,
    {
        Post {
            title: self.title.clone(),
            body: self.body.clone(),
            author: self.author.clone(),
            created_at: self.created_at,
            updated_at: self.updated_at,
            _state: PhantomData,
        }
    }
}

/// The stage that `action` leads to from `from`, if the lifecycle allows it.
pub open spec fn next_stage(from: Stage, action: Action) -> Option<Stage> {
    match from {
        Stage::New => match action {
            Action::Publish => Some(Stage::Unmoderated),
            _ => None,
        },
        Stage::Unmoderated => match action {
            Action::Allow => Some(Stage::Published),
            Action::Deny => Some(Stage::Deleted),
            _ => None,
        },
        Stage::Published => match action {
            Action::Delete => Some(Stage::Deleted),
            _ => None,
        },
        Stage::Deleted => None,
    }
}

/// One transition at time `when`: the stage moves on, the update time is
/// stamped, everything else stays. `None` where the lifecycle has no such
/// transition.
pub open spec fn step(p: PostView, action: Action, when: int) -> Option<PostView> {
    match next_stage(p.stage, action) {
        Some(s) => Some(
            PostView {
                title: p.title,
                body: p.body,
                author: p.author,
                created_at: p.created_at,
                updated_at: when,
                stage: s,
            },
        ),
        None => None,
    }
}

/// A run of timed transitions, applied in order; `None` as soon as one of
/// them is not allowed.
pub open spec fn run(p: PostView, actions: Seq<(Action, int)>) -> Option<PostView>
    decreases actions.len(),
{
    if actions.len() == 0 {
        Some(p)
    } else {
        match run(p, actions.drop_last()) {
            Some(q) => step(q, actions.last().0, actions.last().1),
            None => None,
        }
    }
}

/// How far along the lifecycle a stage is.
pub open spec fn rank(s: Stage) -> nat {
    match s {
        Stage::New => 0,
        Stage::Unmoderated => 1,
        Stage::Published => 2,
        Stage::Deleted => 3,
    }
}

/// A freshly created post at time `now`.
pub open spec fn fresh(title: Seq<char>, body: Seq<char>, author: Seq<char>, now: int) -> PostView {
    PostView { title, body, author, created_at: now, updated_at: now, stage: Stage::New }
}

/// A deleted post has no way out: no action applies to it.
pub proof fn law_deleted_is_final(p: PostView, action: Action, when: int)
    requires
        p.stage == Stage::Deleted,
    ensures
        step(p, action, when) is None,
{
}

/// Every transition keeps title, body, author and creation time, stamps the
/// update time with the moment of the transition, and moves the post to a
/// later stage of the lifecycle.
pub proof fn law_step_keeps_content(p: PostView, action: Action, when: int)
    ensures
        match step(p, action, when) {
            Some(q) => {
                &&& q.title == p.title
                &&& q.body == p.body
                &&& q.author == p.author
                &&& q.created_at == p.created_at
                &&& q.updated_at == when
                &&& rank(q.stage) > rank(p.stage)
            },
            None => true,
        },
{
    lemma_next_stage_rank(p.stage, action);
}

proof fn lemma_next_stage_rank(from: Stage, action: Action)
    ensures
        match next_stage(from, action) {
            Some(s) => rank(s) > rank(from),
            None => true,
        },
{
}

/// Along any run of transitions the content and the creation time never
/// change, the update time is that of the last transition, and each
/// transition moves the post at least one stage on; so a run is never longer
/// than the stages that are left, and a new post sees at most three
/// transitions.
pub proof fn law_run_keeps_content(p: PostView, actions: Seq<(Action, int)>)
    ensures
        match run(p, actions) {
            Some(q) => {
                &&& q.title == p.title
                &&& q.body == p.body
                &&& q.author == p.author
                &&& q.created_at == p.created_at
                &&& actions.len() == 0 ==> q.updated_at == p.updated_at
                &&& actions.len() > 0 ==> q.updated_at == actions.last().1
                &&& rank(q.stage) >= rank(p.stage) + actions.len()
                &&& actions.len() + rank(p.stage) <= 3
            },
            None => true,
        },
    decreases actions.len(),
{
    if actions.len() > 0 {
        law_run_keeps_content(p, actions.drop_last());
        match run(p, actions.drop_last()) {
            Some(q) => {
                law_step_keeps_content(q, actions.last().0, actions.last().1);
            },
            None => {},
        }
    }
}

impl Post<New> {
    pub fn new(title: Title, body: Body, author: Author, now: UtcMillis) -> (p: Self)
        ensures
            p@ == fresh(title.0@, body.0@, author.0@, now.0 as int),
    {
        Post { title, body, author, created_at: now, updated_at: now, _state: PhantomData }
    }

    pub fn publish(self, when: UtcMillis) -> (p: Post<Unmoderated>)
        ensures
            step(self@, Action::Publish, when.0 as int) == Some(p@),
    {
        Post {
            title: self.title,
            body: self.body,
            author: self.author,
            created_at: self.created_at,
            updated_at: when,
            _state: PhantomData,
        }
    }
}

impl Post<Unmoderated> {
    pub fn allow(self, when: UtcMillis) -> (p: Post<Published>)
        ensures
            step(self@, Action::Allow, when.0 as int) == Some(p@),
    {
        Post {
            title: self.title,
            body: self.body,
            author: self.author,
            created_at: self.created_at,
            updated_at: when,
            _state: PhantomData,
        }
    }

    pub fn deny(self, when: UtcMillis) -> (p: Post<Deleted>)
        ensures
            step(self@, Action::Deny, when.0 as int) == Some(p@),
    {
        Post {
            title: self.title,
            body: self.body,
            author: self.author,
            created_at: self.created_at,
            updated_at: when,
            _state: PhantomData,
        }
    }
}

impl Post<Published> {
    pub fn delete(self, when: UtcMillis) -> (p: Post<Deleted>)
        ensures
            step(self@, Action::Delete, when.0 as int) == Some(p@),
    {
        Post {
            title: self.title,
            body: self.body,
            author: self.author,
            created_at: self.created_at,
            updated_at: when,
            _state: PhantomData,
        }
    }
}

} // verus!
