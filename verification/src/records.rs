//! The record types held by the moderation store, and their mathematical
//! models. Each executable record has a ghost model in which strings are
//! sequences of characters, so that contracts can speak of values rather
//! than heap objects.

use vstd::prelude::*;

verus! {

/// A piece of submitted content. Immutable once stored; removed outright
/// when moderation decides against it.
#[derive(Debug)]
pub struct Content {
    pub id: u64,
    pub content: String,
    pub author: String,
    pub timestamp: u64,
}

/// A report filed against a content id. Reports are append-only and may
/// outlive the content they reference.
#[derive(Debug)]
pub struct Report {
    pub content_id: u64,
    pub reason: String,
    pub reporter: String,
    pub timestamp: u64,
}

/// The direction of a content-removal vote. The moderation threshold counts
/// both directions alike.
#[derive(Clone, Copy, Debug, PartialEq, Eq, Structural)]
pub enum Vote {
    Remove,
    Keep,
}

/// A community guideline: a rule text, the number of votes cast on it, and
/// the reputation-weighted signed sum of those votes.
#[derive(Debug)]
pub struct CommunityGuideline {
    pub rule: String,
    pub votes: u64,
    pub weighted_votes: i128,
}

/// A known caller, keyed by an opaque caller-id string. Reputation is
/// unsigned and every update saturates, so it can never go below zero.
#[derive(Debug)]
pub struct User {
    pub id: String,
    pub reputation: u64,
}

/// The errors a mutating operation can surface. Lookup misses are answered
/// with absent/empty results instead.
#[derive(Clone, Copy, Debug, PartialEq, Eq, Structural)]
pub enum ModerationError {
    IndexOutOfRange,
}

/// Model of a `Content` record.
#[verifier::ext_equal]
pub ghost struct ContentModel {
    pub id: u64,
    pub content: Seq<char>,
    pub author: Seq<char>,
    pub timestamp: u64,
}

/// Model of a `Report` record.
#[verifier::ext_equal]
pub ghost struct ReportModel {
    pub content_id: u64,
    pub reason: Seq<char>,
    pub reporter: Seq<char>,
    pub timestamp: u64,
}

/// Model of a `CommunityGuideline` record.
#[verifier::ext_equal]
pub ghost struct GuidelineModel {
    pub rule: Seq<char>,
    pub votes: u64,
    pub weighted_votes: i128,
}

/// Model of a `User` record.
#[verifier::ext_equal]
pub ghost struct UserModel {
    pub id: Seq<char>,
    pub reputation: u64,
}

impl View for Content {
    type V = ContentModel;

    open spec fn view(&self) -> ContentModel {
        ContentModel {
            id: self.id,
            content: self.content@,
            author: self.author@,
            timestamp: self.timestamp,
        }
    }
}

impl View for Report {
    type V = ReportModel;

    open spec fn view(&self) -> ReportModel {
        ReportModel {
            content_id: self.content_id,
            reason: self.reason@,
            reporter: self.reporter@,
            timestamp: self.timestamp,
        }
    }
}

impl View for CommunityGuideline {
    type V = GuidelineModel;

    open spec fn view(&self) -> GuidelineModel {
        GuidelineModel { rule: self.rule@, votes: self.votes, weighted_votes: self.weighted_votes }
    }
}

impl View for User {
    type V = UserModel;

    open spec fn view(&self) -> UserModel {
        UserModel { id: self.id@, reputation: self.reputation }
    }
}

impl Clone for Content {
    fn clone(&self) -> (r: Self)
        ensures
            r@ == self@,
    {
        Content {
            id: self.id,
            content: self.content.clone(),
            author: self.author.clone(),
            timestamp: self.timestamp,
        }
    }
}

impl Clone for Report {
    fn clone(&self) -> (r: Self)
        ensures
            r@ == self@,
    {
        Report {
            content_id: self.content_id,
            reason: self.reason.clone(),
            reporter: self.reporter.clone(),
            timestamp: self.timestamp,
        }
    }
}

impl Clone for CommunityGuideline {
    fn clone(&self) -> (r: Self)
        ensures
            r@ == self@,
    {
        CommunityGuideline {
            rule: self.rule.clone(),
            votes: self.votes,
            weighted_votes: self.weighted_votes,
        }
    }
}

impl Clone for User {
    fn clone(&self) -> (r: Self)
        ensures
            r@ == self@,
    {
        User { id: self.id.clone(), reputation: self.reputation }
    }
}

/// Models of a sequence of contents, element by element.
pub open spec fn content_models(s: Seq<Content>) -> Seq<ContentModel> {
    s.map_values(|c: Content| c@)
}

/// Models of a sequence of reports, element by element.
pub open spec fn report_models(s: Seq<Report>) -> Seq<ReportModel> {
    s.map_values(|r: Report| r@)
}

/// Models of a sequence of guidelines, element by element.
pub open spec fn guideline_models(s: Seq<CommunityGuideline>) -> Seq<GuidelineModel> {
    s.map_values(|g: CommunityGuideline| g@)
}

/// Models of a sequence of users, element by element.
pub open spec fn user_models(s: Seq<User>) -> Seq<UserModel> {
    s.map_values(|u: User| u@)
}

/// Appending a content record appends its model.
pub proof fn lemma_content_models_push(s: Seq<Content>, c: Content)
    ensures
        content_models(s.push(c)) == content_models(s).push(c@),
{
    assert(content_models(s.push(c)) =~= content_models(s).push(c@));
}

/// Appending a report record appends its model.
pub proof fn lemma_report_models_push(s: Seq<Report>, r: Report)
    ensures
        report_models(s.push(r)) == report_models(s).push(r@),
{
    assert(report_models(s.push(r)) =~= report_models(s).push(r@));
}

/// Appending a guideline record appends its model.
pub proof fn lemma_guideline_models_push(s: Seq<CommunityGuideline>, g: CommunityGuideline)
    ensures
        guideline_models(s.push(g)) == guideline_models(s).push(g@),
{
    assert(guideline_models(s.push(g)) =~= guideline_models(s).push(g@));
}

/// Appending a user record appends its model.
pub proof fn lemma_user_models_push(s: Seq<User>, u: User)
    ensures
        user_models(s.push(u)) == user_models(s).push(u@),
{
    assert(user_models(s.push(u)) =~= user_models(s).push(u@));
}

/// Replacing a user record replaces its model.
pub proof fn lemma_user_models_update(s: Seq<User>, i: int, u: User)
    requires
        0 <= i < s.len(),
    ensures
        user_models(s.update(i, u)) == user_models(s).update(i, u@),
{
    assert(user_models(s.update(i, u)) =~= user_models(s).update(i, u@));
}

/// Replacing a guideline record replaces its model.
pub proof fn lemma_guideline_models_update(s: Seq<CommunityGuideline>, i: int, g: CommunityGuideline)
    requires
        0 <= i < s.len(),
    ensures
        guideline_models(s.update(i, g)) == guideline_models(s).update(i, g@),
{
    assert(guideline_models(s.update(i, g)) =~= guideline_models(s).update(i, g@));
}

/// Signed addition into an `i128`, saturating at both ends of the range.
pub open spec fn sat_add_i128(a: i128, b: i128) -> i128 {
    if a + b > i128::MAX {
        i128::MAX
    } else if a + b < i128::MIN {
        i128::MIN
    } else {
        (a + b) as i128
    }
}

/// Executable saturating `i128` addition, exact against `sat_add_i128`.
pub fn saturating_add_i128(a: i128, b: i128) -> (r: i128)
    ensures
        r == sat_add_i128(a, b),
{
    match a.checked_add(b) {
        Some(v) => v,
        None => if b >= 0 {
            i128::MAX
        } else {
            i128::MIN
        },
    }
}

} // verus!
