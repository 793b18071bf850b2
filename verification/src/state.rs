//! The moderation store and its operations: submitting and reporting
//! content, casting content and guideline votes, reputation updates, and
//! the moderation decision itself.

use crate::records::{
    CommunityGuideline, Content, ContentModel, GuidelineModel, ModerationError, Report,
    ReportModel, User, UserModel, Vote, content_models, guideline_models,
    lemma_content_models_push, lemma_guideline_models_push, lemma_guideline_models_update,
    lemma_report_models_push, lemma_user_models_push, lemma_user_models_update, report_models,
    sat_add_i128, saturating_add_i128, user_models,
};
use crate::strutil::is_substring_of;
use vstd::prelude::*;

verus! {

/// How many of the recorded content votes reference `content_id`,
/// regardless of direction.
pub open spec fn count_votes_for(votes: Seq<(u64, Vote)>, content_id: u64) -> nat
    decreases votes.len(),
{
    if votes.len() == 0 {
        0
    } else {
        count_votes_for(votes.drop_last(), content_id) + (if votes.last().0 == content_id {
            1nat
        } else {
            0nat
        })
    }
}

/// Counting one more vote at position `i` of the log.
pub proof fn lemma_count_votes_take_step(votes: Seq<(u64, Vote)>, content_id: u64, i: int)
    requires
        0 <= i < votes.len(),
    ensures
        count_votes_for(votes.take(i + 1), content_id) == count_votes_for(
            votes.take(i),
            content_id,
        ) + (if votes[i].0 == content_id {
            1int
        } else {
            0int
        }),
{
    assert(votes.take(i + 1).drop_last() =~= votes.take(i));
    assert(votes.take(i + 1).last() == votes[i]);
}

/// The index of the first content record with the given id, or -1 when
/// there is none.
pub open spec fn first_content_index(contents: Seq<ContentModel>, content_id: u64) -> int
    decreases contents.len(),
{
    if contents.len() == 0 {
        -1
    } else if contents[0].id == content_id {
        0
    } else {
        let r = first_content_index(contents.drop_first(), content_id);
        if r < 0 {
            -1
        } else {
            r + 1
        }
    }
}

/// What `first_content_index` returns: -1 exactly when no record has the
/// id, and otherwise the smallest index of a record that does.
pub proof fn lemma_first_content_index(contents: Seq<ContentModel>, content_id: u64)
    ensures
        first_content_index(contents, content_id) == -1 <==> (forall|i: int|
            0 <= i < contents.len() ==> (#[trigger] contents[i]).id != content_id),
        first_content_index(contents, content_id) != -1 ==> {
            let r = first_content_index(contents, content_id);
            &&& 0 <= r < contents.len()
            &&& contents[r].id == content_id
            &&& forall|i: int| 0 <= i < r ==> (#[trigger] contents[i]).id != content_id
        },
    decreases contents.len(),
{
    if contents.len() == 0 {
    } else if contents[0].id == content_id {
    } else {
        lemma_first_content_index(contents.drop_first(), content_id);
        assert forall|i: int| 1 <= i < contents.len() implies contents.drop_first()[i - 1]
            == contents[i] by {}
    }
}

/// The index of the first user record with the given caller id, or -1.
pub open spec fn first_user_index(users: Seq<UserModel>, user_id: Seq<char>) -> int
    decreases users.len(),
{
    if users.len() == 0 {
        -1
    } else if users[0].id == user_id {
        0
    } else {
        let r = first_user_index(users.drop_first(), user_id);
        if r < 0 {
            -1
        } else {
            r + 1
        }
    }
}

/// What `first_user_index` returns, in the same shape as
/// `lemma_first_content_index`.
pub proof fn lemma_first_user_index(users: Seq<UserModel>, user_id: Seq<char>)
    ensures
        first_user_index(users, user_id) == -1 <==> (forall|i: int|
            0 <= i < users.len() ==> (#[trigger] users[i]).id != user_id),
        first_user_index(users, user_id) != -1 ==> {
            let r = first_user_index(users, user_id);
            &&& 0 <= r < users.len()
            &&& users[r].id == user_id
            &&& forall|i: int| 0 <= i < r ==> (#[trigger] users[i]).id != user_id
        },
    decreases users.len(),
{
    if users.len() == 0 {
    } else if users[0].id == user_id {
    } else {
        lemma_first_user_index(users.drop_first(), user_id);
        assert forall|i: int| 1 <= i < users.len() implies users.drop_first()[i - 1] == users[i]
            by {}
    }
}

/// The first user index is the one the characterization describes: any
/// witness of a first match pins it down.
pub proof fn lemma_first_user_index_is(users: Seq<UserModel>, user_id: Seq<char>, j: int)
    requires
        0 <= j < users.len(),
        users[j].id == user_id,
        forall|i: int| 0 <= i < j ==> (#[trigger] users[i]).id != user_id,
    ensures
        first_user_index(users, user_id) == j,
    decreases users.len(),
{
    if j == 0 {
    } else {
        assert(users[0].id != user_id);
        assert forall|i: int| 1 <= i < users.len() implies users.drop_first()[i - 1] == users[i]
            by {}
        lemma_first_user_index_is(users.drop_first(), user_id, j - 1);
    }
}

/// Pins down `first_content_index` from a witness of a first match.
pub proof fn lemma_first_content_index_is(contents: Seq<ContentModel>, content_id: u64, j: int)
    requires
        0 <= j < contents.len(),
        contents[j].id == content_id,
        forall|i: int| 0 <= i < j ==> (#[trigger] contents[i]).id != content_id,
    ensures
        first_content_index(contents, content_id) == j,
    decreases contents.len(),
{
    if j == 0 {
    } else {
        assert(contents[0].id != content_id);
        assert forall|i: int| 1 <= i < contents.len() implies contents.drop_first()[i - 1]
            == contents[i] by {}
        lemma_first_content_index_is(contents.drop_first(), content_id, j - 1);
    }
}

/// The index of the first guideline whose rule text occurs in `body`,
/// or -1 when none does.
pub open spec fn first_guideline_match(guidelines: Seq<GuidelineModel>, body: Seq<char>) -> int
    decreases guidelines.len(),
{
    if guidelines.len() == 0 {
        -1
    } else if is_substring_of(guidelines[0].rule, body) {
        0
    } else {
        let r = first_guideline_match(guidelines.drop_first(), body);
        if r < 0 {
            -1
        } else {
            r + 1
        }
    }
}

/// What `first_guideline_match` returns, in the same shape as
/// `lemma_first_content_index`.
pub proof fn lemma_first_guideline_match(guidelines: Seq<GuidelineModel>, body: Seq<char>)
    ensures
        first_guideline_match(guidelines, body) == -1 <==> (forall|i: int|
            0 <= i < guidelines.len() ==> !is_substring_of(
                (#[trigger] guidelines[i]).rule,
                body,
            )),
        first_guideline_match(guidelines, body) != -1 ==> {
            let r = first_guideline_match(guidelines, body);
            &&& 0 <= r < guidelines.len()
            &&& is_substring_of(guidelines[r].rule, body)
            &&& forall|i: int|
                0 <= i < r ==> !is_substring_of((#[trigger] guidelines[i]).rule, body)
        },
    decreases guidelines.len(),
{
    if guidelines.len() == 0 {
    } else if is_substring_of(guidelines[0].rule, body) {
    } else {
        lemma_first_guideline_match(guidelines.drop_first(), body);
        assert forall|i: int| 1 <= i < guidelines.len() implies guidelines.drop_first()[i - 1]
            == guidelines[i] by {}
    }
}

/// Pins down `first_guideline_match` from a witness of a first match.
pub proof fn lemma_first_guideline_match_is(
    guidelines: Seq<GuidelineModel>,
    body: Seq<char>,
    j: int,
)
    requires
        0 <= j < guidelines.len(),
        is_substring_of(guidelines[j].rule, body),
        forall|i: int| 0 <= i < j ==> !is_substring_of((#[trigger] guidelines[i]).rule, body),
    ensures
        first_guideline_match(guidelines, body) == j,
    decreases guidelines.len(),
{
    if j == 0 {
    } else {
        assert(!is_substring_of(guidelines[0].rule, body));
        assert forall|i: int| 1 <= i < guidelines.len() implies guidelines.drop_first()[i - 1]
            == guidelines[i] by {}
        lemma_first_guideline_match_is(guidelines.drop_first(), body, j - 1);
    }
}

/// Some content record with this id is in the store.
pub open spec fn content_present(contents: Seq<ContentModel>, content_id: u64) -> bool {
    exists|i: int| 0 <= i < contents.len() && (#[trigger] contents[i]).id == content_id
}

/// `content_present` agrees with `first_content_index`.
pub proof fn lemma_content_present_index(contents: Seq<ContentModel>, content_id: u64)
    ensures
        content_present(contents, content_id) <==> first_content_index(contents, content_id)
            != -1,
{
    lemma_first_content_index(contents, content_id);
    if first_content_index(contents, content_id) != -1 {
        assert(contents[first_content_index(contents, content_id)].id == content_id);
    }
}

/// The store with every content record of this id removed and the others
/// kept in order.
pub open spec fn remove_content(contents: Seq<ContentModel>, content_id: u64) -> Seq<ContentModel>
    decreases contents.len(),
{
    if contents.len() == 0 {
        Seq::empty()
    } else {
        let pre = remove_content(contents.drop_last(), content_id);
        if contents.last().id == content_id {
            pre
        } else {
            pre.push(contents.last())
        }
    }
}

/// Removal really removes: no record with the id survives.
pub proof fn lemma_remove_content_gone(contents: Seq<ContentModel>, content_id: u64)
    ensures
        forall|i: int|
            0 <= i < remove_content(contents, content_id).len() ==> (#[trigger] remove_content(
                contents,
                content_id,
            )[i]).id != content_id,
    decreases contents.len(),
{
    if contents.len() == 0 {
    } else {
        lemma_remove_content_gone(contents.drop_last(), content_id);
        let pre = remove_content(contents.drop_last(), content_id);
        if contents.last().id != content_id {
            assert forall|i: int| 0 <= i < pre.push(contents.last()).len() implies (
            #[trigger] pre.push(contents.last())[i]).id != content_id by {
                if i < pre.len() {
                    assert(pre.push(contents.last())[i] == pre[i]);
                } else {
                    assert(pre.push(contents.last())[i] == contents.last());
                }
            }
        }
    }
}

/// Removing at one more position of the prefix.
pub proof fn lemma_remove_content_take_step(contents: Seq<ContentModel>, content_id: u64, i: int)
    requires
        0 <= i < contents.len(),
    ensures
        remove_content(contents.take(i + 1), content_id) == (if contents[i].id == content_id {
            remove_content(contents.take(i), content_id)
        } else {
            remove_content(contents.take(i), content_id).push(contents[i])
        }),
{
    assert(contents.take(i + 1).drop_last() =~= contents.take(i));
    assert(contents.take(i + 1).last() == contents[i]);
}

/// The reports that reference this content id, in order.
pub open spec fn reports_for(reports: Seq<ReportModel>, content_id: u64) -> Seq<ReportModel>
    decreases reports.len(),
{
    if reports.len() == 0 {
        Seq::empty()
    } else {
        let pre = reports_for(reports.drop_last(), content_id);
        if reports.last().content_id == content_id {
            pre.push(reports.last())
        } else {
            pre
        }
    }
}

/// Filtering one more position of the prefix.
pub proof fn lemma_reports_for_take_step(reports: Seq<ReportModel>, content_id: u64, i: int)
    requires
        0 <= i < reports.len(),
    ensures
        reports_for(reports.take(i + 1), content_id) == (if reports[i].content_id == content_id {
            reports_for(reports.take(i), content_id).push(reports[i])
        } else {
            reports_for(reports.take(i), content_id)
        }),
{
    assert(reports.take(i + 1).drop_last() =~= reports.take(i));
    assert(reports.take(i + 1).last() == reports[i]);
}

/// One reputation credit of +10 to the named caller: the first matching
/// user record is bumped, and a record with reputation 10 is created when
/// the caller is unknown.
pub open spec fn credit_user(users: Seq<UserModel>, user_id: Seq<char>) -> Seq<UserModel> {
    let j = first_user_index(users, user_id);
    if j >= 0 {
        users.update(j, UserModel { id: users[j].id, reputation: users[j].reputation.saturating_add(10) })
    } else {
        users.push(UserModel { id: user_id, reputation: 10 })
    }
}

/// The reputation credits moderation hands out: one +10 credit to the
/// reporter of each report that references the removed content, in the
/// order the reports were filed.
pub open spec fn credit_reporters(
    users: Seq<UserModel>,
    reports: Seq<ReportModel>,
    content_id: u64,
) -> Seq<UserModel>
    decreases reports.len(),
{
    if reports.len() == 0 {
        users
    } else {
        let pre = credit_reporters(users, reports.drop_last(), content_id);
        if reports.last().content_id == content_id {
            credit_user(pre, reports.last().reporter)
        } else {
            pre
        }
    }
}

/// Crediting one more position of the report log.
pub proof fn lemma_credit_reporters_take_step(
    users: Seq<UserModel>,
    reports: Seq<ReportModel>,
    content_id: u64,
    i: int,
)
    requires
        0 <= i < reports.len(),
    ensures
        credit_reporters(users, reports.take(i + 1), content_id) == (if reports[i].content_id
            == content_id {
            credit_user(credit_reporters(users, reports.take(i), content_id), reports[i].reporter)
        } else {
            credit_reporters(users, reports.take(i), content_id)
        }),
{
    assert(reports.take(i + 1).drop_last() =~= reports.take(i));
    assert(reports.take(i + 1).last() == reports[i]);
}

/// The weight a caller's guideline vote carries: their current reputation,
/// or 1 for an unknown caller.
pub open spec fn guideline_weight(users: Seq<UserModel>, voter: Seq<char>) -> u64 {
    let j = first_user_index(users, voter);
    if j >= 0 {
        users[j].reputation
    } else {
        1
    }
}

/// A guideline after one more vote: the count grows by one and the signed
/// weight is added to or subtracted from the weighted sum, both saturating
/// at the edges of their types.
pub open spec fn guideline_after_vote(g: GuidelineModel, weight: u64, in_favor: bool) -> GuidelineModel {
    GuidelineModel {
        rule: g.rule,
        votes: g.votes.saturating_add(1),
        weighted_votes: if in_favor {
            sat_add_i128(g.weighted_votes, weight as i128)
        } else {
            sat_add_i128(g.weighted_votes, (-(weight as int)) as i128)
        },
    }
}

/// A user's reputation after a signed delta, clamped to the `u64` range.
pub open spec fn reputation_after_delta(reputation: u64, delta: i64) -> u64 {
    if reputation + delta < 0 {
        0u64
    } else if reputation + delta > u64::MAX {
        u64::MAX
    } else {
        (reputation + delta) as u64
    }
}

/// The whole moderation store: contents, reports, content votes,
/// guidelines and users, each an in-memory collection.
pub struct State {
    pub contents: Vec<Content>,
    pub reports: Vec<Report>,
    pub votes: Vec<(u64, Vote)>,
    pub community_guidelines: Vec<CommunityGuideline>,
    pub users: Vec<User>,
}

/// Model of the whole store.
#[verifier::ext_equal]
pub ghost struct StateModel {
    pub contents: Seq<ContentModel>,
    pub reports: Seq<ReportModel>,
    pub votes: Seq<(u64, Vote)>,
    pub guidelines: Seq<GuidelineModel>,
    pub users: Seq<UserModel>,
}

impl View for State {
    type V = StateModel;

    open spec fn view(&self) -> StateModel {
        StateModel {
            contents: content_models(self.contents@),
            reports: report_models(self.reports@),
            votes: self.votes@,
            guidelines: guideline_models(self.community_guidelines@),
            users: user_models(self.users@),
        }
    }
}

/// Submission appends a content record whose id is the store size at the
/// moment of insertion.
pub open spec fn submit_content_spec(
    s: StateModel,
    content: Seq<char>,
    author: Seq<char>,
    timestamp: u64,
) -> StateModel {
    StateModel {
        contents: s.contents.push(
            ContentModel { id: s.contents.len() as u64, content, author, timestamp },
        ),
        ..s
    }
}

/// Reporting appends a report record and changes nothing else.
pub open spec fn report_content_spec(
    s: StateModel,
    content_id: u64,
    reason: Seq<char>,
    reporter: Seq<char>,
    timestamp: u64,
) -> StateModel {
    StateModel {
        reports: s.reports.push(ReportModel { content_id, reason, reporter, timestamp }),
        ..s
    }
}

/// Proposing appends a guideline with no votes yet.
pub open spec fn propose_guideline_spec(s: StateModel, rule: Seq<char>) -> StateModel {
    StateModel {
        guidelines: s.guidelines.push(GuidelineModel { rule, votes: 0, weighted_votes: 0 }),
        ..s
    }
}

/// A content vote is logged unconditionally; a known voter's reputation
/// moves by +10 when the content is already absent and by -5 (saturating
/// at zero) when it is present. Unknown voters get no record.
pub open spec fn vote_spec(s: StateModel, content_id: u64, choice: Vote, voter: Seq<char>) -> StateModel {
    let j = first_user_index(s.users, voter);
    let users = if j >= 0 {
        let rep = s.users[j].reputation;
        let rep2 = if content_present(s.contents, content_id) {
            rep.saturating_sub(5)
        } else {
            rep.saturating_add(10)
        };
        s.users.update(j, UserModel { id: s.users[j].id, reputation: rep2 })
    } else {
        s.users
    };
    StateModel { votes: s.votes.push((content_id, choice)), users, ..s }
}

/// A guideline vote at a valid index: that guideline alone changes, by one
/// vote of the caller's weight.
pub open spec fn vote_guideline_spec(
    s: StateModel,
    rule_id: int,
    in_favor: bool,
    voter: Seq<char>,
) -> StateModel {
    StateModel {
        guidelines: s.guidelines.update(
            rule_id,
            guideline_after_vote(s.guidelines[rule_id], guideline_weight(s.users, voter), in_favor),
        ),
        ..s
    }
}

/// A direct reputation adjustment of an existing user, clamped to the
/// `u64` range; unknown users are left unregistered.
pub open spec fn update_reputation_spec(s: StateModel, user_id: Seq<char>, delta: i64) -> StateModel {
    let j = first_user_index(s.users, user_id);
    if j >= 0 {
        StateModel {
            users: s.users.update(
                j,
                UserModel {
                    id: s.users[j].id,
                    reputation: reputation_after_delta(s.users[j].reputation, delta),
                },
            ),
            ..s
        }
    } else {
        s
    }
}

/// The moderation decision. When more than five votes reference the id,
/// the content is present, and some guideline's rule occurs in its body,
/// the content is removed and every report's reporter is credited +10;
/// otherwise the store is untouched.
pub open spec fn moderate_content_spec(s: StateModel, content_id: u64) -> StateModel {
    if count_votes_for(s.votes, content_id) > 5 {
        let ci = first_content_index(s.contents, content_id);
        if ci >= 0 {
            let gi = first_guideline_match(s.guidelines, s.contents[ci].content);
            if gi >= 0 {
                StateModel {
                    contents: remove_content(s.contents, content_id),
                    users: credit_reporters(s.users, s.reports, content_id),
                    ..s
                }
            } else {
                s
            }
        } else {
            s
        }
    } else {
        s
    }
}

impl State {
    /// An empty store: no contents, reports, votes, guidelines or users.
    pub fn new() -> (s: State)
        ensures
            s@.contents =~= Seq::<ContentModel>::empty(),
            s@.reports =~= Seq::<ReportModel>::empty(),
            s@.votes =~= Seq::<(u64, Vote)>::empty(),
            s@.guidelines =~= Seq::<GuidelineModel>::empty(),
            s@.users =~= Seq::<UserModel>::empty(),
    {
        State {
            contents: Vec::new(),
            reports: Vec::new(),
            votes: Vec::new(),
            community_guidelines: Vec::new(),
            users: Vec::new(),
        }
    }

    /// Stores a new piece of content and returns its assigned id: the
    /// store size at the moment of insertion.
    pub fn submit_content(&mut self, content: String, author: String, timestamp: u64) -> (id: u64)
        ensures
            final(self)@ == submit_content_spec(old(self)@, content@, author@, timestamp),
            id == old(self)@.contents.len() as u64,
    {
        let ghost contentv = content@;
        let ghost authorv = author@;
        let id = self.contents.len() as u64;
        let record = Content { id, content, author, timestamp };
        let ghost recordv = record@;
        self.contents.push(record);
        proof {
            lemma_content_models_push(old(self).contents@, self.contents@.last());
            assert(self.contents@.last()@ == recordv);
            assert(self@ =~= submit_content_spec(old(self)@, contentv, authorv, timestamp));
        }
        id
    }

    /// Files a report against a content id. The id need not reference
    /// stored content: reports are historical and are kept regardless.
    pub fn report_content(&mut self, content_id: u64, reason: String, reporter: String, timestamp: u64)
        ensures
            final(self)@ == report_content_spec(old(self)@, content_id, reason@, reporter@, timestamp),
    {
        let ghost reasonv = reason@;
        let ghost reporterv = reporter@;
        let record = Report { content_id, reason, reporter, timestamp };
        self.reports.push(record);
        proof {
            lemma_report_models_push(old(self).reports@, self.reports@.last());
            assert(self@ =~= report_content_spec(old(self)@, content_id, reasonv, reporterv, timestamp));
        }
    }

    /// Logs a content-removal vote and applies the vote-correctness rule
    /// to a known voter's reputation: +10 when the content is already
    /// absent at the moment of voting, -5 (saturating at zero) when it is
    /// present. Unknown voters are not registered, and the vote is logged
    /// even when no content carries the id.
    pub fn vote(&mut self, content_id: u64, choice: Vote, voter: &String)
        ensures
            final(self)@ == vote_spec(old(self)@, content_id, choice, voter@),
    {
        let removed = content_is_removed(self, content_id);
        match find_user(&self.users, voter) {
            Some(j) => {
                let rep = self.users[j].reputation;
                let rep2 = if removed {
                    rep.saturating_add(10)
                } else {
                    rep.saturating_sub(5)
                };
                self.users[j].reputation = rep2;
                proof {
                    lemma_user_models_update(old(self).users@, j as int, self.users@[j as int]);
                }
            },
            None => {},
        }
        self.votes.push((content_id, choice));
        proof {
            assert(self@ =~= vote_spec(old(self)@, content_id, choice, voter@));
        }
    }

    /// Casts a guideline vote at a positional index. An index beyond the
    /// guideline list fails with `IndexOutOfRange` and changes nothing;
    /// otherwise the vote counts once, weighted by the caller's current
    /// reputation (or 1 for an unknown caller).
    pub fn vote_guideline(&mut self, rule_id: usize, vote: bool, voter: &String) -> (r: Result<
        (),
        ModerationError,
    >)
        ensures
            rule_id < old(self)@.guidelines.len() ==> r == Ok::<(), ModerationError>(())
                && final(self)@ == vote_guideline_spec(old(self)@, rule_id as int, vote, voter@),
            rule_id >= old(self)@.guidelines.len() ==> r == Err::<(), ModerationError>(
                ModerationError::IndexOutOfRange,
            ) && final(self)@ == old(self)@,
    {
        if rule_id >= self.community_guidelines.len() {
            return Err(ModerationError::IndexOutOfRange);
        }
        let weight = match find_user(&self.users, voter) {
            Some(j) => self.users[j].reputation,
            None => 1,
        };
        proof {
            assert(weight == guideline_weight(self@.users, voter@));
        }
        let votes2 = self.community_guidelines[rule_id].votes.saturating_add(1);
        let delta = if vote {
            weight as i128
        } else {
            -(weight as i128)
        };
        let weighted2 = saturating_add_i128(self.community_guidelines[rule_id].weighted_votes, delta);
        self.community_guidelines[rule_id].votes = votes2;
        let ghost mid = self.community_guidelines@;
        self.community_guidelines[rule_id].weighted_votes = weighted2;
        proof {
            lemma_guideline_models_update(old(self).community_guidelines@, rule_id as int, mid[rule_id as int]);
            lemma_guideline_models_update(mid, rule_id as int, self.community_guidelines@[rule_id as int]);
            assert(guideline_models(self.community_guidelines@) =~= guideline_models(
                old(self).community_guidelines@,
            ).update(
                rule_id as int,
                guideline_after_vote(
                    old(self)@.guidelines[rule_id as int],
                    guideline_weight(old(self)@.users, voter@),
                    vote,
                ),
            ));
            assert(self@ =~= vote_guideline_spec(old(self)@, rule_id as int, vote, voter@));
        }
        Ok(())
    }

    /// Adjusts an existing user's reputation by a signed delta, clamped
    /// to the `u64` range; an unknown user id changes nothing.
    pub fn update_reputation(&mut self, user_id: &String, delta: i64)
        ensures
            final(self)@ == update_reputation_spec(old(self)@, user_id@, delta),
    {
        match find_user(&self.users, user_id) {
            Some(j) => {
                let rep = self.users[j].reputation;
                let rep2 = if delta >= 0 {
                    rep.saturating_add(delta as u64)
                } else if delta == i64::MIN {
                    rep.saturating_sub(9223372036854775808u64)
                } else {
                    rep.saturating_sub((-delta) as u64)
                };
                proof {
                    assert(rep2 == reputation_after_delta(rep, delta));
                }
                self.users[j].reputation = rep2;
                proof {
                    lemma_user_models_update(old(self).users@, j as int, self.users@[j as int]);
                    assert(self@ =~= update_reputation_spec(old(self)@, user_id@, delta));
                }
            },
            None => {
                proof {
                    assert(self@ =~= update_reputation_spec(old(self)@, user_id@, delta));
                }
            },
        }
    }

    /// The moderation decision for one content id. When more than five
    /// logged votes reference it, the content is stored, and some
    /// guideline's rule text occurs in its body, the content is removed
    /// and the reporter of every report against it is credited +10
    /// reputation, with a record created for a first-time reporter. In
    /// every other case the store is left untouched, so a second call
    /// with no new votes in between is a no-op.
    pub fn moderate_content(&mut self, content_id: u64)
        ensures
            final(self)@ == moderate_content_spec(old(self)@, content_id),
    {
        let mut vote_count: usize = 0;
        let mut i: usize = 0;
        while i < self.votes.len()
            invariant
                i <= self.votes@.len(),
                vote_count <= i,
                vote_count == count_votes_for(self.votes@.take(i as int), content_id),
            decreases self.votes@.len() - i,
        {
            proof {
                lemma_count_votes_take_step(self.votes@, content_id, i as int);
            }
            if self.votes[i].0 == content_id {
                vote_count += 1;
            }
            i += 1;
        }
        proof {
            assert(self.votes@.take(self.votes@.len() as int) =~= self.votes@);
        }
        if vote_count <= 5 {
            return;
        }
        let ci = match find_content(&self.contents, content_id) {
            Some(ci) => ci,
            None => {
                return;
            },
        };
        let body = self.contents[ci].content.clone();
        proof {
            assert(body@ == content_models(self.contents@)[ci as int].content);
        }
        let gi = match find_matching_guideline(&self.community_guidelines, &body) {
            Some(gi) => gi,
            None => {
                return;
            },
        };
        let ghost base = old(self)@;
        let mut kept: Vec<Content> = Vec::new();
        let mut i: usize = 0;
        while i < self.contents.len()
            invariant
                i <= self.contents@.len(),
                *self == *old(self),
                content_models(kept@) == remove_content(
                    content_models(self.contents@).take(i as int),
                    content_id,
                ),
            decreases self.contents@.len() - i,
        {
            proof {
                lemma_remove_content_take_step(content_models(self.contents@), content_id, i as int);
            }
            if self.contents[i].id != content_id {
                let record = self.contents[i].clone();
                proof {
                    assert(record@ == content_models(self.contents@)[i as int]);
                }
                kept.push(record);
                proof {
                    lemma_content_models_push(kept@.drop_last(), kept@.last());
                    assert(kept@.drop_last().push(kept@.last()) =~= kept@);
                }
            }
            i += 1;
        }
        proof {
            assert(content_models(self.contents@).take(self.contents@.len() as int)
                =~= content_models(self.contents@));
        }
        self.contents = kept;
        let mut r: usize = 0;
        while r < self.reports.len()
            invariant
                r <= self.reports@.len(),
                self.reports@ == old(self).reports@,
                self.votes@ == old(self).votes@,
                self.community_guidelines@ == old(self).community_guidelines@,
                content_models(self.contents@) == remove_content(base.contents, content_id),
                user_models(self.users@) == credit_reporters(
                    base.users,
                    report_models(self.reports@).take(r as int),
                    content_id,
                ),
            decreases self.reports@.len() - r,
        {
            proof {
                lemma_credit_reporters_take_step(
                    base.users,
                    report_models(self.reports@),
                    content_id,
                    r as int,
                );
                assert(report_models(self.reports@)[r as int] == self.reports@[r as int]@);
            }
            if self.reports[r].content_id == content_id {
                let reporter = self.reports[r].reporter.clone();
                credit_user_exec(&mut self.users, &reporter);
            }
            r += 1;
        }
        proof {
            assert(report_models(self.reports@).take(self.reports@.len() as int)
                =~= report_models(self.reports@));
            assert(self@ =~= moderate_content_spec(old(self)@, content_id));
        }
    }

    /// A copy of the first stored content with this id, or nothing when
    /// the store holds none.
    pub fn get_content(&self, content_id: u64) -> (r: Option<Content>)
        ensures
            match r {
                Some(c) => first_content_index(self@.contents, content_id) >= 0 && c@
                    == self@.contents[first_content_index(self@.contents, content_id)],
                None => !content_present(self@.contents, content_id),
            },
    {
        match find_content(&self.contents, content_id) {
            Some(j) => {
                proof {
                    assert(content_models(self.contents@)[j as int] == self.contents@[j as int]@);
                }
                Some(self.contents[j].clone())
            },
            None => {
                proof {
                    lemma_content_present_index(self@.contents, content_id);
                }
                None
            },
        }
    }

    /// Copies of all reports that reference this id, in the order they
    /// were filed; empty when there are none.
    pub fn get_reports(&self, content_id: u64) -> (r: Vec<Report>)
        ensures
            report_models(r@) == reports_for(self@.reports, content_id),
    {
        let mut out: Vec<Report> = Vec::new();
        let mut i: usize = 0;
        while i < self.reports.len()
            invariant
                i <= self.reports@.len(),
                report_models(out@) == reports_for(
                    report_models(self.reports@).take(i as int),
                    content_id,
                ),
            decreases self.reports@.len() - i,
        {
            proof {
                lemma_reports_for_take_step(report_models(self.reports@), content_id, i as int);
                assert(report_models(self.reports@)[i as int] == self.reports@[i as int]@);
            }
            if self.reports[i].content_id == content_id {
                out.push(self.reports[i].clone());
                proof {
                    lemma_report_models_push(out@.drop_last(), out@.last());
                    assert(out@.drop_last().push(out@.last()) =~= out@);
                }
            }
            i += 1;
        }
        proof {
            assert(report_models(self.reports@).take(self.reports@.len() as int) =~= report_models(
                self.reports@,
            ));
        }
        out
    }

    /// Copies of all guidelines, in proposal order.
    pub fn get_guidelines(&self) -> (r: Vec<CommunityGuideline>)
        ensures
            guideline_models(r@) == self@.guidelines,
    {
        let mut out: Vec<CommunityGuideline> = Vec::new();
        let mut i: usize = 0;
        while i < self.community_guidelines.len()
            invariant
                i <= self.community_guidelines@.len(),
                guideline_models(out@) == guideline_models(self.community_guidelines@).take(
                    i as int,
                ),
            decreases self.community_guidelines@.len() - i,
        {
            out.push(self.community_guidelines[i].clone());
            proof {
                lemma_guideline_models_push(out@.drop_last(), out@.last());
                assert(out@.drop_last().push(out@.last()) =~= out@);
                assert(guideline_models(self.community_guidelines@).take(i + 1)
                    =~= guideline_models(self.community_guidelines@).take(i as int).push(
                    guideline_models(self.community_guidelines@)[i as int],
                ));
                assert(guideline_models(self.community_guidelines@)[i as int]
                    == self.community_guidelines@[i as int]@);
            }
            i += 1;
        }
        proof {
            assert(guideline_models(self.community_guidelines@).take(
                self.community_guidelines@.len() as int,
            ) =~= guideline_models(self.community_guidelines@));
        }
        out
    }

    /// The stored reputation of this caller, or nothing when no record
    /// exists for the id.
    pub fn get_reputation(&self, user_id: &String) -> (r: Option<u64>)
        ensures
            match r {
                Some(rep) => first_user_index(self@.users, user_id@) >= 0 && rep
                    == self@.users[first_user_index(self@.users, user_id@)].reputation,
                None => first_user_index(self@.users, user_id@) == -1,
            },
    {
        match find_user(&self.users, user_id) {
            Some(j) => {
                proof {
                    assert(user_models(self.users@)[j as int] == self.users@[j as int]@);
                }
                Some(self.users[j].reputation)
            },
            None => None,
        }
    }

    /// Appends a proposed guideline with no votes yet.
    pub fn propose_guideline(&mut self, rule: String)
        ensures
            final(self)@ == propose_guideline_spec(old(self)@, rule@),
    {
        let ghost rulev = rule@;
        let record = CommunityGuideline { rule, votes: 0, weighted_votes: 0 };
        self.community_guidelines.push(record);
        proof {
            lemma_guideline_models_push(old(self).community_guidelines@, self.community_guidelines@.last());
            assert(self@ =~= propose_guideline_spec(old(self)@, rulev));
        }
    }
}

/// Whether no stored content carries this id: either it never existed or
/// moderation has removed it.
pub fn content_is_removed(state: &State, content_id: u64) -> (b: bool)
    ensures
        b == !content_present(state@.contents, content_id),
{
    let mut i: usize = 0;
    while i < state.contents.len()
        invariant
            i <= state.contents@.len(),
            forall|k: int|
                0 <= k < i ==> (#[trigger] content_models(state.contents@)[k]).id != content_id,
        decreases state.contents@.len() - i,
    {
        if state.contents[i].id == content_id {
            proof {
                assert(content_models(state.contents@)[i as int].id == content_id);
            }
            return false;
        }
        proof {
            assert(content_models(state.contents@)[i as int] == state.contents@[i as int]@);
        }
        i += 1;
    }
    proof {
        assert(!content_present(state@.contents, content_id));
    }
    true
}

/// The position of the first stored content with this id, when one
/// exists; agrees with `first_content_index` on the model.
fn find_content(contents: &Vec<Content>, content_id: u64) -> (r: Option<usize>)
    ensures
        match r {
            Some(j) => j < contents@.len() && first_content_index(
                content_models(contents@),
                content_id,
            ) == j as int,
            None => first_content_index(content_models(contents@), content_id) == -1,
        },
{
    let mut j: usize = 0;
    while j < contents.len()
        invariant
            j <= contents@.len(),
            forall|k: int|
                0 <= k < j ==> (#[trigger] content_models(contents@)[k]).id != content_id,
        decreases contents@.len() - j,
    {
        if contents[j].id == content_id {
            proof {
                assert(content_models(contents@)[j as int].id == content_id);
                lemma_first_content_index_is(content_models(contents@), content_id, j as int);
            }
            return Some(j);
        }
        proof {
            assert(content_models(contents@)[j as int] == contents@[j as int]@);
        }
        j += 1;
    }
    proof {
        lemma_first_content_index(content_models(contents@), content_id);
    }
    None
}

/// The position of the first guideline whose rule text occurs in `body`,
/// when one exists; agrees with `first_guideline_match` on the model.
fn find_matching_guideline(guidelines: &Vec<CommunityGuideline>, body: &String) -> (r: Option<
    usize,
>)
    ensures
        match r {
            Some(j) => j < guidelines@.len() && first_guideline_match(
                guideline_models(guidelines@),
                body@,
            ) == j as int,
            None => first_guideline_match(guideline_models(guidelines@), body@) == -1,
        },
{
    let mut j: usize = 0;
    while j < guidelines.len()
        invariant
            j <= guidelines@.len(),
            forall|k: int|
                0 <= k < j ==> !is_substring_of(
                    (#[trigger] guideline_models(guidelines@)[k]).rule,
                    body@,
                ),
        decreases guidelines@.len() - j,
    {
        if crate::strutil::contains_str(body.as_str(), guidelines[j].rule.as_str()) {
            proof {
                assert(guideline_models(guidelines@)[j as int] == guidelines@[j as int]@);
                lemma_first_guideline_match_is(guideline_models(guidelines@), body@, j as int);
            }
            return Some(j);
        }
        proof {
            assert(guideline_models(guidelines@)[j as int] == guidelines@[j as int]@);
        }
        j += 1;
    }
    proof {
        lemma_first_guideline_match(guideline_models(guidelines@), body@);
    }
    None
}

/// Gives one +10 reputation credit to the named caller, creating the user
/// record when none exists yet; agrees with `credit_user` on the model.
fn credit_user_exec(users: &mut Vec<User>, user_id: &String)
    ensures
        user_models(final(users)@) == credit_user(user_models(old(users)@), user_id@),
{
    match find_user(users, user_id) {
        Some(j) => {
            let rep2 = users[j].reputation.saturating_add(10);
            users[j].reputation = rep2;
            proof {
                lemma_user_models_update(old(users)@, j as int, users@[j as int]);
                assert(user_models(users@) =~= credit_user(user_models(old(users)@), user_id@));
            }
        },
        None => {
            users.push(User { id: user_id.clone(), reputation: 10 });
            proof {
                lemma_user_models_push(old(users)@, users@.last());
                assert(user_models(users@) =~= credit_user(user_models(old(users)@), user_id@));
            }
        },
    }
}

/// The position of the first stored user with this caller id, when one
/// exists; agrees with `first_user_index` on the model.
fn find_user(users: &Vec<User>, user_id: &String) -> (r: Option<usize>)
    ensures
        match r {
            Some(j) => j < users@.len() && first_user_index(user_models(users@), user_id@)
                == j as int,
            None => first_user_index(user_models(users@), user_id@) == -1,
        },
{
    let mut j: usize = 0;
    while j < users.len()
        invariant
            j <= users@.len(),
            forall|k: int| 0 <= k < j ==> (#[trigger] user_models(users@)[k]).id != user_id@,
        decreases users@.len() - j,
    {
        if users[j].id == *user_id {
            proof {
                assert(user_models(users@)[j as int].id == user_id@);
                lemma_first_user_index_is(user_models(users@), user_id@, j as int);
            }
            return Some(j);
        }
        proof {
            assert(user_models(users@)[j as int] == users@[j as int]@);
        }
        j += 1;
    }
    proof {
        lemma_first_user_index(user_models(users@), user_id@);
    }
    None
}

} // verus!
