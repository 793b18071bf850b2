//! The properties the moderation engine guarantees across operations,
//! each stated over the store model and proved once and for all.

use crate::records::{GuidelineModel, Vote};
use crate::state::{
    StateModel, content_present, count_votes_for, first_content_index, first_guideline_match,
    first_user_index, guideline_after_vote, lemma_content_present_index,
    lemma_first_content_index, lemma_first_guideline_match, lemma_first_user_index,
    lemma_remove_content_gone, moderate_content_spec, vote_spec,
};
use crate::strutil::is_substring_of;
use vstd::prelude::*;

verus! {

/// Reputation can never be negative: it is stored unsigned and every
/// update saturates at zero, so in any reachable or unreachable store
/// every user's reputation is at least zero.
pub proof fn lemma_reputation_never_negative(s: StateModel)
    ensures
        forall|i: int| 0 <= i < s.users.len() ==> (#[trigger] s.users[i]).reputation >= 0,
{
}

/// The vote-correctness rule, read off a single content vote by a known
/// voter: when the content is absent at the moment of voting the voter's
/// reputation rises by 10 (saturating at the top of the range), and when
/// it is present it falls by 5, saturating at zero.
pub proof fn lemma_vote_reward(s: StateModel, content_id: u64, choice: Vote, voter: Seq<char>)
    requires
        first_user_index(s.users, voter) >= 0,
    ensures
        ({
            let j = first_user_index(s.users, voter);
            let after = vote_spec(s, content_id, choice, voter);
            &&& after.users.len() == s.users.len()
            &&& (!content_present(s.contents, content_id) ==> after.users[j].reputation
                == s.users[j].reputation.saturating_add(10))
            &&& (!content_present(s.contents, content_id) && s.users[j].reputation + 10
                <= u64::MAX ==> after.users[j].reputation == s.users[j].reputation + 10)
            &&& (content_present(s.contents, content_id) ==> after.users[j].reputation
                == s.users[j].reputation.saturating_sub(5))
        }),
{
    lemma_first_user_index(s.users, voter);
}

/// Moderation is idempotent: with no new votes in between, a second
/// moderation of the same content id leaves the store exactly as the
/// first left it.
pub proof fn lemma_moderate_idempotent(s: StateModel, content_id: u64)
    ensures
        moderate_content_spec(moderate_content_spec(s, content_id), content_id)
            == moderate_content_spec(s, content_id),
{
    let s1 = moderate_content_spec(s, content_id);
    if count_votes_for(s.votes, content_id) > 5 {
        let ci = first_content_index(s.contents, content_id);
        if ci >= 0 {
            let gi = first_guideline_match(s.guidelines, s.contents[ci].content);
            if gi >= 0 {
                lemma_remove_content_gone(s.contents, content_id);
                lemma_first_content_index(s1.contents, content_id);
                assert(first_content_index(s1.contents, content_id) == -1);
            }
        }
    }
}

/// A content item is removed by moderation only when more than five votes
/// reference it and some guideline's rule text occurs in its body.
pub proof fn lemma_removal_needs_threshold_and_match(s: StateModel, content_id: u64)
    ensures
        content_present(s.contents, content_id) && !content_present(
            moderate_content_spec(s, content_id).contents,
            content_id,
        ) ==> count_votes_for(s.votes, content_id) > 5 && (exists|i: int|
            0 <= i < s.guidelines.len() && is_substring_of(
                (#[trigger] s.guidelines[i]).rule,
                s.contents[first_content_index(s.contents, content_id)].content,
            )),
{
    if count_votes_for(s.votes, content_id) > 5 {
        let ci = first_content_index(s.contents, content_id);
        if ci >= 0 {
            let gi = first_guideline_match(s.guidelines, s.contents[ci].content);
            if gi >= 0 {
                lemma_first_guideline_match(s.guidelines, s.contents[ci].content);
                assert(0 <= gi < s.guidelines.len() && is_substring_of(
                    s.guidelines[gi].rule,
                    s.contents[ci].content,
                ));
            }
        }
    }
}

/// Guidelines whose rules do not occur in the content's body never
/// trigger removal, however many votes the content has drawn.
pub proof fn lemma_no_match_no_removal(s: StateModel, content_id: u64)
    requires
        content_present(s.contents, content_id),
        forall|i: int|
            0 <= i < s.guidelines.len() ==> !is_substring_of(
                (#[trigger] s.guidelines[i]).rule,
                s.contents[first_content_index(s.contents, content_id)].content,
            ),
    ensures
        moderate_content_spec(s, content_id) == s,
{
    lemma_content_present_index(s.contents, content_id);
    let ci = first_content_index(s.contents, content_id);
    lemma_first_guideline_match(s.guidelines, s.contents[ci].content);
}

/// A guideline's state after a sequence of ballots, each a weight and a
/// direction, folded in the order they were cast.
pub open spec fn apply_guideline_votes(g: GuidelineModel, ballots: Seq<(u64, bool)>) -> GuidelineModel
    decreases ballots.len(),
{
    if ballots.len() == 0 {
        g
    } else {
        guideline_after_vote(
            apply_guideline_votes(g, ballots.drop_last()),
            ballots.last().0,
            ballots.last().1,
        )
    }
}

/// The signed sum of the ballots: each "for" weight added, each
/// "against" weight subtracted.
pub open spec fn signed_weight_sum(ballots: Seq<(u64, bool)>) -> int
    decreases ballots.len(),
{
    if ballots.len() == 0 {
        0
    } else {
        signed_weight_sum(ballots.drop_last()) + (if ballots.last().1 {
            ballots.last().0 as int
        } else {
            -(ballots.last().0 as int)
        })
    }
}

/// Each ballot moves the signed sum by at most one `u64`'s worth.
proof fn lemma_signed_weight_sum_bound(ballots: Seq<(u64, bool)>)
    ensures
        -(ballots.len() * (u64::MAX as int)) <= signed_weight_sum(ballots) <= ballots.len() * (
        u64::MAX as int),
    decreases ballots.len(),
{
    if ballots.len() > 0 {
        lemma_signed_weight_sum_bound(ballots.drop_last());
    }
}

/// Folding ballots onto a guideline adds exactly their count and their
/// signed sum, as long as the running totals stay inside the machine
/// ranges, so that no step saturates.
proof fn lemma_apply_guideline_votes_exact(g: GuidelineModel, ballots: Seq<(u64, bool)>)
    requires
        g.votes + ballots.len() <= u64::MAX,
        g.weighted_votes + ballots.len() * (u64::MAX as int) <= i128::MAX,
        g.weighted_votes - ballots.len() * (u64::MAX as int) >= i128::MIN,
    ensures
        apply_guideline_votes(g, ballots).rule == g.rule,
        apply_guideline_votes(g, ballots).votes == g.votes + ballots.len(),
        apply_guideline_votes(g, ballots).weighted_votes == g.weighted_votes + signed_weight_sum(
            ballots,
        ),
    decreases ballots.len(),
{
    if ballots.len() > 0 {
        let pre = ballots.drop_last();
        lemma_apply_guideline_votes_exact(g, pre);
        lemma_signed_weight_sum_bound(pre);
    }
}

/// A guideline's weighted vote sum equals the signed sum of the weight of
/// every ballot cast on it — each voter's reputation at the time of the
/// vote, or 1 for an unknown voter — and its vote count equals the number
/// of ballots, as long as the totals stay inside the machine ranges.
pub proof fn lemma_weighted_sum_is_signed_sum(g: GuidelineModel, ballots: Seq<(u64, bool)>)
    requires
        g.votes == 0,
        g.weighted_votes == 0,
        ballots.len() <= u64::MAX,
        ballots.len() * (u64::MAX as int) <= i128::MAX,
    ensures
        apply_guideline_votes(g, ballots).rule == g.rule,
        apply_guideline_votes(g, ballots).votes == ballots.len(),
        apply_guideline_votes(g, ballots).weighted_votes == signed_weight_sum(ballots),
{
    lemma_apply_guideline_votes_exact(g, ballots);
}

} // verus!
