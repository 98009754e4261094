//! The moderator's word: reactions that ban or verify an item by hand.

use crate::moderation::ModerationState;
use vstd::prelude::*;

verus! {

/// The account whose reactions count.
pub const MODERATOR_ID: u64 = 181470050039889920;

/// The emoji that stand for a decision.
#[derive(Debug, Clone, Copy, PartialEq, Eq)]
pub struct ReactionIds {
    /// The custom emoji that verifies an item.
    pub verify: u64,
    /// The custom emoji that bans an item.
    pub ban: u64,
}

/// The state that a reaction with the custom emoji `emoji` asks for; `None`
/// for an emoji that stands for no decision and for one that is not a
/// custom emoji. Where one emoji stands for both, it bans.
pub open spec fn reaction_state(ids: ReactionIds, emoji: Option<u64>) -> Option<ModerationState> {
    match emoji {
        Some(id) => if id == ids.ban {
            Some(ModerationState::Banned)
        } else if id == ids.verify {
            Some(ModerationState::Verified)
        } else {
            None
        },
        None => None,
    }
}

/// Whether reactions of this account count.
pub fn is_moderator(user_id: u64) -> (counts: bool)
    ensures
        counts == (user_id == MODERATOR_ID),
{
    user_id == MODERATOR_ID
}

/// The state that a reaction asks for: banned for the ban emoji, verified
/// for the verify emoji, nothing for any other.
pub fn reaction_verdict(ids: &ReactionIds, emoji: Option<u64>) -> (state: Option<ModerationState>)
    ensures
        state == reaction_state(*ids, emoji),
        state != Some(ModerationState::Pending),
{
    match emoji {
        Some(id) => {
            if id == ids.ban {
                Some(ModerationState::Banned)
            } else if id == ids.verify {
                Some(ModerationState::Verified)
            } else {
                None
            }
        },
        None => None,
    }
}

} // verus!
