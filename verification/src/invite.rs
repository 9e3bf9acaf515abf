//! The invite-acceptance state machine with bounded exponential backoff.
//!
//! On an invite addressed to the bot itself, the inviter is checked against
//! the configured allow-list: an unauthorized invite is rejected outright,
//! with no retry and no side effect. An authorized one moves to `Joining`:
//! the room is joined, and on failure the machine waits the current delay
//! and retries with the delay doubled, starting from two seconds, until a
//! join succeeds or the doubled delay passes the one-hour ceiling, at which
//! point the invite is abandoned. `Joined` is terminal success; `Rejected`
//! and `Abandoned` are terminal failures; a fresh invite starts a new,
//! independent run. The waiting itself is done by the caller, which feeds
//! each join attempt's outcome back into [`invite_step`].

use vstd::arithmetic::power2::{lemma2_to64, pow2};
use vstd::prelude::*;

use crate::rules::MembershipKind;
use crate::text::str_eq;

verus! {

/// Backoff delay, in seconds, of the first retry.
pub const INITIAL_JOIN_DELAY: u64 = 2;

/// Ceiling, in seconds, past which joining is abandoned.
pub const JOIN_DELAY_CEILING: u64 = 3600;

/// States of the invite-acceptance state machine.
#[derive(Clone, Copy, Debug, PartialEq, Eq, Structural)]
pub enum InviteState {
    /// An invite has arrived and has not been examined yet.
    Received,
    /// Terminal failure: the inviter was not in the allow-list.
    Rejected,
    /// Trying to join: on the next failure the machine waits `delay`
    /// seconds, then retries with the delay doubled.
    Joining {
        /// Seconds to wait after the next failed join attempt.
        delay: u64,
    },
    /// Terminal success: the room was joined.
    Joined,
    /// Terminal failure: the delay grew past the ceiling before a join
    /// succeeded.
    Abandoned,
}

/// A `Joining` state never carries a delay past the ceiling.
pub open spec fn invite_state_wf(s: InviteState) -> bool {
    s is Joining ==> s->delay <= JOIN_DELAY_CEILING
}

/// Whether an invite sender is in the allow-list.
pub fn is_inviter_allowed(sender: &str, allow_list: &Vec<String>) -> (r: bool)
    ensures
        r == exists|i: int| 0 <= i < allow_list@.len() && allow_list@[i]@ == sender@,
{
    let mut i: usize = 0;
    while i < allow_list.len()
        invariant
            i <= allow_list@.len(),
            forall|j: int| 0 <= j < i ==> allow_list@[j]@ != sender@,
        decreases allow_list@.len() - i,
    {
        if str_eq(allow_list[i].as_str(), sender) {
            return true;
        }
        i = i + 1;
    }
    false
}

/// Whether a stripped membership event is an invite addressed to the bot
/// itself — the only events that start the machine.
pub fn is_invite_for_bot(membership: &MembershipKind, state_key: &str, own_id: &str) -> (r: bool)
    ensures
        r == (membership is Invite && state_key@ == own_id@),
{
    matches!(membership, MembershipKind::Invite) && str_eq(state_key, own_id)
}

/// First transition of the machine, out of `Received`: an invite from an
/// unauthorized inviter is rejected outright; an authorized one moves to
/// `Joining` with the initial backoff delay.
pub fn on_invite(sender: &str, allow_list: &Vec<String>) -> (s: InviteState)
    ensures
        invite_state_wf(s),
        (exists|i: int| 0 <= i < allow_list@.len() && allow_list@[i]@ == sender@) ==> s == (
        InviteState::Joining { delay: INITIAL_JOIN_DELAY }),
        !(exists|i: int| 0 <= i < allow_list@.len() && allow_list@[i]@ == sender@) ==> s
            is Rejected,
{
    if is_inviter_allowed(sender, allow_list) {
        InviteState::Joining { delay: INITIAL_JOIN_DELAY }
    } else {
        InviteState::Rejected
    }
}

/// One transition after a join attempt: success is terminal; failure
/// doubles the delay, abandoning once the doubled delay passes the
/// ceiling. Terminal states absorb every further event.
pub open spec fn invite_step_spec(s: InviteState, joined: bool) -> InviteState {
    match s {
        InviteState::Joining { delay } => if joined {
            InviteState::Joined
        } else if delay * 2 > JOIN_DELAY_CEILING {
            InviteState::Abandoned
        } else {
            InviteState::Joining { delay: (delay * 2) as u64 }
        },
        _ => s,
    }
}

/// Advances the machine by the outcome of one join attempt. The second
/// component is how long the caller must wait before the next attempt:
/// the pre-doubling delay after a failure in `Joining`, nothing otherwise.
pub fn invite_step(s: &InviteState, joined: bool) -> (r: (InviteState, Option<u64>))
    requires
        invite_state_wf(*s),
    ensures
        r.0 == invite_step_spec(*s, joined),
        invite_state_wf(r.0),
        (*s is Joining && !joined) ==> r.1 == Some(s->delay),
        !(*s is Joining && !joined) ==> r.1 is None,
{
    match s {
        InviteState::Joining { delay } => {
            if joined {
                (InviteState::Joined, None)
            } else {
                let doubled = *delay * 2;
                if doubled > JOIN_DELAY_CEILING {
                    (InviteState::Abandoned, Some(*delay))
                } else {
                    (InviteState::Joining { delay: doubled }, Some(*delay))
                }
            }
        },
        _ => (*s, None),
    }
}

/// The machine's state after `n` consecutive failed join attempts.
pub open spec fn after_failed_joins(s: InviteState, n: nat) -> InviteState
    decreases n,
{
    if n == 0 {
        s
    } else {
        after_failed_joins(invite_step_spec(s, false), (n - 1) as nat)
    }
}

/// Failed attempts compose one step at a time, from either end.
proof fn lemma_after_failed_joins_snoc(s: InviteState, n: nat)
    ensures
        after_failed_joins(s, n + 1) == invite_step_spec(after_failed_joins(s, n), false),
    decreases n,
{
    let s1 = invite_step_spec(s, false);
    assert(after_failed_joins(s, n + 1) == after_failed_joins(s1, n));
    if n == 0 {
        assert(after_failed_joins(s1, 0) == s1);
        assert(after_failed_joins(s, 0) == s);
    } else {
        lemma_after_failed_joins_snoc(s1, (n - 1) as nat);
        assert(after_failed_joins(s, n) == after_failed_joins(s1, (n - 1) as nat));
    }
}

/// After `n <= 10` failures from the start, the machine is still joining
/// and its delay is two seconds doubled `n` times.
proof fn lemma_backoff_delay(n: nat)
    requires
        n <= 10,
    ensures
        after_failed_joins(InviteState::Joining { delay: INITIAL_JOIN_DELAY }, n) == (
        InviteState::Joining { delay: (2 * pow2(n)) as u64 }),
        2 * pow2(n) <= JOIN_DELAY_CEILING,
    decreases n,
{
    lemma2_to64();
    if n == 0 {
        assert(pow2(0) == 1);
    } else {
        lemma_backoff_delay((n - 1) as nat);
        lemma_after_failed_joins_snoc(
            InviteState::Joining { delay: INITIAL_JOIN_DELAY },
            (n - 1) as nat,
        );
        assert(pow2(n) == 2 * pow2((n - 1) as nat)) by {
            vstd::arithmetic::power2::lemma_pow2_unfold(n);
        }
    }
}

/// Bounded backoff: starting from the initial two-second delay and
/// doubling on every failure, the machine is still trying after any ten
/// failed join attempts — its delay having reached 2048 seconds — and
/// abandons on the eleventh, the doubled delay having passed the one-hour
/// ceiling. Joining is thus given up within at most eleven retries.
pub proof fn lemma_backoff_abandons()
    ensures
        forall|n: nat|
            n <= 10 ==> after_failed_joins(InviteState::Joining { delay: INITIAL_JOIN_DELAY }, n)
                is Joining,
        after_failed_joins(InviteState::Joining { delay: INITIAL_JOIN_DELAY }, 10) == (
        InviteState::Joining { delay: 2048 }),
        after_failed_joins(InviteState::Joining { delay: INITIAL_JOIN_DELAY }, 11) is Abandoned,
{
    lemma2_to64();
    assert forall|n: nat| n <= 10 implies after_failed_joins(
        InviteState::Joining { delay: INITIAL_JOIN_DELAY },
        n,
    ) is Joining by {
        lemma_backoff_delay(n);
    }
    lemma_backoff_delay(10);
    assert(pow2(10) == 1024);
    lemma_after_failed_joins_snoc(InviteState::Joining { delay: INITIAL_JOIN_DELAY }, 10);
}

} // verus!
