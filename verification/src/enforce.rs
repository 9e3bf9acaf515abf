//! Enforcement of a resolved rule: muting as a power-level rewrite.
//!
//! Ban and kick are single protocol calls and carry no decision logic of
//! their own. Mute is implemented as a read-modify-write of the room's
//! power levels: read the current levels, set the target user's level to a
//! sentinel below the minimum required to speak, and write the levels
//! back. A room without power-levels state is a configuration-integrity
//! fault and the mute is aborted. The read-modify-write carries no
//! compare-and-swap: a concurrent external write of the power levels
//! between the read and the write is silently overwritten. That race is a
//! known weakness of the design, kept rather than papered over.

use vstd::prelude::*;

verus! {

/// Power level given to a muted user: below the minimum required to speak.
pub const MUTED_POWER_LEVEL: i64 = -1;

/// Error from applying an enforcement action inside the engine.
#[derive(Clone, Copy, Debug, PartialEq, Eq)]
pub enum EnforcementError {
    /// The protected room has no power-levels state: a configuration-
    /// integrity fault for that room; the mute is aborted.
    MissingPowerLevels,
}

impl EnforcementError {
    /// Human-readable description of the error.
    pub fn message(&self) -> (s: String)
        ensures
            s@ == "the room has no power-levels state event"@,
    {
        String::from_str("the room has no power-levels state event")
    }
}

/// The mapping from user handle to power level held by a sequence of
/// entries; a later entry for the same handle wins.
pub open spec fn levels_of(entries: Seq<(String, i64)>) -> Map<Seq<char>, int>
    decreases entries.len(),
{
    if entries.len() == 0 {
        Map::empty()
    } else {
        levels_of(entries.drop_last()).insert(entries.last().0@, entries.last().1 as int)
    }
}

/// The per-user power levels of a room, as plain values.
#[derive(Debug)]
pub struct PowerLevels {
    /// User handle / power level pairs, with pairwise distinct handles.
    pub users: Vec<(String, i64)>,
}

impl View for PowerLevels {
    type V = Map<Seq<char>, int>;

    open spec fn view(&self) -> Map<Seq<char>, int> {
        levels_of(self.users@)
    }
}

/// The power levels after muting `user`: the user's level is set to the
/// muted sentinel and every other level is kept.
pub open spec fn muted(levels: Map<Seq<char>, int>, user: Seq<char>) -> Map<Seq<char>, int> {
    levels.insert(user, MUTED_POWER_LEVEL as int)
}

/// Muting is idempotent at the rule level: muting an already-muted user
/// changes nothing. This says nothing about concurrent external writes:
/// the rewrite holds no compare-and-swap, so a write that lands between
/// the read and the write-back is lost — a documented weakness.
pub proof fn lemma_mute_idempotent(levels: Map<Seq<char>, int>, user: Seq<char>)
    ensures
        muted(muted(levels, user), user) == muted(levels, user),
{
    assert(muted(muted(levels, user), user) =~= muted(levels, user));
}

/// Updating the entry at `i` to a pair with the same handle rewrites just
/// that handle's level in the mapping, provided handles are distinct.
proof fn lemma_levels_update(entries: Seq<(String, i64)>, i: int, p: (String, i64))
    requires
        0 <= i < entries.len(),
        p.0@ == entries[i].0@,
        forall|a: int, b: int|
            0 <= a < b < entries.len() ==> entries[a].0@ != entries[b].0@,
    ensures
        levels_of(entries.update(i, p)) == levels_of(entries).insert(p.0@, p.1 as int),
    decreases entries.len(),
{
    let u = entries.update(i, p);
    if i == entries.len() - 1 {
        assert(u.drop_last() =~= entries.drop_last());
        assert(u.last() == p);
        assert(levels_of(entries).insert(p.0@, p.1 as int) =~= levels_of(
            entries.drop_last(),
        ).insert(p.0@, p.1 as int));
    } else {
        assert(u.drop_last() =~= entries.drop_last().update(i, p));
        assert(u.last() == entries.last());
        lemma_levels_update(entries.drop_last(), i, p);
        assert(entries[i].0@ != entries.last().0@);
        assert(levels_of(entries.drop_last()).insert(p.0@, p.1 as int).insert(
            entries.last().0@,
            entries.last().1 as int,
        ) =~= levels_of(entries.drop_last()).insert(
            entries.last().0@,
            entries.last().1 as int,
        ).insert(p.0@, p.1 as int));
    }
}

impl PowerLevels {
    /// Well-formed: at most one entry per user handle.
    pub open spec fn wf(&self) -> bool {
        forall|a: int, b: int|
            0 <= a < b < self.users@.len() ==> self.users@[a].0@ != self.users@[b].0@
    }

    /// Sets the user's power level to the muted sentinel, leaving every
    /// other user's level unchanged.
    pub fn mute_user(&mut self, user: &str)
        requires
            old(self).wf(),
        ensures
            final(self).wf(),
            final(self)@ == muted(old(self)@, user@),
    {
        let ghost entries_old = self.users@;
        let mut i: usize = 0;
        while i < self.users.len()
            invariant
                i <= self.users@.len(),
                *self == *old(self),
                self.wf(),
                forall|j: int| 0 <= j < i ==> self.users@[j].0@ != user@,
            decreases self.users@.len() - i,
        {
            if crate::text::str_eq(self.users[i].0.as_str(), user) {
                let key = self.users[i].0.clone();
                let p = (key, MUTED_POWER_LEVEL);
                proof {
                    lemma_levels_update(self.users@, i as int, p);
                }
                self.users.set(i, p);
                return ;
            }
            i = i + 1;
        }
        let owned = user.to_owned();
        self.users.push((owned, MUTED_POWER_LEVEL));
        proof {
            assert(self.users@.drop_last() =~= entries_old);
            assert(self.users@.last().0@ == user@);
        }
    }
}

/// The mute step of enforcement: given the power levels read from the
/// room, or nothing when the room has none, returns the rewritten power
/// levels to write back, or the configuration-integrity error for a room
/// lacking power-levels state.
pub fn mute_power_levels(levels: Option<PowerLevels>, user: &str) -> (r: Result<
    PowerLevels,
    EnforcementError,
>)
    requires
        levels is Some ==> levels->0.wf(),
    ensures
        r is Ok <==> levels is Some,
        r is Ok ==> r->Ok_0.wf() && r->Ok_0@ == muted(levels->0@, user@),
        r is Err ==> r->Err_0 is MissingPowerLevels,
{
    match levels {
        None => Err(EnforcementError::MissingPowerLevels),
        Some(mut pl) => {
            pl.mute_user(user);
            Ok(pl)
        },
    }
}

} // verus!
