//! Moderation rules: aggregation across rule rooms and conflict resolution.
//!
//! A rule pairs an entity pattern with the action to take on a match and an
//! optional human-supplied reason. For a given identity the engine collects
//! the matching rules from every reachable rule room, in the order the rooms
//! are configured, then picks exactly one rule to apply: the one of lowest
//! severity rank (most severe first), with ties broken by position, earliest
//! first. Rules whose pattern is invalid are skipped rather than letting one
//! bad entry block enforcement.

use vstd::prelude::*;

use crate::entity::{classify_pattern, entity_match, is_match_entity, PatternError};
use crate::text::views_of_strings;

verus! {

/// Maps a human-chosen shortcode to the room holding rule state; the
/// resolution of a shortcode to its room is configuration, read elsewhere.
pub struct RuleList {
    /// List shortcode.
    pub shortcode: String,
    /// Identifier of the room holding the rules.
    pub room: String,
}

/// Available actions to apply to an entity that matches a rule, from most
/// severe to least severe.
#[derive(Clone, Copy, Debug, PartialEq, Eq, Structural)]
pub enum Action {
    /// Ban the entity.
    Ban,
    /// Kick the entity.
    Kick,
    /// Mute the entity.
    Mute,
}

/// Severity rank of an action: lower is more severe, and the lowest rank
/// among the matching rules wins. Ban always wins over looser sanctions.
pub open spec fn severity(a: Action) -> int {
    match a {
        Action::Ban => 0,
        Action::Kick => 1,
        Action::Mute => 2,
    }
}

/// Executable severity rank, agreeing with [`severity`].
pub fn severity_rank(a: Action) -> (r: u8)
    ensures
        r as int == severity(a),
{
    match a {
        Action::Ban => 0,
        Action::Kick => 1,
        Action::Mute => 2,
    }
}

/// Content of a moderation rule, as stored in a rule room's state keyed by
/// its entity string.
#[derive(Clone, Debug)]
pub struct RuleEventContent {
    /// The user(s) or server(s) the rule applies to.
    pub entity: String,
    /// The action to take on a successful match.
    pub action: Action,
    /// User-supplied reason for creating the rule.
    pub reason: Option<String>,
}

/// Whether a rule matches the identity with the given full handle. A rule
/// with an invalid pattern matches nothing.
pub open spec fn rule_matches(user: Seq<char>, rule: RuleEventContent) -> bool {
    entity_match(user, rule.entity@)
}

/// Checks a user handle against a rule, failing exactly when the rule's
/// entity pattern is invalid.
pub fn is_match_rule(user_id: &str, rule: &RuleEventContent) -> (r: Result<bool, PatternError>)
    ensures
        r is Ok <==> !(classify_pattern(rule.entity@) is Invalid),
        r is Ok ==> r->Ok_0 == rule_matches(user_id@, *rule),
{
    is_match_entity(user_id, rule.entity.as_str())
}

/// The subsequence of `rules` matching the handle `user`, in order.
pub open spec fn matching_rules(user: Seq<char>, rules: Seq<RuleEventContent>) -> Seq<
    RuleEventContent,
>
    decreases rules.len(),
{
    if rules.len() == 0 {
        Seq::empty()
    } else {
        let rest = matching_rules(user, rules.skip(1));
        if rule_matches(user, rules[0]) {
            seq![rules[0]] + rest
        } else {
            rest
        }
    }
}

/// The rules matching `user` over a sequence of rule sources, one source per
/// rule room in configuration order, concatenated source by source.
pub open spec fn aggregated_rules(user: Seq<char>, sources: Seq<Seq<RuleEventContent>>) -> Seq<
    RuleEventContent,
>
    decreases sources.len(),
{
    if sources.len() == 0 {
        Seq::empty()
    } else {
        matching_rules(user, sources[0]) + aggregated_rules(user, sources.skip(1))
    }
}

/// The views of a sequence of rule vectors.
pub open spec fn views_of(sources: Seq<Vec<RuleEventContent>>) -> Seq<Seq<RuleEventContent>> {
    sources.map_values(|v: Vec<RuleEventContent>| v@)
}

/// Collects, from each source in order, the rules that match the identity
/// with full handle `user_id`. Rules whose pattern is invalid, like entries
/// that failed to decode before reaching this function, are skipped rather
/// than failing the whole evaluation.
pub fn rules_for(user_id: &str, sources: Vec<Vec<RuleEventContent>>) -> (out: Vec<
    RuleEventContent,
>)
    ensures
        out@ == aggregated_rules(user_id@, views_of(sources@)),
{
    let ghost goal = aggregated_rules(user_id@, views_of(sources@));
    let mut srcs = sources;
    let mut out: Vec<RuleEventContent> = Vec::new();
    while srcs.len() > 0
        invariant
            out@ + aggregated_rules(user_id@, views_of(srcs@)) == goal,
        decreases srcs@.len(),
    {
        let ghost srcs_old = srcs@;
        let mut s = srcs.remove(0);
        proof {
            assert(views_of(srcs_old)[0] == srcs_old[0]@);
            assert(views_of(srcs_old.skip(1)) =~= views_of(srcs_old).skip(1));
            assert(srcs_old.remove(0) =~= srcs_old.skip(1));
            assert(srcs@ == srcs_old.skip(1));
            assert(aggregated_rules(user_id@, views_of(srcs_old)) == matching_rules(
                user_id@,
                s@,
            ) + aggregated_rules(user_id@, views_of(srcs@)));
        }
        while s.len() > 0
            invariant
                out@ + (matching_rules(user_id@, s@) + aggregated_rules(
                    user_id@,
                    views_of(srcs@),
                )) == goal,
            decreases s@.len(),
        {
            let ghost s_old = s@;
            let r = s.remove(0);
            proof {
                assert(s_old.remove(0) =~= s_old.skip(1));
                assert(s@ == s_old.skip(1));
            }
            let matched = match is_match_rule(user_id, &r) {
                Ok(b) => b,
                Err(_) => false,
            };
            proof {
                assert(matched == rule_matches(user_id@, r));
                assert(matching_rules(user_id@, s_old) == if matched {
                    seq![r] + matching_rules(user_id@, s@)
                } else {
                    matching_rules(user_id@, s@)
                });
            }
            if matched {
                out.push(r);
            }
            proof {
                assert(out@ + (matching_rules(user_id@, s@) + aggregated_rules(
                    user_id@,
                    views_of(srcs@),
                )) =~= goal);
            }
        }
        proof {
            assert(matching_rules(user_id@, s@) =~= Seq::<RuleEventContent>::empty());
            assert(out@ + aggregated_rules(user_id@, views_of(srcs@)) =~= goal);
        }
    }
    proof {
        assert(aggregated_rules(user_id@, views_of(srcs@)) =~= Seq::<RuleEventContent>::empty());
        assert(out@ =~= goal);
    }
    out
}

/// The handles among `handles` that the pattern `pat` matches, in order.
pub open spec fn matching_handles(pat: Seq<char>, handles: Seq<Seq<char>>) -> Seq<Seq<char>>
    decreases handles.len(),
{
    if handles.len() == 0 {
        Seq::empty()
    } else {
        let rest = matching_handles(pat, handles.skip(1));
        if entity_match(handles[0], pat) {
            seq![handles[0]] + rest
        } else {
            rest
        }
    }
}

/// The members of a room, given by full handle, that a rule's entity
/// pattern matches — the targets of retroactive enforcement after a rule
/// is written. An invalid pattern matches nobody.
pub fn matching_members(entity: &str, members: Vec<String>) -> (out: Vec<String>)
    ensures
        views_of_strings(out@) == matching_handles(entity@, views_of_strings(members@)),
{
    let ghost goal = matching_handles(entity@, views_of_strings(members@));
    let mut ms = members;
    let mut out: Vec<String> = Vec::new();
    proof {
        assert(views_of_strings(out@) =~= Seq::<Seq<char>>::empty());
        assert(views_of_strings(out@) + goal =~= goal);
    }
    while ms.len() > 0
        invariant
            views_of_strings(out@) + matching_handles(entity@, views_of_strings(ms@)) == goal,
        decreases ms@.len(),
    {
        let ghost ms_old = ms@;
        let m = ms.remove(0);
        proof {
            assert(ms_old.remove(0) =~= ms_old.skip(1));
            assert(views_of_strings(ms_old)[0] == ms_old[0]@);
            assert(views_of_strings(ms@) =~= views_of_strings(ms_old).skip(1));
        }
        let matched = match is_match_entity(m.as_str(), entity) {
            Ok(b) => b,
            Err(_) => false,
        };
        let ghost vs_old = views_of_strings(out@);
        proof {
            assert(matched == entity_match(m@, entity@));
        }
        if matched {
            out.push(m);
            proof {
                assert(views_of_strings(out@) =~= vs_old.push(m@));
            }
        }
        proof {
            assert(views_of_strings(out@) + matching_handles(entity@, views_of_strings(ms@))
                =~= goal);
        }
    }
    proof {
        assert(matching_handles(entity@, views_of_strings(ms@)) =~= Seq::<Seq<char>>::empty());
        assert(views_of_strings(out@) =~= goal);
    }
    out
}

/// Builds the rule content that a write command stores, keyed by its
/// entity string.
pub fn make_rule(entity: &str, action: Action, reason: Option<&str>) -> (r: RuleEventContent)
    ensures
        r.entity@ == entity@,
        r.action == action,
        r.reason is Some <==> reason is Some,
        reason is Some ==> r.reason->0@ == reason->0@,
{
    RuleEventContent {
        entity: entity.to_owned(),
        action,
        reason: match reason {
            Some(s) => Some(s.to_owned()),
            None => None,
        },
    }
}

/// The rule that conflict resolution picks from a sequence of matching
/// rules: none when the sequence is empty, else the first rule of minimal
/// severity rank.
pub open spec fn resolve_spec(s: Seq<RuleEventContent>) -> Option<RuleEventContent>
    decreases s.len(),
{
    if s.len() == 0 {
        None
    } else {
        match resolve_spec(s.skip(1)) {
            None => Some(s[0]),
            Some(best) => if severity(s[0].action) <= severity(best.action) {
                Some(s[0])
            } else {
                Some(best)
            },
        }
    }
}

/// Position `i` holds a rule of minimal severity rank in `s`, and every
/// earlier position holds a strictly less severe rule.
pub open spec fn is_first_min(s: Seq<RuleEventContent>, i: int) -> bool {
    &&& 0 <= i < s.len()
    &&& forall|j: int| 0 <= j < s.len() ==> severity(s[i].action) <= severity(s[j].action)
    &&& forall|j: int| 0 <= j < i ==> severity(s[j].action) > severity(s[i].action)
}

/// Conflict resolution is a total, deterministic choice: whenever any rule
/// matches, the rule picked is one of minimal severity rank — the most
/// severe action always wins, with Ban before Kick before Mute — and among
/// rules of equal rank it is the earliest one.
pub proof fn lemma_resolve_first_min(s: Seq<RuleEventContent>)
    requires
        s.len() > 0,
    ensures
        resolve_spec(s) is Some,
        exists|i: int| #![auto] is_first_min(s, i) && resolve_spec(s)->0 == s[i],
    decreases s.len(),
{
    let t = s.skip(1);
    if s.len() == 1 {
        assert(is_first_min(s, 0));
        assert(resolve_spec(s)->0 == s[0]);
    } else {
        lemma_resolve_first_min(t);
        let k = choose|i: int| #![auto] is_first_min(t, i) && resolve_spec(t)->0 == t[i];
        if severity(s[0].action) <= severity(t[k].action) {
            assert forall|j: int| 0 <= j < s.len() implies severity(s[0].action) <= severity(
                #[trigger] s[j].action,
            ) by {
                if j >= 1 {
                    assert(t[j - 1] == s[j]);
                    assert(severity(t[k].action) <= severity(t[j - 1].action));
                }
            }
            assert(is_first_min(s, 0));
            assert(resolve_spec(s)->0 == s[0]);
        } else {
            assert(s[k + 1] == t[k]);
            assert forall|j: int| 0 <= j < s.len() implies severity(s[k + 1].action) <= severity(
                #[trigger] s[j].action,
            ) by {
                if j >= 1 {
                    assert(t[j - 1] == s[j]);
                    assert(severity(t[k].action) <= severity(t[j - 1].action));
                }
            }
            assert forall|j: int| 0 <= j < k + 1 implies severity(#[trigger] s[j].action)
                > severity(s[k + 1].action) by {
                if j >= 1 {
                    assert(t[j - 1] == s[j]);
                    assert(severity(t[j - 1].action) > severity(t[k].action));
                }
            }
            assert(is_first_min(s, k + 1));
            assert(resolve_spec(s)->0 == s[k + 1]);
        }
    }
}

/// Index of the rule that conflict resolution picks, scanning from the back
/// so that the scan mirrors the definition of [`resolve_spec`].
fn best_rule_index(rules: &Vec<RuleEventContent>) -> (r: Option<usize>)
    ensures
        r is None <==> rules@.len() == 0,
        r is Some ==> 0 <= r->0 < rules@.len() && resolve_spec(rules@) == Some(
            rules@[r->0 as int],
        ),
{
    if rules.len() == 0 {
        return None;
    }
    let mut i: usize = rules.len() - 1;
    let mut best: usize = i;
    proof {
        assert(rules@.skip(i as int)[0] == rules@[i as int]);
        assert(rules@.skip(i as int).len() == 1);
        assert(resolve_spec(rules@.skip(i as int).skip(1)) is None);
        assert(resolve_spec(rules@.skip(i as int)) == Some(rules@[i as int]));
    }
    while i > 0
        invariant
            i < rules@.len(),
            i <= best < rules@.len(),
            resolve_spec(rules@.skip(i as int)) == Some(rules@[best as int]),
        decreases i,
    {
        i = i - 1;
        proof {
            assert(rules@.skip(i as int)[0] == rules@[i as int]);
            assert(rules@.skip(i as int).skip(1) =~= rules@.skip(i + 1 as int));
        }
        if severity_rank(rules[i].action) <= severity_rank(rules[best].action) {
            best = i;
        }
    }
    proof {
        assert(rules@.skip(0) =~= rules@);
    }
    Some(best)
}

/// Picks the rule to apply from the matching rules: nothing when none
/// match, else the first rule of minimal severity rank — equivalent to
/// sorting ascending by severity rank with a stable sort and taking the
/// first element.
pub fn resolve(rules: &Vec<RuleEventContent>) -> (r: Option<&RuleEventContent>)
    ensures
        r is None <==> rules@.len() == 0,
        r is Some ==> resolve_spec(rules@) == Some(*r->0),
{
    match best_rule_index(rules) {
        None => None,
        Some(i) => Some(&rules[i]),
    }
}

/// Membership states of a room member event, as plain values.
#[derive(Clone, Copy, Debug, PartialEq, Eq, Structural)]
pub enum MembershipKind {
    /// The member was invited to the room.
    Invite,
    /// The member joined the room.
    Join,
    /// The member knocked on the room.
    Knock,
    /// The member left or was removed from the room.
    Leave,
    /// The member was banned from the room.
    Ban,
}

/// Whether a membership change is one that triggers rule evaluation:
/// invites, joins and knocks are checked, departures and bans are not.
pub fn should_check_membership(m: &MembershipKind) -> (r: bool)
    ensures
        r == (m is Invite || m is Join || m is Knock),
{
    matches!(m, MembershipKind::Invite | MembershipKind::Join | MembershipKind::Knock)
}

/// The full passive evaluation of one membership event: when the membership
/// change is one that is checked, aggregate the matching rules from all
/// sources and resolve them to the single rule to enforce; otherwise do
/// nothing.
pub fn check_membership_event(
    membership: &MembershipKind,
    user_id: &str,
    sources: Vec<Vec<RuleEventContent>>,
) -> (r: Option<RuleEventContent>)
    ensures
        (membership is Invite || membership is Join || membership is Knock) ==> r == resolve_spec(
            aggregated_rules(user_id@, views_of(sources@)),
        ),
        !(membership is Invite || membership is Join || membership is Knock) ==> r is None,
{
    if !should_check_membership(membership) {
        return None;
    }
    let mut rules = rules_for(user_id, sources);
    match best_rule_index(&rules) {
        None => None,
        Some(i) => Some(rules.remove(i)),
    }
}

} // verus!
