//! Entity patterns and glob-style matching.
//!
//! A rule's entity is a pattern string that is either a *user pattern*
//! (leading `@` with a `:` separator, matched against the full user handle)
//! or a *server pattern* (no leading `@` and no `:` anywhere, matched
//! against the origin server name). Strings that are neither — a `:`
//! without a leading `@`, or a leading `@` without a `:` — are rejected
//! rather than guessed at. Glob syntax uses `*` as a multi-character
//! wildcard and is case-sensitive.

use vstd::prelude::*;

use crate::text::chars_of;

verus! {

/// Error for a malformed or ambiguous entity pattern.
#[derive(Clone, Copy, Debug, PartialEq, Eq)]
pub enum PatternError {
    /// The string is neither a user pattern nor a server pattern.
    InvalidEntity,
}

impl PatternError {
    /// Human-readable description of the error.
    pub fn message(&self) -> (s: String)
        ensures
            s@ == "Not a valid entity"@,
    {
        String::from_str("Not a valid entity")
    }
}

/// The shape of an entity pattern.
pub enum PatternKind {
    /// `@<glob>:<glob>`: matched against the full user handle.
    User,
    /// No leading `@` and no `:` anywhere: matched against the origin
    /// server name.
    Server,
    /// Anything else: neither user- nor server-shaped, rejected.
    Invalid,
}

/// Classifies a pattern text: a user pattern has a leading `@` and contains
/// a `:` that does not immediately follow the `@`; a server pattern has no
/// leading `@` and no `:` at all; everything else is rejected as invalid.
pub open spec fn classify_pattern(p: Seq<char>) -> PatternKind {
    if p.len() > 0 && p[0] == '@' && p.contains(':') && !(p.len() > 1 && p[1] == ':') {
        PatternKind::User
    } else if !p.contains(':') && !(p.len() > 0 && p[0] == '@') {
        PatternKind::Server
    } else {
        PatternKind::Invalid
    }
}

/// Glob matching with `*` as the only wildcard: a `*` stands for any
/// sequence of characters (possibly empty); every other pattern character
/// matches exactly itself. The whole text must be covered.
pub open spec fn glob_matches(pat: Seq<char>, text: Seq<char>) -> bool
    decreases pat.len() + text.len(),
{
    if pat.len() == 0 {
        text.len() == 0
    } else if pat[0] == '*' {
        glob_matches(pat.skip(1), text) || (text.len() > 0 && glob_matches(pat, text.skip(1)))
    } else {
        text.len() > 0 && pat[0] == text[0] && glob_matches(pat.skip(1), text.skip(1))
    }
}

/// The origin server name embedded in a full user handle: everything after
/// the first `:`, or empty when the handle holds no `:`.
pub open spec fn server_of(user: Seq<char>) -> Seq<char>
    decreases user.len(),
{
    if user.len() == 0 {
        Seq::empty()
    } else if user[0] == ':' {
        user.skip(1)
    } else {
        server_of(user.skip(1))
    }
}

/// Whether an identity, given as its full handle, is matched by a pattern:
/// a user pattern is matched against the full handle, a server pattern
/// against the origin server name, and an invalid pattern matches nothing.
pub open spec fn entity_match(user: Seq<char>, pat: Seq<char>) -> bool {
    match classify_pattern(pat) {
        PatternKind::User => glob_matches(pat, user),
        PatternKind::Server => glob_matches(pat, server_of(user)),
        PatternKind::Invalid => false,
    }
}

/// Matching is pure: the result depends only on the handle text and the
/// pattern text, never on evaluation order or surrounding state.
pub proof fn lemma_match_pure(
    user1: Seq<char>,
    pat1: Seq<char>,
    user2: Seq<char>,
    pat2: Seq<char>,
)
    requires
        user1 == user2,
        pat1 == pat2,
    ensures
        entity_match(user1, pat1) == entity_match(user2, pat2),
{
}

/// Whether the character occurs in the vector.
fn contains_char(s: &Vec<char>, c: char) -> (r: bool)
    ensures
        r == s@.contains(c),
{
    let mut i: usize = 0;
    while i < s.len()
        invariant
            i <= s@.len(),
            forall|j: int| 0 <= j < i ==> s@[j] != c,
        decreases s@.len() - i,
    {
        if s[i] == c {
            return true;
        }
        i = i + 1;
    }
    false
}

/// Recursive glob matcher over the suffixes of `pat` and `text` starting at
/// `pi` and `ti`.
fn glob_match_at(pat: &Vec<char>, text: &Vec<char>, pi: usize, ti: usize) -> (r: bool)
    requires
        pi <= pat@.len(),
        ti <= text@.len(),
    ensures
        r == glob_matches(pat@.skip(pi as int), text@.skip(ti as int)),
    decreases pat@.len() - pi + text@.len() - ti,
{
    proof {
        if pi < pat@.len() {
            assert(pat@.skip(pi as int)[0] == pat@[pi as int]);
            assert(pat@.skip(pi as int).skip(1) =~= pat@.skip(pi + 1 as int));
        }
        if ti < text@.len() {
            assert(text@.skip(ti as int)[0] == text@[ti as int]);
            assert(text@.skip(ti as int).skip(1) =~= text@.skip(ti + 1 as int));
        }
    }
    if pi == pat.len() {
        ti == text.len()
    } else if pat[pi] == '*' {
        let skip_star = glob_match_at(pat, text, pi + 1, ti);
        if skip_star {
            true
        } else if ti < text.len() {
            glob_match_at(pat, text, pi, ti + 1)
        } else {
            false
        }
    } else {
        if ti < text.len() && pat[pi] == text[ti] {
            glob_match_at(pat, text, pi + 1, ti + 1)
        } else {
            false
        }
    }
}

/// Whether `pattern`, read as a glob with `*` wildcards, matches all of
/// `text`.
pub fn glob_match(pattern: &str, text: &str) -> (r: bool)
    ensures
        r == glob_matches(pattern@, text@),
{
    let p = chars_of(pattern);
    let t = chars_of(text);
    let r = glob_match_at(&p, &t, 0, 0);
    proof {
        assert(p@.skip(0) =~= p@);
        assert(t@.skip(0) =~= t@);
    }
    r
}

/// The origin server part of a user handle, as characters.
fn server_part(user: &Vec<char>) -> (s: Vec<char>)
    ensures
        s@ == server_of(user@),
{
    let mut i: usize = 0;
    proof {
        assert(user@.skip(0) =~= user@);
    }
    while i < user.len() && user[i] != ':'
        invariant
            i <= user@.len(),
            server_of(user@) == server_of(user@.skip(i as int)),
        decreases user@.len() - i,
    {
        proof {
            assert(user@.skip(i as int)[0] == user@[i as int]);
            assert(user@.skip(i as int).skip(1) =~= user@.skip(i + 1 as int));
        }
        i = i + 1;
    }
    let mut out: Vec<char> = Vec::new();
    if i == user.len() {
        assert(user@.skip(i as int) =~= Seq::<char>::empty());
        return out;
    }
    proof {
        assert(user@.skip(i as int)[0] == user@[i as int]);
        assert(user@.skip(i as int).skip(1) =~= user@.skip(i + 1 as int));
        assert(server_of(user@) == user@.skip(i + 1 as int));
    }
    let mut j: usize = i + 1;
    while j < user.len()
        invariant
            i + 1 <= j <= user@.len(),
            out@ == user@.subrange(i + 1 as int, j as int),
        decreases user@.len() - j,
    {
        out.push(user[j]);
        assert(user@.subrange(i + 1 as int, j + 1 as int) =~= user@.subrange(
            i + 1 as int,
            j as int,
        ).push(user@[j as int]));
        j = j + 1;
    }
    assert(out@ =~= user@.skip(i + 1 as int));
    out
}

/// Parses a rule entity: `Ok(false)` for a user pattern, `Ok(true)` for a
/// server pattern, and an error for a string that is neither, such as a
/// bare identifier containing `:` without a leading `@`, or a leading `@`
/// without any `:`.
pub fn is_entity_server(entity: &str) -> (r: Result<bool, PatternError>)
    ensures
        r is Ok <==> !(classify_pattern(entity@) is Invalid),
        r == Ok::<bool, PatternError>(true) <==> classify_pattern(entity@) is Server,
        r == Ok::<bool, PatternError>(false) <==> classify_pattern(entity@) is User,
{
    let cs = chars_of(entity);
    let has_colon = contains_char(&cs, ':');
    let starts_at = cs.len() > 0 && cs[0] == '@';
    let starts_at_colon = cs.len() > 1 && cs[0] == '@' && cs[1] == ':';
    if starts_at && has_colon && !starts_at_colon {
        Ok(false)
    } else if !has_colon && !starts_at {
        Ok(true)
    } else {
        Err(PatternError::InvalidEntity)
    }
}

/// Checks a user handle against a rule entity pattern. Fails exactly on
/// invalid patterns; otherwise reports whether the pattern matches the
/// handle (user pattern) or its origin server name (server pattern).
pub fn is_match_entity(user_id: &str, entity: &str) -> (r: Result<bool, PatternError>)
    ensures
        r is Ok <==> !(classify_pattern(entity@) is Invalid),
        r is Ok ==> r->Ok_0 == entity_match(user_id@, entity@),
{
    match is_entity_server(entity) {
        Err(e) => Err(e),
        Ok(true) => {
            let u = chars_of(user_id);
            let server = server_part(&u);
            let p = chars_of(entity);
            let r = glob_match_at(&p, &server, 0, 0);
            proof {
                assert(p@.skip(0) =~= p@);
                assert(server@.skip(0) =~= server@);
            }
            Ok(r)
        },
        Ok(false) => Ok(glob_match(entity, user_id)),
    }
}

} // verus!
