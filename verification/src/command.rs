//! Command tokenization and dispatch decisions.
//!
//! A message whose body begins with the configured command prefix is split
//! into whitespace-separated tokens; the token after the prefix is the base
//! command. A message without a base command token — a bare prefix — asks
//! for the static help text, as does `help`; `ban` and `mute` write a rule
//! for `<list> <entity> [reason]`, replying with an arity error when the
//! argument count is wrong and with the pattern error when the entity is
//! invalid, applying nothing in either case; anything else is unknown.
//! Carrying the decision out — sending replies, writing the rule,
//! retroactive enforcement — is the caller's business; this module only
//! decides.

use vstd::prelude::*;

use crate::entity::{classify_pattern, is_entity_server, PatternError};
use crate::rules::Action;
use crate::text::{str_eq, str_starts_with, views_of_strings};

verus! {

/// The pieces of `s` between occurrences of `sep`, in order; empty pieces
/// are kept, and a string without the separator is one piece.
pub open spec fn split_char(s: Seq<char>, sep: char) -> Seq<Seq<char>>
    decreases s.len(),
{
    if s.len() == 0 {
        seq![Seq::<char>::empty()]
    } else if s[0] == sep {
        seq![Seq::<char>::empty()] + split_char(s.skip(1), sep)
    } else {
        let rest = split_char(s.skip(1), sep);
        seq![seq![s[0]] + rest[0]] + rest.skip(1)
    }
}

/// Splitting a string whose first separator stands at `i` yields the piece
/// before `i` followed by the split of what stands after it.
proof fn lemma_split_at_first(s: Seq<char>, sep: char, i: int)
    requires
        0 <= i <= s.len(),
        forall|k: int| 0 <= k < i ==> s[k] != sep,
        i < s.len() ==> s[i] == sep,
    ensures
        i < s.len() ==> split_char(s, sep) == seq![s.take(i)] + split_char(s.skip(i + 1), sep),
        i == s.len() ==> split_char(s, sep) == seq![s],
    decreases i,
{
    if s.len() == 0 {
        assert(s =~= Seq::<char>::empty());
        assert(split_char(s, sep) =~= seq![s]);
    } else if i == 0 {
        if i < s.len() {
            assert(s.take(0) =~= Seq::<char>::empty());
        } else {
            assert(split_char(s, sep) =~= seq![s]);
        }
    } else {
        let t = s.skip(1);
        assert(forall|k: int| 0 <= k < t.len() ==> t[k] == s[k + 1]);
        lemma_split_at_first(t, sep, i - 1);
        let rest = split_char(t, sep);
        if i < s.len() {
            assert(rest == seq![t.take(i - 1)] + split_char(t.skip(i), sep));
            assert(rest[0] == t.take(i - 1));
            assert(seq![s[0]] + t.take(i - 1) =~= s.take(i));
            assert(rest.skip(1) =~= split_char(t.skip(i), sep));
            assert(t.skip(i) =~= s.skip(i + 1));
            assert(split_char(s, sep) =~= seq![s.take(i)] + split_char(s.skip(i + 1), sep));
        } else {
            assert(rest == seq![t]);
            assert(rest[0] == t);
            assert(seq![s[0]] + t =~= s);
            assert(rest.skip(1) =~= Seq::<Seq<char>>::empty());
            assert(split_char(s, sep) =~= seq![s]);
        }
    }
}

/// Splits a string on a separator character, keeping empty pieces.
pub fn split_str(s: &str, sep: char) -> (out: Vec<String>)
    ensures
        views_of_strings(out@) == split_char(s@, sep),
{
    let n = s.unicode_len();
    let mut out: Vec<String> = Vec::new();
    let mut pos: usize = 0;
    let mut j: usize = 0;
    proof {
        assert(views_of_strings(out@) =~= Seq::<Seq<char>>::empty());
        assert(s@.skip(0) =~= s@);
        assert(views_of_strings(out@) + split_char(s@, sep) =~= split_char(s@, sep));
    }
    while j < n
        invariant
            pos <= j <= n,
            n == s@.len(),
            views_of_strings(out@) + split_char(s@.skip(pos as int), sep) == split_char(s@, sep),
            forall|k: int| pos <= k < j ==> s@[k] != sep,
        decreases n - j,
    {
        let c = s.get_char(j);
        if c == sep {
            let ghost vs_old = views_of_strings(out@);
            let piece = s.substring_char(pos, j).to_owned();
            proof {
                lemma_split_at_first(s@.skip(pos as int), sep, j - pos as int);
                assert(s@.skip(pos as int).take(j - pos as int) =~= s@.subrange(
                    pos as int,
                    j as int,
                ));
                assert(s@.skip(pos as int).skip(j - pos + 1 as int) =~= s@.skip(j + 1 as int));
            }
            out.push(piece);
            proof {
                assert(views_of_strings(out@) =~= vs_old.push(piece@));
                assert(views_of_strings(out@) + split_char(s@.skip(j + 1 as int), sep) =~= vs_old
                    + split_char(s@.skip(pos as int), sep));
            }
            pos = j + 1;
        }
        j = j + 1;
    }
    let ghost vs_old = views_of_strings(out@);
    let piece = s.substring_char(pos, n).to_owned();
    proof {
        lemma_split_at_first(s@.skip(pos as int), sep, n - pos as int);
        assert(s@.skip(pos as int) =~= s@.subrange(pos as int, n as int));
    }
    out.push(piece);
    proof {
        assert(views_of_strings(out@) =~= vs_old.push(piece@));
        assert(views_of_strings(out@) =~= split_char(s@, sep));
    }
    out
}

/// The token sequence of a command message: nothing when the body does not
/// begin with the command prefix; otherwise the body split on spaces, with
/// a one-character prefix split off the first token into a token of its
/// own, so that the token after the prefix is always the base command.
pub open spec fn tokenize_spec(body: Seq<char>, prefix: Seq<char>) -> Option<Seq<Seq<char>>> {
    if !prefix.is_prefix_of(body) {
        None
    } else {
        let words = split_char(body, ' ');
        if prefix.len() == 1 {
            if words[0].len() >= 1 {
                Some(seq![prefix, words[0].skip(1)] + words.skip(1))
            } else {
                Some(seq![prefix] + words)
            }
        } else {
            Some(words)
        }
    }
}

/// Tokenizes a message body against the command prefix, per
/// [`tokenize_spec`].
pub fn tokenize_command(body: &str, prefix: &str) -> (r: Option<Vec<String>>)
    ensures
        r is Some <==> prefix@.is_prefix_of(body@),
        r is Some ==> tokenize_spec(body@, prefix@) == Some(views_of_strings(r->0@)),
{
    if !str_starts_with(body, prefix) {
        return None;
    }
    let mut words = split_str(body, ' ');
    if prefix.unicode_len() == 1 {
        let ghost words_old = words@;
        let w0 = words.remove(0);
        proof {
            assert(words_old.remove(0) =~= words_old.skip(1));
            assert(views_of_strings(words@) =~= views_of_strings(words_old).skip(1));
        }
        let w0_len = w0.as_str().unicode_len();
        if w0_len >= 1 {
            let stripped = w0.as_str().substring_char(1, w0_len).to_owned();
            proof {
                assert(stripped@ =~= w0@.skip(1));
            }
            words.insert(0, stripped);
        } else {
            words.insert(0, w0);
        }
        words.insert(0, prefix.to_owned());
        proof {
            assert(views_of_strings(words@) =~= tokenize_spec(body@, prefix@)->0);
        }
        Some(words)
    } else {
        Some(words)
    }
}

/// The decision taken for a tokenized command.
#[derive(Debug)]
pub enum CommandDecision {
    /// Send the static help text (also the answer to a bare prefix).
    Help,
    /// Write or overwrite a rule, then apply it retroactively.
    SetRule {
        /// The action of the new rule.
        action: Action,
        /// Shortcode of the rule list to write to.
        list: String,
        /// The entity pattern the rule applies to.
        entity: String,
        /// Optional reason, echoed into the rule.
        reason: Option<String>,
    },
    /// A recognized write command invoked with the wrong number of
    /// arguments: reply with an error, apply nothing.
    InvalidArity,
    /// A recognized write command whose entity is not a valid pattern:
    /// reply with the pattern error, write and apply nothing.
    InvalidEntity {
        /// The error to report to the sender.
        error: PatternError,
    },
    /// An unrecognized base command: reply with a hint.
    Unknown,
}

/// Decides what a tokenized command asks for: fewer than two tokens, an
/// empty base token (a bare prefix) and `help` all ask for help; `ban` and
/// `mute` with arguments `<list> <entity> [reason]` write a rule of that
/// action, or report wrong arity or an invalid entity pattern; any other
/// base command is unknown.
pub fn parse_command(tokens: &Vec<String>) -> (r: CommandDecision)
    ensures
        ({
            let ts = views_of_strings(tokens@);
            &&& ts.len() < 2 ==> r is Help
            &&& ts.len() >= 2 ==> {
                let base = ts[1];
                if base.len() == 0 || base == "help"@ {
                    r is Help
                } else if base == "ban"@ || base == "mute"@ {
                    let act = if base == "ban"@ {
                        Action::Ban
                    } else {
                        Action::Mute
                    };
                    if ts.len() == 4 || ts.len() == 5 {
                        if classify_pattern(ts[3]) is Invalid {
                            r matches CommandDecision::InvalidEntity { error } && error
                                is InvalidEntity
                        } else if ts.len() == 4 {
                            r matches CommandDecision::SetRule { action, list, entity, reason }
                                && action == act && list@ == ts[2] && entity@ == ts[3] && reason
                                is None
                        } else {
                            r matches CommandDecision::SetRule { action, list, entity, reason }
                                && action == act && list@ == ts[2] && entity@ == ts[3] && (
                            reason matches Some(re) && re@ == ts[4])
                        }
                    } else {
                        r is InvalidArity
                    }
                } else {
                    r is Unknown
                }
            }
        }),
{
    if tokens.len() < 2 {
        return CommandDecision::Help;
    }
    let base = tokens[1].as_str();
    if base.is_empty() || str_eq(base, "help") {
        CommandDecision::Help
    } else if str_eq(base, "ban") || str_eq(base, "mute") {
        let action = if str_eq(base, "ban") {
            Action::Ban
        } else {
            Action::Mute
        };
        if tokens.len() == 4 || tokens.len() == 5 {
            match is_entity_server(tokens[3].as_str()) {
                Err(error) => CommandDecision::InvalidEntity { error },
                Ok(_) => {
                    if tokens.len() == 4 {
                        CommandDecision::SetRule {
                            action,
                            list: tokens[2].clone(),
                            entity: tokens[3].clone(),
                            reason: None,
                        }
                    } else {
                        CommandDecision::SetRule {
                            action,
                            list: tokens[2].clone(),
                            entity: tokens[3].clone(),
                            reason: Some(tokens[4].clone()),
                        }
                    }
                },
            }
        } else {
            CommandDecision::InvalidArity
        }
    } else {
        CommandDecision::Unknown
    }
}

} // verus!
