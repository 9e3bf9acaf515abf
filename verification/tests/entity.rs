use clobber::entity::{glob_match, is_entity_server, is_match_entity};
use clobber::rules::{is_match_rule, Action, RuleEventContent};

#[test]
fn test_rule_matching() {
    let user_id = "@foobar:badserver.tld";
    let glob_user_id = "@foobar:baz.badserver.tld";

    let full = RuleEventContent {
        action: Action::Ban,
        entity: String::from("@foobar:badserver.tld"),
        reason: Some(String::from("spam")),
    };

    let glob = RuleEventContent {
        action: Action::Ban,
        entity: String::from("@foo*:badserver.tld"),
        reason: Some(String::from("spam")),
    };

    let full_miss = RuleEventContent {
        action: Action::Ban,
        entity: String::from("@bob:badserver.tld"),
        reason: Some(String::from("spam")),
    };

    let glob_miss = RuleEventContent {
        action: Action::Ban,
        entity: String::from("@*bob:badserver.tld"),
        reason: Some(String::from("spam")),
    };

    let full_server = RuleEventContent {
        action: Action::Ban,
        entity: String::from("badserver.tld"),
        reason: Some(String::from("spam")),
    };

    let glob_subdomain = RuleEventContent {
        action: Action::Ban,
        entity: String::from("*.badserver.tld"),
        reason: Some(String::from("spam")),
    };

    let glob_server = RuleEventContent {
        action: Action::Ban,
        entity: String::from("*adserver.tld"),
        reason: Some(String::from("spam")),
    };

    let full_server_miss = RuleEventContent {
        action: Action::Ban,
        entity: String::from("goodserver.tld"),
        reason: Some(String::from("spam")),
    };

    let glob_subdomain_miss = RuleEventContent {
        action: Action::Ban,
        entity: String::from("*.goodserver.tld"),
        reason: Some(String::from("spam")),
    };

    let glob_server_miss = RuleEventContent {
        action: Action::Ban,
        entity: String::from("*goodserver.tld"),
        reason: Some(String::from("spam")),
    };
    assert!(is_match_rule(user_id, &full).unwrap());
    assert!(is_match_rule(user_id, &glob).unwrap());
    assert!(!is_match_rule(user_id, &full_miss).unwrap());
    assert!(!is_match_rule(user_id, &glob_miss).unwrap());
    assert!(is_match_rule(user_id, &full_server).unwrap());
    assert!(is_match_rule(glob_user_id, &glob_subdomain).unwrap());
    assert!(is_match_rule(user_id, &glob_server).unwrap());
    assert!(!is_match_rule(user_id, &full_server_miss).unwrap());
    assert!(!is_match_rule(user_id, &glob_server_miss).unwrap());
    assert!(!is_match_rule(glob_user_id, &glob_subdomain_miss).unwrap());
}

#[test]
fn test_entity_parsing() {
    let user1 = "@user:domain.tld";
    let user2 = "@*:domain.tld";
    let user3 = "@user*:domain.tld";
    let user4 = "@user:*.domain.tld";

    let server1 = "domain.tld";
    let server2 = "*.domain.tld";
    let server3 = "domain*.tld";
    let server4 = "*.tld";
    let server5 = "tld";

    let invalid1 = "user:domain.tld";
    let invalid2 = "domain.tld:8448";

    assert!(!is_entity_server(user1).unwrap());
    assert!(!is_entity_server(user2).unwrap());
    assert!(!is_entity_server(user3).unwrap());
    assert!(!is_entity_server(user4).unwrap());

    assert!(is_entity_server(server1).unwrap());
    assert!(is_entity_server(server2).unwrap());
    assert!(is_entity_server(server3).unwrap());
    assert!(is_entity_server(server4).unwrap());
    assert!(is_entity_server(server5).unwrap());

    assert_eq!(
        is_entity_server(invalid1).unwrap_err().message(),
        "Not a valid entity"
    );
    assert_eq!(
        is_entity_server(invalid2).unwrap_err().message(),
        "Not a valid entity"
    );
}

#[test]
fn test_user_pattern_examples() {
    assert!(is_match_entity("@foobar:badserver.tld", "@foo*:badserver.tld").unwrap());
    assert!(is_match_entity("@foobaz:badserver.tld", "@foo*:badserver.tld").unwrap());
    assert!(!is_match_entity("@bob:badserver.tld", "@foo*:badserver.tld").unwrap());
}

#[test]
fn test_server_pattern_examples() {
    assert!(is_match_entity("@foobar:baz.badserver.tld", "*.badserver.tld").unwrap());
    assert!(is_match_entity("@foobar:badserver.tld", "badserver.tld").unwrap());
    assert!(!is_match_entity("@foobar:goodserver.tld", "badserver.tld").unwrap());
}

#[test]
fn test_leading_at_without_colon_is_invalid() {
    assert_eq!(
        is_entity_server("@user").unwrap_err().message(),
        "Not a valid entity"
    );
    assert!(is_entity_server("@").is_err());
    assert!(is_match_entity("@foobar:badserver.tld", "@foo*").is_err());
}

#[test]
fn test_match_invalid_pattern_is_error() {
    assert!(is_match_entity("@foobar:badserver.tld", "user:domain.tld").is_err());
    assert!(is_match_rule(
        "@foobar:badserver.tld",
        &RuleEventContent {
            entity: String::from("domain.tld:8448"),
            action: Action::Kick,
            reason: None,
        },
    )
    .is_err());
}

#[test]
fn test_glob_match_basics() {
    assert!(glob_match("", ""));
    assert!(!glob_match("", "a"));
    assert!(glob_match("*", ""));
    assert!(glob_match("*", "anything"));
    assert!(glob_match("a*c", "abc"));
    assert!(glob_match("a*c", "ac"));
    assert!(!glob_match("a*c", "ab"));
    assert!(glob_match("*a*", "banana"));
    assert!(!glob_match("A", "a"));
    assert!(glob_match("**", "x"));
}

#[test]
fn test_server_name_with_port() {
    assert!(is_match_entity("@clobber:localhost:6167", "localhost:*").is_err());
    assert!(is_match_entity("@clobber:localhost:6167", "localhost*").unwrap());
    assert!(!is_match_entity("@clobber:localhost:6167", "localhost").unwrap());
}
