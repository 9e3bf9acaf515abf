use clobber::rules::{
    check_membership_event, make_rule, matching_members, resolve, rules_for, severity_rank,
    Action, MembershipKind, RuleEventContent, RuleList,
};

#[test]
fn test_resolve_most_severe_wins() {
    let rules = vec![
        RuleEventContent {
            entity: String::from("@x:spam.tld"),
            action: Action::Mute,
            reason: None,
        },
        RuleEventContent {
            entity: String::from("@x:spam.tld"),
            action: Action::Ban,
            reason: None,
        },
    ];
    let picked = resolve(&rules).unwrap();
    assert_eq!(picked.action, Action::Ban);
    assert_eq!(picked.entity, "@x:spam.tld");
}

#[test]
fn test_resolve_empty_returns_nothing() {
    let rules: Vec<RuleEventContent> = Vec::new();
    assert!(resolve(&rules).is_none());
}

#[test]
fn test_resolve_tie_keeps_first() {
    let rules = vec![
        RuleEventContent {
            entity: String::from("first"),
            action: Action::Kick,
            reason: None,
        },
        RuleEventContent {
            entity: String::from("second"),
            action: Action::Kick,
            reason: None,
        },
        RuleEventContent {
            entity: String::from("third"),
            action: Action::Mute,
            reason: None,
        },
    ];
    let picked = resolve(&rules).unwrap();
    assert_eq!(picked.entity, "first");
}

#[test]
fn test_severity_order() {
    assert!(severity_rank(Action::Ban) < severity_rank(Action::Kick));
    assert!(severity_rank(Action::Kick) < severity_rank(Action::Mute));
}

#[test]
fn test_rules_for_aggregates_in_source_order() {
    let source_a = vec![
        RuleEventContent {
            entity: String::from("*.evil.tld"),
            action: Action::Mute,
            reason: None,
        },
        RuleEventContent {
            entity: String::from("@other:good.tld"),
            action: Action::Ban,
            reason: None,
        },
    ];
    let source_b = vec![RuleEventContent {
        entity: String::from("@spam:*"),
        action: Action::Kick,
        reason: None,
    }];
    let out = rules_for("@spam:sub.evil.tld", vec![source_a, source_b]);
    assert_eq!(out.len(), 2);
    assert_eq!(out[0].entity, "*.evil.tld");
    assert_eq!(out[1].entity, "@spam:*");
}

#[test]
fn test_rules_for_skips_invalid_patterns() {
    let source = vec![
        RuleEventContent {
            entity: String::from("evil.tld:8448"),
            action: Action::Ban,
            reason: None,
        },
        RuleEventContent {
            entity: String::from("evil.tld"),
            action: Action::Kick,
            reason: None,
        },
    ];
    let out = rules_for("@spam:evil.tld", vec![source]);
    assert_eq!(out.len(), 1);
    assert_eq!(out[0].entity, "evil.tld");
}

#[test]
fn test_end_to_end_no_rule_no_action() {
    let sources: Vec<Vec<RuleEventContent>> = vec![Vec::new()];
    let picked = check_membership_event(&MembershipKind::Join, "@spam:evil.tld", sources);
    assert!(picked.is_none());
}

#[test]
fn test_end_to_end_ban_rule_applies() {
    let sources = vec![vec![RuleEventContent {
        entity: String::from("*.evil.tld"),
        action: Action::Ban,
        reason: Some(String::from("configured reason")),
    }]];
    let picked = check_membership_event(&MembershipKind::Join, "@spam:sub.evil.tld", sources)
        .unwrap();
    assert_eq!(picked.action, Action::Ban);
    assert_eq!(picked.reason.as_deref(), Some("configured reason"));
}

#[test]
fn test_unchecked_membership_does_nothing() {
    let sources = vec![vec![RuleEventContent {
        entity: String::from("*.evil.tld"),
        action: Action::Ban,
        reason: None,
    }]];
    let picked = check_membership_event(&MembershipKind::Leave, "@spam:sub.evil.tld", sources);
    assert!(picked.is_none());
}

#[test]
fn test_matching_members_filters() {
    let members = vec![
        String::from("@spam:evil.tld"),
        String::from("@good:good.tld"),
        String::from("@other:evil.tld"),
    ];
    let out = matching_members("evil.tld", members);
    assert_eq!(out, vec!["@spam:evil.tld", "@other:evil.tld"]);
}

#[test]
fn test_make_rule_carries_fields() {
    let rule = make_rule("*.evil.tld", Action::Ban, Some("spam"));
    assert_eq!(rule.entity, "*.evil.tld");
    assert_eq!(rule.action, Action::Ban);
    assert_eq!(rule.reason.as_deref(), Some("spam"));
    let bare = make_rule("@x:y.tld", Action::Mute, None);
    assert!(bare.reason.is_none());
}

#[test]
fn test_rule_list_fields() {
    let list = RuleList {
        shortcode: String::from("spam"),
        room: String::from("!roomid:domain.tld"),
    };
    assert_eq!(list.shortcode, "spam");
    assert_eq!(list.room, "!roomid:domain.tld");
}
