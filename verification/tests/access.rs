use upctl_svc::access::{
    is_admin_or_tester, is_system_admin, is_tester, HtyRole, HtyTag, HtyToken,
};

fn token(roles: &[Option<&str>], tags: &[Option<&str>]) -> HtyToken {
    HtyToken {
        roles: Some(
            roles.iter().map(|r| HtyRole { role_key: r.map(|k| k.to_string()) }).collect(),
        ),
        tags: Some(tags.iter().map(|t| HtyTag { tag_name: t.map(|n| n.to_string()) }).collect()),
    }
}

#[test]
fn administrators_are_known_by_role() {
    for key in ["ADMIN", "ROOT", "SYS_ADMIN"] {
        let t = token(&[None, Some("STUDENT"), Some(key)], &[]);
        assert!(is_system_admin(&t), "{}", key);
        assert!(!is_tester(&t));
        assert!(is_admin_or_tester(&t));
    }
}

#[test]
fn administrators_are_known_by_tag() {
    for name in ["SYS_ROOT", "SYS_ADMIN"] {
        let t = token(&[Some("STUDENT")], &[None, Some(name)]);
        assert!(is_system_admin(&t), "{}", name);
        assert!(is_admin_or_tester(&t));
    }
}

#[test]
fn roles_and_tags_are_not_mixed_up() {
    assert!(!is_system_admin(&token(&[Some("SYS_ROOT")], &[])));
    assert!(!is_system_admin(&token(&[], &[Some("ADMIN"), Some("ROOT")])));
    assert!(!is_tester(&token(&[], &[Some("TESTER")])));
    assert!(!is_system_admin(&token(&[Some("admin")], &[])));
}

#[test]
fn testers_are_known_by_role() {
    let t = token(&[Some("STUDENT"), Some("TESTER")], &[]);
    assert!(is_tester(&t));
    assert!(!is_system_admin(&t));
    assert!(is_admin_or_tester(&t));
}

#[test]
fn no_rights_without_roles_and_tags() {
    assert!(!is_admin_or_tester(&HtyToken { roles: None, tags: None }));
    assert!(!is_admin_or_tester(&token(&[], &[])));
    assert!(!is_admin_or_tester(&token(&[None], &[None])));
}
