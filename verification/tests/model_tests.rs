use kfs_squid_editor::model::{AccessAction, AclRef, AclType, AuthParamBasic, SquidConfig};

#[test]
fn acl_type_roundtrip() {
    for t in &AclType::ALL {
        let s = t.to_string();
        let parsed: AclType = s.parse().unwrap();
        assert_eq!(&parsed, t);
    }
}

#[test]
fn acl_ref_display() {
    let r = AclRef {
        negated: false,
        name: "foo".into(),
    };
    assert_eq!(r.to_string(), "foo");
    let r = AclRef {
        negated: true,
        name: "bar".into(),
    };
    assert_eq!(r.to_string(), "!bar");
}

#[test]
fn access_action_roundtrip() {
    assert_eq!(
        "allow".parse::<AccessAction>().unwrap(),
        AccessAction::Allow
    );
    assert_eq!("Deny".parse::<AccessAction>().unwrap(), AccessAction::Deny);
}

#[test]
fn acl_type_names_ignore_case() {
    assert_eq!("SRC".parse::<AclType>().unwrap(), AclType::Src);
    assert_eq!("Snmp_Community".parse::<AclType>().unwrap(), AclType::Snmp);
    assert_eq!(AclType::Snmp.to_string(), "snmp_community");
}

#[test]
fn unknown_acl_type_is_refused() {
    assert_eq!(
        "bogus".parse::<AclType>().unwrap_err(),
        "unknown ACL type: bogus"
    );
}

#[test]
fn unknown_action_is_refused() {
    assert!("maybe".parse::<AccessAction>().is_err());
    assert_eq!(AccessAction::Deny.to_string(), "deny");
}

#[test]
fn every_acl_type_listed_once() {
    assert_eq!(AclType::ALL.len(), 23);
    for (i, a) in AclType::ALL.iter().enumerate() {
        for b in AclType::ALL.iter().skip(i + 1) {
            assert_ne!(a, b);
        }
    }
}

#[test]
fn auth_param_empty_until_set() {
    let mut a = AuthParamBasic::default();
    assert!(a.is_empty());
    a.realm = Some("Proxy".to_string());
    assert!(!a.is_empty());
}

#[test]
fn default_config_is_empty() {
    let c = SquidConfig::default();
    assert!(c.acls.is_empty());
    assert!(c.http_access.is_empty());
    assert!(c.always_direct.is_empty());
    assert!(c.never_direct.is_empty());
    assert!(c.auth_param.is_empty());
}

#[test]
fn copies_keep_the_values() {
    let r = AclRef {
        negated: true,
        name: "x".into(),
    };
    let c = r.clone();
    assert_eq!(c.name, "x");
    assert!(c.negated);
}

#[test]
fn keywords_are_distinct_and_read_back() {
    let names: Vec<String> = AclType::ALL.iter().map(|t| t.to_string()).collect();
    for (i, a) in names.iter().enumerate() {
        for b in names.iter().skip(i + 1) {
            assert_ne!(a, b);
        }
    }
    for a in [AccessAction::Allow, AccessAction::Deny] {
        assert_eq!(a.to_string().parse::<AccessAction>().unwrap(), a);
    }
}
