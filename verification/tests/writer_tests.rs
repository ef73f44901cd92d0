use kfs_squid_editor::model::{
    AccessAction, AccessRule, Acl, AclRef, AclType, DirectRule, SquidConfig,
};
use kfs_squid_editor::parser;
use kfs_squid_editor::writer::write_config;

#[test]
fn roundtrip_basic() {
    let input = r#"auth_param basic program /usr/lib/squid/basic_ncsa_auth /etc/squid/passwords
auth_param basic children 5
auth_param basic realm Squid Proxy
auth_param basic credentialsttl 2 hours

acl localnet src 10.0.0.0/8 172.16.0.0/12 192.168.0.0/16
acl SSL_ports port 443
acl blocked dstdomain -i .facebook.com .twitter.com

http_access deny blocked
http_access allow localnet
http_access deny all

always_direct allow localnet

never_direct allow !localnet
"#;
    let config = parser::parse(input).unwrap();
    let output = write_config(&config);
    let reparsed = parser::parse(&output).unwrap();

    assert_eq!(config.acls.len(), reparsed.acls.len());
    assert_eq!(config.http_access.len(), reparsed.http_access.len());
    assert_eq!(config.always_direct.len(), reparsed.always_direct.len());
    assert_eq!(config.never_direct.len(), reparsed.never_direct.len());

    for (a, b) in config.acls.iter().zip(reparsed.acls.iter()) {
        assert_eq!(a.name, b.name);
        assert_eq!(a.acl_type, b.acl_type);
        assert_eq!(a.values, b.values);
        assert_eq!(a.case_insensitive, b.case_insensitive);
    }
}

#[test]
fn predefined_acls_not_written() {
    let mut config = SquidConfig::default();
    config.acls.push(Acl {
        name: "all".into(),
        acl_type: AclType::Src,
        case_insensitive: false,
        values: vec!["0.0.0.0/0".into()],
    });
    config.acls.push(Acl {
        name: "myacl".into(),
        acl_type: AclType::Src,
        case_insensitive: false,
        values: vec!["10.0.0.0/8".into()],
    });

    let output = write_config(&config);
    assert!(!output.contains("acl all"));
    assert!(output.contains("acl myacl"));
}

#[test]
fn empty_config() {
    let config = SquidConfig::default();
    let output = write_config(&config);
    assert_eq!(output.trim(), "");
}

fn rule(action: AccessAction, refs: &[(bool, &str)]) -> Vec<AclRef> {
    let _ = action;
    refs.iter()
        .map(|(n, s)| AclRef {
            negated: *n,
            name: s.to_string(),
        })
        .collect()
}

#[test]
fn written_text_exactly() {
    let mut config = SquidConfig::default();
    config.auth_param.realm = Some("Proxy".into());
    config.acls.push(Acl {
        name: "lan".into(),
        acl_type: AclType::Src,
        case_insensitive: false,
        values: vec!["10.0.0.0/8".into(), "192.168.0.0/16".into()],
    });
    config.acls.push(Acl {
        name: "bad".into(),
        acl_type: AclType::UrlRegex,
        case_insensitive: true,
        values: vec!["x".into()],
    });
    config.http_access.push(AccessRule {
        action: AccessAction::Deny,
        acl_refs: rule(AccessAction::Deny, &[(false, "bad")]),
    });
    config.http_access.push(AccessRule {
        action: AccessAction::Allow,
        acl_refs: rule(AccessAction::Allow, &[(false, "lan"), (true, "bad")]),
    });
    config.always_direct.push(DirectRule {
        action: AccessAction::Allow,
        acl_refs: rule(AccessAction::Allow, &[(false, "lan")]),
    });
    config.never_direct.push(DirectRule {
        action: AccessAction::Deny,
        acl_refs: rule(AccessAction::Deny, &[(true, "lan")]),
    });
    let out = write_config(&config);
    assert_eq!(
        out,
        "auth_param basic realm Proxy\n\n\
         acl lan src 10.0.0.0/8 192.168.0.0/16\n\
         acl bad url_regex -i x\n\n\
         http_access deny bad\n\
         http_access allow lan !bad\n\n\
         always_direct allow lan\n\n\
         never_direct deny !lan\n"
    );
}

#[test]
fn write_then_parse_gives_back_the_config() {
    let mut config = SquidConfig::default();
    config.auth_param.program = Some("/bin/auth --x".into());
    config.auth_param.children = Some("5".into());
    config.acls.push(Acl {
        name: "ports".into(),
        acl_type: AclType::Port,
        case_insensitive: false,
        values: vec!["80".into(), "443".into()],
    });
    config.http_access.push(AccessRule {
        action: AccessAction::Allow,
        acl_refs: rule(AccessAction::Allow, &[(true, "ports")]),
    });
    let back = parser::parse(&write_config(&config)).unwrap();
    assert_eq!(back.auth_param.program.as_deref(), Some("/bin/auth --x"));
    assert_eq!(back.auth_param.children.as_deref(), Some("5"));
    assert_eq!(back.acls.len(), 1);
    assert_eq!(back.acls[0].name, "ports");
    assert_eq!(back.acls[0].values, vec!["80", "443"]);
    assert_eq!(back.http_access[0].action, AccessAction::Allow);
    assert!(back.http_access[0].acl_refs[0].negated);
    assert_eq!(back.http_access[0].acl_refs[0].name, "ports");
}
