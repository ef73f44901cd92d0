use kfs_squid_editor::model::{AccessAction, AclType};
use kfs_squid_editor::parser::parse;

#[test]
fn parse_basic_acls() {
    let input = r#"
acl localnet src 10.0.0.0/8
acl localnet src 172.16.0.0/12
acl localnet src 192.168.0.0/16
acl SSL_ports port 443
acl Safe_ports port 80 443 8080
acl CONNECT method CONNECT
acl blocked dstdomain .facebook.com .twitter.com
"#;
    let config = parse(input).unwrap();
    assert_eq!(config.acls.len(), 5);

    let localnet = &config.acls[0];
    assert_eq!(localnet.name, "localnet");
    assert_eq!(localnet.acl_type, AclType::Src);
    assert_eq!(
        localnet.values,
        vec!["10.0.0.0/8", "172.16.0.0/12", "192.168.0.0/16"]
    );

    let safe = &config.acls[2];
    assert_eq!(safe.name, "Safe_ports");
    assert_eq!(safe.values, vec!["80", "443", "8080"]);

    let blocked = &config.acls[4];
    assert_eq!(blocked.acl_type, AclType::DstDomain);
    assert_eq!(blocked.values, vec![".facebook.com", ".twitter.com"]);
}

#[test]
fn parse_case_insensitive_flag() {
    let input = "acl badurls url_regex -i /porn/\n";
    let config = parse(input).unwrap();
    assert!(config.acls[0].case_insensitive);
    assert_eq!(config.acls[0].values, vec!["/porn/"]);
}

#[test]
fn parse_http_access() {
    let input = r#"
acl localnet src 10.0.0.0/8
acl blocked dstdomain .evil.com
http_access deny blocked
http_access allow localnet
http_access deny all
"#;
    let config = parse(input).unwrap();
    assert_eq!(config.http_access.len(), 3);
    assert_eq!(config.http_access[0].action, AccessAction::Deny);
    assert_eq!(config.http_access[0].acl_refs[0].name, "blocked");
    assert!(!config.http_access[0].acl_refs[0].negated);
    assert_eq!(config.http_access[2].acl_refs[0].name, "all");
}

#[test]
fn parse_negated_acl_refs() {
    let input = "http_access allow localnet !blocked\n";
    let config = parse(input).unwrap();
    let rule = &config.http_access[0];
    assert_eq!(rule.acl_refs.len(), 2);
    assert!(!rule.acl_refs[0].negated);
    assert!(rule.acl_refs[1].negated);
    assert_eq!(rule.acl_refs[1].name, "blocked");
}

#[test]
fn parse_auth_param() {
    let input = r#"
auth_param basic program /usr/lib/squid/basic_ncsa_auth /etc/squid/passwords
auth_param basic children 5
auth_param basic realm Squid Proxy Auth
auth_param basic credentialsttl 2 hours
"#;
    let config = parse(input).unwrap();
    assert_eq!(
        config.auth_param.program.as_deref(),
        Some("/usr/lib/squid/basic_ncsa_auth /etc/squid/passwords")
    );
    assert_eq!(config.auth_param.children.as_deref(), Some("5"));
    assert_eq!(config.auth_param.realm.as_deref(), Some("Squid Proxy Auth"));
    assert_eq!(config.auth_param.credentialsttl.as_deref(), Some("2 hours"));
}

#[test]
fn parse_direct_rules() {
    let input = r#"
acl local dst 192.168.0.0/16
always_direct allow local
never_direct allow !local
"#;
    let config = parse(input).unwrap();
    assert_eq!(config.always_direct.len(), 1);
    assert_eq!(config.always_direct[0].action, AccessAction::Allow);
    assert_eq!(config.always_direct[0].acl_refs[0].name, "local");
    assert_eq!(config.never_direct.len(), 1);
    assert!(config.never_direct[0].acl_refs[0].negated);
}

#[test]
fn parse_comments_skipped() {
    let input = r#"
# This is a comment
acl foo src 1.2.3.4
  # Indented comment
http_access allow foo
"#;
    let config = parse(input).unwrap();
    assert_eq!(config.acls.len(), 1);
    assert_eq!(config.http_access.len(), 1);
}

#[test]
fn parse_type_mismatch_error() {
    let input = "acl foo src 1.2.3.4\nacl foo dst 5.6.7.8\n";
    let result = parse(input);
    assert!(result.is_err());
    let err = result.unwrap_err();
    assert_eq!(err.line, 2);
    assert!(err.message.contains("different type"));
}

#[test]
fn type_mismatch_message_names_both_types() {
    let err = parse("acl foo src 1.2.3.4\nacl foo dst 5.6.7.8\n").unwrap_err();
    assert_eq!(
        err.message,
        "ACL 'foo' redefined with different type (src vs dst)"
    );
    assert_eq!(err.to_string(), "line 2: ACL 'foo' redefined with different type (src vs dst)");
}

#[test]
fn short_acl_line_is_refused() {
    let err = parse("\nacl foo src\n").unwrap_err();
    assert_eq!(err.line, 2);
    assert_eq!(err.message, "acl requires at least: acl <name> <type> <value>");
}

#[test]
fn unknown_acl_type_line_is_refused() {
    let err = parse("acl foo bogus 1\n").unwrap_err();
    assert_eq!(err.line, 1);
    assert_eq!(err.message, "unknown ACL type: bogus");
}

#[test]
fn short_access_line_is_refused() {
    let err = parse("http_access allow\n").unwrap_err();
    assert_eq!(
        err.message,
        "http_access requires: http_access allow|deny <acl> ..."
    );
}

#[test]
fn unknown_action_line_is_refused() {
    let err = parse("http_access maybe all\n").unwrap_err();
    assert_eq!(err.line, 1);
    assert!(err.message.contains("maybe"));
}

#[test]
fn short_direct_line_is_refused() {
    let err = parse("never_direct deny\n").unwrap_err();
    assert_eq!(
        err.message,
        "never_direct requires: never_direct allow|deny <acl> ..."
    );
}

#[test]
fn short_auth_lines_are_refused() {
    let err = parse("auth_param basic\n").unwrap_err();
    assert_eq!(
        err.message,
        "auth_param requires: auth_param basic <directive> <value>"
    );
    let err = parse("auth_param basic realm\n").unwrap_err();
    assert_eq!(err.message, "auth_param basic requires a directive and value");
}

#[test]
fn repeated_acl_lines_merge() {
    let config = parse("acl a dstdomain x\nacl a dstdomain -i y\n").unwrap();
    assert_eq!(config.acls.len(), 1);
    assert_eq!(config.acls[0].values, vec!["x", "y"]);
    assert!(config.acls[0].case_insensitive);
}

#[test]
fn unknown_directives_are_ignored() {
    let config = parse("http_port 3128\ncache_dir ufs /var 100 16 256\n").unwrap();
    assert!(config.acls.is_empty());
    assert!(config.http_access.is_empty());
}

#[test]
fn windows_line_endings_are_read() {
    let config = parse("acl a src 1.2.3.4\r\nhttp_access deny a\r\n").unwrap();
    assert_eq!(config.acls[0].values, vec!["1.2.3.4"]);
    assert_eq!(config.http_access[0].acl_refs[0].name, "a");
}

#[test]
fn auth_value_starts_at_first_occurrence_of_its_word() {
    // The value is taken from where its first word first occurs in the line.
    let config = parse("auth_param basic realm a\n").unwrap();
    assert_eq!(config.auth_param.realm.as_deref(), Some("auth_param basic realm a"));
    let config = parse("auth_param basic children 5 more\n").unwrap();
    assert_eq!(config.auth_param.children.as_deref(), Some("5"));
}

#[test]
fn other_auth_schemes_are_ignored() {
    let config = parse("auth_param digest realm x\n").unwrap();
    assert!(config.auth_param.is_empty());
}

#[test]
fn skipped_lines_change_nothing_but_line_numbers() {
    let a = "acl a src 1.2.3.4\n";
    let b = "http_access allow a\nacl a dst 5.6.7.8\n";
    for l in ["", "   ", "# note", "cache_mem 64 MB", "  \t# x\r"] {
        let with = parse(&format!("{a}{l}\n{b}")).unwrap_err();
        let without = parse(&format!("{a}{b}")).unwrap_err();
        assert_eq!(with.message, without.message);
        assert_eq!(with.line, without.line + 1);
    }
    let ok_with = parse(&format!("{a}# c\nhttp_access deny a\n")).unwrap();
    let ok_without = parse(&format!("{a}http_access deny a\n")).unwrap();
    assert_eq!(ok_with.acls.len(), ok_without.acls.len());
    assert_eq!(ok_with.http_access.len(), ok_without.http_access.len());
}
