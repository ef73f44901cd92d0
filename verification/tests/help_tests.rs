use kfs_squid_editor::help::{help_for_acl_type, help_for_screen};
use kfs_squid_editor::model::AclType;

#[test]
fn acl_type_help_texts() {
    assert_eq!(
        help_for_acl_type(&AclType::Src),
        "Match client source IP addresses.\nValues: IP, CIDR (10.0.0.0/8), or ranges.\nExample: 192.168.1.0/24"
    );
    assert_eq!(
        help_for_acl_type(&AclType::Snmp),
        "Match SNMP community string.\nValues: community strings.\nExample: public"
    );
    for t in &AclType::ALL {
        assert!(help_for_acl_type(t).contains("Example: "));
    }
}

#[test]
fn screen_help_texts() {
    assert!(help_for_screen("acl_list").starts_with("ACCESS CONTROL LISTS (ACLs)\n\n"));
    assert!(help_for_screen("access_list").len() > 0);
    assert!(help_for_screen("auth").len() > 0);
    assert!(help_for_screen("direct").ends_with("  Tab   - Switch between always/never sections\n"));
    assert_eq!(help_for_screen("nowhere"), "No help available for this screen.");
}

#[test]
fn acl_type_help_texts_are_distinct() {
    for (i, a) in AclType::ALL.iter().enumerate() {
        for b in AclType::ALL.iter().skip(i + 1) {
            assert_ne!(help_for_acl_type(a), help_for_acl_type(b));
        }
    }
    assert!(help_for_acl_type(&AclType::Time).contains("MTWHFAS HH:MM-HH:MM"));
}
