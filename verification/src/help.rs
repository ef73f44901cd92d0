//! Help texts for the ACL types and the editor's screens.
use vstd::prelude::*;

use crate::model::AclType;
use crate::text::{chars_of, occurs_in, vec_eq_str};

verus! {

/// What an ACL of type `t` matches, with an example.
pub open spec fn acl_type_help(t: AclType) -> Seq<char> {
    match t {
        AclType::Src => "Match client source IP addresses.\nValues: IP, CIDR (10.0.0.0/8), or ranges.\nExample: 192.168.1.0/24"@,
        AclType::Dst => "Match destination server IP addresses.\nValues: IP, CIDR notation.\nExample: 172.16.0.0/12"@,
        AclType::SrcDomain => "Match client source domain (reverse DNS).\nValues: domain names, prefix with . for subdomains.\nExample: .internal.corp"@,
        AclType::DstDomain => "Match destination domain from the URL.\nValues: domain names, prefix with . for subdomains.\nExample: .example.com"@,
        AclType::SrcDomRegex => "Match client domain using regex.\nValues: regular expressions.\nExample: ^client.*\\.corp$"@,
        AclType::DstDomRegex => "Match destination domain using regex.\nValues: regular expressions.\nExample: .*\\.ads\\..*"@,
        AclType::UrlRegex => "Match the full request URL using regex.\nValues: regular expressions (case-sensitive by default, use -i flag).\nExample: ^https://.*\\.exe$"@,
        AclType::UrlPathRegex => "Match only the URL path (not domain) using regex.\nValues: regular expressions.\nExample: /downloads/.*\\.zip$"@,
        AclType::Port => "Match destination port number.\nValues: port numbers or ranges (hyphen-separated).\nExample: 443 8080 1025-65535"@,
        AclType::Proto => "Match request protocol.\nValues: http, ftp, https.\nExample: http ftp"@,
        AclType::Method => "Match HTTP request method.\nValues: GET, POST, PUT, DELETE, CONNECT, etc.\nExample: CONNECT POST"@,
        AclType::Time => "Match requests by day and time.\nFormat: MTWHFAS HH:MM-HH:MM\nDays: M=Mon T=Tue W=Wed H=Thu F=Fri A=Sat S=Sun\nExample: MTWHF 08:00-17:00"@,
        AclType::Arp => "Match client MAC/ethernet address.\nValues: MAC addresses in XX:XX:XX:XX:XX:XX format.\nNote: Only works on local network (Linux/BSD).\nExample: 00:11:22:33:44:55"@,
        AclType::MyIp => "Match the local IP address the client connected to.\nValues: IP addresses.\nExample: 192.168.1.1"@,
        AclType::MyPort => "Match the local port the client connected to.\nValues: port numbers.\nExample: 3128 8080"@,
        AclType::ProxyAuth => "Match authenticated username.\nValues: usernames, or REQUIRED to force authentication.\nRequires auth_param configuration.\nExample: REQUIRED"@,
        AclType::Browser => "Match User-Agent header using regex.\nValues: regular expressions (case-sensitive).\nExample: Mozilla/.*Firefox"@,
        AclType::RefererRegex => "Match HTTP Referer header using regex.\nValues: regular expressions.\nExample: ^https://suspicious\\.site/"@,
        AclType::ReqMimeType => "Match request Content-Type (for uploads).\nValues: MIME type patterns.\nExample: application/x-executable"@,
        AclType::RepMimeType => "Match response Content-Type.\nValues: MIME type patterns.\nExample: video/mp4 audio/mpeg"@,
        AclType::MaxConn => "Match when client exceeds N connections.\nValues: connection count (single number).\nExample: 10"@,
        AclType::External => "Match using an external ACL helper program.\nValues: helper class name and arguments.\nExample: my_helper %SRC"@,
        AclType::Snmp => "Match SNMP community string.\nValues: community strings.\nExample: public"@,
    }
}

/// The length of the help text of `t`.
spec fn help_len(t: AclType) -> nat {
    match t {
        AclType::Src => 99,
        AclType::Dst => 88,
        AclType::SrcDomain => 117,
        AclType::DstDomain => 112,
        AclType::SrcDomRegex => 87,
        AclType::DstDomRegex => 87,
        AclType::UrlRegex => 136,
        AclType::UrlPathRegex => 107,
        AclType::Port => 110,
        AclType::Proto => 67,
        AclType::Method => 94,
        AclType::Time => 134,
        AclType::Arp => 159,
        AclType::MyIp => 94,
        AclType::MyPort => 86,
        AclType::ProxyAuth => 138,
        AclType::Browser => 109,
        AclType::RefererRegex => 103,
        AclType::ReqMimeType => 103,
        AclType::RepMimeType => 86,
        AclType::MaxConn => 94,
        AclType::External => 108,
        AclType::Snmp => 71,
    }
}

/// Where "Example:" starts in the help text of `t`.
spec fn example_at(t: AclType) -> int {
    match t {
        AclType::Src => 76,
        AclType::Dst => 66,
        AclType::SrcDomain => 94,
        AclType::DstDomain => 91,
        AclType::SrcDomRegex => 62,
        AclType::DstDomRegex => 67,
        AclType::UrlRegex => 110,
        AclType::UrlPathRegex => 79,
        AclType::Port => 82,
        AclType::Proto => 50,
        AclType::Method => 73,
        AclType::Time => 108,
        AclType::Arp => 133,
        AclType::MyIp => 74,
        AclType::MyPort => 68,
        AclType::ProxyAuth => 121,
        AclType::Browser => 83,
        AclType::RefererRegex => 68,
        AclType::ReqMimeType => 70,
        AclType::RepMimeType => 57,
        AclType::MaxConn => 83,
        AclType::External => 85,
        AclType::Snmp => 56,
    }
}

/// The length of each help text and where its example starts.
proof fn lemma_help_text(t: AclType)
    ensures
        acl_type_help(t).len() == help_len(t),
        0 <= example_at(t),
        example_at(t) + 8 <= help_len(t),
        acl_type_help(t).subrange(example_at(t), example_at(t) + 8) == "Example:"@,
{
    reveal_strlit("Example:");
    match t {
        AclType::Src => {
            reveal_strlit("Match client source IP addresses.\nValues: IP, CIDR (10.0.0.0/8), or ranges.\nExample: 192.168.1.0/24");
        },
        AclType::Dst => {
            reveal_strlit("Match destination server IP addresses.\nValues: IP, CIDR notation.\nExample: 172.16.0.0/12");
        },
        AclType::SrcDomain => {
            reveal_strlit("Match client source domain (reverse DNS).\nValues: domain names, prefix with . for subdomains.\nExample: .internal.corp");
        },
        AclType::DstDomain => {
            reveal_strlit("Match destination domain from the URL.\nValues: domain names, prefix with . for subdomains.\nExample: .example.com");
        },
        AclType::SrcDomRegex => {
            reveal_strlit("Match client domain using regex.\nValues: regular expressions.\nExample: ^client.*\\.corp$");
        },
        AclType::DstDomRegex => {
            reveal_strlit("Match destination domain using regex.\nValues: regular expressions.\nExample: .*\\.ads\\..*");
        },
        AclType::UrlRegex => {
            reveal_strlit("Match the full request URL using regex.\nValues: regular expressions (case-sensitive by default, use -i flag).\nExample: ^https://.*\\.exe$");
        },
        AclType::UrlPathRegex => {
            reveal_strlit("Match only the URL path (not domain) using regex.\nValues: regular expressions.\nExample: /downloads/.*\\.zip$");
        },
        AclType::Port => {
            reveal_strlit("Match destination port number.\nValues: port numbers or ranges (hyphen-separated).\nExample: 443 8080 1025-65535");
        },
        AclType::Proto => {
            reveal_strlit("Match request protocol.\nValues: http, ftp, https.\nExample: http ftp");
        },
        AclType::Method => {
            reveal_strlit("Match HTTP request method.\nValues: GET, POST, PUT, DELETE, CONNECT, etc.\nExample: CONNECT POST");
        },
        AclType::Time => {
            reveal_strlit("Match requests by day and time.\nFormat: MTWHFAS HH:MM-HH:MM\nDays: M=Mon T=Tue W=Wed H=Thu F=Fri A=Sat S=Sun\nExample: MTWHF 08:00-17:00");
        },
        AclType::Arp => {
            reveal_strlit("Match client MAC/ethernet address.\nValues: MAC addresses in XX:XX:XX:XX:XX:XX format.\nNote: Only works on local network (Linux/BSD).\nExample: 00:11:22:33:44:55");
        },
        AclType::MyIp => {
            reveal_strlit("Match the local IP address the client connected to.\nValues: IP addresses.\nExample: 192.168.1.1");
        },
        AclType::MyPort => {
            reveal_strlit("Match the local port the client connected to.\nValues: port numbers.\nExample: 3128 8080");
        },
        AclType::ProxyAuth => {
            reveal_strlit("Match authenticated username.\nValues: usernames, or REQUIRED to force authentication.\nRequires auth_param configuration.\nExample: REQUIRED");
        },
        AclType::Browser => {
            reveal_strlit("Match User-Agent header using regex.\nValues: regular expressions (case-sensitive).\nExample: Mozilla/.*Firefox");
        },
        AclType::RefererRegex => {
            reveal_strlit("Match HTTP Referer header using regex.\nValues: regular expressions.\nExample: ^https://suspicious\\.site/");
        },
        AclType::ReqMimeType => {
            reveal_strlit("Match request Content-Type (for uploads).\nValues: MIME type patterns.\nExample: application/x-executable");
        },
        AclType::RepMimeType => {
            reveal_strlit("Match response Content-Type.\nValues: MIME type patterns.\nExample: video/mp4 audio/mpeg");
        },
        AclType::MaxConn => {
            reveal_strlit("Match when client exceeds N connections.\nValues: connection count (single number).\nExample: 10");
        },
        AclType::External => {
            reveal_strlit("Match using an external ACL helper program.\nValues: helper class name and arguments.\nExample: my_helper %SRC");
        },
        AclType::Snmp => {
            reveal_strlit("Match SNMP community string.\nValues: community strings.\nExample: public");
        },
    }
    assert(acl_type_help(t).subrange(example_at(t), example_at(t) + 8) =~= "Example:"@);
}

/// Every ACL type's help text gives an example, and no two types share a
/// help text.
pub proof fn law_acl_type_help(a: AclType, b: AclType)
    ensures
        occurs_in("Example:"@, acl_type_help(a)),
        a != b ==> acl_type_help(a) != acl_type_help(b),
{
    lemma_help_text(a);
    lemma_help_text(b);
    reveal_strlit("Example:");
    let h = acl_type_help(a);
    let i = example_at(a);
    assert(h.subrange(i, i + "Example:"@.len()) == "Example:"@);
    if a == AclType::SrcDomRegex && b == AclType::DstDomRegex || a == AclType::DstDomRegex && b == AclType::SrcDomRegex {
        reveal_strlit("Match client domain using regex.\nValues: regular expressions.\nExample: ^client.*\\.corp$");
        reveal_strlit("Match destination domain using regex.\nValues: regular expressions.\nExample: .*\\.ads\\..*");
        assert(acl_type_help(AclType::SrcDomRegex)[6] != acl_type_help(AclType::DstDomRegex)[6]);
    }
    if a == AclType::Method && b == AclType::MyIp || a == AclType::MyIp && b == AclType::Method {
        reveal_strlit("Match HTTP request method.\nValues: GET, POST, PUT, DELETE, CONNECT, etc.\nExample: CONNECT POST");
        reveal_strlit("Match the local IP address the client connected to.\nValues: IP addresses.\nExample: 192.168.1.1");
        assert(acl_type_help(AclType::Method)[6] != acl_type_help(AclType::MyIp)[6]);
    }
    if a == AclType::Method && b == AclType::MaxConn || a == AclType::MaxConn && b == AclType::Method {
        reveal_strlit("Match HTTP request method.\nValues: GET, POST, PUT, DELETE, CONNECT, etc.\nExample: CONNECT POST");
        reveal_strlit("Match when client exceeds N connections.\nValues: connection count (single number).\nExample: 10");
        assert(acl_type_help(AclType::Method)[6] != acl_type_help(AclType::MaxConn)[6]);
    }
    if a == AclType::MyIp && b == AclType::MaxConn || a == AclType::MaxConn && b == AclType::MyIp {
        reveal_strlit("Match the local IP address the client connected to.\nValues: IP addresses.\nExample: 192.168.1.1");
        reveal_strlit("Match when client exceeds N connections.\nValues: connection count (single number).\nExample: 10");
        assert(acl_type_help(AclType::MyIp)[6] != acl_type_help(AclType::MaxConn)[6]);
    }
    if a == AclType::MyPort && b == AclType::RepMimeType || a == AclType::RepMimeType && b == AclType::MyPort {
        reveal_strlit("Match the local port the client connected to.\nValues: port numbers.\nExample: 3128 8080");
        reveal_strlit("Match response Content-Type.\nValues: MIME type patterns.\nExample: video/mp4 audio/mpeg");
        assert(acl_type_help(AclType::MyPort)[6] != acl_type_help(AclType::RepMimeType)[6]);
    }
    if a == AclType::RefererRegex && b == AclType::ReqMimeType || a == AclType::ReqMimeType && b == AclType::RefererRegex {
        reveal_strlit("Match HTTP Referer header using regex.\nValues: regular expressions.\nExample: ^https://suspicious\\.site/");
        reveal_strlit("Match request Content-Type (for uploads).\nValues: MIME type patterns.\nExample: application/x-executable");
        assert(acl_type_help(AclType::RefererRegex)[6] != acl_type_help(AclType::ReqMimeType)[6]);
    }
}

/// The help text of an ACL type.
pub fn help_for_acl_type(acl_type: &AclType) -> (r: &'static str)
    ensures
        r@ == acl_type_help(*acl_type),
{
    match acl_type {
        AclType::Src => "Match client source IP addresses.\nValues: IP, CIDR (10.0.0.0/8), or ranges.\nExample: 192.168.1.0/24",
        AclType::Dst => "Match destination server IP addresses.\nValues: IP, CIDR notation.\nExample: 172.16.0.0/12",
        AclType::SrcDomain => "Match client source domain (reverse DNS).\nValues: domain names, prefix with . for subdomains.\nExample: .internal.corp",
        AclType::DstDomain => "Match destination domain from the URL.\nValues: domain names, prefix with . for subdomains.\nExample: .example.com",
        AclType::SrcDomRegex => "Match client domain using regex.\nValues: regular expressions.\nExample: ^client.*\\.corp$",
        AclType::DstDomRegex => "Match destination domain using regex.\nValues: regular expressions.\nExample: .*\\.ads\\..*",
        AclType::UrlRegex => "Match the full request URL using regex.\nValues: regular expressions (case-sensitive by default, use -i flag).\nExample: ^https://.*\\.exe$",
        AclType::UrlPathRegex => "Match only the URL path (not domain) using regex.\nValues: regular expressions.\nExample: /downloads/.*\\.zip$",
        AclType::Port => "Match destination port number.\nValues: port numbers or ranges (hyphen-separated).\nExample: 443 8080 1025-65535",
        AclType::Proto => "Match request protocol.\nValues: http, ftp, https.\nExample: http ftp",
        AclType::Method => "Match HTTP request method.\nValues: GET, POST, PUT, DELETE, CONNECT, etc.\nExample: CONNECT POST",
        AclType::Time => "Match requests by day and time.\nFormat: MTWHFAS HH:MM-HH:MM\nDays: M=Mon T=Tue W=Wed H=Thu F=Fri A=Sat S=Sun\nExample: MTWHF 08:00-17:00",
        AclType::Arp => "Match client MAC/ethernet address.\nValues: MAC addresses in XX:XX:XX:XX:XX:XX format.\nNote: Only works on local network (Linux/BSD).\nExample: 00:11:22:33:44:55",
        AclType::MyIp => "Match the local IP address the client connected to.\nValues: IP addresses.\nExample: 192.168.1.1",
        AclType::MyPort => "Match the local port the client connected to.\nValues: port numbers.\nExample: 3128 8080",
        AclType::ProxyAuth => "Match authenticated username.\nValues: usernames, or REQUIRED to force authentication.\nRequires auth_param configuration.\nExample: REQUIRED",
        AclType::Browser => "Match User-Agent header using regex.\nValues: regular expressions (case-sensitive).\nExample: Mozilla/.*Firefox",
        AclType::RefererRegex => "Match HTTP Referer header using regex.\nValues: regular expressions.\nExample: ^https://suspicious\\.site/",
        AclType::ReqMimeType => "Match request Content-Type (for uploads).\nValues: MIME type patterns.\nExample: application/x-executable",
        AclType::RepMimeType => "Match response Content-Type.\nValues: MIME type patterns.\nExample: video/mp4 audio/mpeg",
        AclType::MaxConn => "Match when client exceeds N connections.\nValues: connection count (single number).\nExample: 10",
        AclType::External => "Match using an external ACL helper program.\nValues: helper class name and arguments.\nExample: my_helper %SRC",
        AclType::Snmp => "Match SNMP community string.\nValues: community strings.\nExample: public",
    }
}

/// The help text of the screen named `screen`.
pub open spec fn screen_help(screen: Seq<char>) -> Seq<char> {
    if screen == "acl_list"@ {
        "ACCESS CONTROL LISTS (ACLs)\n\nACLs define conditions that Squid evaluates for each request.\nEach ACL has a name, a type, and one or more values.\nMultiple values within one ACL use OR logic (any match).\n\nKeys:\n  a     - Add new ACL\n  e/Enter - Edit selected ACL\n  d     - Delete selected ACL\n  j/k   - Move selection up/down\n  Tab   - Next section\n"@
    } else if screen == "access_list"@ {
        "HTTP ACCESS RULES\n\nRules are evaluated in order for each request.\nEach rule combines one or more ACLs with AND logic.\nProcessing stops at the first matching rule.\nNegation (!) reverses an ACL match.\n\nAlways end with 'deny all' as a safety fallback.\n\nKeys:\n  a     - Add new rule\n  e/Enter - Edit selected rule\n  d     - Delete selected rule\n  u/J   - Move rule up/down (order matters!)\n  j/k   - Move selection up/down\n  Tab   - Next section\n"@
    } else if screen == "auth"@ {
        "AUTHENTICATION (auth_param basic)\n\nConfigures HTTP Basic authentication for the proxy.\nRequires an external authenticator program (e.g. basic_ncsa_auth).\n\nFields:\n  Program       - Path to authenticator binary + args\n  Children      - Number of authenticator helper processes\n  Realm         - Text shown in the browser auth dialog\n  Credentials TTL - How long to cache valid credentials\n\nTo use: create a 'proxy_auth REQUIRED' ACL and reference\nit in http_access rules.\n\nKeys:\n  Tab     - Next field\n  Ctrl+s  - Save changes\n  Esc     - Cancel\n"@
    } else if screen == "direct"@ {
        "DIRECT ROUTING (always_direct / never_direct)\n\nControls whether Squid connects directly to origin servers\nor forwards requests through cache peers (parent proxies).\n\nalways_direct allow <acl> - Go direct for matching requests\nnever_direct allow <acl>  - Always use a peer for matching\n\nNote: 'always_direct deny X' is NOT the same as\n'never_direct allow X'.\n\nKeys:\n  a     - Add new rule\n  e/Enter - Edit selected rule\n  d     - Delete selected rule\n  j/k   - Move selection up/down\n  Tab   - Switch between always/never sections\n"@
    } else {
        "No help available for this screen."@
    }
}

/// The help text of a screen: `acl_list`, `access_list`, `auth` or
/// `direct`; any other name gets a short notice.
pub fn help_for_screen(screen: &str) -> (r: &'static str)
    ensures
        r@ == screen_help(screen@),
{
    let c = chars_of(screen);
    if vec_eq_str(&c, "acl_list") {
        "ACCESS CONTROL LISTS (ACLs)\n\nACLs define conditions that Squid evaluates for each request.\nEach ACL has a name, a type, and one or more values.\nMultiple values within one ACL use OR logic (any match).\n\nKeys:\n  a     - Add new ACL\n  e/Enter - Edit selected ACL\n  d     - Delete selected ACL\n  j/k   - Move selection up/down\n  Tab   - Next section\n"
    } else if vec_eq_str(&c, "access_list") {
        "HTTP ACCESS RULES\n\nRules are evaluated in order for each request.\nEach rule combines one or more ACLs with AND logic.\nProcessing stops at the first matching rule.\nNegation (!) reverses an ACL match.\n\nAlways end with 'deny all' as a safety fallback.\n\nKeys:\n  a     - Add new rule\n  e/Enter - Edit selected rule\n  d     - Delete selected rule\n  u/J   - Move rule up/down (order matters!)\n  j/k   - Move selection up/down\n  Tab   - Next section\n"
    } else if vec_eq_str(&c, "auth") {
        "AUTHENTICATION (auth_param basic)\n\nConfigures HTTP Basic authentication for the proxy.\nRequires an external authenticator program (e.g. basic_ncsa_auth).\n\nFields:\n  Program       - Path to authenticator binary + args\n  Children      - Number of authenticator helper processes\n  Realm         - Text shown in the browser auth dialog\n  Credentials TTL - How long to cache valid credentials\n\nTo use: create a 'proxy_auth REQUIRED' ACL and reference\nit in http_access rules.\n\nKeys:\n  Tab     - Next field\n  Ctrl+s  - Save changes\n  Esc     - Cancel\n"
    } else if vec_eq_str(&c, "direct") {
        "DIRECT ROUTING (always_direct / never_direct)\n\nControls whether Squid connects directly to origin servers\nor forwards requests through cache peers (parent proxies).\n\nalways_direct allow <acl> - Go direct for matching requests\nnever_direct allow <acl>  - Always use a peer for matching\n\nNote: 'always_direct deny X' is NOT the same as\n'never_direct allow X'.\n\nKeys:\n  a     - Add new rule\n  e/Enter - Edit selected rule\n  d     - Delete selected rule\n  j/k   - Move selection up/down\n  Tab   - Switch between always/never sections\n"
    } else {
        "No help available for this screen."
    }
}

} // verus!
