//! The configuration model: ACLs, access and direct rules, basic
//! authentication parameters, and their textual keywords.
use vstd::prelude::*;

use crate::text::{all_ascii, ascii_lowercase, chars_of, lowercase, strings_of, to_lowercase, vec_eq_str};

verus! {

/// The kind of an ACL, which decides how Squid matches its values.
#[derive(Clone, Copy, Debug, PartialEq, Eq, Structural)]
pub enum AclType {
    Src,
    Dst,
    SrcDomain,
    DstDomain,
    SrcDomRegex,
    DstDomRegex,
    UrlRegex,
    UrlPathRegex,
    Port,
    Proto,
    Method,
    Time,
    Arp,
    MyIp,
    MyPort,
    ProxyAuth,
    Browser,
    RefererRegex,
    ReqMimeType,
    RepMimeType,
    MaxConn,
    External,
    Snmp,
}

impl AclType {
    /// The keyword that names this type in a configuration file.
    pub open spec fn text(self) -> Seq<char> {
        match self {
            AclType::Src => "src"@,
            AclType::Dst => "dst"@,
            AclType::SrcDomain => "srcdomain"@,
            AclType::DstDomain => "dstdomain"@,
            AclType::SrcDomRegex => "srcdom_regex"@,
            AclType::DstDomRegex => "dstdom_regex"@,
            AclType::UrlRegex => "url_regex"@,
            AclType::UrlPathRegex => "urlpath_regex"@,
            AclType::Port => "port"@,
            AclType::Proto => "proto"@,
            AclType::Method => "method"@,
            AclType::Time => "time"@,
            AclType::Arp => "arp"@,
            AclType::MyIp => "myip"@,
            AclType::MyPort => "myport"@,
            AclType::ProxyAuth => "proxy_auth"@,
            AclType::Browser => "browser"@,
            AclType::RefererRegex => "referer_regex"@,
            AclType::ReqMimeType => "req_mime_type"@,
            AclType::RepMimeType => "rep_mime_type"@,
            AclType::MaxConn => "maxconn"@,
            AclType::External => "external"@,
            AclType::Snmp => "snmp_community"@,
        }
    }

    /// The type that a lowercase keyword names.
    pub open spec fn from_keyword(s: Seq<char>) -> Option<AclType> {
        if s == "src"@ {
            Some(AclType::Src)
        } else if s == "dst"@ {
            Some(AclType::Dst)
        } else if s == "srcdomain"@ {
            Some(AclType::SrcDomain)
        } else if s == "dstdomain"@ {
            Some(AclType::DstDomain)
        } else if s == "srcdom_regex"@ {
            Some(AclType::SrcDomRegex)
        } else if s == "dstdom_regex"@ {
            Some(AclType::DstDomRegex)
        } else if s == "url_regex"@ {
            Some(AclType::UrlRegex)
        } else if s == "urlpath_regex"@ {
            Some(AclType::UrlPathRegex)
        } else if s == "port"@ {
            Some(AclType::Port)
        } else if s == "proto"@ {
            Some(AclType::Proto)
        } else if s == "method"@ {
            Some(AclType::Method)
        } else if s == "time"@ {
            Some(AclType::Time)
        } else if s == "arp"@ {
            Some(AclType::Arp)
        } else if s == "myip"@ {
            Some(AclType::MyIp)
        } else if s == "myport"@ {
            Some(AclType::MyPort)
        } else if s == "proxy_auth"@ {
            Some(AclType::ProxyAuth)
        } else if s == "browser"@ {
            Some(AclType::Browser)
        } else if s == "referer_regex"@ {
            Some(AclType::RefererRegex)
        } else if s == "req_mime_type"@ {
            Some(AclType::ReqMimeType)
        } else if s == "rep_mime_type"@ {
            Some(AclType::RepMimeType)
        } else if s == "maxconn"@ {
            Some(AclType::MaxConn)
        } else if s == "external"@ {
            Some(AclType::External)
        } else if s == "snmp_community"@ {
            Some(AclType::Snmp)
        } else {
            None
        }
    }

    /// The type that a keyword names in any letter case: the keyword is
    /// first mapped to lowercase, as `str::to_lowercase` does.
    pub open spec fn parse_text(s: Seq<char>) -> Option<AclType> {
        AclType::from_keyword(lowercase(s))
    }

    /// The keyword of this type.
    pub fn as_str(&self) -> (r: &'static str)
        ensures
            r@ == self.text(),
    {
        match self {
            AclType::Src => "src",
            AclType::Dst => "dst",
            AclType::SrcDomain => "srcdomain",
            AclType::DstDomain => "dstdomain",
            AclType::SrcDomRegex => "srcdom_regex",
            AclType::DstDomRegex => "dstdom_regex",
            AclType::UrlRegex => "url_regex",
            AclType::UrlPathRegex => "urlpath_regex",
            AclType::Port => "port",
            AclType::Proto => "proto",
            AclType::Method => "method",
            AclType::Time => "time",
            AclType::Arp => "arp",
            AclType::MyIp => "myip",
            AclType::MyPort => "myport",
            AclType::ProxyAuth => "proxy_auth",
            AclType::Browser => "browser",
            AclType::RefererRegex => "referer_regex",
            AclType::ReqMimeType => "req_mime_type",
            AclType::RepMimeType => "rep_mime_type",
            AclType::MaxConn => "maxconn",
            AclType::External => "external",
            AclType::Snmp => "snmp_community",
        }
    }

    /// The keyword of this type, as a `String`.
    pub fn to_string(&self) -> (r: String)
        ensures
            r@ == self.text(),
    {
        String::from_str(self.as_str())
    }

    /// The type that the lowercase keyword `s` names, if any.
    pub fn from_lowercase(s: &str) -> (r: Option<AclType>)
        ensures
            r == AclType::from_keyword(s@),
    {
        let c = chars_of(s);
        if vec_eq_str(&c, "src") {
            Some(AclType::Src)
        } else if vec_eq_str(&c, "dst") {
            Some(AclType::Dst)
        } else if vec_eq_str(&c, "srcdomain") {
            Some(AclType::SrcDomain)
        } else if vec_eq_str(&c, "dstdomain") {
            Some(AclType::DstDomain)
        } else if vec_eq_str(&c, "srcdom_regex") {
            Some(AclType::SrcDomRegex)
        } else if vec_eq_str(&c, "dstdom_regex") {
            Some(AclType::DstDomRegex)
        } else if vec_eq_str(&c, "url_regex") {
            Some(AclType::UrlRegex)
        } else if vec_eq_str(&c, "urlpath_regex") {
            Some(AclType::UrlPathRegex)
        } else if vec_eq_str(&c, "port") {
            Some(AclType::Port)
        } else if vec_eq_str(&c, "proto") {
            Some(AclType::Proto)
        } else if vec_eq_str(&c, "method") {
            Some(AclType::Method)
        } else if vec_eq_str(&c, "time") {
            Some(AclType::Time)
        } else if vec_eq_str(&c, "arp") {
            Some(AclType::Arp)
        } else if vec_eq_str(&c, "myip") {
            Some(AclType::MyIp)
        } else if vec_eq_str(&c, "myport") {
            Some(AclType::MyPort)
        } else if vec_eq_str(&c, "proxy_auth") {
            Some(AclType::ProxyAuth)
        } else if vec_eq_str(&c, "browser") {
            Some(AclType::Browser)
        } else if vec_eq_str(&c, "referer_regex") {
            Some(AclType::RefererRegex)
        } else if vec_eq_str(&c, "req_mime_type") {
            Some(AclType::ReqMimeType)
        } else if vec_eq_str(&c, "rep_mime_type") {
            Some(AclType::RepMimeType)
        } else if vec_eq_str(&c, "maxconn") {
            Some(AclType::MaxConn)
        } else if vec_eq_str(&c, "external") {
            Some(AclType::External)
        } else if vec_eq_str(&c, "snmp_community") {
            Some(AclType::Snmp)
        } else {
            None
        }
    }

    /// Reads a type keyword in any letter case; an unknown keyword is an
    /// error that names it.
    pub fn from_name(s: &str) -> (r: Result<AclType, String>)
        ensures
            match r {
                Ok(t) => AclType::parse_text(s@) == Some(t),
                Err(m) => AclType::parse_text(s@) is None && m@ == "unknown ACL type: "@ + s@,
            },
    {
        let lower = to_lowercase(s);
        match AclType::from_lowercase(lower.as_str()) {
            Some(t) => Ok(t),
            None => Err(String::from_str("unknown ACL type: ").concat(s)),
        }
    }

    /// Every ACL type, in the order in which an editor cycles through them.
    pub const ALL: [AclType; 23] = [
        AclType::Src,
        AclType::Dst,
        AclType::SrcDomain,
        AclType::DstDomain,
        AclType::SrcDomRegex,
        AclType::DstDomRegex,
        AclType::UrlRegex,
        AclType::UrlPathRegex,
        AclType::Port,
        AclType::Proto,
        AclType::Method,
        AclType::Time,
        AclType::Arp,
        AclType::MyIp,
        AclType::MyPort,
        AclType::ProxyAuth,
        AclType::Browser,
        AclType::RefererRegex,
        AclType::ReqMimeType,
        AclType::RepMimeType,
        AclType::MaxConn,
        AclType::External,
        AclType::Snmp,
    ];
}

/// Each type's keyword names that type.
pub proof fn lemma_acl_type_keyword(t: AclType)
    ensures
        AclType::from_keyword(t.text()) == Some(t),
{
    match t {
        AclType::Src => {
            reveal_strlit("src");
        },
        AclType::Dst => {
            reveal_strlit("dst");
            reveal_strlit("src");
            assert("dst"@[0] != "src"@[0]);
        },
        AclType::SrcDomain => {
            reveal_strlit("srcdomain");
            reveal_strlit("src");
            assert("srcdomain"@.len() != "src"@.len());
            reveal_strlit("dst");
            assert("srcdomain"@.len() != "dst"@.len());
        },
        AclType::DstDomain => {
            reveal_strlit("dstdomain");
            reveal_strlit("src");
            assert("dstdomain"@.len() != "src"@.len());
            reveal_strlit("dst");
            assert("dstdomain"@.len() != "dst"@.len());
            reveal_strlit("srcdomain");
            assert("dstdomain"@[0] != "srcdomain"@[0]);
        },
        AclType::SrcDomRegex => {
            reveal_strlit("srcdom_regex");
            reveal_strlit("src");
            assert("srcdom_regex"@.len() != "src"@.len());
            reveal_strlit("dst");
            assert("srcdom_regex"@.len() != "dst"@.len());
            reveal_strlit("srcdomain");
            assert("srcdom_regex"@.len() != "srcdomain"@.len());
            reveal_strlit("dstdomain");
            assert("srcdom_regex"@.len() != "dstdomain"@.len());
        },
        AclType::DstDomRegex => {
            reveal_strlit("dstdom_regex");
            reveal_strlit("src");
            assert("dstdom_regex"@.len() != "src"@.len());
            reveal_strlit("dst");
            assert("dstdom_regex"@.len() != "dst"@.len());
            reveal_strlit("srcdomain");
            assert("dstdom_regex"@.len() != "srcdomain"@.len());
            reveal_strlit("dstdomain");
            assert("dstdom_regex"@.len() != "dstdomain"@.len());
            reveal_strlit("srcdom_regex");
            assert("dstdom_regex"@[0] != "srcdom_regex"@[0]);
        },
        AclType::UrlRegex => {
            reveal_strlit("url_regex");
            reveal_strlit("src");
            assert("url_regex"@.len() != "src"@.len());
            reveal_strlit("dst");
            assert("url_regex"@.len() != "dst"@.len());
            reveal_strlit("srcdomain");
            assert("url_regex"@[0] != "srcdomain"@[0]);
            reveal_strlit("dstdomain");
            assert("url_regex"@[0] != "dstdomain"@[0]);
            reveal_strlit("srcdom_regex");
            assert("url_regex"@.len() != "srcdom_regex"@.len());
            reveal_strlit("dstdom_regex");
            assert("url_regex"@.len() != "dstdom_regex"@.len());
        },
        AclType::UrlPathRegex => {
            reveal_strlit("urlpath_regex");
            reveal_strlit("src");
            assert("urlpath_regex"@.len() != "src"@.len());
            reveal_strlit("dst");
            assert("urlpath_regex"@.len() != "dst"@.len());
            reveal_strlit("srcdomain");
            assert("urlpath_regex"@.len() != "srcdomain"@.len());
            reveal_strlit("dstdomain");
            assert("urlpath_regex"@.len() != "dstdomain"@.len());
            reveal_strlit("srcdom_regex");
            assert("urlpath_regex"@.len() != "srcdom_regex"@.len());
            reveal_strlit("dstdom_regex");
            assert("urlpath_regex"@.len() != "dstdom_regex"@.len());
            reveal_strlit("url_regex");
            assert("urlpath_regex"@.len() != "url_regex"@.len());
        },
        AclType::Port => {
            reveal_strlit("port");
            reveal_strlit("src");
            assert("port"@.len() != "src"@.len());
            reveal_strlit("dst");
            assert("port"@.len() != "dst"@.len());
            reveal_strlit("srcdomain");
            assert("port"@.len() != "srcdomain"@.len());
            reveal_strlit("dstdomain");
            assert("port"@.len() != "dstdomain"@.len());
            reveal_strlit("srcdom_regex");
            assert("port"@.len() != "srcdom_regex"@.len());
            reveal_strlit("dstdom_regex");
            assert("port"@.len() != "dstdom_regex"@.len());
            reveal_strlit("url_regex");
            assert("port"@.len() != "url_regex"@.len());
            reveal_strlit("urlpath_regex");
            assert("port"@.len() != "urlpath_regex"@.len());
        },
        AclType::Proto => {
            reveal_strlit("proto");
            reveal_strlit("src");
            assert("proto"@.len() != "src"@.len());
            reveal_strlit("dst");
            assert("proto"@.len() != "dst"@.len());
            reveal_strlit("srcdomain");
            assert("proto"@.len() != "srcdomain"@.len());
            reveal_strlit("dstdomain");
            assert("proto"@.len() != "dstdomain"@.len());
            reveal_strlit("srcdom_regex");
            assert("proto"@.len() != "srcdom_regex"@.len());
            reveal_strlit("dstdom_regex");
            assert("proto"@.len() != "dstdom_regex"@.len());
            reveal_strlit("url_regex");
            assert("proto"@.len() != "url_regex"@.len());
            reveal_strlit("urlpath_regex");
            assert("proto"@.len() != "urlpath_regex"@.len());
            reveal_strlit("port");
            assert("proto"@.len() != "port"@.len());
        },
        AclType::Method => {
            reveal_strlit("method");
            reveal_strlit("src");
            assert("method"@.len() != "src"@.len());
            reveal_strlit("dst");
            assert("method"@.len() != "dst"@.len());
            reveal_strlit("srcdomain");
            assert("method"@.len() != "srcdomain"@.len());
            reveal_strlit("dstdomain");
            assert("method"@.len() != "dstdomain"@.len());
            reveal_strlit("srcdom_regex");
            assert("method"@.len() != "srcdom_regex"@.len());
            reveal_strlit("dstdom_regex");
            assert("method"@.len() != "dstdom_regex"@.len());
            reveal_strlit("url_regex");
            assert("method"@.len() != "url_regex"@.len());
            reveal_strlit("urlpath_regex");
            assert("method"@.len() != "urlpath_regex"@.len());
            reveal_strlit("port");
            assert("method"@.len() != "port"@.len());
            reveal_strlit("proto");
            assert("method"@.len() != "proto"@.len());
        },
        AclType::Time => {
            reveal_strlit("time");
            reveal_strlit("src");
            assert("time"@.len() != "src"@.len());
            reveal_strlit("dst");
            assert("time"@.len() != "dst"@.len());
            reveal_strlit("srcdomain");
            assert("time"@.len() != "srcdomain"@.len());
            reveal_strlit("dstdomain");
            assert("time"@.len() != "dstdomain"@.len());
            reveal_strlit("srcdom_regex");
            assert("time"@.len() != "srcdom_regex"@.len());
            reveal_strlit("dstdom_regex");
            assert("time"@.len() != "dstdom_regex"@.len());
            reveal_strlit("url_regex");
            assert("time"@.len() != "url_regex"@.len());
            reveal_strlit("urlpath_regex");
            assert("time"@.len() != "urlpath_regex"@.len());
            reveal_strlit("port");
            assert("time"@[0] != "port"@[0]);
            reveal_strlit("proto");
            assert("time"@.len() != "proto"@.len());
            reveal_strlit("method");
            assert("time"@.len() != "method"@.len());
        },
        AclType::Arp => {
            reveal_strlit("arp");
            reveal_strlit("src");
            assert("arp"@[0] != "src"@[0]);
            reveal_strlit("dst");
            assert("arp"@[0] != "dst"@[0]);
            reveal_strlit("srcdomain");
            assert("arp"@.len() != "srcdomain"@.len());
            reveal_strlit("dstdomain");
            assert("arp"@.len() != "dstdomain"@.len());
            reveal_strlit("srcdom_regex");
            assert("arp"@.len() != "srcdom_regex"@.len());
            reveal_strlit("dstdom_regex");
            assert("arp"@.len() != "dstdom_regex"@.len());
            reveal_strlit("url_regex");
            assert("arp"@.len() != "url_regex"@.len());
            reveal_strlit("urlpath_regex");
            assert("arp"@.len() != "urlpath_regex"@.len());
            reveal_strlit("port");
            assert("arp"@.len() != "port"@.len());
            reveal_strlit("proto");
            assert("arp"@.len() != "proto"@.len());
            reveal_strlit("method");
            assert("arp"@.len() != "method"@.len());
            reveal_strlit("time");
            assert("arp"@.len() != "time"@.len());
        },
        AclType::MyIp => {
            reveal_strlit("myip");
            reveal_strlit("src");
            assert("myip"@.len() != "src"@.len());
            reveal_strlit("dst");
            assert("myip"@.len() != "dst"@.len());
            reveal_strlit("srcdomain");
            assert("myip"@.len() != "srcdomain"@.len());
            reveal_strlit("dstdomain");
            assert("myip"@.len() != "dstdomain"@.len());
            reveal_strlit("srcdom_regex");
            assert("myip"@.len() != "srcdom_regex"@.len());
            reveal_strlit("dstdom_regex");
            assert("myip"@.len() != "dstdom_regex"@.len());
            reveal_strlit("url_regex");
            assert("myip"@.len() != "url_regex"@.len());
            reveal_strlit("urlpath_regex");
            assert("myip"@.len() != "urlpath_regex"@.len());
            reveal_strlit("port");
            assert("myip"@[0] != "port"@[0]);
            reveal_strlit("proto");
            assert("myip"@.len() != "proto"@.len());
            reveal_strlit("method");
            assert("myip"@.len() != "method"@.len());
            reveal_strlit("time");
            assert("myip"@[0] != "time"@[0]);
            reveal_strlit("arp");
            assert("myip"@.len() != "arp"@.len());
        },
        AclType::MyPort => {
            reveal_strlit("myport");
            reveal_strlit("src");
            assert("myport"@.len() != "src"@.len());
            reveal_strlit("dst");
            assert("myport"@.len() != "dst"@.len());
            reveal_strlit("srcdomain");
            assert("myport"@.len() != "srcdomain"@.len());
            reveal_strlit("dstdomain");
            assert("myport"@.len() != "dstdomain"@.len());
            reveal_strlit("srcdom_regex");
            assert("myport"@.len() != "srcdom_regex"@.len());
            reveal_strlit("dstdom_regex");
            assert("myport"@.len() != "dstdom_regex"@.len());
            reveal_strlit("url_regex");
            assert("myport"@.len() != "url_regex"@.len());
            reveal_strlit("urlpath_regex");
            assert("myport"@.len() != "urlpath_regex"@.len());
            reveal_strlit("port");
            assert("myport"@.len() != "port"@.len());
            reveal_strlit("proto");
            assert("myport"@.len() != "proto"@.len());
            reveal_strlit("method");
            assert("myport"@[1] != "method"@[1]);
            reveal_strlit("time");
            assert("myport"@.len() != "time"@.len());
            reveal_strlit("arp");
            assert("myport"@.len() != "arp"@.len());
            reveal_strlit("myip");
            assert("myport"@.len() != "myip"@.len());
        },
        AclType::ProxyAuth => {
            reveal_strlit("proxy_auth");
            reveal_strlit("src");
            assert("proxy_auth"@.len() != "src"@.len());
            reveal_strlit("dst");
            assert("proxy_auth"@.len() != "dst"@.len());
            reveal_strlit("srcdomain");
            assert("proxy_auth"@.len() != "srcdomain"@.len());
            reveal_strlit("dstdomain");
            assert("proxy_auth"@.len() != "dstdomain"@.len());
            reveal_strlit("srcdom_regex");
            assert("proxy_auth"@.len() != "srcdom_regex"@.len());
            reveal_strlit("dstdom_regex");
            assert("proxy_auth"@.len() != "dstdom_regex"@.len());
            reveal_strlit("url_regex");
            assert("proxy_auth"@.len() != "url_regex"@.len());
            reveal_strlit("urlpath_regex");
            assert("proxy_auth"@.len() != "urlpath_regex"@.len());
            reveal_strlit("port");
            assert("proxy_auth"@.len() != "port"@.len());
            reveal_strlit("proto");
            assert("proxy_auth"@.len() != "proto"@.len());
            reveal_strlit("method");
            assert("proxy_auth"@.len() != "method"@.len());
            reveal_strlit("time");
            assert("proxy_auth"@.len() != "time"@.len());
            reveal_strlit("arp");
            assert("proxy_auth"@.len() != "arp"@.len());
            reveal_strlit("myip");
            assert("proxy_auth"@.len() != "myip"@.len());
            reveal_strlit("myport");
            assert("proxy_auth"@.len() != "myport"@.len());
        },
        AclType::Browser => {
            reveal_strlit("browser");
            reveal_strlit("src");
            assert("browser"@.len() != "src"@.len());
            reveal_strlit("dst");
            assert("browser"@.len() != "dst"@.len());
            reveal_strlit("srcdomain");
            assert("browser"@.len() != "srcdomain"@.len());
            reveal_strlit("dstdomain");
            assert("browser"@.len() != "dstdomain"@.len());
            reveal_strlit("srcdom_regex");
            assert("browser"@.len() != "srcdom_regex"@.len());
            reveal_strlit("dstdom_regex");
            assert("browser"@.len() != "dstdom_regex"@.len());
            reveal_strlit("url_regex");
            assert("browser"@.len() != "url_regex"@.len());
            reveal_strlit("urlpath_regex");
            assert("browser"@.len() != "urlpath_regex"@.len());
            reveal_strlit("port");
            assert("browser"@.len() != "port"@.len());
            reveal_strlit("proto");
            assert("browser"@.len() != "proto"@.len());
            reveal_strlit("method");
            assert("browser"@.len() != "method"@.len());
            reveal_strlit("time");
            assert("browser"@.len() != "time"@.len());
            reveal_strlit("arp");
            assert("browser"@.len() != "arp"@.len());
            reveal_strlit("myip");
            assert("browser"@.len() != "myip"@.len());
            reveal_strlit("myport");
            assert("browser"@.len() != "myport"@.len());
            reveal_strlit("proxy_auth");
            assert("browser"@.len() != "proxy_auth"@.len());
        },
        AclType::RefererRegex => {
            reveal_strlit("referer_regex");
            reveal_strlit("src");
            assert("referer_regex"@.len() != "src"@.len());
            reveal_strlit("dst");
            assert("referer_regex"@.len() != "dst"@.len());
            reveal_strlit("srcdomain");
            assert("referer_regex"@.len() != "srcdomain"@.len());
            reveal_strlit("dstdomain");
            assert("referer_regex"@.len() != "dstdomain"@.len());
            reveal_strlit("srcdom_regex");
            assert("referer_regex"@.len() != "srcdom_regex"@.len());
            reveal_strlit("dstdom_regex");
            assert("referer_regex"@.len() != "dstdom_regex"@.len());
            reveal_strlit("url_regex");
            assert("referer_regex"@.len() != "url_regex"@.len());
            reveal_strlit("urlpath_regex");
            assert("referer_regex"@[0] != "urlpath_regex"@[0]);
            reveal_strlit("port");
            assert("referer_regex"@.len() != "port"@.len());
            reveal_strlit("proto");
            assert("referer_regex"@.len() != "proto"@.len());
            reveal_strlit("method");
            assert("referer_regex"@.len() != "method"@.len());
            reveal_strlit("time");
            assert("referer_regex"@.len() != "time"@.len());
            reveal_strlit("arp");
            assert("referer_regex"@.len() != "arp"@.len());
            reveal_strlit("myip");
            assert("referer_regex"@.len() != "myip"@.len());
            reveal_strlit("myport");
            assert("referer_regex"@.len() != "myport"@.len());
            reveal_strlit("proxy_auth");
            assert("referer_regex"@.len() != "proxy_auth"@.len());
            reveal_strlit("browser");
            assert("referer_regex"@.len() != "browser"@.len());
        },
        AclType::ReqMimeType => {
            reveal_strlit("req_mime_type");
            reveal_strlit("src");
            assert("req_mime_type"@.len() != "src"@.len());
            reveal_strlit("dst");
            assert("req_mime_type"@.len() != "dst"@.len());
            reveal_strlit("srcdomain");
            assert("req_mime_type"@.len() != "srcdomain"@.len());
            reveal_strlit("dstdomain");
            assert("req_mime_type"@.len() != "dstdomain"@.len());
            reveal_strlit("srcdom_regex");
            assert("req_mime_type"@.len() != "srcdom_regex"@.len());
            reveal_strlit("dstdom_regex");
            assert("req_mime_type"@.len() != "dstdom_regex"@.len());
            reveal_strlit("url_regex");
            assert("req_mime_type"@.len() != "url_regex"@.len());
            reveal_strlit("urlpath_regex");
            assert("req_mime_type"@[0] != "urlpath_regex"@[0]);
            reveal_strlit("port");
            assert("req_mime_type"@.len() != "port"@.len());
            reveal_strlit("proto");
            assert("req_mime_type"@.len() != "proto"@.len());
            reveal_strlit("method");
            assert("req_mime_type"@.len() != "method"@.len());
            reveal_strlit("time");
            assert("req_mime_type"@.len() != "time"@.len());
            reveal_strlit("arp");
            assert("req_mime_type"@.len() != "arp"@.len());
            reveal_strlit("myip");
            assert("req_mime_type"@.len() != "myip"@.len());
            reveal_strlit("myport");
            assert("req_mime_type"@.len() != "myport"@.len());
            reveal_strlit("proxy_auth");
            assert("req_mime_type"@.len() != "proxy_auth"@.len());
            reveal_strlit("browser");
            assert("req_mime_type"@.len() != "browser"@.len());
            reveal_strlit("referer_regex");
            assert("req_mime_type"@[2] != "referer_regex"@[2]);
        },
        AclType::RepMimeType => {
            reveal_strlit("rep_mime_type");
            reveal_strlit("src");
            assert("rep_mime_type"@.len() != "src"@.len());
            reveal_strlit("dst");
            assert("rep_mime_type"@.len() != "dst"@.len());
            reveal_strlit("srcdomain");
            assert("rep_mime_type"@.len() != "srcdomain"@.len());
            reveal_strlit("dstdomain");
            assert("rep_mime_type"@.len() != "dstdomain"@.len());
            reveal_strlit("srcdom_regex");
            assert("rep_mime_type"@.len() != "srcdom_regex"@.len());
            reveal_strlit("dstdom_regex");
            assert("rep_mime_type"@.len() != "dstdom_regex"@.len());
            reveal_strlit("url_regex");
            assert("rep_mime_type"@.len() != "url_regex"@.len());
            reveal_strlit("urlpath_regex");
            assert("rep_mime_type"@[0] != "urlpath_regex"@[0]);
            reveal_strlit("port");
            assert("rep_mime_type"@.len() != "port"@.len());
            reveal_strlit("proto");
            assert("rep_mime_type"@.len() != "proto"@.len());
            reveal_strlit("method");
            assert("rep_mime_type"@.len() != "method"@.len());
            reveal_strlit("time");
            assert("rep_mime_type"@.len() != "time"@.len());
            reveal_strlit("arp");
            assert("rep_mime_type"@.len() != "arp"@.len());
            reveal_strlit("myip");
            assert("rep_mime_type"@.len() != "myip"@.len());
            reveal_strlit("myport");
            assert("rep_mime_type"@.len() != "myport"@.len());
            reveal_strlit("proxy_auth");
            assert("rep_mime_type"@.len() != "proxy_auth"@.len());
            reveal_strlit("browser");
            assert("rep_mime_type"@.len() != "browser"@.len());
            reveal_strlit("referer_regex");
            assert("rep_mime_type"@[2] != "referer_regex"@[2]);
            reveal_strlit("req_mime_type");
            assert("rep_mime_type"@[2] != "req_mime_type"@[2]);
        },
        AclType::MaxConn => {
            reveal_strlit("maxconn");
            reveal_strlit("src");
            assert("maxconn"@.len() != "src"@.len());
            reveal_strlit("dst");
            assert("maxconn"@.len() != "dst"@.len());
            reveal_strlit("srcdomain");
            assert("maxconn"@.len() != "srcdomain"@.len());
            reveal_strlit("dstdomain");
            assert("maxconn"@.len() != "dstdomain"@.len());
            reveal_strlit("srcdom_regex");
            assert("maxconn"@.len() != "srcdom_regex"@.len());
            reveal_strlit("dstdom_regex");
            assert("maxconn"@.len() != "dstdom_regex"@.len());
            reveal_strlit("url_regex");
            assert("maxconn"@.len() != "url_regex"@.len());
            reveal_strlit("urlpath_regex");
            assert("maxconn"@.len() != "urlpath_regex"@.len());
            reveal_strlit("port");
            assert("maxconn"@.len() != "port"@.len());
            reveal_strlit("proto");
            assert("maxconn"@.len() != "proto"@.len());
            reveal_strlit("method");
            assert("maxconn"@.len() != "method"@.len());
            reveal_strlit("time");
            assert("maxconn"@.len() != "time"@.len());
            reveal_strlit("arp");
            assert("maxconn"@.len() != "arp"@.len());
            reveal_strlit("myip");
            assert("maxconn"@.len() != "myip"@.len());
            reveal_strlit("myport");
            assert("maxconn"@.len() != "myport"@.len());
            reveal_strlit("proxy_auth");
            assert("maxconn"@.len() != "proxy_auth"@.len());
            reveal_strlit("browser");
            assert("maxconn"@[0] != "browser"@[0]);
            reveal_strlit("referer_regex");
            assert("maxconn"@.len() != "referer_regex"@.len());
            reveal_strlit("req_mime_type");
            assert("maxconn"@.len() != "req_mime_type"@.len());
            reveal_strlit("rep_mime_type");
            assert("maxconn"@.len() != "rep_mime_type"@.len());
        },
        AclType::External => {
            reveal_strlit("external");
            reveal_strlit("src");
            assert("external"@.len() != "src"@.len());
            reveal_strlit("dst");
            assert("external"@.len() != "dst"@.len());
            reveal_strlit("srcdomain");
            assert("external"@.len() != "srcdomain"@.len());
            reveal_strlit("dstdomain");
            assert("external"@.len() != "dstdomain"@.len());
            reveal_strlit("srcdom_regex");
            assert("external"@.len() != "srcdom_regex"@.len());
            reveal_strlit("dstdom_regex");
            assert("external"@.len() != "dstdom_regex"@.len());
            reveal_strlit("url_regex");
            assert("external"@.len() != "url_regex"@.len());
            reveal_strlit("urlpath_regex");
            assert("external"@.len() != "urlpath_regex"@.len());
            reveal_strlit("port");
            assert("external"@.len() != "port"@.len());
            reveal_strlit("proto");
            assert("external"@.len() != "proto"@.len());
            reveal_strlit("method");
            assert("external"@.len() != "method"@.len());
            reveal_strlit("time");
            assert("external"@.len() != "time"@.len());
            reveal_strlit("arp");
            assert("external"@.len() != "arp"@.len());
            reveal_strlit("myip");
            assert("external"@.len() != "myip"@.len());
            reveal_strlit("myport");
            assert("external"@.len() != "myport"@.len());
            reveal_strlit("proxy_auth");
            assert("external"@.len() != "proxy_auth"@.len());
            reveal_strlit("browser");
            assert("external"@.len() != "browser"@.len());
            reveal_strlit("referer_regex");
            assert("external"@.len() != "referer_regex"@.len());
            reveal_strlit("req_mime_type");
            assert("external"@.len() != "req_mime_type"@.len());
            reveal_strlit("rep_mime_type");
            assert("external"@.len() != "rep_mime_type"@.len());
            reveal_strlit("maxconn");
            assert("external"@.len() != "maxconn"@.len());
        },
        AclType::Snmp => {
            reveal_strlit("snmp_community");
            reveal_strlit("src");
            assert("snmp_community"@.len() != "src"@.len());
            reveal_strlit("dst");
            assert("snmp_community"@.len() != "dst"@.len());
            reveal_strlit("srcdomain");
            assert("snmp_community"@.len() != "srcdomain"@.len());
            reveal_strlit("dstdomain");
            assert("snmp_community"@.len() != "dstdomain"@.len());
            reveal_strlit("srcdom_regex");
            assert("snmp_community"@.len() != "srcdom_regex"@.len());
            reveal_strlit("dstdom_regex");
            assert("snmp_community"@.len() != "dstdom_regex"@.len());
            reveal_strlit("url_regex");
            assert("snmp_community"@.len() != "url_regex"@.len());
            reveal_strlit("urlpath_regex");
            assert("snmp_community"@.len() != "urlpath_regex"@.len());
            reveal_strlit("port");
            assert("snmp_community"@.len() != "port"@.len());
            reveal_strlit("proto");
            assert("snmp_community"@.len() != "proto"@.len());
            reveal_strlit("method");
            assert("snmp_community"@.len() != "method"@.len());
            reveal_strlit("time");
            assert("snmp_community"@.len() != "time"@.len());
            reveal_strlit("arp");
            assert("snmp_community"@.len() != "arp"@.len());
            reveal_strlit("myip");
            assert("snmp_community"@.len() != "myip"@.len());
            reveal_strlit("myport");
            assert("snmp_community"@.len() != "myport"@.len());
            reveal_strlit("proxy_auth");
            assert("snmp_community"@.len() != "proxy_auth"@.len());
            reveal_strlit("browser");
            assert("snmp_community"@.len() != "browser"@.len());
            reveal_strlit("referer_regex");
            assert("snmp_community"@.len() != "referer_regex"@.len());
            reveal_strlit("req_mime_type");
            assert("snmp_community"@.len() != "req_mime_type"@.len());
            reveal_strlit("rep_mime_type");
            assert("snmp_community"@.len() != "rep_mime_type"@.len());
            reveal_strlit("maxconn");
            assert("snmp_community"@.len() != "maxconn"@.len());
            reveal_strlit("external");
            assert("snmp_community"@.len() != "external"@.len());
        },
    }
}

/// No two ACL types print alike: a keyword names one type.
pub proof fn law_acl_type_text_injective(a: AclType, b: AclType)
    requires
        a.text() == b.text(),
    ensures
        a == b,
{
    lemma_acl_type_keyword(a);
    lemma_acl_type_keyword(b);
}

/// The keywords are written in lowercase ASCII, so ASCII lowercasing keeps
/// them.
pub proof fn lemma_acl_type_text_lowercase(t: AclType)
    ensures
        all_ascii(t.text()),
        ascii_lowercase(t.text()) == t.text(),
{
    reveal_strlit("src");
    reveal_strlit("dst");
    reveal_strlit("srcdomain");
    reveal_strlit("dstdomain");
    reveal_strlit("srcdom_regex");
    reveal_strlit("dstdom_regex");
    reveal_strlit("url_regex");
    reveal_strlit("urlpath_regex");
    reveal_strlit("port");
    reveal_strlit("proto");
    reveal_strlit("method");
    reveal_strlit("time");
    reveal_strlit("arp");
    reveal_strlit("myip");
    reveal_strlit("myport");
    reveal_strlit("proxy_auth");
    reveal_strlit("browser");
    reveal_strlit("referer_regex");
    reveal_strlit("req_mime_type");
    reveal_strlit("rep_mime_type");
    reveal_strlit("maxconn");
    reveal_strlit("external");
    reveal_strlit("snmp_community");
    assert(ascii_lowercase(t.text()) =~= t.text());
}

/// Reading back the keyword of a type gives that type (the round trip of
/// `AclType::to_string` and `AclType::from_name`).
pub proof fn law_acl_type_text_roundtrip(t: AclType)
    ensures
        AclType::parse_text(t.text()) == Some(t),
{
    lemma_acl_type_text_lowercase(t);
    lemma_acl_type_keyword(t);
}

impl core::str::FromStr for AclType {
    type Err = String;

    fn from_str(s: &str) -> (r: Result<AclType, String>)
        ensures
            match r {
                Ok(t) => AclType::parse_text(s@) == Some(t),
                Err(m) => AclType::parse_text(s@) is None && m@ == "unknown ACL type: "@ + s@,
            },
    {
        AclType::from_name(s)
    }
}

/// What a rule does when all its ACLs match.
#[derive(Clone, Copy, Debug, PartialEq, Eq, Structural)]
pub enum AccessAction {
    Allow,
    Deny,
}

impl AccessAction {
    /// The keyword of this action.
    pub open spec fn text(self) -> Seq<char> {
        match self {
            AccessAction::Allow => "allow"@,
            AccessAction::Deny => "deny"@,
        }
    }

    /// The action that a keyword names in any letter case.
    pub open spec fn parse_text(s: Seq<char>) -> Option<AccessAction> {
        let l = lowercase(s);
        if l == "allow"@ {
            Some(AccessAction::Allow)
        } else if l == "deny"@ {
            Some(AccessAction::Deny)
        } else {
            None
        }
    }

    /// The keyword of this action.
    pub fn as_str(&self) -> (r: &'static str)
        ensures
            r@ == self.text(),
    {
        match self {
            AccessAction::Allow => "allow",
            AccessAction::Deny => "deny",
        }
    }

    /// The keyword of this action, as a `String`.
    pub fn to_string(&self) -> (r: String)
        ensures
            r@ == self.text(),
    {
        String::from_str(self.as_str())
    }

    /// Reads `allow` or `deny` in any letter case; anything else is an error
    /// that quotes it.
    pub fn from_name(s: &str) -> (r: Result<AccessAction, String>)
        ensures
            match r {
                Ok(a) => AccessAction::parse_text(s@) == Some(a),
                Err(m) => AccessAction::parse_text(s@) is None && m@
                    == "expected 'allow' or 'deny', got: "@ + s@,
            },
    {
        let lower = to_lowercase(s);
        let c = chars_of(lower.as_str());
        if vec_eq_str(&c, "allow") {
            Ok(AccessAction::Allow)
        } else if vec_eq_str(&c, "deny") {
            Ok(AccessAction::Deny)
        } else {
            Err(String::from_str("expected 'allow' or 'deny', got: ").concat(s))
        }
    }
}

/// Reading back the keyword of an action gives that action.
pub proof fn law_access_action_text_roundtrip(a: AccessAction)
    ensures
        AccessAction::parse_text(a.text()) == Some(a),
{
    reveal_strlit("allow");
    reveal_strlit("deny");
    assert(ascii_lowercase(a.text()) =~= a.text());
    assert("deny"@.len() != "allow"@.len());
}

impl core::str::FromStr for AccessAction {
    type Err = String;

    fn from_str(s: &str) -> (r: Result<AccessAction, String>)
        ensures
            match r {
                Ok(a) => AccessAction::parse_text(s@) == Some(a),
                Err(m) => AccessAction::parse_text(s@) is None && m@
                    == "expected 'allow' or 'deny', got: "@ + s@,
            },
    {
        AccessAction::from_name(s)
    }
}

/// An ACL as it stands in a rule: its name, possibly negated with `!`.
#[derive(Debug)]
pub struct AclRef {
    pub negated: bool,
    pub name: String,
}

/// The value of an [`AclRef`].
#[verifier::ext_equal]
pub struct AclRefView {
    pub negated: bool,
    pub name: Seq<char>,
}

impl View for AclRef {
    type V = AclRefView;

    open spec fn view(&self) -> AclRefView {
        AclRefView { negated: self.negated, name: self.name@ }
    }
}

impl AclRefView {
    /// How the reference is written in a rule.
    pub open spec fn text(self) -> Seq<char> {
        if self.negated {
            "!"@ + self.name
        } else {
            self.name
        }
    }
}

impl AclRef {
    /// How the reference is written in a rule: `name` or `!name`.
    pub fn to_string(&self) -> (r: String)
        ensures
            r@ == self@.text(),
    {
        if self.negated {
            String::from_str("!").concat(self.name.as_str())
        } else {
            self.name.clone()
        }
    }

    /// A copy of this reference.
    pub fn duplicate(&self) -> (r: AclRef)
        ensures
            r@ == self@,
    {
        AclRef { negated: self.negated, name: self.name.clone() }
    }
}

impl Clone for AclRef {
    fn clone(&self) -> (r: AclRef)
        ensures
            r@ == self@,
    {
        self.duplicate()
    }
}

/// The values of a sequence of references.
pub open spec fn refs_view(v: Seq<AclRef>) -> Seq<AclRefView> {
    v.map_values(|r: AclRef| r@)
}

/// A copy of a list of references.
pub fn copy_refs(v: &Vec<AclRef>) -> (r: Vec<AclRef>)
    ensures
        refs_view(r@) == refs_view(v@),
{
    let mut r: Vec<AclRef> = Vec::new();
    let mut i: usize = 0;
    while i < v.len()
        invariant
            0 <= i <= v@.len(),
            refs_view(r@) == refs_view(v@).take(i as int),
        decreases v.len() - i,
    {
        let ghost before = r@;
        let x = v[i].duplicate();
        r.push(x);
        assert(refs_view(r@) =~= refs_view(before).push(x@));
        i += 1;
        assert(refs_view(r@) =~= refs_view(v@).take(i as int));
    }
    assert(refs_view(v@).take(v@.len() as int) =~= refs_view(v@));
    r
}

/// A copy of a list of strings.
pub fn copy_strings(v: &Vec<String>) -> (r: Vec<String>)
    ensures
        strings_of(r@) == strings_of(v@),
{
    let mut r: Vec<String> = Vec::new();
    let mut i: usize = 0;
    while i < v.len()
        invariant
            0 <= i <= v@.len(),
            strings_of(r@) == strings_of(v@).take(i as int),
        decreases v.len() - i,
    {
        let ghost before = r@;
        let x = v[i].clone();
        r.push(x);
        assert(strings_of(r@) =~= strings_of(before).push(x@));
        i += 1;
        assert(strings_of(r@) =~= strings_of(v@).take(i as int));
    }
    assert(strings_of(v@).take(v@.len() as int) =~= strings_of(v@));
    r
}

/// A named access control list: a type and the values that it matches.
#[derive(Debug)]
pub struct Acl {
    pub name: String,
    pub acl_type: AclType,
    pub case_insensitive: bool,
    pub values: Vec<String>,
}

/// The value of an [`Acl`].
#[verifier::ext_equal]
pub struct AclView {
    pub name: Seq<char>,
    pub acl_type: AclType,
    pub case_insensitive: bool,
    pub values: Seq<Seq<char>>,
}

impl View for Acl {
    type V = AclView;

    open spec fn view(&self) -> AclView {
        AclView {
            name: self.name@,
            acl_type: self.acl_type,
            case_insensitive: self.case_insensitive,
            values: strings_of(self.values@),
        }
    }
}

impl Acl {
    /// A copy of this ACL.
    pub fn duplicate(&self) -> (r: Acl)
        ensures
            r@ == self@,
    {
        Acl {
            name: self.name.clone(),
            acl_type: self.acl_type,
            case_insensitive: self.case_insensitive,
            values: copy_strings(&self.values),
        }
    }
}

impl Clone for Acl {
    fn clone(&self) -> (r: Acl)
        ensures
            r@ == self@,
    {
        self.duplicate()
    }
}

/// The value of an access or direct rule: an action and the ACLs that must
/// all match.
#[verifier::ext_equal]
pub struct RuleView {
    pub action: AccessAction,
    pub acl_refs: Seq<AclRefView>,
}

/// An `http_access` rule.
#[derive(Debug)]
pub struct AccessRule {
    pub action: AccessAction,
    pub acl_refs: Vec<AclRef>,
}

impl View for AccessRule {
    type V = RuleView;

    open spec fn view(&self) -> RuleView {
        RuleView { action: self.action, acl_refs: refs_view(self.acl_refs@) }
    }
}

impl AccessRule {
    /// A copy of this rule.
    pub fn duplicate(&self) -> (r: AccessRule)
        ensures
            r@ == self@,
    {
        AccessRule { action: self.action, acl_refs: copy_refs(&self.acl_refs) }
    }
}

impl Clone for AccessRule {
    fn clone(&self) -> (r: AccessRule)
        ensures
            r@ == self@,
    {
        self.duplicate()
    }
}

/// An `always_direct` or `never_direct` rule.
#[derive(Debug)]
pub struct DirectRule {
    pub action: AccessAction,
    pub acl_refs: Vec<AclRef>,
}

impl View for DirectRule {
    type V = RuleView;

    open spec fn view(&self) -> RuleView {
        RuleView { action: self.action, acl_refs: refs_view(self.acl_refs@) }
    }
}

impl DirectRule {
    /// A copy of this rule.
    pub fn duplicate(&self) -> (r: DirectRule)
        ensures
            r@ == self@,
    {
        DirectRule { action: self.action, acl_refs: copy_refs(&self.acl_refs) }
    }
}

impl Clone for DirectRule {
    fn clone(&self) -> (r: DirectRule)
        ensures
            r@ == self@,
    {
        self.duplicate()
    }
}

/// The `auth_param basic` settings; each is absent until set.
#[derive(Debug)]
pub struct AuthParamBasic {
    pub program: Option<String>,
    pub children: Option<String>,
    pub realm: Option<String>,
    pub credentialsttl: Option<String>,
}

/// The value of an optional string.
pub open spec fn opt_view(o: Option<String>) -> Option<Seq<char>> {
    match o {
        Some(s) => Some(s@),
        None => None,
    }
}

/// A copy of an optional string.
pub fn copy_opt(o: &Option<String>) -> (r: Option<String>)
    ensures
        opt_view(r) == opt_view(*o),
{
    match o {
        Some(s) => Some(s.clone()),
        None => None,
    }
}

/// The value of an [`AuthParamBasic`].
#[verifier::ext_equal]
pub struct AuthView {
    pub program: Option<Seq<char>>,
    pub children: Option<Seq<char>>,
    pub realm: Option<Seq<char>>,
    pub credentialsttl: Option<Seq<char>>,
}

impl View for AuthParamBasic {
    type V = AuthView;

    open spec fn view(&self) -> AuthView {
        AuthView {
            program: opt_view(self.program),
            children: opt_view(self.children),
            realm: opt_view(self.realm),
            credentialsttl: opt_view(self.credentialsttl),
        }
    }
}

impl AuthView {
    /// No setting is present.
    pub open spec fn is_empty(self) -> bool {
        &&& self.program is None
        &&& self.children is None
        &&& self.realm is None
        &&& self.credentialsttl is None
    }

    /// The settings with none present.
    pub open spec fn empty() -> AuthView {
        AuthView { program: None, children: None, realm: None, credentialsttl: None }
    }
}

impl AuthParamBasic {
    /// Whether no setting is present.
    pub fn is_empty(&self) -> (r: bool)
        ensures
            r == self@.is_empty(),
    {
        self.program.is_none() && self.children.is_none() && self.realm.is_none()
            && self.credentialsttl.is_none()
    }

    /// A copy of these settings.
    pub fn duplicate(&self) -> (r: AuthParamBasic)
        ensures
            r@ == self@,
    {
        AuthParamBasic {
            program: copy_opt(&self.program),
            children: copy_opt(&self.children),
            realm: copy_opt(&self.realm),
            credentialsttl: copy_opt(&self.credentialsttl),
        }
    }
}

impl Clone for AuthParamBasic {
    fn clone(&self) -> (r: AuthParamBasic)
        ensures
            r@ == self@,
    {
        self.duplicate()
    }
}

impl Default for AuthParamBasic {
    fn default() -> (r: AuthParamBasic)
        ensures
            r@ == AuthView::empty(),
    {
        AuthParamBasic { program: None, children: None, realm: None, credentialsttl: None }
    }
}

/// A whole proxy configuration, as far as this editor knows it.
#[derive(Debug)]
pub struct SquidConfig {
    pub acls: Vec<Acl>,
    pub http_access: Vec<AccessRule>,
    pub auth_param: AuthParamBasic,
    pub always_direct: Vec<DirectRule>,
    pub never_direct: Vec<DirectRule>,
}

/// The values of a sequence of ACLs.
pub open spec fn acls_view(v: Seq<Acl>) -> Seq<AclView> {
    v.map_values(|a: Acl| a@)
}

/// The values of a sequence of access rules.
pub open spec fn access_view(v: Seq<AccessRule>) -> Seq<RuleView> {
    v.map_values(|r: AccessRule| r@)
}

/// The values of a sequence of direct rules.
pub open spec fn direct_view(v: Seq<DirectRule>) -> Seq<RuleView> {
    v.map_values(|r: DirectRule| r@)
}

/// The value of a [`SquidConfig`].
#[verifier::ext_equal]
pub struct ConfigView {
    pub acls: Seq<AclView>,
    pub http_access: Seq<RuleView>,
    pub auth_param: AuthView,
    pub always_direct: Seq<RuleView>,
    pub never_direct: Seq<RuleView>,
}

impl ConfigView {
    /// The configuration with nothing in it.
    pub open spec fn empty() -> ConfigView {
        ConfigView {
            acls: Seq::empty(),
            http_access: Seq::empty(),
            auth_param: AuthView::empty(),
            always_direct: Seq::empty(),
            never_direct: Seq::empty(),
        }
    }
}

impl View for SquidConfig {
    type V = ConfigView;

    open spec fn view(&self) -> ConfigView {
        ConfigView {
            acls: acls_view(self.acls@),
            http_access: access_view(self.http_access@),
            auth_param: self.auth_param@,
            always_direct: direct_view(self.always_direct@),
            never_direct: direct_view(self.never_direct@),
        }
    }
}

/// A copy of a list of ACLs.
pub fn copy_acls(v: &Vec<Acl>) -> (r: Vec<Acl>)
    ensures
        acls_view(r@) == acls_view(v@),
{
    let mut r: Vec<Acl> = Vec::new();
    let mut i: usize = 0;
    while i < v.len()
        invariant
            0 <= i <= v@.len(),
            acls_view(r@) == acls_view(v@).take(i as int),
        decreases v.len() - i,
    {
        let ghost before = r@;
        let x = v[i].duplicate();
        r.push(x);
        assert(acls_view(r@) =~= acls_view(before).push(x@));
        i += 1;
        assert(acls_view(r@) =~= acls_view(v@).take(i as int));
    }
    assert(acls_view(v@).take(v@.len() as int) =~= acls_view(v@));
    r
}

/// A copy of a list of access rules.
pub fn copy_access_rules(v: &Vec<AccessRule>) -> (r: Vec<AccessRule>)
    ensures
        access_view(r@) == access_view(v@),
{
    let mut r: Vec<AccessRule> = Vec::new();
    let mut i: usize = 0;
    while i < v.len()
        invariant
            0 <= i <= v@.len(),
            access_view(r@) == access_view(v@).take(i as int),
        decreases v.len() - i,
    {
        let ghost before = r@;
        let x = v[i].duplicate();
        r.push(x);
        assert(access_view(r@) =~= access_view(before).push(x@));
        i += 1;
        assert(access_view(r@) =~= access_view(v@).take(i as int));
    }
    assert(access_view(v@).take(v@.len() as int) =~= access_view(v@));
    r
}

/// A copy of a list of direct rules.
pub fn copy_direct_rules(v: &Vec<DirectRule>) -> (r: Vec<DirectRule>)
    ensures
        direct_view(r@) == direct_view(v@),
{
    let mut r: Vec<DirectRule> = Vec::new();
    let mut i: usize = 0;
    while i < v.len()
        invariant
            0 <= i <= v@.len(),
            direct_view(r@) == direct_view(v@).take(i as int),
        decreases v.len() - i,
    {
        let ghost before = r@;
        let x = v[i].duplicate();
        r.push(x);
        assert(direct_view(r@) =~= direct_view(before).push(x@));
        i += 1;
        assert(direct_view(r@) =~= direct_view(v@).take(i as int));
    }
    assert(direct_view(v@).take(v@.len() as int) =~= direct_view(v@));
    r
}

impl SquidConfig {
    /// A copy of this configuration.
    pub fn duplicate(&self) -> (r: SquidConfig)
        ensures
            r@ == self@,
    {
        SquidConfig {
            acls: copy_acls(&self.acls),
            http_access: copy_access_rules(&self.http_access),
            auth_param: self.auth_param.duplicate(),
            always_direct: copy_direct_rules(&self.always_direct),
            never_direct: copy_direct_rules(&self.never_direct),
        }
    }
}

impl Clone for SquidConfig {
    fn clone(&self) -> (r: SquidConfig)
        ensures
            r@ == self@,
    {
        self.duplicate()
    }
}

impl Default for SquidConfig {
    fn default() -> (r: SquidConfig)
        ensures
            r@ == ConfigView::empty(),
    {
        let r = SquidConfig {
            acls: Vec::new(),
            http_access: Vec::new(),
            auth_param: AuthParamBasic::default(),
            always_direct: Vec::new(),
            never_direct: Vec::new(),
        };
        assert(r@ =~= ConfigView::empty());
        r
    }
}

/// The ACLs that Squid defines itself; the writer never emits them.
pub open spec fn predefined_acls() -> Seq<Seq<char>> {
    seq!["all"@, "manager"@, "localhost"@, "to_localhost"@, "to_linklocal"@, "CONNECT"@]
}

/// Whether `name` is one of the ACLs that Squid defines itself.
pub open spec fn is_predefined(name: Seq<char>) -> bool {
    predefined_acls().contains(name)
}

/// The names of the ACLs that Squid defines itself, in order.
pub fn predefined_acl_names() -> (r: Vec<&'static str>)
    ensures
        r@.map_values(|s: &str| s@) == predefined_acls(),
{
    let r = vec!["all", "manager", "localhost", "to_localhost", "to_linklocal", "CONNECT"];
    assert(r@.map_values(|s: &str| s@) =~= predefined_acls());
    r
}

} // verus!
