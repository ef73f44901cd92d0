//! Writing a [`SquidConfig`] back out as configuration text.
use vstd::prelude::*;

use crate::model::{
    AccessRule, Acl, AclRef, AclRefView, AclView, AuthParamBasic, AuthView, ConfigView, DirectRule,
    RuleView, SquidConfig, access_view, acls_view, direct_view, is_predefined, opt_view,
    predefined_acl_names, predefined_acls, refs_view,
};
use crate::text::{back_ws, chars_of, char_is_ws, lemma_back_ws_bounds, string_of_range, strings_of, trim_end};

verus! {

/// `prefix`, the value and a newline, when the value is present.
pub open spec fn setting_text(prefix: Seq<char>, o: Option<Seq<char>>) -> Seq<char> {
    match o {
        Some(v) => prefix + v + "\n"@,
        None => Seq::empty(),
    }
}

/// The `auth_param basic` lines followed by a blank line, or nothing when no
/// setting is present.
pub open spec fn auth_text(a: AuthView) -> Seq<char> {
    if a.is_empty() {
        Seq::empty()
    } else {
        setting_text("auth_param basic program "@, a.program) + setting_text(
            "auth_param basic children "@,
            a.children,
        ) + setting_text("auth_param basic realm "@, a.realm) + setting_text(
            "auth_param basic credentialsttl "@,
            a.credentialsttl,
        ) + "\n"@
    }
}

/// Each word of `ws` preceded by a space.
pub open spec fn spaced(ws: Seq<Seq<char>>) -> Seq<char>
    decreases ws.len(),
{
    if ws.len() == 0 {
        Seq::empty()
    } else {
        spaced(ws.drop_last()) + " "@ + ws.last()
    }
}

/// The line that defines ACL `a`.
pub open spec fn acl_text(a: AclView) -> Seq<char> {
    "acl "@ + a.name + " "@ + a.acl_type.text() + (if a.case_insensitive {
        " -i"@
    } else {
        Seq::empty()
    }) + spaced(a.values) + "\n"@
}

/// The lines that define the ACLs `acls`, the predefined ones left out.
pub open spec fn acl_lines(acls: Seq<AclView>) -> Seq<char>
    decreases acls.len(),
{
    if acls.len() == 0 {
        Seq::empty()
    } else {
        acl_lines(acls.drop_last()) + if is_predefined(acls.last().name) {
            Seq::empty()
        } else {
            acl_text(acls.last())
        }
    }
}

/// The ACL lines followed by a blank line, or nothing when there are no ACLs.
pub open spec fn acls_text(acls: Seq<AclView>) -> Seq<char> {
    if acls.len() == 0 {
        Seq::empty()
    } else {
        acl_lines(acls) + "\n"@
    }
}

/// How the references of a rule are written: each after a space.
pub open spec fn refs_text(refs: Seq<AclRefView>) -> Seq<char> {
    spaced(refs.map_values(|r: AclRefView| r.text()))
}

/// The line of rule `r` under `directive`.
pub open spec fn rule_text(directive: Seq<char>, r: RuleView) -> Seq<char> {
    directive + " "@ + r.action.text() + refs_text(r.acl_refs) + "\n"@
}

/// The lines of the rules `rules` under `directive`.
pub open spec fn rule_lines(directive: Seq<char>, rules: Seq<RuleView>) -> Seq<char>
    decreases rules.len(),
{
    if rules.len() == 0 {
        Seq::empty()
    } else {
        rule_lines(directive, rules.drop_last()) + rule_text(directive, rules.last())
    }
}

/// The rule lines followed by a blank line, or nothing when there are no
/// rules.
pub open spec fn rules_text(directive: Seq<char>, rules: Seq<RuleView>) -> Seq<char> {
    if rules.len() == 0 {
        Seq::empty()
    } else {
        rule_lines(directive, rules) + "\n"@
    }
}

/// All sections of a configuration, in order: authentication, ACLs,
/// `http_access`, `always_direct`, `never_direct`.
pub open spec fn config_body(c: ConfigView) -> Seq<char> {
    auth_text(c.auth_param) + acls_text(c.acls) + rules_text("http_access"@, c.http_access)
        + rules_text("always_direct"@, c.always_direct) + rules_text(
        "never_direct"@,
        c.never_direct,
    )
}

/// The text written for `c`: its sections without trailing whitespace, then
/// one newline.
pub open spec fn config_text(c: ConfigView) -> Seq<char> {
    trim_end(config_body(c)) + "\n"@
}

/// Appends `prefix`, the value and a newline when the value is present.
fn write_setting(prefix: &str, o: &Option<String>, out: &mut String)
    ensures
        final(out)@ == old(out)@ + setting_text(prefix@, opt_view(*o)),
{
    match o {
        Some(v) => {
            out.append(prefix);
            out.append(v.as_str());
            out.append("\n");
        },
        None => {
            assert(old(out)@ + setting_text(prefix@, opt_view(*o)) =~= old(out)@);
        },
    }
}

/// Appends the `auth_param basic` section.
fn write_auth_param(auth: &AuthParamBasic, out: &mut String)
    ensures
        final(out)@ == old(out)@ + auth_text(auth@),
{
    if auth.is_empty() {
        assert(old(out)@ + auth_text(auth@) =~= old(out)@);
        return;
    }
    let ghost start = out@;
    write_setting("auth_param basic program ", &auth.program, out);
    write_setting("auth_param basic children ", &auth.children, out);
    write_setting("auth_param basic realm ", &auth.realm, out);
    write_setting("auth_param basic credentialsttl ", &auth.credentialsttl, out);
    out.append("\n");
    assert(out@ =~= start + auth_text(auth@));
}

/// Appends each word of `ws` preceded by a space.
fn write_spaced(ws: &Vec<String>, out: &mut String)
    ensures
        final(out)@ == old(out)@ + spaced(strings_of(ws@)),
{
    let mut i: usize = 0;
    while i < ws.len()
        invariant
            0 <= i <= ws@.len(),
            out@ == old(out)@ + spaced(strings_of(ws@).take(i as int)),
        decreases ws.len() - i,
    {
        out.append(" ");
        out.append(ws[i].as_str());
        i += 1;
        assert(strings_of(ws@).take(i as int).drop_last() =~= strings_of(ws@).take(i - 1));
        assert(out@ =~= old(out)@ + spaced(strings_of(ws@).take(i as int)));
    }
    assert(strings_of(ws@).take(ws@.len() as int) =~= strings_of(ws@));
}

/// Whether `name` is one of the ACLs that Squid defines itself.
fn predefined(name: &String) -> (r: bool)
    ensures
        r == is_predefined(name@),
{
    let names = predefined_acl_names();
    let mut i: usize = 0;
    while i < names.len()
        invariant
            0 <= i <= names@.len(),
            names@.map_values(|s: &str| s@) == predefined_acls(),
            forall|k: int| 0 <= k < i ==> predefined_acls()[k] != name@,
        decreases names.len() - i,
    {
        let candidate = String::from_str(names[i]);
        if candidate == *name {
            assert(predefined_acls()[i as int] == name@);
            return true;
        }
        i += 1;
    }
    false
}

/// Appends the line that defines `acl`.
fn write_acl(acl: &Acl, out: &mut String)
    ensures
        final(out)@ == old(out)@ + acl_text(acl@),
{
    let ghost start = out@;
    out.append("acl ");
    out.append(acl.name.as_str());
    out.append(" ");
    out.append(acl.acl_type.as_str());
    if acl.case_insensitive {
        out.append(" -i");
    }
    let ghost mid = out@;
    write_spaced(&acl.values, out);
    out.append("\n");
    assert(out@ =~= start + acl_text(acl@));
}

/// Appends the ACL section.
fn write_acls(acls: &Vec<Acl>, out: &mut String)
    ensures
        final(out)@ == old(out)@ + acls_text(acls_view(acls@)),
{
    if acls.len() == 0 {
        assert(old(out)@ + acls_text(acls_view(acls@)) =~= old(out)@);
        return;
    }
    let mut i: usize = 0;
    while i < acls.len()
        invariant
            0 <= i <= acls@.len(),
            out@ == old(out)@ + acl_lines(acls_view(acls@).take(i as int)),
        decreases acls.len() - i,
    {
        let ghost before = out@;
        assert(acls_view(acls@).take(i + 1).drop_last() =~= acls_view(acls@).take(i as int));
        if !predefined(&acls[i].name) {
            write_acl(&acls[i], out);
        } else {
            assert(before + Seq::<char>::empty() =~= before);
        }
        i += 1;
        assert(out@ =~= old(out)@ + acl_lines(acls_view(acls@).take(i as int)));
    }
    assert(acls_view(acls@).take(acls@.len() as int) =~= acls_view(acls@));
    out.append("\n");
    assert(out@ =~= old(out)@ + acls_text(acls_view(acls@)));
}

/// Appends the references of a rule, each after a space.
fn write_refs(refs: &Vec<AclRef>, out: &mut String)
    ensures
        final(out)@ == old(out)@ + refs_text(refs_view(refs@)),
{
    let ghost texts = refs_view(refs@).map_values(|r: AclRefView| r.text());
    let mut i: usize = 0;
    while i < refs.len()
        invariant
            0 <= i <= refs@.len(),
            texts == refs_view(refs@).map_values(|r: AclRefView| r.text()),
            out@ == old(out)@ + spaced(texts.take(i as int)),
        decreases refs.len() - i,
    {
        out.append(" ");
        let t = refs[i].to_string();
        out.append(t.as_str());
        i += 1;
        assert(texts.take(i as int).drop_last() =~= texts.take(i - 1));
        assert(out@ =~= old(out)@ + spaced(texts.take(i as int)));
    }
    assert(texts.take(refs@.len() as int) =~= texts);
}

/// Appends the `http_access` section.
fn write_access_rules(directive: &str, rules: &Vec<AccessRule>, out: &mut String)
    ensures
        final(out)@ == old(out)@ + rules_text(directive@, access_view(rules@)),
{
    if rules.len() == 0 {
        assert(old(out)@ + rules_text(directive@, access_view(rules@)) =~= old(out)@);
        return;
    }
    let mut i: usize = 0;
    while i < rules.len()
        invariant
            0 <= i <= rules@.len(),
            out@ == old(out)@ + rule_lines(directive@, access_view(rules@).take(i as int)),
        decreases rules.len() - i,
    {
        let ghost before = out@;
        out.append(directive);
        out.append(" ");
        out.append(rules[i].action.as_str());
        write_refs(&rules[i].acl_refs, out);
        out.append("\n");
        assert(out@ =~= before + rule_text(directive@, rules@[i as int]@));
        assert(access_view(rules@).take(i + 1).drop_last() =~= access_view(rules@).take(i as int));
        i += 1;
        assert(out@ =~= old(out)@ + rule_lines(directive@, access_view(rules@).take(i as int)));
    }
    assert(access_view(rules@).take(rules@.len() as int) =~= access_view(rules@));
    out.append("\n");
}

/// Appends an `always_direct` or `never_direct` section.
fn write_direct_rules(directive: &str, rules: &Vec<DirectRule>, out: &mut String)
    ensures
        final(out)@ == old(out)@ + rules_text(directive@, direct_view(rules@)),
{
    if rules.len() == 0 {
        assert(old(out)@ + rules_text(directive@, direct_view(rules@)) =~= old(out)@);
        return;
    }
    let mut i: usize = 0;
    while i < rules.len()
        invariant
            0 <= i <= rules@.len(),
            out@ == old(out)@ + rule_lines(directive@, direct_view(rules@).take(i as int)),
        decreases rules.len() - i,
    {
        let ghost before = out@;
        out.append(directive);
        out.append(" ");
        out.append(rules[i].action.as_str());
        write_refs(&rules[i].acl_refs, out);
        out.append("\n");
        assert(out@ =~= before + rule_text(directive@, rules@[i as int]@));
        assert(direct_view(rules@).take(i + 1).drop_last() =~= direct_view(rules@).take(i as int));
        i += 1;
        assert(out@ =~= old(out)@ + rule_lines(directive@, direct_view(rules@).take(i as int)));
    }
    assert(direct_view(rules@).take(rules@.len() as int) =~= direct_view(rules@));
    out.append("\n");
}

/// The configuration text for `config`.
pub fn write_config(config: &SquidConfig) -> (r: String)
    ensures
        r@ == config_text(config@),
{
    let mut out = String::new();
    write_auth_param(&config.auth_param, &mut out);
    write_acls(&config.acls, &mut out);
    write_access_rules("http_access", &config.http_access, &mut out);
    write_direct_rules("always_direct", &config.always_direct, &mut out);
    write_direct_rules("never_direct", &config.never_direct, &mut out);
    assert(out@ =~= config_body(config@));
    let chars = chars_of(out.as_str());
    let mut end = chars.len();
    while end > 0 && char_is_ws(chars[end - 1])
        invariant
            0 <= end <= chars@.len(),
            back_ws(chars@, chars@.len() as int) == back_ws(chars@, end as int),
        decreases end,
    {
        end -= 1;
    }
    let mut r = string_of_range(&chars, 0, end);
    r.append("\n");
    r
}

} // verus!
