//! Reading a `squid.conf` text into a [`SquidConfig`]: `acl`,
//! `http_access`, `always_direct`, `never_direct` and `auth_param basic`
//! lines are read, every other line is skipped.
use vstd::prelude::*;

use crate::model::{
    AccessAction, AccessRule, Acl, AclRef, AclRefView, AclType, AclView, ConfigView, DirectRule,
    RuleView, SquidConfig, access_view, acls_view, direct_view, refs_view,
};
use crate::text::{
    chars_of, find, find_vec, lines, seqs_of, split_lines, split_words, string_of,
    string_of_range, strings_of, trim, trim_bounds, trim_vec, vec_eq_str, words,
};

verus! {

/// Why a configuration text was refused: the 1-based line and a message.
#[derive(Debug)]
pub struct ParseError {
    pub line: usize,
    pub message: String,
}

/// The value of a [`ParseError`].
#[verifier::ext_equal]
pub struct ParseErrorView {
    pub line: nat,
    pub message: Seq<char>,
}

impl View for ParseError {
    type V = ParseErrorView;

    open spec fn view(&self) -> ParseErrorView {
        ParseErrorView { line: self.line as nat, message: self.message@ }
    }
}

impl ParseError {
    /// The error as it is shown: `line N: message`.
    pub fn to_string(&self) -> (r: String)
        ensures
            r@ == "line "@ + crate::text::decimal(self.line as nat) + ": "@ + self.message@,
    {
        let n = crate::text::decimal_string_usize(self.line);
        String::from_str("line ").concat(n.as_str()).concat(": ").concat(self.message.as_str())
    }
}

/// An error on line `line` with message `m`.
pub open spec fn error_at(line: nat, m: Seq<char>) -> ParseErrorView {
    ParseErrorView { line, message: m }
}

/// The index of the first ACL at or after `i` named `name`.
pub open spec fn acl_index_from(acls: Seq<AclView>, name: Seq<char>, i: int) -> Option<int>
    decreases acls.len() - i,
{
    if i < 0 || i >= acls.len() {
        None
    } else if acls[i].name == name {
        Some(i)
    } else {
        acl_index_from(acls, name, i + 1)
    }
}

pub proof fn lemma_acl_index_from(acls: Seq<AclView>, name: Seq<char>, i: int)
    requires
        0 <= i,
    ensures
        acl_index_from(acls, name, i) matches Some(k) ==> i <= k < acls.len() && acls[k].name
            == name && forall|m: int| i <= m < k ==> acls[m].name != name,
        acl_index_from(acls, name, i) is None ==> forall|m: int|
            i <= m < acls.len() ==> acls[m].name != name,
    decreases acls.len() - i,
{
    if i < acls.len() && acls[i].name != name {
        lemma_acl_index_from(acls, name, i + 1);
    }
}

/// The effect of the words `t` of an `acl` line on `cfg`. A name seen before
/// adds its values to the earlier ACL and may set its `-i` flag; it may not
/// change its type.
pub open spec fn acl_line(cfg: ConfigView, t: Seq<Seq<char>>, line: nat) -> Result<
    ConfigView,
    ParseErrorView,
> {
    if t.len() < 4 {
        Err(error_at(line, "acl requires at least: acl <name> <type> <value>"@))
    } else {
        match AclType::parse_text(t[2]) {
            None => Err(error_at(line, "unknown ACL type: "@ + t[2])),
            Some(ty) => {
                let ci = t[3] == "-i"@;
                let values = if ci {
                    t.subrange(4, t.len() as int)
                } else {
                    t.subrange(3, t.len() as int)
                };
                match acl_index_from(cfg.acls, t[1], 0) {
                    Some(k) => {
                        let old = cfg.acls[k];
                        if old.acl_type != ty {
                            Err(
                                error_at(
                                    line,
                                    "ACL '"@ + t[1] + "' redefined with different type ("@
                                        + old.acl_type.text() + " vs "@ + ty.text() + ")"@,
                                ),
                            )
                        } else {
                            Ok(
                                ConfigView {
                                    acls: cfg.acls.update(
                                        k,
                                        AclView {
                                            values: old.values + values,
                                            case_insensitive: old.case_insensitive || ci,
                                            ..old
                                        },
                                    ),
                                    ..cfg
                                },
                            )
                        }
                    },
                    None => Ok(
                        ConfigView {
                            acls: cfg.acls.push(
                                AclView {
                                    name: t[1],
                                    acl_type: ty,
                                    case_insensitive: ci,
                                    values,
                                },
                            ),
                            ..cfg
                        },
                    ),
                }
            },
        }
    }
}

/// The reference that a rule word stands for: a leading `!` negates.
pub open spec fn ref_of_word(w: Seq<char>) -> AclRefView {
    if w.len() > 0 && w[0] == '!' {
        AclRefView { negated: true, name: w.drop_first() }
    } else {
        AclRefView { negated: false, name: w }
    }
}

/// The references that the words `t[start..]` stand for; there must be one.
pub open spec fn acl_refs_of(t: Seq<Seq<char>>, start: int, line: nat) -> Result<
    Seq<AclRefView>,
    ParseErrorView,
> {
    if start >= t.len() {
        Err(error_at(line, "expected at least one ACL name"@))
    } else {
        Ok(t.subrange(start, t.len() as int).map_values(|w: Seq<char>| ref_of_word(w)))
    }
}

/// The rule that the words `t` of a rule line give, whose too-short form is
/// reported with `short`.
pub open spec fn rule_of(t: Seq<Seq<char>>, line: nat, short: Seq<char>) -> Result<
    RuleView,
    ParseErrorView,
> {
    if t.len() < 3 {
        Err(error_at(line, short))
    } else {
        match AccessAction::parse_text(t[1]) {
            None => Err(error_at(line, "expected 'allow' or 'deny', got: "@ + t[1])),
            Some(a) => match acl_refs_of(t, 2, line) {
                Ok(refs) => Ok(RuleView { action: a, acl_refs: refs }),
                Err(e) => Err(e),
            },
        }
    }
}

/// The rule that an `http_access` line gives.
pub open spec fn access_rule_of(t: Seq<Seq<char>>, line: nat) -> Result<RuleView, ParseErrorView> {
    rule_of(t, line, "http_access requires: http_access allow|deny <acl> ..."@)
}

/// The rule that an `always_direct` or `never_direct` line gives.
pub open spec fn direct_rule_of(t: Seq<Seq<char>>, line: nat) -> Result<RuleView, ParseErrorView> {
    rule_of(t, line, t[0] + " requires: "@ + t[0] + " allow|deny <acl> ..."@)
}

/// The value of an `auth_param` line `raw`: the trimmed text from the first
/// occurrence of its fourth word on.
pub open spec fn auth_value(raw: Seq<char>, t: Seq<Seq<char>>) -> Seq<char> {
    let start = match find(raw, t[3]) {
        Some(k) => k,
        None => 0,
    };
    trim(raw.subrange(start, raw.len() as int))
}

/// The effect of an `auth_param` line `raw` with words `t` on `cfg`: only the
/// `basic` scheme's `program`, `children`, `realm` and `credentialsttl` are
/// kept.
pub open spec fn auth_line(cfg: ConfigView, t: Seq<Seq<char>>, raw: Seq<char>, line: nat) -> Result<
    ConfigView,
    ParseErrorView,
> {
    if t.len() < 3 {
        Err(error_at(line, "auth_param requires: auth_param basic <directive> <value>"@))
    } else if t[1] != "basic"@ {
        Ok(cfg)
    } else if t.len() < 4 {
        Err(error_at(line, "auth_param basic requires a directive and value"@))
    } else {
        let v = auth_value(raw, t);
        let a = cfg.auth_param;
        if t[2] == "program"@ {
            Ok(ConfigView { auth_param: crate::model::AuthView { program: Some(v), ..a }, ..cfg })
        } else if t[2] == "children"@ {
            Ok(ConfigView { auth_param: crate::model::AuthView { children: Some(t[3]), ..a }, ..cfg })
        } else if t[2] == "realm"@ {
            Ok(ConfigView { auth_param: crate::model::AuthView { realm: Some(v), ..a }, ..cfg })
        } else if t[2] == "credentialsttl"@ {
            Ok(
                ConfigView {
                    auth_param: crate::model::AuthView { credentialsttl: Some(v), ..a },
                    ..cfg
                },
            )
        } else {
            Ok(cfg)
        }
    }
}

/// The effect of line number `line` (1-based), whose text is `raw`, on `cfg`.
/// Blank lines, comments and unknown directives change nothing.
pub open spec fn line_effect(cfg: ConfigView, raw: Seq<char>, line: nat) -> Result<
    ConfigView,
    ParseErrorView,
> {
    let l = trim(raw);
    if l.len() == 0 || l[0] == '#' {
        Ok(cfg)
    } else {
        let t = words(l);
        if t.len() == 0 {
            Ok(cfg)
        } else if t[0] == "acl"@ {
            acl_line(cfg, t, line)
        } else if t[0] == "http_access"@ {
            match access_rule_of(t, line) {
                Ok(r) => Ok(ConfigView { http_access: cfg.http_access.push(r), ..cfg }),
                Err(e) => Err(e),
            }
        } else if t[0] == "always_direct"@ {
            match direct_rule_of(t, line) {
                Ok(r) => Ok(ConfigView { always_direct: cfg.always_direct.push(r), ..cfg }),
                Err(e) => Err(e),
            }
        } else if t[0] == "never_direct"@ {
            match direct_rule_of(t, line) {
                Ok(r) => Ok(ConfigView { never_direct: cfg.never_direct.push(r), ..cfg }),
                Err(e) => Err(e),
            }
        } else if t[0] == "auth_param"@ {
            auth_line(cfg, t, raw, line)
        } else {
            Ok(cfg)
        }
    }
}

/// The configuration that the first `n` of the lines `ls` give, applied in
/// order to the empty configuration, or the first error among them.
pub open spec fn parse_lines(ls: Seq<Seq<char>>, n: nat) -> Result<ConfigView, ParseErrorView>
    decreases n,
{
    if n == 0 {
        Ok(ConfigView::empty())
    } else {
        match parse_lines(ls, (n - 1) as nat) {
            Ok(c) => line_effect(c, ls[n - 1], n),
            Err(e) => Err(e),
        }
    }
}

/// What reading the text `input` gives.
pub open spec fn parse_text(input: Seq<char>) -> Result<ConfigView, ParseErrorView> {
    parse_lines(lines(input), lines(input).len())
}

/// Once an error is met, later lines do not matter.
pub proof fn lemma_parse_lines_error_stays(ls: Seq<Seq<char>>, n: nat, m: nat)
    requires
        n <= m,
        parse_lines(ls, n) is Err,
    ensures
        parse_lines(ls, m) == parse_lines(ls, n),
    decreases m - n,
{
    if n < m {
        lemma_parse_lines_error_stays(ls, n, (m - 1) as nat);
    }
}

/// An error on line `line` with the message `m`.
fn error(line: usize, m: &str) -> (r: ParseError)
    ensures
        r@ == error_at(line as nat, m@),
{
    ParseError { line, message: String::from_str(m) }
}

/// Removing an element and inserting another at its place replaces it.
pub proof fn lemma_remove_insert<T>(s: Seq<T>, i: int, x: T)
    requires
        0 <= i < s.len(),
    ensures
        s.remove(i).insert(i, x) == s.update(i, x),
{
    s.remove_ensures(i);
    s.remove(i).insert_ensures(i, x);
    assert(s.remove(i).insert(i, x) =~= s.update(i, x));
}

/// The index of the first ACL named `name`.
fn find_acl(acls: &Vec<Acl>, name: &String) -> (r: Option<usize>)
    ensures
        match r {
            Some(i) => acl_index_from(acls_view(acls@), name@, 0) == Some(i as int),
            None => acl_index_from(acls_view(acls@), name@, 0) is None,
        },
        r matches Some(i) ==> i < acls@.len(),
{
    proof {
        lemma_acl_index_from(acls_view(acls@), name@, 0);
    }
    let mut i: usize = 0;
    while i < acls.len()
        invariant
            0 <= i <= acls@.len(),
            acl_index_from(acls_view(acls@), name@, 0) == acl_index_from(
                acls_view(acls@),
                name@,
                i as int,
            ),
        decreases acls.len() - i,
    {
        if acls[i].name == *name {
            return Some(i);
        }
        i += 1;
    }
    None
}

/// Applies the words `tokens` of an `acl` line to `config`.
fn parse_acl(tokens: &Vec<Vec<char>>, config: &mut SquidConfig, line: usize) -> (r: Result<
    (),
    ParseError,
>)
    ensures
        match r {
            Ok(()) => acl_line(old(config)@, seqs_of(tokens@), line as nat) == Ok::<ConfigView, ParseErrorView>(final(config)@),
            Err(e) => acl_line(old(config)@, seqs_of(tokens@), line as nat) == Err::<ConfigView, ParseErrorView>(e@)
                && final(config)@ == old(config)@,
        },
{
    let ghost t = seqs_of(tokens@);
    if tokens.len() < 4 {
        return Err(error(line, "acl requires at least: acl <name> <type> <value>"));
    }
    let name = string_of(&tokens[1]);
    let type_word = string_of(&tokens[2]);
    let acl_type = match AclType::from_name(type_word.as_str()) {
        Ok(ty) => ty,
        Err(m) => {
            return Err(ParseError { line, message: m });
        },
    };
    let mut idx: usize = 3;
    let mut case_insensitive = false;
    if vec_eq_str(&tokens[3], "-i") {
        case_insensitive = true;
        idx = 4;
    }
    let mut values: Vec<String> = Vec::new();
    let mut k = idx;
    while k < tokens.len()
        invariant
            idx <= k <= tokens@.len(),
            t == seqs_of(tokens@),
            strings_of(values@) == t.subrange(idx as int, k as int),
        decreases tokens.len() - k,
    {
        let ghost before = values@;
        let v = string_of(&tokens[k]);
        values.push(v);
        assert(strings_of(values@) =~= strings_of(before).push(v@));
        k += 1;
        assert(strings_of(values@) =~= t.subrange(idx as int, k as int));
    }
    assert(case_insensitive == (t[3] == "-i"@));
    let found = find_acl(&config.acls, &name);
    if let Some(i) = found {
        let existing = config.acls[i].acl_type;
        if existing != acl_type {
            let message = String::from_str("ACL '").concat(name.as_str()).concat(
                "' redefined with different type (",
            ).concat(existing.as_str()).concat(" vs ").concat(acl_type.as_str()).concat(")");
            return Err(ParseError { line, message });
        }
        let ghost old_acl = config@.acls[i as int];
        let mut acl = config.acls.remove(i);
        assert(acl@ == old_acl);
        let mut j: usize = 0;
        let ghost acl_values = strings_of(acl.values@);
        while j < values.len()
            invariant
                0 <= j <= values@.len(),
                strings_of(acl.values@) == acl_values + strings_of(values@).take(j as int),
                acl.name@ == old_acl.name,
                acl.acl_type == old_acl.acl_type,
                acl.case_insensitive == old_acl.case_insensitive,
            decreases values.len() - j,
        {
            let ghost before = acl.values@;
            let v = values[j].clone();
            acl.values.push(v);
            assert(strings_of(acl.values@) =~= strings_of(before).push(v@));
            j += 1;
            assert(strings_of(acl.values@) =~= acl_values + strings_of(values@).take(j as int));
        }
        assert(strings_of(values@).take(values@.len() as int) =~= strings_of(values@));
        acl.case_insensitive = acl.case_insensitive || case_insensitive;
        let ghost acls_before = old(config).acls@;
        let ghost new_view = acl@;
        assert(new_view =~= AclView {
            values: old_acl.values + strings_of(values@),
            case_insensitive: old_acl.case_insensitive || case_insensitive,
            ..old_acl
        });
        config.acls.insert(i, acl);
        proof {
            lemma_remove_insert(acls_before, i as int, config.acls@[i as int]);
        }
        assert(config.acls@ == acls_before.update(i as int, config.acls@[i as int]));
        assert(acls_view(config.acls@) =~= acls_view(acls_before).update(i as int, new_view));
        assert(config@.acls =~= old(config)@.acls.update(
            i as int,
            AclView {
                values: old_acl.values + strings_of(values@),
                case_insensitive: old_acl.case_insensitive || case_insensitive,
                ..old_acl
            },
        ));
    } else {
        let acl = Acl { name, acl_type, case_insensitive, values };
        config.acls.push(acl);
        assert(config@.acls =~= old(config)@.acls.push(acl@));
    }
    Ok(())
}

/// The reference that the rule word `w` stands for.
fn acl_ref_of_word(w: &Vec<char>) -> (r: AclRef)
    ensures
        r@ == ref_of_word(w@),
{
    if w.len() > 0 && w[0] == '!' {
        let name = string_of_range(w, 1, w.len());
        assert(w@.subrange(1, w@.len() as int) =~= w@.drop_first());
        AclRef { negated: true, name }
    } else {
        AclRef { negated: false, name: string_of(w) }
    }
}

/// The references that the words `tokens[start..]` stand for.
fn parse_acl_refs(tokens: &Vec<Vec<char>>, start: usize, line: usize) -> (r: Result<
    Vec<AclRef>,
    ParseError,
>)
    ensures
        match r {
            Ok(v) => acl_refs_of(seqs_of(tokens@), start as int, line as nat) == Ok::<
                Seq<AclRefView>,
                ParseErrorView,
            >(refs_view(v@)),
            Err(e) => acl_refs_of(seqs_of(tokens@), start as int, line as nat) == Err::<
                Seq<AclRefView>,
                ParseErrorView,
            >(e@),
        },
{
    if start >= tokens.len() {
        return Err(error(line, "expected at least one ACL name"));
    }
    let ghost t = seqs_of(tokens@);
    let ghost want = t.subrange(start as int, t.len() as int).map_values(
        |w: Seq<char>| ref_of_word(w),
    );
    let mut refs: Vec<AclRef> = Vec::new();
    let mut k = start;
    while k < tokens.len()
        invariant
            start <= k <= tokens@.len(),
            t == seqs_of(tokens@),
            want == t.subrange(start as int, t.len() as int).map_values(
                |w: Seq<char>| ref_of_word(w),
            ),
            refs_view(refs@) == want.take(k - start),
        decreases tokens.len() - k,
    {
        let ghost before = refs@;
        let x = acl_ref_of_word(&tokens[k]);
        refs.push(x);
        assert(refs_view(refs@) =~= refs_view(before).push(x@));
        k += 1;
        assert(refs_view(refs@) =~= want.take(k - start));
    }
    assert(want.take(want.len() as int) =~= want);
    Ok(refs)
}

/// The action and references of a rule line `tokens`, whose too-short form
/// is reported with `short`.
fn parse_rule_parts(tokens: &Vec<Vec<char>>, line: usize, short: String) -> (r: Result<
    (AccessAction, Vec<AclRef>),
    ParseError,
>)
    ensures
        match r {
            Ok((a, v)) => rule_of(seqs_of(tokens@), line as nat, short@) == Ok::<
                RuleView,
                ParseErrorView,
            >(RuleView { action: a, acl_refs: refs_view(v@) }),
            Err(e) => rule_of(seqs_of(tokens@), line as nat, short@) == Err::<
                RuleView,
                ParseErrorView,
            >(e@),
        },
{
    if tokens.len() < 3 {
        return Err(ParseError { line, message: short });
    }
    let word = string_of(&tokens[1]);
    let action = match AccessAction::from_name(word.as_str()) {
        Ok(a) => a,
        Err(m) => {
            return Err(ParseError { line, message: m });
        },
    };
    match parse_acl_refs(tokens, 2, line) {
        Ok(v) => Ok((action, v)),
        Err(e) => Err(e),
    }
}

/// Appends the rule of the `http_access` line `tokens` to `rules`.
fn parse_access_rule(tokens: &Vec<Vec<char>>, rules: &mut Vec<AccessRule>, line: usize) -> (r:
    Result<(), ParseError>)
    ensures
        match access_rule_of(seqs_of(tokens@), line as nat) {
            Ok(rule) => r is Ok && access_view(final(rules)@) == access_view(old(rules)@).push(
                rule,
            ),
            Err(e) => r matches Err(x) && x@ == e && access_view(final(rules)@) == access_view(
                old(rules)@,
            ),
        },
{
    let short = String::from_str("http_access requires: http_access allow|deny <acl> ...");
    match parse_rule_parts(tokens, line, short) {
        Ok((action, acl_refs)) => {
            let rule = AccessRule { action, acl_refs };
            let ghost before = rules@;
            rules.push(rule);
            assert(access_view(rules@) =~= access_view(before).push(rule@));
            Ok(())
        },
        Err(e) => Err(e),
    }
}

/// Appends the rule of the `always_direct` or `never_direct` line `tokens`
/// to `rules`.
fn parse_direct_rule(tokens: &Vec<Vec<char>>, rules: &mut Vec<DirectRule>, line: usize) -> (r:
    Result<(), ParseError>)
    requires
        tokens@.len() > 0,
    ensures
        match direct_rule_of(seqs_of(tokens@), line as nat) {
            Ok(rule) => r is Ok && direct_view(final(rules)@) == direct_view(old(rules)@).push(
                rule,
            ),
            Err(e) => r matches Err(x) && x@ == e && direct_view(final(rules)@) == direct_view(
                old(rules)@,
            ),
        },
{
    let directive = string_of(&tokens[0]);
    let short = directive.clone().concat(" requires: ").concat(directive.as_str()).concat(
        " allow|deny <acl> ...",
    );
    match parse_rule_parts(tokens, line, short) {
        Ok((action, acl_refs)) => {
            let rule = DirectRule { action, acl_refs };
            let ghost before = rules@;
            rules.push(rule);
            assert(direct_view(rules@) =~= direct_view(before).push(rule@));
            Ok(())
        },
        Err(e) => Err(e),
    }
}

/// Applies the `auth_param` line `raw_line`, whose words are `tokens`, to
/// `config`.
fn parse_auth_param(
    tokens: &Vec<Vec<char>>,
    raw_line: &Vec<char>,
    config: &mut SquidConfig,
    line: usize,
) -> (r: Result<(), ParseError>)
    ensures
        match r {
            Ok(()) => auth_line(old(config)@, seqs_of(tokens@), raw_line@, line as nat) == Ok::<
                ConfigView,
                ParseErrorView,
            >(final(config)@),
            Err(e) => auth_line(old(config)@, seqs_of(tokens@), raw_line@, line as nat) == Err::<
                ConfigView,
                ParseErrorView,
            >(e@) && final(config)@ == old(config)@,
        },
{
    if tokens.len() < 3 {
        return Err(error(line, "auth_param requires: auth_param basic <directive> <value>"));
    }
    if !vec_eq_str(&tokens[1], "basic") {
        return Ok(());
    }
    if tokens.len() < 4 {
        return Err(error(line, "auth_param basic requires a directive and value"));
    }
    let value_start = match find_vec(raw_line, &tokens[3]) {
        Some(k) => k,
        None => 0,
    };
    proof {
        crate::text::lemma_find_from_bounds(raw_line@, tokens@[3]@, 0);
    }
    let rest = crate::text::vec_range(raw_line, value_start, raw_line.len());
    let value_chars = trim_vec(&rest);
    let value = string_of(&value_chars);
    assert(value@ == auth_value(raw_line@, seqs_of(tokens@)));
    let ghost before = config@;
    if vec_eq_str(&tokens[2], "program") {
        config.auth_param.program = Some(value);
    } else if vec_eq_str(&tokens[2], "children") {
        config.auth_param.children = Some(string_of(&tokens[3]));
    } else if vec_eq_str(&tokens[2], "realm") {
        config.auth_param.realm = Some(value);
    } else if vec_eq_str(&tokens[2], "credentialsttl") {
        config.auth_param.credentialsttl = Some(value);
    }
    assert(auth_line(before, seqs_of(tokens@), raw_line@, line as nat) =~= Ok::<
        ConfigView,
        ParseErrorView,
    >(config@));
    Ok(())
}

/// Applies line number `line`, whose text is `raw_line`, to `config`.
fn parse_line(raw_line: &Vec<char>, config: &mut SquidConfig, line: usize) -> (r: Result<
    (),
    ParseError,
>)
    ensures
        match r {
            Ok(()) => line_effect(old(config)@, raw_line@, line as nat) == Ok::<
                ConfigView,
                ParseErrorView,
            >(final(config)@),
            Err(e) => line_effect(old(config)@, raw_line@, line as nat) == Err::<
                ConfigView,
                ParseErrorView,
            >(e@) && final(config)@ == old(config)@,
        },
{
    let trimmed = trim_vec(raw_line);
    if trimmed.len() == 0 || trimmed[0] == '#' {
        return Ok(());
    }
    let tokens = split_words(&trimmed);
    if tokens.len() == 0 {
        return Ok(());
    }
    let ghost before = config@;
    if vec_eq_str(&tokens[0], "acl") {
        parse_acl(&tokens, config, line)
    } else if vec_eq_str(&tokens[0], "http_access") {
        let r = parse_access_rule(&tokens, &mut config.http_access, line);
        assert(r is Ok ==> config@ =~= ConfigView {
            http_access: config@.http_access,
            ..before
        });
        r
    } else if vec_eq_str(&tokens[0], "always_direct") {
        let r = parse_direct_rule(&tokens, &mut config.always_direct, line);
        assert(r is Ok ==> config@ =~= ConfigView {
            always_direct: config@.always_direct,
            ..before
        });
        r
    } else if vec_eq_str(&tokens[0], "never_direct") {
        let r = parse_direct_rule(&tokens, &mut config.never_direct, line);
        assert(r is Ok ==> config@ =~= ConfigView {
            never_direct: config@.never_direct,
            ..before
        });
        r
    } else if vec_eq_str(&tokens[0], "auth_param") {
        parse_auth_param(&tokens, raw_line, config, line)
    } else {
        Ok(())
    }
}

/// Reads a configuration text. Lines are taken in order; the first line
/// that cannot be read makes the whole text fail with its line number.
pub fn parse(input: &str) -> (r: Result<SquidConfig, ParseError>)
    ensures
        match r {
            Ok(c) => parse_text(input@) == Ok::<ConfigView, ParseErrorView>(c@),
            Err(e) => parse_text(input@) == Err::<ConfigView, ParseErrorView>(e@),
        },
{
    let chars = chars_of(input);
    let ls = split_lines(&chars);
    let ghost all = seqs_of(ls@);
    let mut config = SquidConfig::default();
    let mut i: usize = 0;
    while i < ls.len()
        invariant
            0 <= i <= ls@.len(),
            all == seqs_of(ls@),
            all == lines(input@),
            parse_lines(all, i as nat) == Ok::<ConfigView, ParseErrorView>(config@),
        decreases ls.len() - i,
    {
        let r = parse_line(&ls[i], &mut config, i + 1);
        assert(all[i as int] == ls@[i as int]@);
        match r {
            Ok(()) => {},
            Err(e) => {
                proof {
                    lemma_parse_lines_error_stays(all, (i + 1) as nat, all.len());
                }
                return Err(e);
            },
        }
        i += 1;
    }
    Ok(config)
}

} // verus!
