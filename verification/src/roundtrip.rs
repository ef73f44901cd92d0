//! The text that the writer produces reads back as the configuration that
//! was written.
use vstd::prelude::*;

use crate::text::{back_ws, is_ws, lines, lines_acc, no_ws, skip_ws, strip_cr, trim, words, words_acc};
use crate::model::{
    AccessAction, AclRefView, AclType, AclView, AuthView, ConfigView, RuleView,
    law_access_action_text_roundtrip, law_acl_type_text_roundtrip,
};
use crate::parser::{
    access_rule_of, acl_refs_of, direct_rule_of, line_effect, parse_lines, ref_of_word, rule_of,
    ParseErrorView,
};
use crate::writer::{acl_lines, acl_text, acls_text, auth_text, refs_text, rule_lines, rule_text, rules_text, setting_text, spaced};
use crate::model::is_predefined;
use crate::writer::{config_body, config_text};
use crate::parser::parse_text;
use crate::text::trim_end;
use crate::parser::{acl_index_from, acl_line, auth_line, auth_value};
use crate::text::find;

verus! {

/// The lines `ls`, each followed by a newline.
pub open spec fn joined(ls: Seq<Seq<char>>) -> Seq<char>
    decreases ls.len(),
{
    if ls.len() == 0 {
        Seq::empty()
    } else {
        ls[0] + "\n"@ + joined(ls.drop_first())
    }
}

/// `l` is not blank and ends with a non-whitespace character.
pub open spec fn line_end_ok(l: Seq<char>) -> bool {
    l.len() > 0 && !is_ws(l.last())
}

/// `l` can stand as a line: no newline in it and no carriage return at its
/// end.
pub open spec fn line_ok(l: Seq<char>) -> bool {
    &&& !l.contains('\n')
    &&& (l.len() > 0 ==> l.last() != '\r')
}

pub proof fn lemma_newline_text()
    ensures
        "\n"@ == seq!['\n'],
{
    reveal_strlit("\n");
    assert("\n"@ =~= seq!['\n']);
}

pub proof fn lemma_lines_shift(p: Seq<char>, q: Seq<char>, i: int, cur: Seq<char>)
    requires
        0 <= i <= q.len(),
    ensures
        lines_acc(p + q, p.len() + i, cur) == lines_acc(q, i, cur),
    decreases q.len() - i,
{
    if i < q.len() {
        assert((p + q)[p.len() + i] == q[i]);
        if q[i] == '\n' {
            lemma_lines_shift(p, q, i + 1, Seq::empty());
        } else {
            lemma_lines_shift(p, q, i + 1, cur.push(q[i]));
        }
    }
}

pub proof fn lemma_lines_line(s: Seq<char>, i: int, l: Seq<char>, cur: Seq<char>)
    requires
        0 <= i,
        i + l.len() < s.len(),
        s.subrange(i, i + l.len()) == l,
        s[i + l.len()] == '\n',
        !l.contains('\n'),
    ensures
        lines_acc(s, i, cur) == seq![strip_cr(cur + l)] + lines_acc(s, i + l.len() + 1, Seq::empty()),
    decreases l.len(),
{
    if l.len() == 0 {
        assert(cur + l =~= cur);
    } else {
        assert(s[i] == l[0]);
        assert(!(l[0] == '\n')) by {
            assert(l.contains(l[0]));
        }
        let l2 = l.drop_first();
        assert(s.subrange(i + 1, i + 1 + l2.len()) =~= l2);
        assert(!l2.contains('\n')) by {
            if l2.contains('\n') {
                let k = choose|k: int| 0 <= k < l2.len() && l2[k] == '\n';
                assert(l[k + 1] == '\n');
            }
        }
        lemma_lines_line(s, i + 1, l2, cur.push(s[i]));
        assert(cur.push(s[i]) + l2 =~= cur + l);
    }
}

/// The lines of the joined lines `ls` are `ls`.
pub proof fn lemma_lines_joined(ls: Seq<Seq<char>>)
    requires
        forall|k: int| 0 <= k < ls.len() ==> line_ok(#[trigger] ls[k]),
    ensures
        lines(joined(ls)) == ls,
    decreases ls.len(),
{
    lemma_newline_text();
    if ls.len() == 0 {
        assert(lines(joined(ls)) =~= ls);
    } else {
        let l = ls[0];
        let rest = ls.drop_first();
        assert(line_ok(ls[0]));
        assert forall|k: int| 0 <= k < rest.len() implies line_ok(#[trigger] rest[k]) by {
            assert(rest[k] == ls[k + 1]);
        }
        let s = joined(ls);
        let p = l + "\n"@;
        assert(s =~= p + joined(rest));
        assert(s.subrange(0, l.len() as int) =~= l);
        assert(s[l.len() as int] == '\n');
        lemma_lines_line(s, 0, l, Seq::empty());
        assert(Seq::<char>::empty() + l =~= l);
        lemma_lines_shift(p, joined(rest), 0, Seq::empty());
        lemma_lines_joined(rest);
        assert(lines(s) =~= ls);
    }
}

proof fn lemma_space_text()
    ensures
        " "@ == seq![' '],
{
    reveal_strlit(" ");
    assert(" "@ =~= seq![' ']);
}

proof fn lemma_words_shift(p: Seq<char>, q: Seq<char>, i: int, cur: Seq<char>)
    requires
        0 <= i <= q.len(),
    ensures
        words_acc(p + q, p.len() + i, cur) == words_acc(q, i, cur),
    decreases q.len() - i,
{
    if i < q.len() {
        assert((p + q)[p.len() + i] == q[i]);
        if is_ws(q[i]) {
            lemma_words_shift(p, q, i + 1, Seq::empty());
        } else {
            lemma_words_shift(p, q, i + 1, cur.push(q[i]));
        }
    }
}

proof fn lemma_words_prefix(x: Seq<char>, y: Seq<char>, i: int, cur: Seq<char>)
    requires
        0 <= i < x.len(),
        is_ws(x.last()),
    ensures
        words_acc(x + y, i, cur) == words_acc(x, i, cur) + words_acc(y, 0, Seq::empty()),
    decreases x.len() - i,
{
    assert((x + y)[i] == x[i]);
    if i == x.len() - 1 {
        lemma_words_shift(x, y, 0, Seq::empty());
        assert(words_acc(x, i + 1, Seq::empty()) =~= Seq::<Seq<char>>::empty());
        assert(words_acc(x + y, i, cur) =~= words_acc(x, i, cur) + words_acc(y, 0, Seq::empty()));
    } else {
        if is_ws(x[i]) {
            lemma_words_prefix(x, y, i + 1, Seq::empty());
            let head = if cur.len() > 0 {
                seq![cur]
            } else {
                Seq::<Seq<char>>::empty()
            };
            assert(head + (words_acc(x, i + 1, Seq::empty()) + words_acc(y, 0, Seq::empty()))
                =~= (head + words_acc(x, i + 1, Seq::empty())) + words_acc(y, 0, Seq::empty()));
        } else {
            lemma_words_prefix(x, y, i + 1, cur.push(x[i]));
        }
    }
}

/// Splitting at whitespace: the words of `x + y` are those of `x` and then
/// those of `y`, when `x` ends with whitespace.
pub proof fn lemma_words_concat(x: Seq<char>, y: Seq<char>)
    requires
        x.len() > 0,
        is_ws(x.last()),
    ensures
        words(x + y) == words(x) + words(y),
{
    lemma_words_prefix(x, y, 0, Seq::empty());
}

proof fn lemma_words_run(s: Seq<char>, i: int, w: Seq<char>, cur: Seq<char>)
    requires
        0 <= i,
        i + w.len() <= s.len(),
        s.subrange(i, i + w.len()) == w,
        no_ws(w),
    ensures
        words_acc(s, i, cur) == words_acc(s, i + w.len(), cur + w),
    decreases w.len(),
{
    if w.len() == 0 {
        assert(cur + w =~= cur);
    } else {
        assert(s[i] == w[0]);
        assert(!is_ws(w[0]));
        let w2 = w.drop_first();
        assert(s.subrange(i + 1, i + 1 + w2.len()) =~= w2);
        assert(no_ws(w2)) by {
            assert forall|k: int| 0 <= k < w2.len() implies !is_ws(#[trigger] w2[k]) by {
                assert(w2[k] == w[k + 1]);
            }
        }
        lemma_words_run(s, i + 1, w2, cur.push(s[i]));
        assert(cur.push(s[i]) + w2 =~= cur + w);
    }
}

/// A single word followed by a space reads as that word.
pub proof fn lemma_words_word_space(w: Seq<char>)
    requires
        w.len() > 0,
        no_ws(w),
    ensures
        words(w + " "@) == seq![w],
{
    lemma_space_text();
    let s = w + " "@;
    assert(s.subrange(0, w.len() as int) =~= w);
    lemma_words_run(s, 0, w, Seq::empty());
    assert(Seq::<char>::empty() + w =~= w);
    assert(s[w.len() as int] == ' ');
    assert(words_acc(s, (w.len() + 1) as int, Seq::empty()) =~= Seq::<Seq<char>>::empty());
    assert(words(s) =~= seq![w]);
}

/// A single word reads as that word.
pub proof fn lemma_words_word(w: Seq<char>)
    requires
        w.len() > 0,
        no_ws(w),
    ensures
        words(w) == seq![w],
{
    assert(w.subrange(0, w.len() as int) =~= w);
    lemma_words_run(w, 0, w, Seq::empty());
    assert(Seq::<char>::empty() + w =~= w);
}

/// The front of a spaced sequence of words.
pub proof fn lemma_spaced_front(ws: Seq<Seq<char>>)
    requires
        ws.len() > 0,
    ensures
        spaced(ws) == " "@ + ws[0] + spaced(ws.drop_first()),
    decreases ws.len(),
{
    if ws.len() == 1 {
        assert(ws.drop_last() =~= Seq::<Seq<char>>::empty());
        assert(ws.drop_first() =~= Seq::<Seq<char>>::empty());
        assert(spaced(ws) =~= " "@ + ws[0] + spaced(ws.drop_first()));
    } else {
        lemma_spaced_front(ws.drop_last());
        assert(ws.drop_last().drop_first() =~= ws.drop_first().drop_last());
        assert(ws.drop_first().last() == ws.last());
        assert(spaced(ws) =~= " "@ + ws[0] + spaced(ws.drop_first()));
    }
}

/// The words that are all nonempty and hold no whitespace.
pub open spec fn plain_words(ws: Seq<Seq<char>>) -> bool {
    forall|k: int| 0 <= k < ws.len() ==> (#[trigger] ws[k]).len() > 0 && no_ws(ws[k])
}

/// A word followed by spaced words reads as those words.
pub proof fn lemma_words_spaced(w: Seq<char>, ws: Seq<Seq<char>>)
    requires
        w.len() > 0,
        no_ws(w),
        plain_words(ws),
    ensures
        words(w + spaced(ws)) == seq![w] + ws,
    decreases ws.len(),
{
    lemma_space_text();
    if ws.len() == 0 {
        assert(spaced(ws) =~= Seq::<char>::empty());
        assert(w + spaced(ws) =~= w);
        lemma_words_word(w);
        assert(seq![w] + ws =~= seq![w]);
    } else {
        lemma_spaced_front(ws);
        let rest = ws.drop_first();
        assert(plain_words(rest)) by {
            assert forall|k: int| 0 <= k < rest.len() implies (#[trigger] rest[k]).len() > 0
                && no_ws(rest[k]) by {
                assert(rest[k] == ws[k + 1]);
            }
        }
        assert(ws[0].len() > 0 && no_ws(ws[0]));
        lemma_words_spaced(ws[0], rest);
        let x = w + " "@;
        assert(w + spaced(ws) =~= x + (ws[0] + spaced(rest)));
        assert(x.last() == ' ');
        lemma_words_concat(x, ws[0] + spaced(rest));
        lemma_words_word_space(w);
        assert(seq![w] + (seq![ws[0]] + rest) =~= seq![w] + ws);
    }
}

/// A text that starts and ends with a non-whitespace character is its own
/// trim.
pub proof fn lemma_trim_plain(l: Seq<char>)
    requires
        l.len() > 0,
        !is_ws(l[0]),
        !is_ws(l.last()),
    ensures
        trim(l) == l,
{
    assert(skip_ws(l, 0) == 0);
    assert(back_ws(l, l.len() as int) == l.len());
    assert(l.subrange(0, l.len() as int) =~= l);
}

proof fn lemma_words_nonempty_acc(s: Seq<char>, i: int, cur: Seq<char>)
    requires
        0 <= i <= s.len(),
        cur.len() > 0,
    ensures
        words_acc(s, i, cur).len() > 0,
    decreases s.len() - i,
{
    if i < s.len() && !is_ws(s[i]) {
        lemma_words_nonempty_acc(s, i + 1, cur.push(s[i]));
    }
}

/// A text that starts with a non-whitespace character has a word.
pub proof fn lemma_words_nonempty(s: Seq<char>)
    requires
        s.len() > 0,
        !is_ws(s[0]),
    ensures
        words(s).len() > 0,
{
    lemma_words_nonempty_acc(s, 1, seq![s[0]]);
    assert(Seq::<char>::empty().push(s[0]) =~= seq![s[0]]);
}

/// Applying the lines `ls`, numbered from `n`, to `cfg`, or the first error.
pub open spec fn apply_lines(cfg: ConfigView, ls: Seq<Seq<char>>, n: nat) -> Result<
    ConfigView,
    ParseErrorView,
>
    decreases ls.len(),
{
    if ls.len() == 0 {
        Ok(cfg)
    } else {
        match line_effect(cfg, ls[0], n) {
            Ok(c) => apply_lines(c, ls.drop_first(), n + 1),
            Err(e) => Err(e),
        }
    }
}

/// Applying `a + b` is applying `a`, then `b`.
pub proof fn lemma_apply_concat(cfg: ConfigView, a: Seq<Seq<char>>, b: Seq<Seq<char>>, n: nat)
    ensures
        apply_lines(cfg, a + b, n) == match apply_lines(cfg, a, n) {
            Ok(c) => apply_lines(c, b, n + a.len()),
            Err(e) => Err(e),
        },
    decreases a.len(),
{
    if a.len() == 0 {
        assert(a + b =~= b);
    } else {
        assert((a + b)[0] == a[0]);
        assert((a + b).drop_first() =~= a.drop_first() + b);
        match line_effect(cfg, a[0], n) {
            Ok(c) => {
                lemma_apply_concat(c, a.drop_first(), b, n + 1);
            },
            Err(e) => {},
        }
    }
}

/// Reading the first `k` lines is applying them in order to the empty
/// configuration.
pub proof fn lemma_parse_lines_apply(ls: Seq<Seq<char>>, k: nat)
    requires
        k <= ls.len(),
    ensures
        parse_lines(ls, k) == apply_lines(ConfigView::empty(), ls.take(k as int), 1),
    decreases k,
{
    if k == 0 {
        assert(ls.take(0) =~= Seq::<Seq<char>>::empty());
    } else {
        lemma_parse_lines_apply(ls, (k - 1) as nat);
        assert(ls.take(k as int) =~= ls.take(k - 1) + seq![ls[k - 1]]);
        lemma_apply_concat(ConfigView::empty(), ls.take(k - 1), seq![ls[k - 1]], 1);
        match apply_lines(ConfigView::empty(), ls.take(k - 1), 1) {
            Ok(c) => {
                assert(seq![ls[k - 1]].drop_first() =~= Seq::<Seq<char>>::empty());
                assert(seq![ls[k - 1]][0] == ls[k - 1]);
                match line_effect(c, ls[k - 1], k) {
                    Ok(c2) => {
                        assert(apply_lines(c2, Seq::empty(), k + 1) == Ok::<
                            ConfigView,
                            ParseErrorView,
                        >(c2));
                    },
                    Err(e) => {},
                }
            },
            Err(e) => {},
        }
    }
}

pub proof fn lemma_joined_concat(a: Seq<Seq<char>>, b: Seq<Seq<char>>)
    ensures
        joined(a + b) == joined(a) + joined(b),
    decreases a.len(),
{
    if a.len() == 0 {
        assert(a + b =~= b);
        assert(joined(a) + joined(b) =~= joined(b));
    } else {
        assert((a + b)[0] == a[0]);
        assert((a + b).drop_first() =~= a.drop_first() + b);
        lemma_joined_concat(a.drop_first(), b);
        assert(joined(a + b) =~= joined(a) + joined(b));
    }
}

pub proof fn lemma_joined_one(l: Seq<char>)
    ensures
        joined(seq![l]) == l + "\n"@,
{
    assert(seq![l].drop_first() =~= Seq::<Seq<char>>::empty());
    assert(joined(Seq::<Seq<char>>::empty()) == Seq::<char>::empty());
    assert(l + "\n"@ + Seq::<char>::empty() =~= l + "\n"@);
}

pub proof fn lemma_spaced_concat(a: Seq<Seq<char>>, b: Seq<Seq<char>>)
    ensures
        spaced(a + b) == spaced(a) + spaced(b),
    decreases b.len(),
{
    if b.len() == 0 {
        assert(a + b =~= a);
        assert(spaced(a) + spaced(b) =~= spaced(a));
    } else {
        assert((a + b).drop_last() =~= a + b.drop_last());
        assert((a + b).last() == b.last());
        lemma_spaced_concat(a, b.drop_last());
        assert(spaced(a + b) =~= spaced(a) + spaced(b));
    }
}

/// A blank line changes nothing.
pub proof fn lemma_blank_line(cfg: ConfigView, n: nat)
    ensures
        line_effect(cfg, Seq::empty(), n) == Ok::<ConfigView, ParseErrorView>(cfg),
{
    assert(trim(Seq::<char>::empty()) =~= Seq::<char>::empty());
}

/// A reference that reads back as itself: a name without whitespace, which
/// unless negated is not empty and does not start with `!`.
pub open spec fn ref_ok(r: AclRefView) -> bool {
    &&& no_ws(r.name)
    &&& (!r.negated ==> r.name.len() > 0 && r.name[0] != '!')
}

/// A rule that reads back as itself: at least one reference, each of which
/// reads back as itself.
pub open spec fn rule_ok(r: RuleView) -> bool {
    &&& r.acl_refs.len() > 0
    &&& forall|k: int| 0 <= k < r.acl_refs.len() ==> ref_ok(#[trigger] r.acl_refs[k])
}

/// The words of a rule line after its directive.
pub open spec fn rule_words(r: RuleView) -> Seq<Seq<char>> {
    seq![r.action.text()] + r.acl_refs.map_values(|x: AclRefView| x.text())
}

/// The words of a spaced text end with the last word.
pub proof fn lemma_spaced_last(ws: Seq<Seq<char>>)
    requires
        ws.len() > 0,
        ws.last().len() > 0,
    ensures
        spaced(ws).len() > 0,
        spaced(ws).last() == ws.last().last(),
{
}

proof fn lemma_action_text_plain(a: AccessAction)
    ensures
        a.text().len() > 0,
        no_ws(a.text()),
{
    reveal_strlit("allow");
    reveal_strlit("deny");
}

proof fn lemma_ref_text(r: AclRefView)
    requires
        ref_ok(r),
    ensures
        r.text().len() > 0,
        no_ws(r.text()),
        ref_of_word(r.text()) == r,
{
    reveal_strlit("!");
    if r.negated {
        assert(r.text()[0] == '!');
        assert(r.text().drop_first() =~= r.name);
        assert forall|k: int| 0 <= k < r.text().len() implies !is_ws(#[trigger] r.text()[k]) by {
            if k > 0 {
                assert(r.text()[k] == r.name[k - 1]);
            }
        }
    }
}

proof fn lemma_rule_words_plain(r: RuleView)
    requires
        rule_ok(r),
    ensures
        plain_words(rule_words(r)),
        rule_words(r).len() >= 2,
        rule_words(r).last().len() > 0,
{
    lemma_action_text_plain(r.action);
    let w = rule_words(r);
    assert forall|k: int| 0 <= k < w.len() implies (#[trigger] w[k]).len() > 0 && no_ws(w[k]) by {
        if k > 0 {
            assert(ref_ok(r.acl_refs[k - 1]));
            lemma_ref_text(r.acl_refs[k - 1]);
        }
    }
}

/// The words of a rule line read back as its rule.
pub proof fn lemma_rule_of(t: Seq<Seq<char>>, d: Seq<char>, r: RuleView, n: nat, short: Seq<char>)
    requires
        rule_ok(r),
        t == seq![d] + rule_words(r),
    ensures
        rule_of(t, n, short) == Ok::<RuleView, ParseErrorView>(r),
{
    lemma_rule_words_plain(r);
    law_access_action_text_roundtrip(r.action);
    assert(t[1] == r.action.text());
    let refs = t.subrange(2, t.len() as int).map_values(|w: Seq<char>| ref_of_word(w));
    assert forall|k: int| 0 <= k < refs.len() implies refs[k] == r.acl_refs[k] by {
        assert(ref_ok(r.acl_refs[k]));
        lemma_ref_text(r.acl_refs[k]);
    }
    assert(refs =~= r.acl_refs);
    assert(acl_refs_of(t, 2, n) == Ok::<Seq<AclRefView>, ParseErrorView>(refs));
}

/// A plain line: a plain word followed by spaced plain words, as the writer
/// puts them.
pub proof fn lemma_plain_line(d: Seq<char>, ws: Seq<Seq<char>>)
    requires
        d.len() > 0,
        no_ws(d),
        plain_words(ws),
        ws.len() > 0,
    ensures
        trim(d + spaced(ws)) == d + spaced(ws),
        words(d + spaced(ws)) == seq![d] + ws,
        line_ok(d + spaced(ws)),
        line_end_ok(d + spaced(ws)),
{
    let l = d + spaced(ws);
    assert(ws.last() == ws[ws.len() - 1]);
    lemma_spaced_last(ws);
    assert(l[0] == d[0]);
    assert(l.last() == spaced(ws).last());
    assert(ws.last().last() == ws.last()[ws.last().len() - 1]);
    lemma_trim_plain(l);
    lemma_words_spaced(d, ws);
    assert(!l.contains('\n')) by {
        if l.contains('\n') {
            let k = choose|k: int| 0 <= k < l.len() && l[k] == '\n';
            lemma_spaced_chars(ws, k - d.len());
        }
    }
}

/// Every character of a spaced sequence of plain words is a space or a
/// character of a word.
pub proof fn lemma_spaced_chars(ws: Seq<Seq<char>>, k: int)
    requires
        plain_words(ws),
        0 <= k < spaced(ws).len(),
    ensures
        spaced(ws)[k] == ' ' || !is_ws(spaced(ws)[k]),
    decreases ws.len(),
{
    lemma_space_text();
    if ws.len() > 0 {
        let front = spaced(ws.drop_last());
        let rest = ws.drop_last();
        assert(plain_words(rest)) by {
            assert forall|i: int| 0 <= i < rest.len() implies (#[trigger] rest[i]).len() > 0
                && no_ws(rest[i]) by {
                assert(rest[i] == ws[i]);
            }
        }
        if k < front.len() {
            lemma_spaced_chars(rest, k);
        } else if k > front.len() {
            assert(ws.last() == ws[ws.len() - 1]);
            assert(spaced(ws)[k] == ws.last()[k - front.len() - 1]);
        }
    }
}

/// The text of a rule is its directive and spaced words, then a newline.
pub proof fn lemma_rule_text(d: Seq<char>, r: RuleView)
    ensures
        rule_text(d, r) == d + spaced(rule_words(r)) + "\n"@,
{
    let texts = r.acl_refs.map_values(|x: AclRefView| x.text());
    lemma_spaced_concat(seq![r.action.text()], texts);
    assert(seq![r.action.text()].drop_last() =~= Seq::<Seq<char>>::empty());
    assert(spaced(Seq::<Seq<char>>::empty()) == Seq::<char>::empty());
    assert(seq![r.action.text()].last() == r.action.text());
    assert(spaced(seq![r.action.text()]) == spaced(Seq::<Seq<char>>::empty()) + " "@ + r.action.text());
    assert(spaced(seq![r.action.text()]) =~= " "@ + r.action.text());
    assert(rule_text(d, r) =~= d + spaced(rule_words(r)) + "\n"@);
}

proof fn lemma_directive_texts()
    ensures
        "acl"@.len() == 3,
        "http_access"@.len() == 11,
        "always_direct"@.len() == 13,
        "never_direct"@.len() == 12,
        "auth_param"@.len() == 10,
        no_ws("acl"@),
        no_ws("http_access"@),
        no_ws("always_direct"@),
        no_ws("never_direct"@),
        no_ws("auth_param"@),
        no_ws("-i"@),
        "-i"@.len() == 2,
{
    reveal_strlit("acl");
    reveal_strlit("http_access");
    reveal_strlit("always_direct");
    reveal_strlit("never_direct");
    reveal_strlit("auth_param");
    reveal_strlit("-i");
}

/// An `http_access` line as the writer puts it reads back as its rule.
pub proof fn lemma_access_line(cfg: ConfigView, r: RuleView, n: nat)
    requires
        rule_ok(r),
    ensures
        line_effect(cfg, "http_access"@ + spaced(rule_words(r)), n) == Ok::<
            ConfigView,
            ParseErrorView,
        >(ConfigView { http_access: cfg.http_access.push(r), ..cfg }),
        line_ok("http_access"@ + spaced(rule_words(r))),
        line_end_ok("http_access"@ + spaced(rule_words(r))),
{
    lemma_directive_texts();
    lemma_rule_words_plain(r);
    lemma_plain_line("http_access"@, rule_words(r));
    reveal_strlit("http_access");
    let l = "http_access"@ + spaced(rule_words(r));
    assert(l[0] == "http_access"@[0]);
    assert(l[0] != '#');
    let t = seq!["http_access"@] + rule_words(r);
    assert(t[0] == "http_access"@);
    lemma_rule_of(t, "http_access"@, r, n, "http_access requires: http_access allow|deny <acl> ..."@);
}

/// An `always_direct` line as the writer puts it reads back as its rule.
pub proof fn lemma_always_line(cfg: ConfigView, r: RuleView, n: nat)
    requires
        rule_ok(r),
    ensures
        line_effect(cfg, "always_direct"@ + spaced(rule_words(r)), n) == Ok::<
            ConfigView,
            ParseErrorView,
        >(ConfigView { always_direct: cfg.always_direct.push(r), ..cfg }),
        line_ok("always_direct"@ + spaced(rule_words(r))),
        line_end_ok("always_direct"@ + spaced(rule_words(r))),
{
    lemma_directive_texts();
    lemma_rule_words_plain(r);
    lemma_plain_line("always_direct"@, rule_words(r));
    reveal_strlit("always_direct");
    let l = "always_direct"@ + spaced(rule_words(r));
    assert(l[0] == "always_direct"@[0]);
    assert(l[0] != '#');
    let t = seq!["always_direct"@] + rule_words(r);
    assert(t[0] == "always_direct"@);
    lemma_rule_of(t, "always_direct"@, r, n, t[0] + " requires: "@ + t[0] + " allow|deny <acl> ..."@);
}

/// A `never_direct` line as the writer puts it reads back as its rule.
pub proof fn lemma_never_line(cfg: ConfigView, r: RuleView, n: nat)
    requires
        rule_ok(r),
    ensures
        line_effect(cfg, "never_direct"@ + spaced(rule_words(r)), n) == Ok::<
            ConfigView,
            ParseErrorView,
        >(ConfigView { never_direct: cfg.never_direct.push(r), ..cfg }),
        line_ok("never_direct"@ + spaced(rule_words(r))),
        line_end_ok("never_direct"@ + spaced(rule_words(r))),
{
    lemma_directive_texts();
    lemma_rule_words_plain(r);
    lemma_plain_line("never_direct"@, rule_words(r));
    reveal_strlit("never_direct");
    let l = "never_direct"@ + spaced(rule_words(r));
    assert(l[0] == "never_direct"@[0]);
    assert(l[0] != '#');
    let t = seq!["never_direct"@] + rule_words(r);
    assert(t[0] == "never_direct"@);
    lemma_rule_of(t, "never_direct"@, r, n, t[0] + " requires: "@ + t[0] + " allow|deny <acl> ..."@);
}

proof fn lemma_type_text_plain(t: AclType)
    ensures
        t.text().len() > 0,
        no_ws(t.text()),
{
    match t {
        AclType::Src => {
            reveal_strlit("src");
        },
        AclType::Dst => {
            reveal_strlit("dst");
        },
        AclType::SrcDomain => {
            reveal_strlit("srcdomain");
        },
        AclType::DstDomain => {
            reveal_strlit("dstdomain");
        },
        AclType::SrcDomRegex => {
            reveal_strlit("srcdom_regex");
        },
        AclType::DstDomRegex => {
            reveal_strlit("dstdom_regex");
        },
        AclType::UrlRegex => {
            reveal_strlit("url_regex");
        },
        AclType::UrlPathRegex => {
            reveal_strlit("urlpath_regex");
        },
        AclType::Port => {
            reveal_strlit("port");
        },
        AclType::Proto => {
            reveal_strlit("proto");
        },
        AclType::Method => {
            reveal_strlit("method");
        },
        AclType::Time => {
            reveal_strlit("time");
        },
        AclType::Arp => {
            reveal_strlit("arp");
        },
        AclType::MyIp => {
            reveal_strlit("myip");
        },
        AclType::MyPort => {
            reveal_strlit("myport");
        },
        AclType::ProxyAuth => {
            reveal_strlit("proxy_auth");
        },
        AclType::Browser => {
            reveal_strlit("browser");
        },
        AclType::RefererRegex => {
            reveal_strlit("referer_regex");
        },
        AclType::ReqMimeType => {
            reveal_strlit("req_mime_type");
        },
        AclType::RepMimeType => {
            reveal_strlit("rep_mime_type");
        },
        AclType::MaxConn => {
            reveal_strlit("maxconn");
        },
        AclType::External => {
            reveal_strlit("external");
        },
        AclType::Snmp => {
            reveal_strlit("snmp_community");
        },
    }
}

/// An ACL that reads back as itself: a name and values without whitespace,
/// and, without the `-i` flag, a first value that exists and is not `-i`.
pub open spec fn acl_ok(a: AclView) -> bool {
    &&& a.name.len() > 0
    &&& no_ws(a.name)
    &&& plain_words(a.values)
    &&& (!a.case_insensitive ==> a.values.len() > 0 && a.values[0] != "-i"@)
}

/// The words of an ACL line after `acl`.
pub open spec fn acl_words(a: AclView) -> Seq<Seq<char>> {
    seq![a.name, a.acl_type.text()] + (if a.case_insensitive {
        seq!["-i"@]
    } else {
        Seq::empty()
    }) + a.values
}

/// The text of an ACL is `acl` and its spaced words, then a newline.
pub proof fn lemma_acl_text(a: AclView)
    ensures
        acl_text(a) == "acl"@ + spaced(acl_words(a)) + "\n"@,
{
    reveal_strlit("acl ");
    reveal_strlit("acl");
    reveal_strlit(" ");
    reveal_strlit(" -i");
    reveal_strlit("-i");
    let flag: Seq<Seq<char>> = if a.case_insensitive {
        seq!["-i"@]
    } else {
        Seq::empty()
    };
    let two = seq![a.name, a.acl_type.text()];
    lemma_spaced_concat(two + flag, a.values);
    lemma_spaced_concat(two, flag);
    assert(two.drop_last() =~= seq![a.name]);
    assert(seq![a.name].drop_last() =~= Seq::<Seq<char>>::empty());
    assert(spaced(Seq::<Seq<char>>::empty()) == Seq::<char>::empty());
    assert(spaced(seq![a.name]) =~= " "@ + a.name);
    assert(spaced(two) =~= " "@ + a.name + " "@ + a.acl_type.text());
    if a.case_insensitive {
        assert(flag.drop_last() =~= Seq::<Seq<char>>::empty());
        assert(spaced(flag) =~= " -i"@);
    } else {
        assert(spaced(flag) =~= Seq::<char>::empty());
    }
    assert(acl_text(a) =~= "acl"@ + spaced(acl_words(a)) + "\n"@);
}

/// A name that no ACL of `acls` from `i` on carries has no index there.
pub proof fn lemma_acl_index_none(acls: Seq<AclView>, name: Seq<char>, i: int)
    requires
        0 <= i,
        forall|m: int| i <= m < acls.len() ==> acls[m].name != name,
    ensures
        acl_index_from(acls, name, i) is None,
    decreases acls.len() - i,
{
    if i < acls.len() {
        lemma_acl_index_none(acls, name, i + 1);
    }
}

/// An ACL line as the writer puts it adds its ACL, when its name is new.
pub proof fn lemma_acl_line(cfg: ConfigView, a: AclView, n: nat)
    requires
        acl_ok(a),
        forall|m: int| 0 <= m < cfg.acls.len() ==> cfg.acls[m].name != a.name,
    ensures
        line_effect(cfg, "acl"@ + spaced(acl_words(a)), n) == Ok::<ConfigView, ParseErrorView>(
            ConfigView { acls: cfg.acls.push(a), ..cfg },
        ),
        line_ok("acl"@ + spaced(acl_words(a))),
        line_end_ok("acl"@ + spaced(acl_words(a))),
{
    lemma_directive_texts();
    reveal_strlit("acl");
    lemma_type_text_plain(a.acl_type);
    let w = acl_words(a);
    assert(plain_words(w)) by {
        assert forall|k: int| 0 <= k < w.len() implies (#[trigger] w[k]).len() > 0 && no_ws(w[k]) by {
            if a.case_insensitive {
                if k >= 3 {
                    assert(w[k] == a.values[k - 3]);
                }
            } else {
                if k >= 2 {
                    assert(w[k] == a.values[k - 2]);
                }
            }
        }
    }
    lemma_plain_line("acl"@, w);
    let l = "acl"@ + spaced(w);
    assert(l[0] == 'a');
    let t = seq!["acl"@] + w;
    assert(t[0] == "acl"@);
    assert(t.len() >= 4);
    assert(t[2] == a.acl_type.text());
    law_acl_type_text_roundtrip(a.acl_type);
    lemma_acl_index_none(cfg.acls, a.name, 0);
    assert(t[1] == a.name);
    if a.case_insensitive {
        assert(t[3] == "-i"@);
        assert(t.subrange(4, t.len() as int) =~= a.values);
    } else {
        assert(t[3] == a.values[0]);
        assert(t.subrange(3, t.len() as int) =~= a.values);
    }
    assert(acl_line(cfg, t, n) == Ok::<ConfigView, ParseErrorView>(
        ConfigView { acls: cfg.acls.push(a), ..cfg },
    ));
}

/// An `auth_param basic` value that reads back as itself from the line
/// `prefix + v`: trimmed, on one line, and with its first word first found
/// where the value starts.
pub open spec fn auth_value_ok(prefix: Seq<char>, v: Seq<char>) -> bool {
    &&& v.len() > 0
    &&& !is_ws(v[0])
    &&& !is_ws(v.last())
    &&& !v.contains('\n')
    &&& find(prefix + v, words(v)[0]) == Some(prefix.len() as int)
}

/// The words of an `auth_param basic` line `prefix + v`.
proof fn lemma_auth_words(dir: Seq<char>, v: Seq<char>)
    requires
        dir.len() > 0,
        no_ws(dir),
    ensures
        words("auth_param basic "@ + dir + " "@ + v) == seq!["auth_param"@, "basic"@, dir] + words(v),
{
    reveal_strlit("auth_param basic ");
    reveal_strlit("auth_param");
    reveal_strlit("basic");
    reveal_strlit(" ");
    let a = "auth_param"@ + " "@;
    let b = "basic"@ + " "@;
    let c = dir + " "@;
    assert("auth_param basic "@ + dir + " "@ + v =~= a + (b + (c + v)));
    assert(a.last() == ' ');
    assert(b.last() == ' ');
    assert(c.last() == ' ');
    lemma_words_concat(a, b + (c + v));
    lemma_words_concat(b, c + v);
    lemma_words_concat(c, v);
    lemma_words_word_space("auth_param"@);
    lemma_words_word_space("basic"@);
    lemma_words_word_space(dir);
    assert(words("auth_param basic "@ + dir + " "@ + v) =~= seq!["auth_param"@, "basic"@, dir] + words(v));
}

/// The parts of an `auth_param basic` line that the reader checks.
proof fn lemma_auth_line_shape(dir: Seq<char>, v: Seq<char>)
    requires
        dir.len() > 0,
        no_ws(dir),
        v.len() > 0,
        !is_ws(v[0]),
        !is_ws(v.last()),
        !v.contains('\n'),
    ensures
        ({
            let l = "auth_param basic "@ + dir + " "@ + v;
            &&& trim(l) == l
            &&& l[0] == 'a'
            &&& line_end_ok(l)
            &&& line_ok(l)
            &&& words(l) == seq!["auth_param"@, "basic"@, dir] + words(v)
            &&& words(v).len() > 0
        }),
{
    reveal_strlit("auth_param basic ");
    reveal_strlit(" ");
    let l = "auth_param basic "@ + dir + " "@ + v;
    assert(l[0] == 'a');
    assert(l.last() == v.last());
    lemma_trim_plain(l);
    lemma_auth_words(dir, v);
    lemma_words_nonempty(v);
    assert(!l.contains('\n')) by {
        if l.contains('\n') {
            let k = choose|k: int| 0 <= k < l.len() && l[k] == '\n';
            let p = "auth_param basic "@ + dir + " "@;
            if k < p.len() {
                if k < 17 {
                } else if k < 17 + dir.len() {
                    assert(dir[k - 17] == '\n');
                } else {
                }
            } else {
                assert(v[k - p.len()] == '\n');
                assert(v.contains('\n'));
            }
        }
    }
}

/// The `program` line as the writer puts it sets that value.
pub proof fn lemma_auth_program_line(cfg: ConfigView, v: Seq<char>, n: nat)
    requires
        auth_value_ok("auth_param basic program "@, v),
    ensures
        line_effect(cfg, "auth_param basic program "@ + v, n) == Ok::<ConfigView, ParseErrorView>(
            ConfigView { auth_param: AuthView { program: Some(v), ..cfg.auth_param }, ..cfg },
        ),
        line_ok("auth_param basic program "@ + v),
        line_end_ok("auth_param basic program "@ + v),
{
    lemma_directive_texts();
    reveal_strlit("program");
    reveal_strlit("children");
    reveal_strlit("realm");
    reveal_strlit("credentialsttl");
    reveal_strlit("auth_param basic ");
    reveal_strlit("auth_param basic program ");
    reveal_strlit("auth_param");
    reveal_strlit("basic");
    reveal_strlit(" ");
    assert("auth_param basic program "@ =~= "auth_param basic "@ + "program"@ + " "@);
    assert(no_ws("program"@));
    if v.len() > 0 && no_ws(v) {
        assert(!is_ws(v.last()));
        assert(!v.contains('\n')) by {
            if v.contains('\n') {
                let k = choose|k: int| 0 <= k < v.len() && v[k] == '\n';
                assert(is_ws(v[k]));
            }
        }
    }
    lemma_auth_line_shape("program"@, v);
    assert("auth_param basic "@ + "program"@ + " "@ + v =~= "auth_param basic program "@ + v);
    let t = seq!["auth_param"@, "basic"@, "program"@] + words(v);
    assert(t[0] == "auth_param"@ && t[1] == "basic"@ && t[2] == "program"@);
    assert("auth_param basic program "@ =~= "auth_param basic "@ + "program"@ + " "@);
    let l = "auth_param basic program "@ + v;
    let start = "auth_param basic program "@.len() as int;
    assert(l.subrange(start, l.len() as int) =~= v);
    lemma_trim_plain(v);
    assert(auth_value(l, seq!["auth_param"@, "basic"@, "program"@] + words(v)) == v);
}

/// The `children` line as the writer puts it sets that value.
pub proof fn lemma_auth_children_line(cfg: ConfigView, v: Seq<char>, n: nat)
    requires
        v.len() > 0,
        no_ws(v),
    ensures
        line_effect(cfg, "auth_param basic children "@ + v, n) == Ok::<ConfigView, ParseErrorView>(
            ConfigView { auth_param: AuthView { children: Some(v), ..cfg.auth_param }, ..cfg },
        ),
        line_ok("auth_param basic children "@ + v),
        line_end_ok("auth_param basic children "@ + v),
{
    lemma_directive_texts();
    reveal_strlit("program");
    reveal_strlit("children");
    reveal_strlit("realm");
    reveal_strlit("credentialsttl");
    reveal_strlit("auth_param basic ");
    reveal_strlit("auth_param basic children ");
    reveal_strlit("auth_param");
    reveal_strlit("basic");
    reveal_strlit(" ");
    assert("auth_param basic children "@ =~= "auth_param basic "@ + "children"@ + " "@);
    assert(no_ws("children"@));
    if v.len() > 0 && no_ws(v) {
        assert(!is_ws(v.last()));
        assert(!v.contains('\n')) by {
            if v.contains('\n') {
                let k = choose|k: int| 0 <= k < v.len() && v[k] == '\n';
                assert(is_ws(v[k]));
            }
        }
    }
    lemma_auth_line_shape("children"@, v);
    assert("auth_param basic "@ + "children"@ + " "@ + v =~= "auth_param basic children "@ + v);
    let t = seq!["auth_param"@, "basic"@, "children"@] + words(v);
    assert(t[0] == "auth_param"@ && t[1] == "basic"@ && t[2] == "children"@);
    assert("children"@ != "program"@) by {
        assert("children"@.len() != "program"@.len());
    }
    lemma_words_word(v);
}

/// The `realm` line as the writer puts it sets that value.
pub proof fn lemma_auth_realm_line(cfg: ConfigView, v: Seq<char>, n: nat)
    requires
        auth_value_ok("auth_param basic realm "@, v),
    ensures
        line_effect(cfg, "auth_param basic realm "@ + v, n) == Ok::<ConfigView, ParseErrorView>(
            ConfigView { auth_param: AuthView { realm: Some(v), ..cfg.auth_param }, ..cfg },
        ),
        line_ok("auth_param basic realm "@ + v),
        line_end_ok("auth_param basic realm "@ + v),
{
    lemma_directive_texts();
    reveal_strlit("program");
    reveal_strlit("children");
    reveal_strlit("realm");
    reveal_strlit("credentialsttl");
    reveal_strlit("auth_param basic ");
    reveal_strlit("auth_param basic realm ");
    reveal_strlit("auth_param");
    reveal_strlit("basic");
    reveal_strlit(" ");
    assert("auth_param basic realm "@ =~= "auth_param basic "@ + "realm"@ + " "@);
    assert(no_ws("realm"@));
    if v.len() > 0 && no_ws(v) {
        assert(!is_ws(v.last()));
        assert(!v.contains('\n')) by {
            if v.contains('\n') {
                let k = choose|k: int| 0 <= k < v.len() && v[k] == '\n';
                assert(is_ws(v[k]));
            }
        }
    }
    lemma_auth_line_shape("realm"@, v);
    assert("auth_param basic "@ + "realm"@ + " "@ + v =~= "auth_param basic realm "@ + v);
    let t = seq!["auth_param"@, "basic"@, "realm"@] + words(v);
    assert(t[0] == "auth_param"@ && t[1] == "basic"@ && t[2] == "realm"@);
    assert("realm"@ != "program"@) by {
        assert("realm"@.len() != "program"@.len());
    }
    assert("realm"@ != "children"@) by {
        assert("realm"@.len() != "children"@.len());
    }
    assert("auth_param basic realm "@ =~= "auth_param basic "@ + "realm"@ + " "@);
    let l = "auth_param basic realm "@ + v;
    let start = "auth_param basic realm "@.len() as int;
    assert(l.subrange(start, l.len() as int) =~= v);
    lemma_trim_plain(v);
    assert(auth_value(l, seq!["auth_param"@, "basic"@, "realm"@] + words(v)) == v);
}

/// The `credentialsttl` line as the writer puts it sets that value.
pub proof fn lemma_auth_credentialsttl_line(cfg: ConfigView, v: Seq<char>, n: nat)
    requires
        auth_value_ok("auth_param basic credentialsttl "@, v),
    ensures
        line_effect(cfg, "auth_param basic credentialsttl "@ + v, n) == Ok::<ConfigView, ParseErrorView>(
            ConfigView { auth_param: AuthView { credentialsttl: Some(v), ..cfg.auth_param }, ..cfg },
        ),
        line_ok("auth_param basic credentialsttl "@ + v),
        line_end_ok("auth_param basic credentialsttl "@ + v),
{
    lemma_directive_texts();
    reveal_strlit("program");
    reveal_strlit("children");
    reveal_strlit("realm");
    reveal_strlit("credentialsttl");
    reveal_strlit("auth_param basic ");
    reveal_strlit("auth_param basic credentialsttl ");
    reveal_strlit("auth_param");
    reveal_strlit("basic");
    reveal_strlit(" ");
    assert("auth_param basic credentialsttl "@ =~= "auth_param basic "@ + "credentialsttl"@ + " "@);
    assert(no_ws("credentialsttl"@));
    if v.len() > 0 && no_ws(v) {
        assert(!is_ws(v.last()));
        assert(!v.contains('\n')) by {
            if v.contains('\n') {
                let k = choose|k: int| 0 <= k < v.len() && v[k] == '\n';
                assert(is_ws(v[k]));
            }
        }
    }
    lemma_auth_line_shape("credentialsttl"@, v);
    assert("auth_param basic "@ + "credentialsttl"@ + " "@ + v =~= "auth_param basic credentialsttl "@ + v);
    let t = seq!["auth_param"@, "basic"@, "credentialsttl"@] + words(v);
    assert(t[0] == "auth_param"@ && t[1] == "basic"@ && t[2] == "credentialsttl"@);
    assert("credentialsttl"@ != "program"@) by {
        assert("credentialsttl"@.len() != "program"@.len());
    }
    assert("credentialsttl"@ != "children"@) by {
        assert("credentialsttl"@.len() != "children"@.len());
    }
    assert("credentialsttl"@ != "realm"@) by {
        assert("credentialsttl"@.len() != "realm"@.len());
    }
    assert("auth_param basic credentialsttl "@ =~= "auth_param basic "@ + "credentialsttl"@ + " "@);
    let l = "auth_param basic credentialsttl "@ + v;
    let start = "auth_param basic credentialsttl "@.len() as int;
    assert(l.subrange(start, l.len() as int) =~= v);
    lemma_trim_plain(v);
    assert(auth_value(l, seq!["auth_param"@, "basic"@, "credentialsttl"@] + words(v)) == v);
}

/// Applying one line is its effect.
pub proof fn lemma_apply_one(cfg: ConfigView, l: Seq<char>, n: nat)
    ensures
        apply_lines(cfg, seq![l], n) == line_effect(cfg, l, n),
{
    assert(seq![l].drop_first() =~= Seq::<Seq<char>>::empty());
    assert(seq![l][0] == l);
    match line_effect(cfg, l, n) {
        Ok(c) => {
            assert(apply_lines(c, Seq::empty(), n + 1) == Ok::<ConfigView, ParseErrorView>(c));
        },
        Err(e) => {},
    }
}

/// The line of a setting that is present.
pub open spec fn setting_lines(prefix: Seq<char>, o: Option<Seq<char>>) -> Seq<Seq<char>> {
    match o {
        Some(v) => seq![prefix + v],
        None => Seq::empty(),
    }
}

/// The lines of the authentication section, its blank line included.
pub open spec fn auth_lines(a: AuthView) -> Seq<Seq<char>> {
    if a.is_empty() {
        Seq::empty()
    } else {
        setting_lines("auth_param basic program "@, a.program) + setting_lines(
            "auth_param basic children "@,
            a.children,
        ) + setting_lines("auth_param basic realm "@, a.realm) + setting_lines(
            "auth_param basic credentialsttl "@,
            a.credentialsttl,
        ) + seq![Seq::empty()]
    }
}

/// Authentication settings that read back as themselves.
pub open spec fn auth_ok(a: AuthView) -> bool {
    &&& (a.program matches Some(v) ==> auth_value_ok("auth_param basic program "@, v))
    &&& (a.children matches Some(v) ==> v.len() > 0 && no_ws(v))
    &&& (a.realm matches Some(v) ==> auth_value_ok("auth_param basic realm "@, v))
    &&& (a.credentialsttl matches Some(v) ==> auth_value_ok(
        "auth_param basic credentialsttl "@,
        v,
    ))
}

proof fn lemma_setting_text(prefix: Seq<char>, o: Option<Seq<char>>)
    ensures
        setting_text(prefix, o) == joined(setting_lines(prefix, o)),
{
    match o {
        Some(v) => {
            lemma_joined_one(prefix + v);
        },
        None => {},
    }
}

/// The authentication section is its lines joined.
pub proof fn lemma_auth_text(a: AuthView)
    ensures
        auth_text(a) == joined(auth_lines(a)),
{
    if !a.is_empty() {
        let p = setting_lines("auth_param basic program "@, a.program);
        let c = setting_lines("auth_param basic children "@, a.children);
        let r = setting_lines("auth_param basic realm "@, a.realm);
        let t = setting_lines("auth_param basic credentialsttl "@, a.credentialsttl);
        lemma_setting_text("auth_param basic program "@, a.program);
        lemma_setting_text("auth_param basic children "@, a.children);
        lemma_setting_text("auth_param basic realm "@, a.realm);
        lemma_setting_text("auth_param basic credentialsttl "@, a.credentialsttl);
        lemma_joined_concat(p + c + r + t, seq![Seq::empty()]);
        lemma_joined_concat(p + c + r, t);
        lemma_joined_concat(p + c, r);
        lemma_joined_concat(p, c);
        lemma_joined_one(Seq::empty());
        assert(Seq::<char>::empty() + "\n"@ =~= "\n"@);
        assert(auth_text(a) =~= joined(auth_lines(a)));
    }
}

/// The authentication section as written sets the settings it holds.
pub proof fn lemma_auth_apply(cfg: ConfigView, a: AuthView, n: nat)
    requires
        cfg.auth_param == AuthView::empty(),
        auth_ok(a),
    ensures
        apply_lines(cfg, auth_lines(a), n) == Ok::<ConfigView, ParseErrorView>(
            ConfigView { auth_param: a, ..cfg },
        ),
        forall|k: int| 0 <= k < auth_lines(a).len() ==> line_ok(#[trigger] auth_lines(a)[k]),
{
    if a.is_empty() {
        assert(ConfigView { auth_param: a, ..cfg } =~= cfg);
    } else {
        let p = setting_lines("auth_param basic program "@, a.program);
        let c = setting_lines("auth_param basic children "@, a.children);
        let r = setting_lines("auth_param basic realm "@, a.realm);
        let t = setting_lines("auth_param basic credentialsttl "@, a.credentialsttl);
        let blank: Seq<Seq<char>> = seq![Seq::empty()];
        let c0 = cfg;
        let c1 = ConfigView { auth_param: AuthView { program: a.program, ..c0.auth_param }, ..c0 };
        let c2 = ConfigView { auth_param: AuthView { children: a.children, ..c1.auth_param }, ..c1 };
        let c3 = ConfigView { auth_param: AuthView { realm: a.realm, ..c2.auth_param }, ..c2 };
        let c4 = ConfigView {
            auth_param: AuthView { credentialsttl: a.credentialsttl, ..c3.auth_param },
            ..c3
        };
        match a.program {
            Some(v) => {
                lemma_auth_program_line(c0, v, n);
                lemma_apply_one(c0, "auth_param basic program "@ + v, n);
            },
            None => {
                assert(c1 =~= c0);
            },
        }
        match a.children {
            Some(v) => {
                lemma_auth_children_line(c1, v, n + p.len());
                lemma_apply_one(c1, "auth_param basic children "@ + v, n + p.len());
            },
            None => {
                assert(c2 =~= c1);
            },
        }
        match a.realm {
            Some(v) => {
                lemma_auth_realm_line(c2, v, n + p.len() + c.len());
                lemma_apply_one(c2, "auth_param basic realm "@ + v, n + p.len() + c.len());
            },
            None => {
                assert(c3 =~= c2);
            },
        }
        match a.credentialsttl {
            Some(v) => {
                lemma_auth_credentialsttl_line(c3, v, n + p.len() + c.len() + r.len());
                lemma_apply_one(
                    c3,
                    "auth_param basic credentialsttl "@ + v,
                    n + p.len() + c.len() + r.len(),
                );
            },
            None => {
                assert(c4 =~= c3);
            },
        }
        lemma_blank_line(c4, n + p.len() + c.len() + r.len() + t.len());
        lemma_apply_one(c4, Seq::empty(), n + p.len() + c.len() + r.len() + t.len());
        lemma_apply_concat(c0, p, c + r + t + blank, n);
        lemma_apply_concat(c1, c, r + t + blank, n + p.len());
        lemma_apply_concat(c2, r, t + blank, n + p.len() + c.len());
        lemma_apply_concat(c3, t, blank, n + p.len() + c.len() + r.len());
        assert(p + c + r + t + blank =~= p + (c + (r + (t + blank))));
        assert(c + r + t + blank =~= c + (r + (t + blank)));
        assert(r + t + blank =~= r + (t + blank));
        assert(c4 =~= ConfigView { auth_param: a, ..cfg });
        let all = auth_lines(a);
        assert forall|k: int| 0 <= k < all.len() implies line_ok(#[trigger] all[k]) by {
            if k < p.len() {
                assert(all[k] == p[k]);
            } else if k < p.len() + c.len() {
                assert(all[k] == c[k - p.len()]);
            } else if k < p.len() + c.len() + r.len() {
                assert(all[k] == r[k - p.len() - c.len()]);
            } else if k < p.len() + c.len() + r.len() + t.len() {
                assert(all[k] == t[k - p.len() - c.len() - r.len()]);
            } else {
                assert(all[k] == Seq::<char>::empty());
            }
        }
    }
}

/// The `http_access` lines of `rules`, without their newlines.
pub open spec fn access_lines(rules: Seq<RuleView>) -> Seq<Seq<char>> {
    rules.map_values(|r: RuleView| "http_access"@ + spaced(rule_words(r)))
}

/// Applying the `http_access` lines appends their rules.
pub proof fn lemma_access_apply(cfg: ConfigView, rules: Seq<RuleView>, n: nat)
    requires
        forall|k: int| 0 <= k < rules.len() ==> rule_ok(#[trigger] rules[k]),
    ensures
        apply_lines(cfg, access_lines(rules), n) == Ok::<ConfigView, ParseErrorView>(
            ConfigView { http_access: cfg.http_access + rules, ..cfg },
        ),
        forall|k: int| 0 <= k < access_lines(rules).len() ==> line_ok(#[trigger] access_lines(rules)[k]),
        forall|k: int| 0 <= k < access_lines(rules).len() ==> line_end_ok(#[trigger] access_lines(rules)[k]),
    decreases rules.len(),
{
    if rules.len() == 0 {
        assert(access_lines(rules) =~= Seq::<Seq<char>>::empty());
        assert(ConfigView { http_access: cfg.http_access + rules, ..cfg } =~= cfg);
    } else {
        let r = rules[0];
        assert(rule_ok(r));
        lemma_access_line(cfg, r, n);
        let c1 = ConfigView { http_access: cfg.http_access.push(r), ..cfg };
        let rest = rules.drop_first();
        lemma_access_apply(c1, rest, n + 1);
        assert(access_lines(rules) =~= seq!["http_access"@ + spaced(rule_words(r))] + access_lines(rest));
        lemma_apply_concat(cfg, seq!["http_access"@ + spaced(rule_words(r))], access_lines(rest), n);
        lemma_apply_one(cfg, "http_access"@ + spaced(rule_words(r)), n);
        assert(cfg.http_access.push(r) + rest =~= cfg.http_access + rules);
        let all = access_lines(rules);
        assert forall|k: int| 0 <= k < all.len() implies line_ok(#[trigger] all[k]) && line_end_ok(all[k]) by {
            if k > 0 {
                assert(all[k] == access_lines(rest)[k - 1]);
            }
        }
    }
}

/// The `http_access` lines as text are the rule lines.
pub proof fn lemma_access_text(rules: Seq<RuleView>)
    ensures
        rule_lines("http_access"@, rules) == joined(access_lines(rules)),
    decreases rules.len(),
{
    if rules.len() == 0 {
        assert(access_lines(rules) =~= Seq::<Seq<char>>::empty());
    } else {
        lemma_access_text(rules.drop_last());
        assert(access_lines(rules) =~= access_lines(rules.drop_last()) + seq![
            "http_access"@ + spaced(rule_words(rules.last())),
        ]);
        lemma_joined_concat(access_lines(rules.drop_last()), seq!["http_access"@ + spaced(rule_words(rules.last()))]);
        lemma_joined_one("http_access"@ + spaced(rule_words(rules.last())));
        lemma_rule_text("http_access"@, rules.last());
    }
}

/// The `always_direct` lines of `rules`, without their newlines.
pub open spec fn always_lines(rules: Seq<RuleView>) -> Seq<Seq<char>> {
    rules.map_values(|r: RuleView| "always_direct"@ + spaced(rule_words(r)))
}

/// Applying the `always_direct` lines appends their rules.
pub proof fn lemma_always_apply(cfg: ConfigView, rules: Seq<RuleView>, n: nat)
    requires
        forall|k: int| 0 <= k < rules.len() ==> rule_ok(#[trigger] rules[k]),
    ensures
        apply_lines(cfg, always_lines(rules), n) == Ok::<ConfigView, ParseErrorView>(
            ConfigView { always_direct: cfg.always_direct + rules, ..cfg },
        ),
        forall|k: int| 0 <= k < always_lines(rules).len() ==> line_ok(#[trigger] always_lines(rules)[k]),
        forall|k: int| 0 <= k < always_lines(rules).len() ==> line_end_ok(#[trigger] always_lines(rules)[k]),
    decreases rules.len(),
{
    if rules.len() == 0 {
        assert(always_lines(rules) =~= Seq::<Seq<char>>::empty());
        assert(ConfigView { always_direct: cfg.always_direct + rules, ..cfg } =~= cfg);
    } else {
        let r = rules[0];
        assert(rule_ok(r));
        lemma_always_line(cfg, r, n);
        let c1 = ConfigView { always_direct: cfg.always_direct.push(r), ..cfg };
        let rest = rules.drop_first();
        lemma_always_apply(c1, rest, n + 1);
        assert(always_lines(rules) =~= seq!["always_direct"@ + spaced(rule_words(r))] + always_lines(rest));
        lemma_apply_concat(cfg, seq!["always_direct"@ + spaced(rule_words(r))], always_lines(rest), n);
        lemma_apply_one(cfg, "always_direct"@ + spaced(rule_words(r)), n);
        assert(cfg.always_direct.push(r) + rest =~= cfg.always_direct + rules);
        let all = always_lines(rules);
        assert forall|k: int| 0 <= k < all.len() implies line_ok(#[trigger] all[k]) && line_end_ok(all[k]) by {
            if k > 0 {
                assert(all[k] == always_lines(rest)[k - 1]);
            }
        }
    }
}

/// The `always_direct` lines as text are the rule lines.
pub proof fn lemma_always_text(rules: Seq<RuleView>)
    ensures
        rule_lines("always_direct"@, rules) == joined(always_lines(rules)),
    decreases rules.len(),
{
    if rules.len() == 0 {
        assert(always_lines(rules) =~= Seq::<Seq<char>>::empty());
    } else {
        lemma_always_text(rules.drop_last());
        assert(always_lines(rules) =~= always_lines(rules.drop_last()) + seq![
            "always_direct"@ + spaced(rule_words(rules.last())),
        ]);
        lemma_joined_concat(always_lines(rules.drop_last()), seq!["always_direct"@ + spaced(rule_words(rules.last()))]);
        lemma_joined_one("always_direct"@ + spaced(rule_words(rules.last())));
        lemma_rule_text("always_direct"@, rules.last());
    }
}

/// The `never_direct` lines of `rules`, without their newlines.
pub open spec fn never_lines(rules: Seq<RuleView>) -> Seq<Seq<char>> {
    rules.map_values(|r: RuleView| "never_direct"@ + spaced(rule_words(r)))
}

/// Applying the `never_direct` lines appends their rules.
pub proof fn lemma_never_apply(cfg: ConfigView, rules: Seq<RuleView>, n: nat)
    requires
        forall|k: int| 0 <= k < rules.len() ==> rule_ok(#[trigger] rules[k]),
    ensures
        apply_lines(cfg, never_lines(rules), n) == Ok::<ConfigView, ParseErrorView>(
            ConfigView { never_direct: cfg.never_direct + rules, ..cfg },
        ),
        forall|k: int| 0 <= k < never_lines(rules).len() ==> line_ok(#[trigger] never_lines(rules)[k]),
        forall|k: int| 0 <= k < never_lines(rules).len() ==> line_end_ok(#[trigger] never_lines(rules)[k]),
    decreases rules.len(),
{
    if rules.len() == 0 {
        assert(never_lines(rules) =~= Seq::<Seq<char>>::empty());
        assert(ConfigView { never_direct: cfg.never_direct + rules, ..cfg } =~= cfg);
    } else {
        let r = rules[0];
        assert(rule_ok(r));
        lemma_never_line(cfg, r, n);
        let c1 = ConfigView { never_direct: cfg.never_direct.push(r), ..cfg };
        let rest = rules.drop_first();
        lemma_never_apply(c1, rest, n + 1);
        assert(never_lines(rules) =~= seq!["never_direct"@ + spaced(rule_words(r))] + never_lines(rest));
        lemma_apply_concat(cfg, seq!["never_direct"@ + spaced(rule_words(r))], never_lines(rest), n);
        lemma_apply_one(cfg, "never_direct"@ + spaced(rule_words(r)), n);
        assert(cfg.never_direct.push(r) + rest =~= cfg.never_direct + rules);
        let all = never_lines(rules);
        assert forall|k: int| 0 <= k < all.len() implies line_ok(#[trigger] all[k]) && line_end_ok(all[k]) by {
            if k > 0 {
                assert(all[k] == never_lines(rest)[k - 1]);
            }
        }
    }
}

/// The `never_direct` lines as text are the rule lines.
pub proof fn lemma_never_text(rules: Seq<RuleView>)
    ensures
        rule_lines("never_direct"@, rules) == joined(never_lines(rules)),
    decreases rules.len(),
{
    if rules.len() == 0 {
        assert(never_lines(rules) =~= Seq::<Seq<char>>::empty());
    } else {
        lemma_never_text(rules.drop_last());
        assert(never_lines(rules) =~= never_lines(rules.drop_last()) + seq![
            "never_direct"@ + spaced(rule_words(rules.last())),
        ]);
        lemma_joined_concat(never_lines(rules.drop_last()), seq!["never_direct"@ + spaced(rule_words(rules.last()))]);
        lemma_joined_one("never_direct"@ + spaced(rule_words(rules.last())));
        lemma_rule_text("never_direct"@, rules.last());
    }
}

/// The ACL lines of `acls`, without their newlines.
pub open spec fn acls_lines(acls: Seq<AclView>) -> Seq<Seq<char>> {
    acls.map_values(|a: AclView| "acl"@ + spaced(acl_words(a)))
}

/// ACLs that read back as themselves: each on its own terms, none
/// predefined, no name twice.
pub open spec fn acls_ok(acls: Seq<AclView>) -> bool {
    &&& forall|k: int| 0 <= k < acls.len() ==> acl_ok(#[trigger] acls[k])
    &&& forall|k: int| 0 <= k < acls.len() ==> !is_predefined(#[trigger] acls[k].name)
    &&& forall|j: int, k: int| 0 <= j < k < acls.len() ==> acls[j].name != acls[k].name
}

/// Applying the ACL lines appends their ACLs, when their names are new.
pub proof fn lemma_acls_apply(cfg: ConfigView, acls: Seq<AclView>, n: nat)
    requires
        acls_ok(acls),
        forall|j: int, k: int|
            0 <= j < cfg.acls.len() && 0 <= k < acls.len() ==> cfg.acls[j].name != acls[k].name,
    ensures
        apply_lines(cfg, acls_lines(acls), n) == Ok::<ConfigView, ParseErrorView>(
            ConfigView { acls: cfg.acls + acls, ..cfg },
        ),
        forall|k: int| 0 <= k < acls_lines(acls).len() ==> line_ok(#[trigger] acls_lines(acls)[k]),
        forall|k: int| 0 <= k < acls_lines(acls).len() ==> line_end_ok(#[trigger] acls_lines(acls)[k]),
    decreases acls.len(),
{
    if acls.len() == 0 {
        assert(acls_lines(acls) =~= Seq::<Seq<char>>::empty());
        assert(ConfigView { acls: cfg.acls + acls, ..cfg } =~= cfg);
    } else {
        let a = acls[0];
        assert(acl_ok(a));
        assert forall|m: int| 0 <= m < cfg.acls.len() implies cfg.acls[m].name != a.name by {
            assert(cfg.acls[m].name != acls[0].name);
        }
        lemma_acl_line(cfg, a, n);
        let c1 = ConfigView { acls: cfg.acls.push(a), ..cfg };
        let rest = acls.drop_first();
        assert(acls_ok(rest)) by {
            assert forall|k: int| 0 <= k < rest.len() implies acl_ok(#[trigger] rest[k]) by {
                assert(rest[k] == acls[k + 1]);
            }
            assert forall|k: int| 0 <= k < rest.len() implies !is_predefined(
                #[trigger] rest[k].name,
            ) by {
                assert(rest[k] == acls[k + 1]);
            }
            assert forall|j: int, k: int| 0 <= j < k < rest.len() implies rest[j].name
                != rest[k].name by {
                assert(rest[j] == acls[j + 1]);
                assert(rest[k] == acls[k + 1]);
            }
        }
        assert forall|j: int, k: int| 0 <= j < c1.acls.len() && 0 <= k < rest.len() implies c1.acls[j].name
            != rest[k].name by {
            assert(rest[k] == acls[k + 1]);
            if j < cfg.acls.len() {
                assert(c1.acls[j] == cfg.acls[j]);
            } else {
                assert(c1.acls[j] == acls[0]);
            }
        }
        lemma_acls_apply(c1, rest, n + 1);
        assert(acls_lines(acls) =~= seq!["acl"@ + spaced(acl_words(a))] + acls_lines(rest));
        lemma_apply_concat(cfg, seq!["acl"@ + spaced(acl_words(a))], acls_lines(rest), n);
        lemma_apply_one(cfg, "acl"@ + spaced(acl_words(a)), n);
        assert(cfg.acls.push(a) + rest =~= cfg.acls + acls);
        let all = acls_lines(acls);
        assert forall|k: int| 0 <= k < all.len() implies line_ok(#[trigger] all[k]) && line_end_ok(all[k]) by {
            if k > 0 {
                assert(all[k] == acls_lines(rest)[k - 1]);
            }
        }
    }
}

/// The ACL lines as text are the written ACL lines, when none is predefined.
pub proof fn lemma_acls_text(acls: Seq<AclView>)
    requires
        forall|k: int| 0 <= k < acls.len() ==> !is_predefined(#[trigger] acls[k].name),
    ensures
        acl_lines(acls) == joined(acls_lines(acls)),
    decreases acls.len(),
{
    if acls.len() == 0 {
        assert(acls_lines(acls) =~= Seq::<Seq<char>>::empty());
    } else {
        let init = acls.drop_last();
        assert forall|k: int| 0 <= k < init.len() implies !is_predefined(#[trigger] init[k].name) by {
            assert(init[k] == acls[k]);
        }
        lemma_acls_text(init);
        assert(!is_predefined(acls[acls.len() - 1].name));
        assert(acls_lines(acls) =~= acls_lines(init) + seq!["acl"@ + spaced(acl_words(acls.last()))]);
        lemma_joined_concat(acls_lines(init), seq!["acl"@ + spaced(acl_words(acls.last()))]);
        lemma_joined_one("acl"@ + spaced(acl_words(acls.last())));
        lemma_acl_text(acls.last());
    }
}

/// A section: its lines and a blank line, or nothing when it has no lines.
pub open spec fn section(ls: Seq<Seq<char>>) -> Seq<Seq<char>> {
    if ls.len() == 0 {
        Seq::empty()
    } else {
        ls + seq![Seq::empty()]
    }
}

/// The lines that the writer puts down for `c`, each section closed by a
/// blank line.
pub open spec fn written_lines(c: ConfigView) -> Seq<Seq<char>> {
    auth_lines(c.auth_param) + section(acls_lines(c.acls)) + section(access_lines(c.http_access))
        + section(always_lines(c.always_direct)) + section(never_lines(c.never_direct))
}

/// Nothing, or lines that end with a blank line after a line that ends with
/// a non-whitespace character.
pub open spec fn closed(ls: Seq<Seq<char>>) -> bool {
    ls.len() == 0 || (ls.len() >= 2 && ls.last() == Seq::<char>::empty() && line_end_ok(
        ls[ls.len() - 2],
    ))
}

/// Every line can stand as a line.
pub open spec fn all_lines_ok(ls: Seq<Seq<char>>) -> bool {
    forall|k: int| 0 <= k < ls.len() ==> line_ok(#[trigger] ls[k])
}

/// A configuration that the writer puts down in a form that reads back as
/// itself.
pub open spec fn writable(c: ConfigView) -> bool {
    &&& auth_ok(c.auth_param)
    &&& acls_ok(c.acls)
    &&& forall|k: int| 0 <= k < c.http_access.len() ==> rule_ok(#[trigger] c.http_access[k])
    &&& forall|k: int| 0 <= k < c.always_direct.len() ==> rule_ok(#[trigger] c.always_direct[k])
    &&& forall|k: int| 0 <= k < c.never_direct.len() ==> rule_ok(#[trigger] c.never_direct[k])
}

proof fn lemma_closed_concat(a: Seq<Seq<char>>, b: Seq<Seq<char>>)
    requires
        closed(a),
        closed(b),
    ensures
        closed(a + b),
{
    if b.len() == 0 {
        assert(a + b =~= a);
    } else {
        assert((a + b).last() == b.last());
        assert((a + b)[(a + b).len() - 2] == b[b.len() - 2]);
    }
}

proof fn lemma_all_ok_concat(a: Seq<Seq<char>>, b: Seq<Seq<char>>)
    requires
        all_lines_ok(a),
        all_lines_ok(b),
    ensures
        all_lines_ok(a + b),
{
    assert forall|k: int| 0 <= k < (a + b).len() implies line_ok(#[trigger] (a + b)[k]) by {
        if k < a.len() {
            assert((a + b)[k] == a[k]);
        } else {
            assert((a + b)[k] == b[k - a.len()]);
        }
    }
}

proof fn lemma_section_props(ls: Seq<Seq<char>>)
    requires
        all_lines_ok(ls),
        forall|k: int| 0 <= k < ls.len() ==> line_end_ok(#[trigger] ls[k]),
    ensures
        all_lines_ok(section(ls)),
        closed(section(ls)),
        joined(section(ls)) == if ls.len() == 0 {
            Seq::empty()
        } else {
            joined(ls) + "\n"@
        },
{
    if ls.len() > 0 {
        let blank: Seq<Seq<char>> = seq![Seq::empty()];
        assert(all_lines_ok(blank)) by {
            assert(blank[0] == Seq::<char>::empty());
        }
        lemma_all_ok_concat(ls, blank);
        assert(section(ls)[section(ls).len() - 2] == ls[ls.len() - 1]);
        lemma_joined_concat(ls, blank);
        lemma_joined_one(Seq::empty());
        assert(Seq::<char>::empty() + "\n"@ =~= "\n"@);
    }
}

proof fn lemma_section_apply(cfg: ConfigView, ls: Seq<Seq<char>>, n: nat)
    ensures
        apply_lines(cfg, section(ls), n) == apply_lines(cfg, ls, n),
{
    if ls.len() > 0 {
        lemma_apply_concat(cfg, ls, seq![Seq::empty()], n);
        match apply_lines(cfg, ls, n) {
            Ok(c) => {
                lemma_apply_one(c, Seq::empty(), n + ls.len());
                lemma_blank_line(c, n + ls.len());
            },
            Err(e) => {},
        }
    }
}

proof fn lemma_auth_closed(a: AuthView)
    requires
        auth_ok(a),
    ensures
        closed(auth_lines(a)),
        all_lines_ok(auth_lines(a)),
{
    lemma_auth_apply(ConfigView::empty(), a, 1);
    if !a.is_empty() {
        let p = setting_lines("auth_param basic program "@, a.program);
        let c = setting_lines("auth_param basic children "@, a.children);
        let r = setting_lines("auth_param basic realm "@, a.realm);
        let t = setting_lines("auth_param basic credentialsttl "@, a.credentialsttl);
        let all = auth_lines(a);
        let last = all[all.len() - 2];
        match a.credentialsttl {
            Some(v) => {
                lemma_auth_credentialsttl_line(ConfigView::empty(), v, 1);
                assert(last == t[0]);
            },
            None => match a.realm {
                Some(v) => {
                    lemma_auth_realm_line(ConfigView::empty(), v, 1);
                    assert(last == r[0]);
                },
                None => match a.children {
                    Some(v) => {
                        lemma_auth_children_line(ConfigView::empty(), v, 1);
                        assert(last == c[0]);
                    },
                    None => match a.program {
                        Some(v) => {
                            lemma_auth_program_line(ConfigView::empty(), v, 1);
                            assert(last == p[0]);
                        },
                        None => {},
                    },
                },
            },
        }
    }
}

/// The written lines close with a blank line after a line that ends in a
/// non-whitespace character; the text without that last blank line is what
/// the writer gives.
proof fn lemma_trim_end_joined(ls: Seq<Seq<char>>)
    requires
        ls.len() >= 2,
        closed(ls),
    ensures
        trim_end(joined(ls)) + "\n"@ == joined(ls.drop_last()),
{
    lemma_newline_text();
    let n = ls.len();
    let init = ls.take(n - 2);
    let l = ls[n - 2];
    assert(ls =~= init + seq![l] + seq![Seq::<char>::empty()]);
    lemma_joined_concat(init + seq![l], seq![Seq::<char>::empty()]);
    lemma_joined_concat(init, seq![l]);
    lemma_joined_one(l);
    lemma_joined_one(Seq::empty());
    let j = joined(ls);
    let base = joined(init) + l;
    assert(j =~= base + seq!['\n', '\n']);
    assert(crate::text::back_ws(j, j.len() as int) == crate::text::back_ws(j, j.len() - 1));
    assert(crate::text::back_ws(j, j.len() - 1) == crate::text::back_ws(j, j.len() - 2));
    assert(j[j.len() - 3] == l.last());
    assert(crate::text::back_ws(j, j.len() - 2) == j.len() - 2);
    assert(trim_end(j) =~= base);
    assert(ls.drop_last() =~= init + seq![l]);
    assert(trim_end(j) + "\n"@ =~= joined(ls.drop_last()));
}

/// Applying the written lines to the empty configuration gives it back.
proof fn lemma_written_apply(c: ConfigView)
    requires
        writable(c),
    ensures
        apply_lines(ConfigView::empty(), written_lines(c), 1) == Ok::<ConfigView, ParseErrorView>(c),
        closed(written_lines(c)),
        all_lines_ok(written_lines(c)),
{
    let a = auth_lines(c.auth_param);
    let s1 = section(acls_lines(c.acls));
    let s2 = section(access_lines(c.http_access));
    let s3 = section(always_lines(c.always_direct));
    let s4 = section(never_lines(c.never_direct));
    let ls = written_lines(c);
    assert(ls =~= a + s1 + s2 + s3 + s4);
    let c0 = ConfigView::empty();
    lemma_auth_apply(c0, c.auth_param, 1);
    lemma_auth_closed(c.auth_param);
    let c1 = ConfigView { auth_param: c.auth_param, ..c0 };
    lemma_acls_apply(c1, c.acls, 1 + a.len());
    lemma_section_apply(c1, acls_lines(c.acls), 1 + a.len());
    lemma_section_props(acls_lines(c.acls));
    let c2 = ConfigView { acls: c1.acls + c.acls, ..c1 };
    lemma_access_apply(c2, c.http_access, 1 + a.len() + s1.len());
    lemma_section_apply(c2, access_lines(c.http_access), 1 + a.len() + s1.len());
    lemma_section_props(access_lines(c.http_access));
    let c3 = ConfigView { http_access: c2.http_access + c.http_access, ..c2 };
    lemma_always_apply(c3, c.always_direct, 1 + a.len() + s1.len() + s2.len());
    lemma_section_apply(c3, always_lines(c.always_direct), 1 + a.len() + s1.len() + s2.len());
    lemma_section_props(always_lines(c.always_direct));
    let c4 = ConfigView { always_direct: c3.always_direct + c.always_direct, ..c3 };
    lemma_never_apply(c4, c.never_direct, 1 + a.len() + s1.len() + s2.len() + s3.len());
    lemma_section_apply(
        c4,
        never_lines(c.never_direct),
        1 + a.len() + s1.len() + s2.len() + s3.len(),
    );
    lemma_section_props(never_lines(c.never_direct));
    let c5 = ConfigView { never_direct: c4.never_direct + c.never_direct, ..c4 };
    assert(c5 =~= c);
    lemma_apply_concat(c0, a, s1 + s2 + s3 + s4, 1);
    lemma_apply_concat(c1, s1, s2 + s3 + s4, 1 + a.len());
    lemma_apply_concat(c2, s2, s3 + s4, 1 + a.len() + s1.len());
    lemma_apply_concat(c3, s3, s4, 1 + a.len() + s1.len() + s2.len());
    assert(a + s1 + s2 + s3 + s4 =~= a + (s1 + (s2 + (s3 + s4))));
    assert(s1 + s2 + s3 + s4 =~= s1 + (s2 + (s3 + s4)));
    assert(s2 + s3 + s4 =~= s2 + (s3 + s4));
    lemma_closed_concat(a, s1);
    lemma_closed_concat(a + s1, s2);
    lemma_closed_concat(a + s1 + s2, s3);
    lemma_closed_concat(a + s1 + s2 + s3, s4);
    lemma_all_ok_concat(a, s1);
    lemma_all_ok_concat(a + s1, s2);
    lemma_all_ok_concat(a + s1 + s2, s3);
    lemma_all_ok_concat(a + s1 + s2 + s3, s4);
}

/// The sections of the written text are the written lines, joined.
proof fn lemma_written_text(c: ConfigView)
    requires
        writable(c),
    ensures
        config_body(c) == joined(written_lines(c)),
{
    let a = auth_lines(c.auth_param);
    let s1 = section(acls_lines(c.acls));
    let s2 = section(access_lines(c.http_access));
    let s3 = section(always_lines(c.always_direct));
    let s4 = section(never_lines(c.never_direct));
    let ls = written_lines(c);
    assert(ls =~= a + s1 + s2 + s3 + s4);
    lemma_acls_apply(ConfigView::empty(), c.acls, 1);
    lemma_access_apply(ConfigView::empty(), c.http_access, 1);
    lemma_always_apply(ConfigView::empty(), c.always_direct, 1);
    lemma_never_apply(ConfigView::empty(), c.never_direct, 1);
    lemma_section_props(acls_lines(c.acls));
    lemma_section_props(access_lines(c.http_access));
    lemma_section_props(always_lines(c.always_direct));
    lemma_section_props(never_lines(c.never_direct));
    lemma_auth_text(c.auth_param);
    lemma_acls_text(c.acls);
    lemma_access_text(c.http_access);
    lemma_always_text(c.always_direct);
    lemma_never_text(c.never_direct);
    assert(acls_text(c.acls) == joined(s1));
    assert(rules_text("http_access"@, c.http_access) == joined(s2));
    assert(rules_text("always_direct"@, c.always_direct) == joined(s3));
    assert(rules_text("never_direct"@, c.never_direct) == joined(s4));
    lemma_joined_concat(a, s1);
    lemma_joined_concat(a + s1, s2);
    lemma_joined_concat(a + s1 + s2, s3);
    lemma_joined_concat(a + s1 + s2 + s3, s4);
}

/// The text that `write_config` gives for a configuration whose names,
/// values and settings can be read back reads back as that configuration:
/// `parse(write_config(c))` is `Ok(c)`.
pub proof fn law_config_text_roundtrip(c: ConfigView)
    requires
        writable(c),
    ensures
        parse_text(config_text(c)) == Ok::<ConfigView, ParseErrorView>(c),
{
    let ls = written_lines(c);
    let c0 = ConfigView::empty();
    lemma_written_apply(c);
    lemma_written_text(c);
    if ls.len() == 0 {
        assert(joined(ls) =~= Seq::<char>::empty());
        assert(trim_end(Seq::<char>::empty()) =~= Seq::<char>::empty());
        lemma_joined_one(Seq::empty());
        let one: Seq<Seq<char>> = seq![Seq::empty()];
        assert(config_text(c) =~= joined(one));
        assert(all_lines_ok(one)) by {
            assert(one[0] == Seq::<char>::empty());
        }
        lemma_lines_joined(one);
        lemma_blank_line(c0, 1);
        lemma_parse_lines_apply(one, 1);
        assert(one.take(1) =~= one);
        lemma_apply_one(c0, Seq::empty(), 1);
        assert(apply_lines(c0, ls, 1) == Ok::<ConfigView, ParseErrorView>(c0));
    } else {
        lemma_trim_end_joined(ls);
        let init = ls.drop_last();
        assert(config_text(c) == joined(init));
        assert(all_lines_ok(init)) by {
            assert forall|k: int| 0 <= k < init.len() implies line_ok(#[trigger] init[k]) by {
                assert(init[k] == ls[k]);
            }
        }
        lemma_lines_joined(init);
        lemma_parse_lines_apply(init, init.len());
        assert(init.take(init.len() as int) =~= init);
        assert(ls =~= init + seq![Seq::<char>::empty()]);
        lemma_apply_concat(c0, init, seq![Seq::<char>::empty()], 1);
        match apply_lines(c0, init, 1) {
            Ok(x) => {
                lemma_apply_one(x, Seq::empty(), 1 + init.len());
                lemma_blank_line(x, 1 + init.len());
            },
            Err(e) => {},
        }
    }
}
} // verus!
