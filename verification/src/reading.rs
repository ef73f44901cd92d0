//! Laws of reading a configuration: lines that `parse` skips change nothing
//! but the line numbers of later errors.
use vstd::prelude::*;

use crate::model::{AclType, ConfigView};
use crate::parser::{
    ParseErrorView, acl_index_from, lemma_acl_index_from, line_effect, parse_lines, parse_text,
};
use crate::roundtrip::{
    apply_lines, lemma_apply_concat, lemma_lines_line, lemma_lines_shift, lemma_newline_text,
    lemma_parse_lines_apply,
};
use crate::text::{lines, lines_acc, strip_cr, trim, words};

verus! {

/// The words that start a line that `parse` reads.
pub open spec fn is_directive(w: Seq<char>) -> bool {
    ||| w == "acl"@
    ||| w == "http_access"@
    ||| w == "always_direct"@
    ||| w == "never_direct"@
    ||| w == "auth_param"@
}

/// A line that `parse` skips: blank, a comment, or a directive it does not
/// know.
pub open spec fn skipped_line(l: Seq<char>) -> bool {
    let t = trim(l);
    ||| t.len() == 0
    ||| t[0] == '#'
    ||| words(t).len() == 0
    ||| !is_directive(words(t)[0])
}

/// The outcome `r` of reading with one line inserted after line `k`: an
/// error on a later line moves down by one.
pub open spec fn shifted_after(r: Result<ConfigView, ParseErrorView>, k: nat) -> Result<
    ConfigView,
    ParseErrorView,
> {
    match r {
        Ok(c) => Ok(c),
        Err(e) => if e.line > k {
            Err(ParseErrorView { line: e.line + 1, ..e })
        } else {
            Err(e)
        },
    }
}

/// A skipped line leaves the configuration as it is.
proof fn lemma_skipped_effect(c: ConfigView, l: Seq<char>, n: nat)
    requires
        skipped_line(l),
    ensures
        line_effect(c, l, n) == Ok::<ConfigView, ParseErrorView>(c),
{
}

/// Numbering a line one further moves its error, and nothing else.
proof fn lemma_line_effect_renumbered(c: ConfigView, l: Seq<char>, n: nat)
    requires
        n >= 1,
    ensures
        line_effect(c, l, n + 1) == shifted_after(line_effect(c, l, n), 0),
        line_effect(c, l, n) matches Err(e) ==> e.line == n,
{
}

/// Applying lines numbered one further moves their error, and nothing else;
/// an error lies among their numbers.
proof fn lemma_apply_renumbered(c: ConfigView, ls: Seq<Seq<char>>, n: nat)
    requires
        n >= 1,
    ensures
        apply_lines(c, ls, n + 1) == shifted_after(apply_lines(c, ls, n), 0),
        apply_lines(c, ls, n) matches Err(e) ==> n <= e.line < n + ls.len(),
    decreases ls.len(),
{
    if ls.len() > 0 {
        lemma_line_effect_renumbered(c, ls[0], n);
        match line_effect(c, ls[0], n) {
            Ok(c2) => {
                lemma_apply_renumbered(c2, ls.drop_first(), n + 1);
            },
            Err(e) => {},
        }
    }
}

/// The lines of `a` followed by more text, where `a` ends a line.
proof fn lemma_lines_prefix(a: Seq<char>, r: Seq<char>, i: int, cur: Seq<char>)
    requires
        0 <= i <= a.len(),
        a.len() > 0 ==> a.last() == '\n',
        i == a.len() ==> cur.len() == 0,
    ensures
        lines_acc(a + r, i, cur) == lines_acc(a, i, cur) + lines(r),
    decreases a.len() - i,
{
    if i == a.len() {
        lemma_lines_shift(a, r, 0, Seq::empty());
        assert(cur =~= Seq::<char>::empty());
        assert(lines_acc(a, i, cur) =~= Seq::<Seq<char>>::empty());
        assert(lines_acc(a, i, cur) + lines(r) =~= lines(r));
    } else {
        assert((a + r)[i] == a[i]);
        if a[i] == '\n' {
            lemma_lines_prefix(a, r, i + 1, Seq::empty());
            assert(lines_acc(a + r, i, cur) == seq![strip_cr(cur)] + lines_acc(
                a + r,
                i + 1,
                Seq::empty(),
            ));
            assert(lines_acc(a, i, cur) == seq![strip_cr(cur)] + lines_acc(a, i + 1, Seq::empty()));
            assert(seq![strip_cr(cur)] + (lines_acc(a, i + 1, Seq::empty()) + lines(r)) =~= (
            seq![strip_cr(cur)] + lines_acc(a, i + 1, Seq::empty())) + lines(r));
        } else {
            assert(i + 1 < a.len());
            lemma_lines_prefix(a, r, i + 1, cur.push(a[i]));
        }
    }
}

/// The lines of `a + b`, where `a` ends a line, are those of `a`, then
/// those of `b`.
proof fn lemma_lines_split(a: Seq<char>, b: Seq<char>)
    requires
        a.len() > 0 ==> a.last() == '\n',
    ensures
        lines(a + b) == lines(a) + lines(b),
{
    lemma_lines_prefix(a, b, 0, Seq::empty());
}

/// The lines of `a`, a line `l`, then `b`.
proof fn lemma_lines_insert(a: Seq<char>, l: Seq<char>, b: Seq<char>)
    requires
        a.len() > 0 ==> a.last() == '\n',
        !l.contains('\n'),
    ensures
        lines(a + (l + "\n"@ + b)) == lines(a) + seq![strip_cr(l)] + lines(b),
{
    lemma_newline_text();
    let rest = l + "\n"@ + b;
    lemma_lines_split(a, rest);
    assert(rest.subrange(0, l.len() as int) =~= l);
    assert(rest[l.len() as int] == '\n');
    lemma_lines_line(rest, 0, l, Seq::empty());
    assert(Seq::<char>::empty() + l =~= l);
    let head = l + "\n"@;
    assert(rest =~= head + b);
    lemma_lines_shift(head, b, 0, Seq::empty());
    assert(head.len() + 0 == l.len() + 1);
    assert(lines(a) + (seq![strip_cr(l)] + lines(b)) =~= lines(a) + seq![strip_cr(l)] + lines(b));
}

/// What reading a text gives, from its lines.
proof fn lemma_parse_text_apply(s: Seq<char>)
    ensures
        parse_text(s) == apply_lines(ConfigView::empty(), lines(s), 1),
{
    lemma_parse_lines_apply(lines(s), lines(s).len());
    assert(lines(s).take(lines(s).len() as int) =~= lines(s));
}

/// A line that is blank, a comment, or a directive that the reader does not
/// know (as `str::lines` gives it, a carriage return at its end dropped)
/// changes nothing when it is put between two lines of a text: the same
/// configuration is read, and an error is the same, its line number one
/// larger when it lies after the inserted line.
pub proof fn law_skipped_line_changes_nothing(a: Seq<char>, l: Seq<char>, b: Seq<char>)
    requires
        a.len() > 0 ==> a.last() == '\n',
        !l.contains('\n'),
        skipped_line(strip_cr(l)),
    ensures
        parse_text(a + (l + "\n"@ + b)) == shifted_after(parse_text(a + b), lines(a).len()),
{
    let la = lines(a);
    let lb = lines(b);
    let l2 = strip_cr(l);
    lemma_lines_insert(a, l, b);
    lemma_lines_split(a, b);
    lemma_parse_text_apply(a + (l + "\n"@ + b));
    lemma_parse_text_apply(a + b);
    let e = ConfigView::empty();
    assert(la + seq![l2] + lb =~= la + (seq![l2] + lb));
    lemma_apply_concat(e, la, seq![l2] + lb, 1);
    lemma_apply_concat(e, la, lb, 1);
    lemma_apply_renumbered(e, la, 1);
    match apply_lines(e, la, 1) {
        Ok(c) => {
            let m = 1 + la.len();
            lemma_skipped_effect(c, l2, m);
            assert((seq![l2] + lb)[0] == l2);
            assert((seq![l2] + lb).drop_first() =~= lb);
            lemma_apply_renumbered(c, lb, m);
        },
        Err(err) => {},
    }
}


/// The ACLs of `c2` keep those of `c1`, in order: the same names and types,
/// the earlier values still first, and a case-insensitive ACL still
/// case-insensitive.
pub open spec fn acls_kept(c1: ConfigView, c2: ConfigView) -> bool {
    &&& c1.acls.len() <= c2.acls.len()
    &&& forall|k: int|
        #![trigger c1.acls[k]]
        0 <= k < c1.acls.len() ==> {
            let a = c1.acls[k];
            let b = c2.acls[k];
            &&& b.name == a.name
            &&& b.acl_type == a.acl_type
            &&& a.values.len() <= b.values.len()
            &&& b.values.subrange(0, a.values.len() as int) == a.values
            &&& (a.case_insensitive ==> b.case_insensitive)
        }
}

proof fn lemma_acls_kept_trans(c1: ConfigView, c2: ConfigView, c3: ConfigView)
    requires
        acls_kept(c1, c2),
        acls_kept(c2, c3),
    ensures
        acls_kept(c1, c3),
{
    assert forall|k: int| 0 <= k < c1.acls.len() implies {
        let a = #[trigger] c1.acls[k];
        let b = c3.acls[k];
        &&& b.name == a.name
        &&& b.acl_type == a.acl_type
        &&& a.values.len() <= b.values.len()
        &&& b.values.subrange(0, a.values.len() as int) == a.values
        &&& (a.case_insensitive ==> b.case_insensitive)
    } by {
        let a = c1.acls[k];
        let m = c2.acls[k];
        let b = c3.acls[k];
        assert(m.values.subrange(0, a.values.len() as int) == a.values);
        assert(b.values.subrange(0, m.values.len() as int) == m.values);
        assert(b.values.subrange(0, a.values.len() as int) =~= m.values.subrange(
            0,
            a.values.len() as int,
        ));
    }
}

/// Reading one line keeps the ACLs read so far.
proof fn lemma_line_keeps_acls(cfg: ConfigView, l: Seq<char>, n: nat)
    ensures
        line_effect(cfg, l, n) matches Ok(c2) ==> acls_kept(cfg, c2),
{
    let t = words(trim(l));
    if trim(l).len() > 0 && trim(l)[0] != '#' && t.len() > 0 && t[0] == "acl"@ && t.len() >= 4 {
        match AclType::parse_text(t[2]) {
            Some(ty) => {
                let ci = t[3] == "-i"@;
                let values = if ci {
                    t.subrange(4, t.len() as int)
                } else {
                    t.subrange(3, t.len() as int)
                };
                lemma_acl_index_from(cfg.acls, t[1], 0);
                match acl_index_from(cfg.acls, t[1], 0) {
                    Some(k) => {
                        let old = cfg.acls[k];
                        assert((old.values + values).subrange(0, old.values.len() as int)
                            =~= old.values);
                    },
                    None => {},
                }
            },
            None => {},
        }
    }
    match line_effect(cfg, l, n) {
        Ok(c2) => {
            assert forall|k: int| 0 <= k < cfg.acls.len() implies {
                let a = #[trigger] cfg.acls[k];
                let b = c2.acls[k];
                &&& b.name == a.name
                &&& b.acl_type == a.acl_type
                &&& a.values.len() <= b.values.len()
                &&& b.values.subrange(0, a.values.len() as int) == a.values
                &&& (a.case_insensitive ==> b.case_insensitive)
            } by {
                assert(cfg.acls[k].values.subrange(0, cfg.acls[k].values.len() as int)
                    =~= cfg.acls[k].values);
            }
        },
        Err(_) => {},
    }
}

/// Reading lines keeps the ACLs read before them.
proof fn lemma_apply_keeps_acls(c: ConfigView, ls: Seq<Seq<char>>, n: nat)
    ensures
        apply_lines(c, ls, n) matches Ok(c2) ==> acls_kept(c, c2),
    decreases ls.len(),
{
    if ls.len() == 0 {
        assert forall|k: int| 0 <= k < c.acls.len() implies c.acls[k].values.subrange(
            0,
            c.acls[k].values.len() as int,
        ) == c.acls[k].values by {
            assert(c.acls[k].values.subrange(0, c.acls[k].values.len() as int)
                =~= c.acls[k].values);
        }
    } else {
        lemma_line_keeps_acls(c, ls[0], n);
        match line_effect(c, ls[0], n) {
            Ok(c1) => {
                lemma_apply_keeps_acls(c1, ls.drop_first(), n + 1);
                match apply_lines(c1, ls.drop_first(), n + 1) {
                    Ok(c2) => lemma_acls_kept_trans(c, c1, c2),
                    Err(_) => {},
                }
            },
            Err(_) => {},
        }
    }
}

/// Reading more lines never takes back what earlier lines defined: when a
/// text reads, its beginning (up to the end of a line) reads too, and each
/// ACL of the beginning is still there in the same place with the same
/// name and type, its earlier values still first, and still
/// case-insensitive if it was: a later line for the same name may add
/// values and set `-i`, never clear it.
pub proof fn law_later_lines_keep_acls(a: Seq<char>, b: Seq<char>)
    requires
        a.len() > 0 ==> a.last() == '\n',
    ensures
        parse_text(a + b) matches Ok(c2) ==> parse_text(a) matches Ok(c1) && acls_kept(c1, c2),
{
    lemma_lines_split(a, b);
    lemma_parse_text_apply(a + b);
    lemma_parse_text_apply(a);
    let e = ConfigView::empty();
    lemma_apply_concat(e, lines(a), lines(b), 1);
    match apply_lines(e, lines(a), 1) {
        Ok(c1) => {
            lemma_apply_keeps_acls(c1, lines(b), 1 + lines(a).len());
        },
        Err(_) => {},
    }
}

/// An `acl` line with `-i` that reads leaves an ACL of its name that is
/// case-insensitive, whether the name is new or seen before.
pub proof fn law_case_flag_line_sets_flag(cfg: ConfigView, l: Seq<char>, n: nat)
    ensures
        ({
            let t = words(trim(l));
            trim(l).len() > 0 && trim(l)[0] != '#' && t.len() >= 4 && t[0] == "acl"@ && t[3]
                == "-i"@ ==> (line_effect(cfg, l, n) matches Ok(c2) ==> exists|k: int|
                0 <= k < c2.acls.len() && (#[trigger] c2.acls[k]).name == t[1]
                    && c2.acls[k].case_insensitive)
        }),
{
    let t = words(trim(l));
    if trim(l).len() > 0 && trim(l)[0] != '#' && t.len() >= 4 && t[0] == "acl"@ && t[3] == "-i"@ {
        match line_effect(cfg, l, n) {
            Ok(c2) => {
                lemma_acl_index_from(cfg.acls, t[1], 0);
                match acl_index_from(cfg.acls, t[1], 0) {
                    Some(k) => {
                        assert(c2.acls[k].name == t[1] && c2.acls[k].case_insensitive);
                    },
                    None => {
                        let k = cfg.acls.len() as int;
                        assert(c2.acls[k].name == t[1] && c2.acls[k].case_insensitive);
                    },
                }
            },
            Err(_) => {},
        }
    }
}

/// Once an `acl` line with `-i` has been read, the ACL of its name stays
/// case-insensitive whatever lines follow: a later line for the same name
/// without `-i` adds its values and never clears the flag.
pub proof fn law_case_flag_is_kept(a: Seq<char>, l: Seq<char>, b: Seq<char>)
    requires
        a.len() > 0 ==> a.last() == '\n',
        !l.contains('\n'),
    ensures
        ({
            let t = words(trim(strip_cr(l)));
            trim(strip_cr(l)).len() > 0 && trim(strip_cr(l))[0] != '#' && t.len() >= 4 && t[0]
                == "acl"@ && t[3] == "-i"@ ==> (parse_text(a + (l + "\n"@ + b)) matches Ok(c)
                ==> exists|k: int|
                0 <= k < c.acls.len() && (#[trigger] c.acls[k]).name == t[1]
                    && c.acls[k].case_insensitive)
        }),
{
    let l2 = strip_cr(l);
    let head = a + (l + "\n"@);
    lemma_newline_text();
    assert(head.last() == '\n');
    assert(a + (l + "\n"@ + b) =~= head + b);
    law_later_lines_keep_acls(head, b);
    lemma_lines_insert(a, l, Seq::empty());
    assert(l + "\n"@ + Seq::<char>::empty() =~= l + "\n"@);
    assert(lines(Seq::<char>::empty()) =~= Seq::<Seq<char>>::empty());
    assert(lines(a) + seq![l2] + Seq::<Seq<char>>::empty() =~= lines(a) + seq![l2]);
    lemma_parse_text_apply(head);
    lemma_parse_text_apply(a);
    let e = ConfigView::empty();
    lemma_apply_concat(e, lines(a), seq![l2], 1);
    match apply_lines(e, lines(a), 1) {
        Ok(c0) => {
            let n = 1 + lines(a).len();
            assert(seq![l2].drop_first() =~= Seq::<Seq<char>>::empty());
            law_case_flag_line_sets_flag(c0, l2, n);
            assert(seq![l2][0] == l2);
            match line_effect(c0, l2, n) {
                Ok(c1) => {
                    assert(apply_lines(c1, Seq::<Seq<char>>::empty(), n + 1) == Ok::<
                        ConfigView,
                        ParseErrorView,
                    >(c1));
                    assert(parse_text(head) == Ok::<ConfigView, ParseErrorView>(c1));
                    let t = words(trim(l2));
                    if trim(l2).len() > 0 && trim(l2)[0] != '#' && t.len() >= 4 && t[0] == "acl"@
                        && t[3] == "-i"@ {
                        match parse_text(head + b) {
                            Ok(c) => {
                                let k = choose|k: int|
                                    0 <= k < c1.acls.len() && (#[trigger] c1.acls[k]).name
                                        == t[1] && c1.acls[k].case_insensitive;
                                assert(acls_kept(c1, c));
                                assert(c.acls[k].name == t[1] && c.acls[k].case_insensitive);
                            },
                            Err(_) => {},
                        }
                    }
                },
                Err(_) => {},
            }
        },
        Err(_) => {},
    }
}

} // verus!
