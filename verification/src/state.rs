//! The editor's state as a value, and what each key press makes of it.
//!
//! Every operation of [`crate::app::App`] is stated here as a function from
//! one [`AppView`] to the next; the executable code is proved to follow it.
use vstd::prelude::*;

use crate::app::{
    Action, InputField, SaveOutcome, Screen, Tab, UNDO_LIMIT, menu_count, menu_item_count,
};
use crate::input::{
    TextInputView, law_key_keeps_cursor_on_boundary, lemma_boundary_of_offset, lemma_offset_full,
    utf8_len,
};
use crate::key::{Key, KeyCode};
use crate::model::{
    AccessAction, AclRefView, AclType, AclView, AuthView, ConfigView, RuleView, SquidConfig,
    predefined_acls,
};
use crate::text::{find, lemma_find_occurs, lines, lowercase, occurs_in, trim};
use crate::validate::value_check;

verus! {

/// The value of an [`App`].
pub struct AppView {
    pub config: ConfigView,
    pub screen: Screen,
    pub tab: Tab,
    pub should_quit: bool,
    pub file_path: Seq<char>,
    pub dirty: bool,
    pub status_message: Option<Seq<char>>,
    pub status_serial: u64,
    pub help_visible: bool,
    pub menu_active: bool,
    pub menu_index: usize,
    pub menu_item: usize,
    pub undo_stack: Seq<ConfigView>,
    pub redo_stack: Seq<ConfigView>,
    pub rules_focus_acls: bool,
    pub acl_table_state: Option<usize>,
    pub access_table_state: Option<usize>,
    pub acl_filter: Option<TextInputView>,
    pub always_direct_state: Option<usize>,
    pub never_direct_state: Option<usize>,
    pub direct_focus_always: bool,
    pub edit_name: TextInputView,
    pub edit_type_index: usize,
    pub edit_values: TextInputView,
    pub edit_case_insensitive: bool,
    pub edit_field: InputField,
    pub access_action: AccessAction,
    pub access_acl_refs: Seq<AclRefView>,
    pub access_available_cursor: usize,
    pub access_selected_cursor: usize,
    pub access_focus_available: bool,
    pub auth_program: TextInputView,
    pub auth_children: TextInputView,
    pub auth_realm: TextInputView,
    pub auth_ttl: TextInputView,
    pub auth_field: InputField,
}

/// The values of a sequence of configurations.
pub open spec fn configs_view(v: Seq<SquidConfig>) -> Seq<ConfigView> {
    v.map_values(|c: SquidConfig| c@)
}

/// The value of an optional text field.
pub open spec fn opt_input_view(o: Option<crate::input::TextInput>) -> Option<TextInputView> {
    match o {
        Some(t) => Some(t@),
        None => None,
    }
}

/// A text field holding `s` with the cursor at its end.
pub open spec fn filled(s: Seq<char>) -> TextInputView {
    TextInputView { content: s, cursor: utf8_len(s) }
}

/// The text of an optional setting, empty when absent.
pub open spec fn text_or_empty(o: Option<Seq<char>>) -> Seq<char> {
    match o {
        Some(s) => s,
        None => Seq::empty(),
    }
}

/// The serial number after `s`, wrapping.
pub open spec fn next_serial(s: u64) -> u64 {
    if s == u64::MAX {
        0
    } else {
        (s + 1) as u64
    }
}

impl AppView {
    /// The invariant that the editor keeps: the form indices lie in range,
    /// the text fields have their cursors on character boundaries, and the
    /// undo and redo histories together hold at most [`UNDO_LIMIT`] entries.
    pub open spec fn wf(self) -> bool {
        &&& self.edit_type_index < 23
        &&& self.menu_index < menu_count()
        &&& self.menu_item < menu_item_count(self.menu_index as int)
        &&& self.edit_name.wf()
        &&& self.edit_values.wf()
        &&& self.auth_program.wf()
        &&& self.auth_children.wf()
        &&& self.auth_realm.wf()
        &&& self.auth_ttl.wf()
        &&& (self.acl_filter matches Some(f) ==> f.wf())
        &&& (self.access_selected_cursor == 0 || self.access_selected_cursor
            < self.access_acl_refs.len())
        &&& self.undo_stack.len() + self.redo_stack.len() <= UNDO_LIMIT
    }

    /// The authentication fields reloaded from the configuration.
    pub open spec fn with_auth_fields(self) -> AppView {
        AppView {
            auth_program: filled(text_or_empty(self.config.auth_param.program)),
            auth_children: filled(text_or_empty(self.config.auth_param.children)),
            auth_realm: filled(text_or_empty(self.config.auth_param.realm)),
            auth_ttl: filled(text_or_empty(self.config.auth_param.credentialsttl)),
            ..self
        }
    }

    /// The status line set to `msg`.
    pub open spec fn with_status(self, msg: Seq<char>) -> AppView {
        AppView { status_message: Some(msg), status_serial: next_serial(self.status_serial), ..self }
    }

    /// The current configuration pushed onto the undo history, which drops
    /// its oldest entry beyond [`UNDO_LIMIT`]; the redo history is emptied.
    pub open spec fn snapshot(self) -> AppView {
        let u = self.undo_stack.push(self.config);
        AppView {
            undo_stack: if u.len() > UNDO_LIMIT {
                u.drop_first()
            } else {
                u
            },
            redo_stack: Seq::empty(),
            ..self
        }
    }

    /// Undo: the last configuration of the undo history comes back and the
    /// current one goes to the redo history; nothing happens when the
    /// history is empty.
    pub open spec fn undo(self) -> AppView {
        if self.undo_stack.len() > 0 {
            AppView {
                redo_stack: self.redo_stack.push(self.config),
                config: self.undo_stack.last(),
                undo_stack: self.undo_stack.drop_last(),
                dirty: true,
                ..self
            }.with_auth_fields().with_status("Undo"@)
        } else {
            self
        }
    }

    /// Redo: the last undone configuration comes back and the current one
    /// goes to the undo history; nothing happens when there is none.
    pub open spec fn redo(self) -> AppView {
        if self.redo_stack.len() > 0 {
            AppView {
                undo_stack: self.undo_stack.push(self.config),
                config: self.redo_stack.last(),
                redo_stack: self.redo_stack.drop_last(),
                dirty: true,
                ..self
            }.with_auth_fields().with_status("Redo"@)
        } else {
            self
        }
    }
}

/// Undo after redo, and redo after undo, give back the configuration and
/// the histories.
pub proof fn law_undo_redo_inverse(v: AppView)
    ensures
        v.redo_stack.len() > 0 ==> v.redo().undo().config == v.config
            && v.redo().undo().undo_stack == v.undo_stack && v.redo().undo().redo_stack
            == v.redo_stack,
        v.undo_stack.len() > 0 ==> v.undo().redo().config == v.config
            && v.undo().redo().undo_stack == v.undo_stack && v.undo().redo().redo_stack
            == v.redo_stack,
{
    if v.redo_stack.len() > 0 {
        assert(v.redo().undo().undo_stack =~= v.undo_stack);
        assert(v.redo().undo().redo_stack =~= v.redo_stack);
    }
    if v.undo_stack.len() > 0 {
        assert(v.undo().redo().undo_stack =~= v.undo_stack);
        assert(v.undo().redo().redo_stack =~= v.redo_stack);
    }
}

/// A change that takes a snapshot first is undone by one undo: the
/// configuration from before the change comes back, and the change can be
/// redone.
pub proof fn law_snapshot_then_undo(v: AppView, changed: ConfigView)
    ensures
        ({
            let after = AppView { config: changed, ..v.snapshot() };
            &&& after.undo().config == v.config
            &&& after.undo().redo_stack == seq![changed]
            &&& after.undo().redo().config == changed
        }),
{
    let after = AppView { config: changed, ..v.snapshot() };
    assert(after.undo().redo_stack =~= seq![changed]);
}

/// The histories never hold more than [`UNDO_LIMIT`] configurations
/// together: a snapshot, an undo and a redo all keep the bound.
pub proof fn law_history_bounded(v: AppView)
    requires
        v.undo_stack.len() + v.redo_stack.len() <= UNDO_LIMIT,
    ensures
        v.snapshot().undo_stack.len() + v.snapshot().redo_stack.len() <= UNDO_LIMIT,
        v.undo().undo_stack.len() + v.undo().redo_stack.len() <= UNDO_LIMIT,
        v.redo().undo_stack.len() + v.redo().redo_stack.len() <= UNDO_LIMIT,
{
}



// ---------------------------------------------------------------- helpers

/// An empty text field.
pub open spec fn empty_field() -> TextInputView {
    TextInputView { content: Seq::empty(), cursor: 0 }
}

/// `x` held between `lo` and `hi`.
pub open spec fn clamp(x: int, lo: int, hi: int) -> int {
    if x < lo {
        lo
    } else if x > hi {
        hi
    } else {
        x
    }
}

/// A selection kept within a list of `len` rows after the list shrank:
/// none for an empty list, the last row for one beyond the end.
pub open spec fn fixed_selection(sel: Option<usize>, len: nat) -> Option<usize> {
    if len == 0 {
        None
    } else if sel matches Some(x) && x >= len {
        Some((len - 1) as usize)
    } else {
        sel
    }
}

/// `s` with the entries at `i` and `j` exchanged.
pub open spec fn swapped<A>(s: Seq<A>, i: int, j: int) -> Seq<A> {
    s.update(i, s[j]).update(j, s[i])
}

/// The indices `0..n`.
pub open spec fn all_indices(n: nat) -> Seq<usize> {
    Seq::new(n, |i: int| i as usize)
}

/// An ACL matches a search for `q` (already lowercased) when its name or
/// its type's keyword, lowercased, contains `q`.
pub open spec fn acl_matches(a: AclView, q: Seq<char>) -> bool {
    find(lowercase(a.name), q) is Some || find(lowercase(a.acl_type.text()), q) is Some
}

/// The indices among the first `n` ACLs of those that match `q`, in order.
pub open spec fn matching(acls: Seq<AclView>, q: Seq<char>, n: int) -> Seq<usize>
    decreases n,
{
    if n <= 0 {
        Seq::empty()
    } else if acl_matches(acls[n - 1], q) {
        matching(acls, q, n - 1).push((n - 1) as usize)
    } else {
        matching(acls, q, n - 1)
    }
}

/// The names of the ACLs `acls`, in order.
pub open spec fn acl_names(acls: Seq<AclView>) -> Seq<Seq<char>> {
    acls.map_values(|a: AclView| a.name)
}

/// `names` followed by those of `pre` not yet in it, in the order of `pre`.
pub open spec fn add_missing(names: Seq<Seq<char>>, pre: Seq<Seq<char>>) -> Seq<Seq<char>>
    decreases pre.len(),
{
    if pre.len() == 0 {
        names
    } else {
        let next = if names.contains(pre[0]) {
            names
        } else {
            names.push(pre[0])
        };
        add_missing(next, pre.drop_first())
    }
}

/// Whether a rule names the ACL `name`, negated or not.
pub open spec fn rule_names(r: RuleView, name: Seq<char>) -> bool {
    exists|k: int| 0 <= k < r.acl_refs.len() && r.acl_refs[k].name == name
}

/// The first rule at or after `i` that names the ACL `name`.
pub open spec fn first_rule_naming(rules: Seq<RuleView>, name: Seq<char>, i: int) -> Option<usize>
    decreases rules.len() - i,
{
    if i < 0 || i >= rules.len() {
        None
    } else if rule_names(rules[i], name) {
        Some(i as usize)
    } else {
        first_rule_naming(rules, name, i + 1)
    }
}

/// The lines `ls` joined with newlines between them (`join("\n")`).
pub open spec fn join_lines(ls: Seq<Seq<char>>) -> Seq<char>
    decreases ls.len(),
{
    if ls.len() == 0 {
        Seq::empty()
    } else if ls.len() == 1 {
        ls[0]
    } else {
        join_lines(ls.drop_last()) + "\n"@ + ls.last()
    }
}

/// The trimmed lines of `ls` that are not empty, in order.
pub open spec fn kept_values(ls: Seq<Seq<char>>) -> Seq<Seq<char>>
    decreases ls.len(),
{
    if ls.len() == 0 {
        Seq::empty()
    } else if trim(ls.last()).len() == 0 {
        kept_values(ls.drop_last())
    } else {
        kept_values(ls.drop_last()).push(trim(ls.last()))
    }
}

/// The message of the first value in `vs` that type `t` refuses.
pub open spec fn first_invalid(t: AclType, vs: Seq<Seq<char>>) -> Option<Seq<char>>
    decreases vs.len(),
{
    if vs.len() == 0 {
        None
    } else {
        match value_check(t, vs[0]) {
            Err(e) => Some(e),
            Ok(_) => first_invalid(t, vs.drop_first()),
        }
    }
}

/// A setting as the authentication form saves it: trimmed, absent when
/// blank.
pub open spec fn opt_setting(s: Seq<char>) -> Option<Seq<char>> {
    if trim(s).len() == 0 {
        None
    } else {
        Some(trim(s))
    }
}

/// The ACL type at position `i` of [`AclType::ALL`].
pub open spec fn type_at(i: int) -> AclType {
    if i == 0 {
        AclType::Src
    } else if i == 1 {
        AclType::Dst
    } else if i == 2 {
        AclType::SrcDomain
    } else if i == 3 {
        AclType::DstDomain
    } else if i == 4 {
        AclType::SrcDomRegex
    } else if i == 5 {
        AclType::DstDomRegex
    } else if i == 6 {
        AclType::UrlRegex
    } else if i == 7 {
        AclType::UrlPathRegex
    } else if i == 8 {
        AclType::Port
    } else if i == 9 {
        AclType::Proto
    } else if i == 10 {
        AclType::Method
    } else if i == 11 {
        AclType::Time
    } else if i == 12 {
        AclType::Arp
    } else if i == 13 {
        AclType::MyIp
    } else if i == 14 {
        AclType::MyPort
    } else if i == 15 {
        AclType::ProxyAuth
    } else if i == 16 {
        AclType::Browser
    } else if i == 17 {
        AclType::RefererRegex
    } else if i == 18 {
        AclType::ReqMimeType
    } else if i == 19 {
        AclType::RepMimeType
    } else if i == 20 {
        AclType::MaxConn
    } else if i == 21 {
        AclType::External
    } else {
        AclType::Snmp
    }
}

/// The position of `t` in [`AclType::ALL`].
pub open spec fn type_index(t: AclType) -> nat {
    match t {
        AclType::Src => 0,
        AclType::Dst => 1,
        AclType::SrcDomain => 2,
        AclType::DstDomain => 3,
        AclType::SrcDomRegex => 4,
        AclType::DstDomRegex => 5,
        AclType::UrlRegex => 6,
        AclType::UrlPathRegex => 7,
        AclType::Port => 8,
        AclType::Proto => 9,
        AclType::Method => 10,
        AclType::Time => 11,
        AclType::Arp => 12,
        AclType::MyIp => 13,
        AclType::MyPort => 14,
        AclType::ProxyAuth => 15,
        AclType::Browser => 16,
        AclType::RefererRegex => 17,
        AclType::ReqMimeType => 18,
        AclType::RepMimeType => 19,
        AclType::MaxConn => 20,
        AclType::External => 21,
        AclType::Snmp => 22,
    }
}

/// The position of a type and the type at a position undo each other.
pub proof fn lemma_type_index(t: AclType, i: int)
    ensures
        type_at(type_index(t) as int) == t,
        type_index(t) < 23,
        0 <= i < 23 ==> type_index(type_at(i)) == i,
{
}

/// The field after `f` in the ACL form, Tab order.
pub open spec fn acl_field_next(f: InputField) -> InputField {
    match f {
        InputField::Name => InputField::Type,
        InputField::Type => InputField::Values,
        InputField::Values => InputField::CaseInsensitive,
        _ => InputField::Name,
    }
}

/// The field before `f` in the ACL form.
pub open spec fn acl_field_prev(f: InputField) -> InputField {
    match f {
        InputField::Name => InputField::CaseInsensitive,
        InputField::Type => InputField::Name,
        InputField::Values => InputField::Type,
        InputField::CaseInsensitive => InputField::Values,
        _ => InputField::Name,
    }
}

/// The field after `f` in the authentication form.
pub open spec fn auth_field_next(f: InputField) -> InputField {
    match f {
        InputField::AuthProgram => InputField::AuthChildren,
        InputField::AuthChildren => InputField::AuthRealm,
        InputField::AuthRealm => InputField::AuthTtl,
        _ => InputField::AuthProgram,
    }
}

/// The field before `f` in the authentication form.
pub open spec fn auth_field_prev(f: InputField) -> InputField {
    match f {
        InputField::AuthProgram => InputField::AuthTtl,
        InputField::AuthChildren => InputField::AuthProgram,
        InputField::AuthRealm => InputField::AuthChildren,
        InputField::AuthTtl => InputField::AuthRealm,
        _ => InputField::AuthProgram,
    }
}

/// The other action.
pub open spec fn toggled(a: AccessAction) -> AccessAction {
    match a {
        AccessAction::Allow => AccessAction::Deny,
        AccessAction::Deny => AccessAction::Allow,
    }
}

/// Whether a key is the character `c`, with or without Control.
pub open spec fn is_char(key: Key, c: char) -> bool {
    key.code == KeyCode::Char(c)
}

/// The state of a freshly opened editor on `config`, saved to `path`.
pub open spec fn initial(config: ConfigView, path: Seq<char>) -> AppView {
    AppView {
        config,
        screen: Screen::List,
        tab: Tab::Rules,
        should_quit: false,
        file_path: path,
        dirty: false,
        status_message: None,
        status_serial: 0,
        help_visible: false,
        menu_active: false,
        menu_index: 0,
        menu_item: 0,
        undo_stack: Seq::empty(),
        redo_stack: Seq::empty(),
        rules_focus_acls: true,
        acl_table_state: if config.acls.len() > 0 {
            Some(0)
        } else {
            None
        },
        access_table_state: if config.http_access.len() > 0 {
            Some(0)
        } else {
            None
        },
        acl_filter: None,
        always_direct_state: if config.always_direct.len() > 0 {
            Some(0)
        } else {
            None
        },
        never_direct_state: if config.never_direct.len() > 0 {
            Some(0)
        } else {
            None
        },
        direct_focus_always: true,
        edit_name: empty_field(),
        edit_type_index: 0,
        edit_values: empty_field(),
        edit_case_insensitive: false,
        edit_field: InputField::Name,
        access_action: AccessAction::Allow,
        access_acl_refs: Seq::empty(),
        access_available_cursor: 0,
        access_selected_cursor: 0,
        access_focus_available: true,
        auth_program: empty_field(),
        auth_children: empty_field(),
        auth_realm: empty_field(),
        auth_ttl: empty_field(),
        auth_field: InputField::AuthProgram,
    }.with_auth_fields()
}

// ---------------------------------------------------------------- operations

impl AppView {
    /// Quitting: with unsaved changes the editor asks first.
    pub open spec fn request_quit(self) -> AppView {
        if self.dirty {
            AppView { screen: Screen::ConfirmQuit, ..self }
        } else {
            AppView { should_quit: true, ..self }
        }
    }

    /// The indices of the ACLs that the search shows: all of them without a
    /// search or with an empty one, else those that match it, ignoring case.
    #[verifier::opaque]
    pub open spec fn filtered_acl_indices(self) -> Seq<usize> {
        let n = self.config.acls.len();
        match self.acl_filter {
            Some(f) => {
                let q = lowercase(f.content);
                if q.len() == 0 {
                    all_indices(n)
                } else {
                    matching(self.config.acls, q, n as int)
                }
            },
            None => all_indices(n),
        }
    }

    /// The index in the configuration of the selected row of the ACL table.
    #[verifier::opaque]
    pub open spec fn real_acl_index(self) -> Option<usize> {
        let f = self.filtered_acl_indices();
        match self.acl_table_state {
            Some(sel) => if sel < f.len() {
                Some(f[sel as int])
            } else {
                None
            },
            None => None,
        }
    }

    /// The names a rule can pick: the configured ACLs, then the predefined
    /// ones not among them.
    #[verifier::opaque]
    pub open spec fn available_acl_names(self) -> Seq<Seq<char>> {
        add_missing(acl_names(self.config.acls), predefined_acls())
    }

    /// Whether the focused table has a selected row to delete.
    pub open spec fn has_selection(self) -> bool {
        match self.tab {
            Tab::Rules => if self.rules_focus_acls {
                self.acl_table_state is Some && self.config.acls.len() > 0
            } else {
                self.access_table_state is Some && self.config.http_access.len() > 0
            },
            Tab::Direct => if self.direct_focus_always {
                self.always_direct_state is Some && self.config.always_direct.len() > 0
            } else {
                self.never_direct_state is Some && self.config.never_direct.len() > 0
            },
            Tab::Auth => false,
        }
    }

    /// Selects, in the access table, the first rule that names the ACL
    /// selected in the ACL table, if there is one.
    #[verifier::opaque]
    pub open spec fn sync_access_to_acl(self) -> AppView {
        match self.real_acl_index() {
            Some(i) => if i < self.config.acls.len() {
                match first_rule_naming(self.config.http_access, self.config.acls[i as int].name, 0) {
                    Some(idx) => AppView { access_table_state: Some(idx), ..self },
                    None => self,
                }
            } else {
                self
            },
            None => self,
        }
    }

    /// The row `delta` rows away from the selection `sel` (the first row
    /// when there is none), held within a table of `len` rows.
    pub open spec fn stepped(sel: Option<usize>, delta: int, len: nat) -> usize {
        let cur = match sel {
            Some(s) => s as int,
            None => 0,
        };
        clamp(cur + delta, 0, len - 1) as usize
    }

    /// Moves the selection of the ACL table, then shows in the access
    /// table a rule that uses the selected ACL.
    #[verifier::opaque]
    pub open spec fn move_acl_selection(self, delta: int) -> AppView {
        let len = self.filtered_acl_indices().len();
        if len == 0 {
            self
        } else {
            AppView {
                acl_table_state: Some(AppView::stepped(self.acl_table_state, delta, len)),
                ..self
            }.sync_access_to_acl()
        }
    }

    /// Moves the selection of the access table.
    #[verifier::opaque]
    pub open spec fn move_access_selection(self, delta: int) -> AppView {
        let len = self.config.http_access.len();
        if len == 0 {
            self
        } else {
            AppView {
                access_table_state: Some(AppView::stepped(self.access_table_state, delta, len)),
                ..self
            }
        }
    }

    /// Moves the selection of the `always_direct` table.
    #[verifier::opaque]
    pub open spec fn move_always_selection(self, delta: int) -> AppView {
        let len = self.config.always_direct.len();
        if len == 0 {
            self
        } else {
            AppView {
                always_direct_state: Some(AppView::stepped(self.always_direct_state, delta, len)),
                ..self
            }
        }
    }

    /// Moves the selection of the `never_direct` table.
    #[verifier::opaque]
    pub open spec fn move_never_selection(self, delta: int) -> AppView {
        let len = self.config.never_direct.len();
        if len == 0 {
            self
        } else {
            AppView {
                never_direct_state: Some(AppView::stepped(self.never_direct_state, delta, len)),
                ..self
            }
        }
    }

    /// Moves the selection of the focused table by `delta` rows, held within
    /// the table; on the authentication tab it moves between the fields.
    #[verifier::opaque]
    pub open spec fn move_selection(self, delta: int) -> AppView {
        match self.tab {
            Tab::Auth => AppView {
                auth_field: if delta > 0 {
                    auth_field_next(self.auth_field)
                } else {
                    auth_field_prev(self.auth_field)
                },
                ..self
            },
            Tab::Rules => if self.rules_focus_acls {
                self.move_acl_selection(delta)
            } else {
                self.move_access_selection(delta)
            },
            Tab::Direct => if self.direct_focus_always {
                self.move_always_selection(delta)
            } else {
                self.move_never_selection(delta)
            },
        }
    }

    /// The rule form emptied, with the action "allow".
    pub open spec fn reset_rule_form(self) -> AppView {
        AppView {
            access_action: AccessAction::Allow,
            access_acl_refs: Seq::empty(),
            access_available_cursor: 0,
            access_selected_cursor: 0,
            access_focus_available: true,
            edit_field: InputField::Action,
            ..self
        }
    }

    /// The rule form filled from rule `r`.
    pub open spec fn load_rule_form(self, r: RuleView) -> AppView {
        AppView {
            access_action: r.action,
            access_acl_refs: r.acl_refs,
            access_available_cursor: 0,
            access_selected_cursor: 0,
            access_focus_available: true,
            edit_field: InputField::Action,
            ..self
        }
    }

    /// Opens an empty form for a new entry of the focused table.
    #[verifier::opaque]
    pub open spec fn start_add(self) -> AppView {
        match self.tab {
            Tab::Rules => if self.rules_focus_acls {
                AppView {
                    edit_name: empty_field(),
                    edit_type_index: 0,
                    edit_values: empty_field(),
                    edit_case_insensitive: false,
                    edit_field: InputField::Name,
                    screen: Screen::AclEdit { index: None },
                    ..self
                }
            } else {
                AppView { screen: Screen::AccessEdit { index: None }, ..self.reset_rule_form() }
            },
            Tab::Direct => AppView {
                screen: Screen::DirectEdit { always: self.direct_focus_always, index: None },
                ..self.reset_rule_form()
            },
            Tab::Auth => self,
        }
    }

    /// Opens the form on the selected entry of the focused table, if any.
    #[verifier::opaque]
    pub open spec fn start_edit(self) -> AppView {
        match self.tab {
            Tab::Rules => if self.rules_focus_acls {
                match self.real_acl_index() {
                    Some(idx) => if idx < self.config.acls.len() {
                        let a = self.config.acls[idx as int];
                        AppView {
                            edit_name: filled(a.name),
                            edit_type_index: type_index(a.acl_type) as usize,
                            edit_values: filled(join_lines(a.values)),
                            edit_case_insensitive: a.case_insensitive,
                            edit_field: InputField::Name,
                            screen: Screen::AclEdit { index: Some(idx) },
                            ..self
                        }
                    } else {
                        self
                    },
                    None => self,
                }
            } else {
                match self.access_table_state {
                    Some(idx) => if idx < self.config.http_access.len() {
                        AppView {
                            screen: Screen::AccessEdit { index: Some(idx) },
                            ..self.load_rule_form(self.config.http_access[idx as int])
                        }
                    } else {
                        self
                    },
                    None => self,
                }
            },
            Tab::Direct => {
                let rules = if self.direct_focus_always {
                    self.config.always_direct
                } else {
                    self.config.never_direct
                };
                let sel = if self.direct_focus_always {
                    self.always_direct_state
                } else {
                    self.never_direct_state
                };
                match sel {
                    Some(idx) => if idx < rules.len() {
                        AppView {
                            screen: Screen::DirectEdit {
                                always: self.direct_focus_always,
                                index: Some(idx),
                            },
                            ..self.load_rule_form(rules[idx as int])
                        }
                    } else {
                        self
                    },
                    None => self,
                }
            },
            Tab::Auth => self,
        }
    }

    /// The configuration without ACL `idx`, marked as changed.
    pub open spec fn without_acl(self, idx: int) -> AppView {
        AppView {
            config: ConfigView { acls: self.config.acls.remove(idx), ..self.config },
            dirty: true,
            ..self
        }
    }

    /// The selection of the ACL table kept within the rows that the search
    /// shows.
    #[verifier::opaque]
    pub open spec fn fix_acl_selection(self) -> AppView {
        let fl = self.filtered_acl_indices().len();
        AppView {
            acl_table_state: if fl == 0 {
                None
            } else if self.acl_table_state matches Some(x) && x >= fl {
                Some((fl - 1) as usize)
            } else {
                self.acl_table_state
            },
            ..self
        }
    }

    /// Deletes the ACL selected in the ACL table; the selection is kept
    /// within the rows that the search shows.
    #[verifier::opaque]
    pub open spec fn delete_acl(self) -> AppView {
        match self.real_acl_index() {
            Some(idx) => if idx < self.config.acls.len() {
                self.without_acl(idx as int).fix_acl_selection().with_status("ACL deleted"@)
            } else {
                self
            },
            None => self,
        }
    }

    /// Deletes the rule selected in the access table; the selection is
    /// kept within the list.
    #[verifier::opaque]
    pub open spec fn delete_access_rule(self) -> AppView {
        let c = self.config;
        match self.access_table_state {
            Some(idx) => if idx < c.http_access.len() {
                let rest = c.http_access.remove(idx as int);
                AppView {
                    config: ConfigView { http_access: rest, ..c },
                    dirty: true,
                    access_table_state: fixed_selection(self.access_table_state, rest.len()),
                    ..self
                }.with_status("Access rule deleted"@)
            } else {
                self
            },
            None => self,
        }
    }

    /// Deletes the selected `always_direct` rule (the selection stays).
    #[verifier::opaque]
    pub open spec fn delete_always_rule(self) -> AppView {
        let c = self.config;
        match self.always_direct_state {
            Some(idx) => if idx < c.always_direct.len() {
                AppView {
                    config: ConfigView { always_direct: c.always_direct.remove(idx as int), ..c },
                    dirty: true,
                    ..self
                }.with_status("always_direct rule deleted"@)
            } else {
                self
            },
            None => self,
        }
    }

    /// Deletes the selected `never_direct` rule (the selection stays).
    #[verifier::opaque]
    pub open spec fn delete_never_rule(self) -> AppView {
        let c = self.config;
        match self.never_direct_state {
            Some(idx) => if idx < c.never_direct.len() {
                AppView {
                    config: ConfigView { never_direct: c.never_direct.remove(idx as int), ..c },
                    dirty: true,
                    ..self
                }.with_status("never_direct rule deleted"@)
            } else {
                self
            },
            None => self,
        }
    }

    /// Deletes the selected entry of the focused table, after a snapshot
    /// (taken whether or not anything is deleted).
    #[verifier::opaque]
    pub open spec fn do_delete(self) -> AppView {
        let s = self.snapshot();
        match s.tab {
            Tab::Rules => if s.rules_focus_acls {
                s.delete_acl()
            } else {
                s.delete_access_rule()
            },
            Tab::Direct => if s.direct_focus_always {
                s.delete_always_rule()
            } else {
                s.delete_never_rule()
            },
            Tab::Auth => s,
        }
    }

    /// The selected rule (of the access table, or of the focused direct
    /// table) lies beyond the end of its list, as an undo can leave it.
    pub open spec fn move_target_missing(self) -> bool {
        match self.tab {
            Tab::Rules => !self.rules_focus_acls && (self.access_table_state matches Some(idx)
                && idx >= self.config.http_access.len()),
            Tab::Direct => if self.direct_focus_always {
                self.always_direct_state matches Some(idx) && idx >= self.config.always_direct.len()
            } else {
                self.never_direct_state matches Some(idx) && idx >= self.config.never_direct.len()
            },
            Tab::Auth => false,
        }
    }

    /// Moves the selected rule `delta` places up or down its list, after a
    /// snapshot; the selection follows it.
    #[verifier::opaque]
    pub open spec fn move_rule(self, delta: int) -> AppView {
        let s = self.snapshot();
        let c = s.config;
        match s.tab {
            Tab::Rules => if !s.rules_focus_acls {
                match s.access_table_state {
                    Some(idx) => {
                        let n = clamp(idx + delta, 0, c.http_access.len() - 1);
                        if n != idx {
                            AppView {
                                config: ConfigView { http_access: swapped(c.http_access, idx as int, n), ..c },
                                access_table_state: Some(n as usize),
                                dirty: true,
                                ..s
                            }
                        } else {
                            s
                        }
                    },
                    None => s,
                }
            } else {
                s
            },
            Tab::Direct => if s.direct_focus_always {
                match s.always_direct_state {
                    Some(idx) => {
                        let n = clamp(idx + delta, 0, c.always_direct.len() - 1);
                        if n != idx {
                            AppView {
                                config: ConfigView { always_direct: swapped(c.always_direct, idx as int, n), ..c },
                                always_direct_state: Some(n as usize),
                                dirty: true,
                                ..s
                            }
                        } else {
                            s
                        }
                    },
                    None => s,
                }
            } else {
                match s.never_direct_state {
                    Some(idx) => {
                        let n = clamp(idx + delta, 0, c.never_direct.len() - 1);
                        if n != idx {
                            AppView {
                                config: ConfigView { never_direct: swapped(c.never_direct, idx as int, n), ..c },
                                never_direct_state: Some(n as usize),
                                dirty: true,
                                ..s
                            }
                        } else {
                            s
                        }
                    },
                    None => s,
                }
            },
            Tab::Auth => s,
        }
    }

    /// The ACL that the ACL form describes.
    pub open spec fn edited_acl(self) -> AclView {
        AclView {
            name: trim(self.edit_name.content),
            acl_type: type_at(self.edit_type_index as int),
            case_insensitive: self.edit_case_insensitive,
            values: kept_values(lines(self.edit_values.content)),
        }
    }

    /// The ACL form passes its checks: a name, a value, every value valid.
    pub open spec fn acl_form_ok(self) -> bool {
        let a = self.edited_acl();
        &&& a.name.len() > 0
        &&& a.values.len() > 0
        &&& first_invalid(a.acl_type, a.values) is None
    }

    /// Saving the ACL form would replace an ACL beyond the end of the list.
    pub open spec fn acl_target_missing(self) -> bool {
        &&& self.acl_form_ok()
        &&& self.screen matches Screen::AclEdit { index: Some(idx) }
        &&& idx >= self.config.acls.len()
    }

    /// Back to the list after a saved form, with the changes unsaved.
    pub open spec fn close_form(self) -> AppView {
        AppView { dirty: true, screen: Screen::List, ..self }
    }

    /// Puts ACL `a` in the configuration: in place of the edited one, or at
    /// the end of the list, selected.
    #[verifier::opaque]
    pub open spec fn store_acl(self, a: AclView) -> AppView {
        let c = self.config;
        match self.screen {
            Screen::AclEdit { index: Some(idx) } => AppView {
                config: ConfigView { acls: c.acls.update(idx as int, a), ..c },
                ..self
            }.with_status("ACL updated"@),
            _ => AppView {
                config: ConfigView { acls: c.acls.push(a), ..c },
                acl_table_state: Some(c.acls.len() as usize),
                ..self
            }.with_status("ACL added"@),
        }
    }

    /// Saves the ACL form: refused with a message when the name is blank,
    /// no value is given or a value is invalid for the type; else, after a
    /// snapshot, the ACL replaces the edited one or is added at the end
    /// (and selected), and the list comes back.
    #[verifier::opaque]
    pub open spec fn save_acl_edit(self) -> AppView {
        let a = self.edited_acl();
        if a.name.len() == 0 {
            self.with_status("ACL name cannot be empty"@)
        } else if a.values.len() == 0 {
            self.with_status("ACL must have at least one value"@)
        } else if first_invalid(a.acl_type, a.values) is Some {
            self.with_status("Validation: "@ + first_invalid(a.acl_type, a.values).unwrap())
        } else {
            self.snapshot().store_acl(a).close_form()
        }
    }

    /// The rule that the rule form describes.
    pub open spec fn edited_rule(self) -> RuleView {
        RuleView { action: self.access_action, acl_refs: self.access_acl_refs }
    }

    /// Saving the rule form would replace a rule beyond the end of its list.
    pub open spec fn rule_target_missing(self) -> bool {
        &&& self.access_acl_refs.len() > 0
        &&& match self.screen {
            Screen::AccessEdit { index: Some(idx) } => idx >= self.config.http_access.len(),
            Screen::DirectEdit { always, index: Some(idx) } => if always {
                idx >= self.config.always_direct.len()
            } else {
                idx >= self.config.never_direct.len()
            },
            _ => false,
        }
    }

    /// Puts rule `r` in the configuration: in place of the edited rule, or
    /// at the end of its list, selected.
    #[verifier::opaque]
    pub open spec fn store_rule(self, r: RuleView) -> AppView {
        let c = self.config;
        match self.screen {
            Screen::AccessEdit { index } => match index {
                Some(idx) => AppView {
                    config: ConfigView { http_access: c.http_access.update(idx as int, r), ..c },
                    ..self
                }.with_status("Access rule updated"@),
                None => AppView {
                    config: ConfigView { http_access: c.http_access.push(r), ..c },
                    access_table_state: Some(c.http_access.len() as usize),
                    ..self
                }.with_status("Access rule added"@),
            },
            Screen::DirectEdit { always, index } => if always {
                match index {
                    Some(idx) => AppView {
                        config: ConfigView { always_direct: c.always_direct.update(idx as int, r), ..c },
                        ..self
                    },
                    None => AppView {
                        config: ConfigView { always_direct: c.always_direct.push(r), ..c },
                        always_direct_state: Some(c.always_direct.len() as usize),
                        ..self
                    },
                }.with_status("always_direct rule saved"@)
            } else {
                match index {
                    Some(idx) => AppView {
                        config: ConfigView { never_direct: c.never_direct.update(idx as int, r), ..c },
                        ..self
                    },
                    None => AppView {
                        config: ConfigView { never_direct: c.never_direct.push(r), ..c },
                        never_direct_state: Some(c.never_direct.len() as usize),
                        ..self
                    },
                }.with_status("never_direct rule saved"@)
            },
            _ => self,
        }
    }

    /// Saves the rule form: refused with a message when it names no ACL;
    /// else, after a snapshot, the rule replaces the edited one or is added
    /// at the end of its list, and the list comes back.
    #[verifier::opaque]
    pub open spec fn save_access_edit(self) -> AppView {
        if self.access_acl_refs.len() == 0 {
            self.with_status("Rule must reference at least one ACL"@)
        } else {
            self.snapshot().store_rule(self.edited_rule()).close_form()
        }
    }

    /// Saves the authentication form, after a snapshot: each setting
    /// trimmed, a blank one removed.
    #[verifier::opaque]
    pub open spec fn save_auth(self) -> AppView {
        let s = self.snapshot();
        AppView {
            config: ConfigView {
                auth_param: AuthView {
                    program: opt_setting(self.auth_program.content),
                    children: opt_setting(self.auth_children.content),
                    realm: opt_setting(self.auth_realm.content),
                    credentialsttl: opt_setting(self.auth_ttl.content),
                },
                ..s.config
            },
            dirty: true,
            ..s
        }.with_status("Auth configuration saved"@)
    }

    /// Carries out the selected entry of the menu bar.
    #[verifier::opaque]
    pub open spec fn menu_action(self) -> (AppView, Action) {
        let m = self.menu_index;
        let i = self.menu_item;
        if m == 0 && i == 0 {
            (self, Action::Save)
        } else if m == 0 && i == 1 {
            (self.request_quit(), Action::Nothing)
        } else if m == 1 && i == 0 {
            (self.undo(), Action::Nothing)
        } else if m == 1 && i == 1 {
            (self.redo(), Action::Nothing)
        } else if m == 1 && i == 2 {
            (self.start_add(), Action::Nothing)
        } else if m == 1 && i == 3 {
            (self.start_edit(), Action::Nothing)
        } else if m == 1 && i == 4 && self.has_selection() {
            (AppView { screen: Screen::ConfirmDelete, ..self }, Action::Nothing)
        } else if m == 2 && i == 0 {
            (AppView { tab: Tab::Rules, ..self }, Action::Nothing)
        } else if m == 2 && i == 1 {
            (AppView { tab: Tab::Auth, ..self }, Action::Nothing)
        } else if m == 2 && i == 2 {
            (AppView { tab: Tab::Direct, ..self }, Action::Nothing)
        } else if m == 2 && i == 3 && self.tab == Tab::Rules && self.rules_focus_acls {
            (AppView { acl_filter: Some(empty_field()), ..self }, Action::Nothing)
        } else if m == 3 && i == 0 {
            (AppView { help_visible: true, ..self }, Action::Nothing)
        } else {
            (self, Action::Nothing)
        }
    }

    /// The arrows move through the open menu bar (wrapping); Esc and F9
    /// close it.
    pub open spec fn menu_nav(self, key: Key) -> AppView {
        let count = menu_item_count(self.menu_index as int);
        let closes = key.code == KeyCode::Esc || key.code == KeyCode::F(9);
        let sideways = key.code == KeyCode::Left || key.code == KeyCode::Right;
        AppView {
            menu_active: if closes {
                false
            } else {
                self.menu_active
            },
            menu_index: if key.code == KeyCode::Left {
                if self.menu_index == 0 {
                    (menu_count() - 1) as usize
                } else {
                    (self.menu_index - 1) as usize
                }
            } else if key.code == KeyCode::Right {
                if self.menu_index + 1 < menu_count() {
                    (self.menu_index + 1) as usize
                } else {
                    0
                }
            } else {
                self.menu_index
            },
            menu_item: if sideways {
                0
            } else if key.code == KeyCode::Up {
                if self.menu_item == 0 {
                    (count - 1) as usize
                } else {
                    (self.menu_item - 1) as usize
                }
            } else if key.code == KeyCode::Down {
                if self.menu_item + 1 < count {
                    (self.menu_item + 1) as usize
                } else {
                    0
                }
            } else {
                self.menu_item
            },
            ..self
        }
    }

    /// A key press while the menu bar is open: Enter carries out the entry
    /// and closes the bar; other keys move through it or close it.
    pub open spec fn menu_key(self, key: Key) -> (AppView, Action) {
        if key.code == KeyCode::Enter {
            let (v, a) = self.menu_action();
            (AppView { menu_active: false, ..v }, a)
        } else {
            (self.menu_nav(key), Action::Nothing)
        }
    }

    /// F9 opens or closes the menu bar, on its first entry.
    pub open spec fn toggle_menu(self) -> AppView {
        AppView { menu_active: !self.menu_active, menu_index: 0, menu_item: 0, ..self }
    }

    /// The bindings with Control that work everywhere: quit, save, undo and
    /// redo; `None` for other keys.
    pub open spec fn control_key(self, key: Key) -> Option<(AppView, Action)> {
        if !key.ctrl {
            None
        } else if is_char(key, 'q') {
            Some((self.request_quit(), Action::Nothing))
        } else if is_char(key, 's') {
            Some((self, Action::Save))
        } else if is_char(key, 'z') {
            Some((self.undo(), Action::Nothing))
        } else if is_char(key, 'y') {
            Some((self.redo(), Action::Nothing))
        } else {
            None
        }
    }

    /// The search edited by a key press.
    pub open spec fn edit_search(self, key: Key) -> AppView {
        AppView { acl_filter: Some(self.acl_filter.unwrap().after_key(key)), ..self }
    }

    /// The first row that the search shows selected, or none when it shows
    /// none.
    #[verifier::opaque]
    pub open spec fn select_first_found(self) -> AppView {
        AppView {
            acl_table_state: if self.filtered_acl_indices().len() == 0 {
                None
            } else {
                Some(0)
            },
            ..self
        }
    }

    /// A key press while the search is open: Esc closes it, Enter keeps
    /// it, any other key edits it, and the first row that it shows (if any)
    /// is selected.
    pub open spec fn search_key(self, key: Key) -> AppView {
        if key.code == KeyCode::Esc {
            AppView { acl_filter: None, ..self }
        } else if key.code == KeyCode::Enter {
            self
        } else {
            self.edit_search(key).select_first_found()
        }
    }

    /// The keys of a list that change what is shown: help, the focus, the
    /// tab, quitting and opening the search.
    pub open spec fn is_view_key(self, key: Key) -> bool {
        ||| is_char(key, '?')
        ||| key.code == KeyCode::F(1)
        ||| key.code == KeyCode::Tab
        ||| key.code == KeyCode::BackTab
        ||| key.code == KeyCode::Esc
        ||| is_char(key, 'q')
        ||| is_char(key, '/') && self.tab == Tab::Rules && self.rules_focus_acls
    }

    /// A key press of [`AppView::is_view_key`] on a list: `?` and F1 show
    /// the help, Tab moves the focus between the tables of the tab,
    /// Shift+Tab and Esc change tabs, `q` asks to quit, `/` opens the
    /// search.
    #[verifier::opaque]
    pub open spec fn list_view_key(self, key: Key) -> AppView {
        let quit = is_char(key, 'q');
        AppView {
            help_visible: if is_char(key, '?') || key.code == KeyCode::F(1) {
                true
            } else {
                self.help_visible
            },
            rules_focus_acls: if key.code == KeyCode::Tab && self.tab == Tab::Rules {
                !self.rules_focus_acls
            } else {
                self.rules_focus_acls
            },
            direct_focus_always: if key.code == KeyCode::Tab && self.tab == Tab::Direct {
                !self.direct_focus_always
            } else {
                self.direct_focus_always
            },
            tab: if key.code == KeyCode::BackTab {
                self.tab.prev_spec()
            } else if key.code == KeyCode::Esc {
                self.tab.next_spec()
            } else {
                self.tab
            },
            screen: if quit && self.dirty {
                Screen::ConfirmQuit
            } else {
                self.screen
            },
            should_quit: if quit && !self.dirty {
                true
            } else {
                self.should_quit
            },
            acl_filter: if is_char(key, '/') && self.tab == Tab::Rules && self.rules_focus_acls {
                Some(empty_field())
            } else {
                self.acl_filter
            },
            ..self
        }
    }

    /// The other keys of a list: moving the selection, adding, editing,
    /// deleting and moving entries.
    #[verifier::opaque]
    pub open spec fn list_action_key(self, key: Key) -> AppView {
        if is_char(key, 'j') || key.code == KeyCode::Down {
            self.move_selection(1)
        } else if is_char(key, 'k') || key.code == KeyCode::Up {
            self.move_selection(-1)
        } else if is_char(key, 'a') {
            self.start_add()
        } else if is_char(key, 'e') || key.code == KeyCode::Enter {
            self.start_edit()
        } else if is_char(key, 'd') && self.has_selection() {
            AppView { screen: Screen::ConfirmDelete, ..self }
        } else if is_char(key, 'u') {
            self.move_rule(-1)
        } else if is_char(key, 'J') {
            self.move_rule(1)
        } else {
            self
        }
    }

    /// A key press on a list with no search open.
    pub open spec fn list_command(self, key: Key) -> AppView {
        if self.is_view_key(key) {
            self.list_view_key(key)
        } else {
            self.list_action_key(key)
        }
    }

    /// A key press on a list: with a search open the key goes to the
    /// search, else to the list's bindings.
    pub open spec fn list_key(self, key: Key) -> AppView {
        if self.acl_filter is Some {
            self.search_key(key)
        } else {
            self.list_command(key)
        }
    }

    /// A key press on the focused field of the ACL form: the text fields
    /// edit their text, the type field steps through the types with Left
    /// and Right (wrapping), and space or Enter toggles case-insensitivity.
    pub open spec fn acl_field_key(self, key: Key) -> AppView {
        let f = self.edit_field;
        AppView {
            edit_name: if f == InputField::Name {
                self.edit_name.after_key(key)
            } else {
                self.edit_name
            },
            edit_type_index: if f == InputField::Type && key.code == KeyCode::Left {
                if self.edit_type_index > 0 {
                    (self.edit_type_index - 1) as usize
                } else {
                    22
                }
            } else if f == InputField::Type && key.code == KeyCode::Right {
                if self.edit_type_index + 1 < 23 {
                    (self.edit_type_index + 1) as usize
                } else {
                    0
                }
            } else {
                self.edit_type_index
            },
            edit_values: if f == InputField::Values {
                self.edit_values.after_key(key)
            } else {
                self.edit_values
            },
            edit_case_insensitive: if f == InputField::CaseInsensitive && (is_char(key, ' ')
                || key.code == KeyCode::Enter) {
                !self.edit_case_insensitive
            } else {
                self.edit_case_insensitive
            },
            ..self
        }
    }

    /// A key press in the ACL form: Esc leaves it, Tab and Shift+Tab move
    /// between the fields, F2 saves it.
    pub open spec fn acl_edit_key(self, key: Key) -> AppView {
        if key.code == KeyCode::Esc {
            AppView { screen: Screen::List, ..self }
        } else if key.code == KeyCode::Tab {
            AppView { edit_field: acl_field_next(self.edit_field), ..self }
        } else if key.code == KeyCode::BackTab {
            AppView { edit_field: acl_field_prev(self.edit_field), ..self }
        } else if key.code == KeyCode::F(2) {
            self.save_acl_edit()
        } else {
            self.acl_field_key(key)
        }
    }

    /// Enter or space in the ACL picker: adds the highlighted name (once) on
    /// the left, removes the highlighted reference on the right.
    #[verifier::opaque]
    pub open spec fn picker_choose(self) -> AppView {
        let refs = self.access_acl_refs;
        if self.access_focus_available {
            let names = self.available_acl_names();
            let cur = self.access_available_cursor;
            if cur < names.len() {
                let name = names[cur as int];
                if exists|k: int| 0 <= k < refs.len() && refs[k].name == name {
                    self
                } else {
                    AppView {
                        access_acl_refs: refs.push(AclRefView { negated: false, name }),
                        ..self
                    }
                }
            } else {
                self
            }
        } else if refs.len() > 0 {
            let rest = refs.remove(self.access_selected_cursor as int);
            AppView {
                access_acl_refs: rest,
                access_selected_cursor: if self.access_selected_cursor >= rest.len() && rest.len()
                    > 0 {
                    (rest.len() - 1) as usize
                } else {
                    self.access_selected_cursor
                },
                ..self
            }
        } else {
            self
        }
    }

    /// j/k and the arrows move the cursor of the focused side of the ACL
    /// picker, held within its list.
    pub open spec fn picker_cursor(self, key: Key) -> AppView {
        let down = key.code == KeyCode::Down || is_char(key, 'j');
        let up = key.code == KeyCode::Up || is_char(key, 'k');
        let left = self.access_focus_available;
        let max_left = self.available_acl_names().len();
        let max_right = self.access_acl_refs.len();
        AppView {
            access_available_cursor: if down && left && max_left > 0 {
                if self.access_available_cursor >= max_left - 1 {
                    (max_left - 1) as usize
                } else {
                    (self.access_available_cursor + 1) as usize
                }
            } else if up && left && self.access_available_cursor > 0 {
                (self.access_available_cursor - 1) as usize
            } else {
                self.access_available_cursor
            },
            access_selected_cursor: if down && !left && max_right > 0 {
                if self.access_selected_cursor >= max_right - 1 {
                    (max_right - 1) as usize
                } else {
                    (self.access_selected_cursor + 1) as usize
                }
            } else if up && !left && self.access_selected_cursor > 0 {
                (self.access_selected_cursor - 1) as usize
            } else {
                self.access_selected_cursor
            },
            ..self
        }
    }

    /// Left and Right switch the focused side of the ACL picker; `!` on the
    /// right side negates the highlighted reference.
    pub open spec fn picker_flip(self, key: Key) -> AppView {
        let left = self.access_focus_available;
        let i = self.access_selected_cursor as int;
        AppView {
            access_focus_available: if key.code == KeyCode::Left || key.code == KeyCode::Right {
                !left
            } else {
                left
            },
            access_acl_refs: if is_char(key, '!') && !left && i < self.access_acl_refs.len() {
                self.access_acl_refs.update(
                    i,
                    AclRefView { negated: !self.access_acl_refs[i].negated, ..self.access_acl_refs[i] },
                )
            } else {
                self.access_acl_refs
            },
            ..self
        }
    }

    /// The keys of the ACL picker that move its cursors or its focus, or
    /// negate the highlighted reference.
    pub open spec fn picker_move(self, key: Key) -> AppView {
        self.picker_cursor(key).picker_flip(key)
    }

    /// A key press in the ACL picker of the rule form: j/k and the arrows
    /// move the cursor of the focused side, Left and Right switch sides,
    /// space or Enter adds or removes, `!` negates a chosen reference.
    pub open spec fn picker_key(self, key: Key) -> AppView {
        if is_char(key, ' ') || key.code == KeyCode::Enter {
            self.picker_choose()
        } else {
            self.picker_move(key)
        }
    }

    /// A key press in the rule form (of an access or a direct rule): Esc
    /// leaves it, Tab and Shift+Tab switch between the action and the
    /// picker, F2 saves it; on the action, Left, Right or space toggles it.
    pub open spec fn access_edit_key(self, key: Key) -> AppView {
        if key.code == KeyCode::Esc {
            AppView { screen: Screen::List, ..self }
        } else if key.code == KeyCode::Tab || key.code == KeyCode::BackTab {
            AppView {
                edit_field: if self.edit_field == InputField::Action {
                    InputField::AclPicker
                } else {
                    InputField::Action
                },
                ..self
            }
        } else if key.code == KeyCode::F(2) {
            self.save_access_edit()
        } else if self.edit_field == InputField::Action {
            if key.code == KeyCode::Left || key.code == KeyCode::Right || is_char(key, ' ') {
                AppView { access_action: toggled(self.access_action), ..self }
            } else {
                self
            }
        } else if self.edit_field == InputField::AclPicker {
            self.picker_key(key)
        } else {
            self
        }
    }

    /// A key press on the screen shown, with no menu, help or binding with
    /// Control in the way.
    pub open spec fn screen_key(self, key: Key) -> AppView {
        let yes = is_char(key, 'y') || is_char(key, 'Y');
        match self.screen {
            Screen::ConfirmQuit => if yes {
                AppView { should_quit: true, ..self }
            } else {
                AppView { screen: Screen::List, ..self }
            },
            Screen::ConfirmDelete => if yes {
                AppView { screen: Screen::List, ..self.do_delete() }
            } else {
                AppView { screen: Screen::List, ..self }
            },
            Screen::List => self.list_key(key),
            Screen::AclEdit { .. } => self.acl_edit_key(key),
            _ => self.access_edit_key(key),
        }
    }

    /// A key press on every screen but the authentication tab's list: F9
    /// opens or closes the menu bar, which then takes the keys; the
    /// bindings with Control come next; the help, while shown, takes the
    /// keys (Esc, `?` or F1 close it); else the screen shown takes them.
    pub open spec fn main_key(self, key: Key) -> (AppView, Action) {
        if key.code == KeyCode::F(9) {
            (self.toggle_menu(), Action::Nothing)
        } else if self.menu_active {
            self.menu_key(key)
        } else if self.control_key(key) is Some {
            self.control_key(key).unwrap()
        } else if self.help_visible {
            if key.code == KeyCode::Esc || is_char(key, '?') || key.code == KeyCode::F(1) {
                (AppView { help_visible: false, ..self }, Action::Nothing)
            } else {
                (self, Action::Nothing)
            }
        } else {
            (self.screen_key(key), Action::Nothing)
        }
    }

    /// A key press on the focused field of the authentication form.
    pub open spec fn auth_field_key(self, key: Key) -> AppView {
        let f = self.auth_field;
        AppView {
            auth_program: if f == InputField::AuthProgram {
                self.auth_program.after_key(key)
            } else {
                self.auth_program
            },
            auth_children: if f == InputField::AuthChildren {
                self.auth_children.after_key(key)
            } else {
                self.auth_children
            },
            auth_realm: if f == InputField::AuthRealm {
                self.auth_realm.after_key(key)
            } else {
                self.auth_realm
            },
            auth_ttl: if f == InputField::AuthTtl {
                self.auth_ttl.after_key(key)
            } else {
                self.auth_ttl
            },
            ..self
        }
    }

    /// A key press on the authentication form with no menu open and no
    /// binding with Control: `?` and F1 show or hide the help, Esc and
    /// Shift+Tab change tabs, Tab moves between the fields, F2 saves, other
    /// keys edit the focused field.
    pub open spec fn auth_command(self, key: Key) -> AppView {
        if is_char(key, '?') || key.code == KeyCode::F(1) {
            AppView { help_visible: !self.help_visible, ..self }
        } else if key.code == KeyCode::Esc {
            AppView { tab: self.tab.next_spec(), ..self }
        } else if key.code == KeyCode::BackTab {
            AppView { tab: self.tab.prev_spec(), ..self }
        } else if key.code == KeyCode::Tab {
            AppView { auth_field: auth_field_next(self.auth_field), ..self }
        } else if key.code == KeyCode::F(2) {
            self.save_auth()
        } else {
            self.auth_field_key(key)
        }
    }

    /// A key press on the authentication tab's form.
    pub open spec fn auth_key(self, key: Key) -> (AppView, Action) {
        if key.code == KeyCode::F(9) {
            (self.toggle_menu(), Action::Nothing)
        } else if self.menu_active {
            self.menu_key(key)
        } else if self.control_key(key) is Some {
            self.control_key(key).unwrap()
        } else {
            (self.auth_command(key), Action::Nothing)
        }
    }

    /// Whether a key press goes to the authentication form: on the
    /// authentication tab's list.
    pub open spec fn on_auth_form(self) -> bool {
        self.tab == Tab::Auth && self.screen == Screen::List
    }

    /// What a key press does: the authentication form takes it on its tab's
    /// list, the rest of the editor everywhere else.
    pub open spec fn step(self, key: Key) -> (AppView, Action) {
        if self.on_auth_form() {
            self.auth_key(key)
        } else {
            self.main_key(key)
        }
    }

    /// Outside the authentication form, the key would act on an entry
    /// beyond the end of its list: moving a rule whose selection an undo
    /// left behind, or saving a form on an entry that an undo removed.
    pub open spec fn main_key_targets_missing(self, key: Key) -> bool {
        &&& key.code != KeyCode::F(9)
        &&& !self.menu_active
        &&& self.control_key(key) is None
        &&& !self.help_visible
        &&& match self.screen {
            Screen::List => self.acl_filter is None && (is_char(key, 'u') || is_char(key, 'J'))
                && self.move_target_missing(),
            Screen::AclEdit { .. } => key.code == KeyCode::F(2) && self.acl_target_missing(),
            Screen::AccessEdit { .. } => key.code == KeyCode::F(2) && self.rule_target_missing(),
            Screen::DirectEdit { .. } => key.code == KeyCode::F(2) && self.rule_target_missing(),
            _ => false,
        }
    }

    /// The key would act on an entry beyond the end of its list (see
    /// [`AppView::main_key_targets_missing`]); no key press on the
    /// authentication form does.
    pub open spec fn targets_missing_entry(self, key: Key) -> bool {
        !self.on_auth_form() && self.main_key_targets_missing(key)
    }
}


/// How writing the file went, as a value.
pub enum SaveView {
    Saved,
    BackupFailed(Seq<char>),
    WriteFailed(Seq<char>),
}

/// The value of a [`SaveOutcome`].
pub open spec fn save_view(o: SaveOutcome) -> SaveView {
    match o {
        SaveOutcome::Saved => SaveView::Saved,
        SaveOutcome::BackupFailed { error } => SaveView::BackupFailed(error@),
        SaveOutcome::WriteFailed { error } => SaveView::WriteFailed(error@),
    }
}

impl AppView {
    /// The report of a save: "Saved to" the file, and nothing left unsaved;
    /// or the error, with the changes still unsaved.
    pub open spec fn after_save(self, o: SaveView) -> AppView {
        match o {
            SaveView::Saved => AppView { dirty: false, ..self }.with_status(
                "Saved to "@ + self.file_path,
            ),
            SaveView::BackupFailed(e) => self.with_status("Backup failed: "@ + e),
            SaveView::WriteFailed(e) => self.with_status("Error saving: "@ + e),
        }
    }
}

/// A field filled by `filled` has its cursor on a boundary.
pub proof fn lemma_filled_wf(s: Seq<char>)
    ensures
        filled(s).wf(),
        empty_field().wf(),
{
    lemma_offset_full(s);
    lemma_boundary_of_offset(s, s.len() as int);
    lemma_boundary_of_offset(Seq::<char>::empty(), 0);
}



// ---------------------------------------------------------------- the invariant

/// Reloading the authentication form keeps the invariant.
pub proof fn lemma_auth_fields_wf(v: AppView)
    requires
        v.wf(),
    ensures
        v.with_auth_fields().wf(),
{
    lemma_filled_wf(text_or_empty(v.config.auth_param.program));
    lemma_filled_wf(text_or_empty(v.config.auth_param.children));
    lemma_filled_wf(text_or_empty(v.config.auth_param.realm));
    lemma_filled_wf(text_or_empty(v.config.auth_param.credentialsttl));
}

/// A status message keeps the invariant.
pub proof fn lemma_status_wf(v: AppView, msg: Seq<char>)
    requires
        v.wf(),
    ensures
        v.with_status(msg).wf(),
        (AppView { dirty: false, ..v }).with_status(msg).wf(),
        (AppView { status_message: None, ..v }).wf(),
{
}

/// The status line, the histories, quitting, the menu bar and leaving a
/// form keep the invariant.
pub proof fn lemma_basic_ops_wf(v: AppView, msg: Seq<char>)
    requires
        v.wf(),
    ensures
        v.with_status(msg).wf(),
        v.snapshot().wf(),
        v.undo().wf(),
        v.redo().wf(),
        v.request_quit().wf(),
        v.toggle_menu().wf(),
        v.close_form().wf(),
{
    if v.undo_stack.len() > 0 {
        let u = AppView {
            redo_stack: v.redo_stack.push(v.config),
            config: v.undo_stack.last(),
            undo_stack: v.undo_stack.drop_last(),
            dirty: true,
            ..v
        };
        lemma_auth_fields_wf(u);
    }
    if v.redo_stack.len() > 0 {
        let r = AppView {
            undo_stack: v.undo_stack.push(v.config),
            config: v.redo_stack.last(),
            redo_stack: v.redo_stack.drop_last(),
            dirty: true,
            ..v
        };
        lemma_auth_fields_wf(r);
    }
}

/// Moving through the menu bar keeps it on an entry.
pub proof fn lemma_menu_nav_wf(v: AppView, key: Key)
    requires
        v.wf(),
    ensures
        v.menu_nav(key).wf(),
{
}

/// Opening a form keeps the invariant.
pub proof fn lemma_forms_wf(v: AppView)
    requires
        v.wf(),
    ensures
        v.start_add().wf(),
        v.start_edit().wf(),
{
    reveal(AppView::start_add);
    reveal(AppView::start_edit);
    lemma_filled_wf(Seq::empty());
    match v.real_acl_index() {
        Some(idx) => if idx < v.config.acls.len() {
            let a = v.config.acls[idx as int];
            lemma_filled_wf(a.name);
            lemma_filled_wf(join_lines(a.values));
            lemma_type_index(a.acl_type, 0);
        },
        None => {},
    }
}

/// Moving a selection keeps the invariant.
pub proof fn lemma_move_selection_wf(v: AppView, delta: int)
    requires
        v.wf(),
    ensures
        v.move_selection(delta).wf(),
{
    reveal(AppView::move_selection);
    reveal(AppView::move_acl_selection);
    reveal(AppView::move_access_selection);
    reveal(AppView::move_always_selection);
    reveal(AppView::move_never_selection);
    reveal(AppView::sync_access_to_acl);
}

/// Deleting and moving entries keep the invariant.
pub proof fn lemma_list_changes_wf(v: AppView, delta: int)
    requires
        v.wf(),
    ensures
        v.do_delete().wf(),
        v.move_rule(delta).wf(),
{
    reveal(AppView::do_delete);
    reveal(AppView::delete_acl);
    reveal(AppView::fix_acl_selection);
    reveal(AppView::delete_access_rule);
    reveal(AppView::delete_always_rule);
    reveal(AppView::delete_never_rule);
    reveal(AppView::move_rule);
    let s = v.snapshot();
    lemma_basic_ops_wf(v, Seq::empty());
    lemma_basic_ops_wf(s, "ACL deleted"@);
    match s.real_acl_index() {
        Some(idx) => if idx < s.config.acls.len() {
            lemma_basic_ops_wf(s.without_acl(idx as int).fix_acl_selection(), "ACL deleted"@);
        },
        None => {},
    }
    match s.access_table_state {
        Some(idx) => if idx < s.config.http_access.len() {
            let rest = s.config.http_access.remove(idx as int);
            lemma_basic_ops_wf(
                AppView {
                    config: ConfigView { http_access: rest, ..s.config },
                    dirty: true,
                    access_table_state: fixed_selection(s.access_table_state, rest.len()),
                    ..s
                },
                "Access rule deleted"@,
            );
        },
        None => {},
    }
    match s.always_direct_state {
        Some(idx) => if idx < s.config.always_direct.len() {
            lemma_basic_ops_wf(
                AppView {
                    config: ConfigView {
                        always_direct: s.config.always_direct.remove(idx as int),
                        ..s.config
                    },
                    dirty: true,
                    ..s
                },
                "always_direct rule deleted"@,
            );
        },
        None => {},
    }
    match s.never_direct_state {
        Some(idx) => if idx < s.config.never_direct.len() {
            lemma_basic_ops_wf(
                AppView {
                    config: ConfigView {
                        never_direct: s.config.never_direct.remove(idx as int),
                        ..s.config
                    },
                    dirty: true,
                    ..s
                },
                "never_direct rule deleted"@,
            );
        },
        None => {},
    }
}

/// Saving a form keeps the invariant.
pub proof fn lemma_saves_wf(v: AppView)
    requires
        v.wf(),
    ensures
        v.save_acl_edit().wf(),
        v.save_access_edit().wf(),
        v.save_auth().wf(),
{
    reveal(AppView::save_acl_edit);
    reveal(AppView::save_access_edit);
    reveal(AppView::save_auth);
    reveal(AppView::store_acl);
    reveal(AppView::store_rule);
    let s = v.snapshot();
    lemma_basic_ops_wf(v, Seq::empty());
    lemma_basic_ops_wf(v, "ACL name cannot be empty"@);
    lemma_basic_ops_wf(v, "ACL must have at least one value"@);
    let a = v.edited_acl();
    if first_invalid(a.acl_type, a.values) is Some {
        lemma_basic_ops_wf(v, "Validation: "@ + first_invalid(a.acl_type, a.values).unwrap());
    }
    lemma_basic_ops_wf(v, "Rule must reference at least one ACL"@);
    let c = s.config;
    let r = v.edited_rule();
    lemma_basic_ops_wf(
        AppView { config: ConfigView { acls: c.acls.push(a), ..c }, acl_table_state: Some(c.acls.len() as usize), ..s },
        "ACL added"@,
    );
    match s.screen {
        Screen::AclEdit { index: Some(idx) } => {
            lemma_basic_ops_wf(
                AppView { config: ConfigView { acls: c.acls.update(idx as int, a), ..c }, ..s },
                "ACL updated"@,
            );
        },
        Screen::AccessEdit { index } => match index {
            Some(idx) => lemma_basic_ops_wf(
                AppView { config: ConfigView { http_access: c.http_access.update(idx as int, r), ..c }, ..s },
                "Access rule updated"@,
            ),
            None => lemma_basic_ops_wf(
                AppView {
                    config: ConfigView { http_access: c.http_access.push(r), ..c },
                    access_table_state: Some(c.http_access.len() as usize),
                    ..s
                },
                "Access rule added"@,
            ),
        },
        Screen::DirectEdit { always, index } => if always {
            match index {
                Some(idx) => lemma_basic_ops_wf(
                    AppView { config: ConfigView { always_direct: c.always_direct.update(idx as int, r), ..c }, ..s },
                    "always_direct rule saved"@,
                ),
                None => lemma_basic_ops_wf(
                    AppView {
                        config: ConfigView { always_direct: c.always_direct.push(r), ..c },
                        always_direct_state: Some(c.always_direct.len() as usize),
                        ..s
                    },
                    "always_direct rule saved"@,
                ),
            }
        } else {
            match index {
                Some(idx) => lemma_basic_ops_wf(
                    AppView { config: ConfigView { never_direct: c.never_direct.update(idx as int, r), ..c }, ..s },
                    "never_direct rule saved"@,
                ),
                None => lemma_basic_ops_wf(
                    AppView {
                        config: ConfigView { never_direct: c.never_direct.push(r), ..c },
                        never_direct_state: Some(c.never_direct.len() as usize),
                        ..s
                    },
                    "never_direct rule saved"@,
                ),
            }
        },
        _ => {},
    }
    let saved = s.store_acl(a);
    lemma_basic_ops_wf(saved, Seq::empty());
    let saved_rule = s.store_rule(r);
    lemma_basic_ops_wf(saved_rule, Seq::empty());
    lemma_basic_ops_wf(
        AppView {
            config: ConfigView {
                auth_param: AuthView {
                    program: opt_setting(v.auth_program.content),
                    children: opt_setting(v.auth_children.content),
                    realm: opt_setting(v.auth_realm.content),
                    credentialsttl: opt_setting(v.auth_ttl.content),
                },
                ..s.config
            },
            dirty: true,
            ..s
        },
        "Auth configuration saved"@,
    );
}

/// The entries of the menu bar keep the invariant.
pub proof fn lemma_menu_wf(v: AppView, key: Key)
    requires
        v.wf(),
    ensures
        v.menu_action().0.wf(),
        v.menu_key(key).0.wf(),
{
    reveal(AppView::menu_action);
    lemma_basic_ops_wf(v, Seq::empty());
    lemma_forms_wf(v);
    lemma_filled_wf(Seq::empty());
    lemma_menu_nav_wf(v, key);
}

/// Every key press on a list keeps the invariant.
pub proof fn lemma_list_key_wf(v: AppView, key: Key)
    requires
        v.wf(),
    ensures
        v.list_key(key).wf(),
{
    reveal(AppView::list_view_key);
    reveal(AppView::list_action_key);
    reveal(AppView::select_first_found);
    lemma_filled_wf(Seq::empty());
    lemma_basic_ops_wf(v, Seq::empty());
    lemma_move_selection_wf(v, 1);
    lemma_move_selection_wf(v, -1);
    lemma_forms_wf(v);
    lemma_list_changes_wf(v, 1);
    lemma_list_changes_wf(v, -1);
    if v.acl_filter is Some {
        law_key_keeps_cursor_on_boundary(v.acl_filter.unwrap(), key);
    }
}

/// Every key press in a form keeps the invariant.
pub proof fn lemma_form_keys_wf(v: AppView, key: Key)
    requires
        v.wf(),
    ensures
        v.acl_edit_key(key).wf(),
        v.access_edit_key(key).wf(),
        v.auth_command(key).wf(),
{
    reveal(AppView::picker_choose);
    law_key_keeps_cursor_on_boundary(v.edit_name, key);
    law_key_keeps_cursor_on_boundary(v.edit_values, key);
    law_key_keeps_cursor_on_boundary(v.auth_program, key);
    law_key_keeps_cursor_on_boundary(v.auth_children, key);
    law_key_keeps_cursor_on_boundary(v.auth_realm, key);
    law_key_keeps_cursor_on_boundary(v.auth_ttl, key);
    lemma_saves_wf(v);
}

/// Every key press outside the authentication form keeps the invariant.
pub proof fn lemma_main_key_wf(v: AppView, key: Key)
    requires
        v.wf(),
    ensures
        v.main_key(key).0.wf(),
{
    lemma_basic_ops_wf(v, Seq::empty());
    lemma_menu_wf(v, key);
    lemma_list_key_wf(v, key);
    lemma_form_keys_wf(v, key);
    lemma_list_changes_wf(v, 0);
    lemma_basic_ops_wf(v.do_delete(), Seq::empty());
}

/// Every key press on the authentication form keeps the invariant.
pub proof fn lemma_auth_key_wf(v: AppView, key: Key)
    requires
        v.wf(),
    ensures
        v.auth_key(key).0.wf(),
{
    lemma_basic_ops_wf(v, Seq::empty());
    lemma_menu_wf(v, key);
    lemma_form_keys_wf(v, key);
}

/// Every key press keeps the editor's invariant: the form indices stay in
/// range, the cursors of the text fields stay on character boundaries, and
/// the undo and redo histories together never hold more than
/// [`UNDO_LIMIT`] configurations.
pub proof fn law_step_keeps_wf(v: AppView, key: Key)
    requires
        v.wf(),
    ensures
        v.step(key).0.wf(),
{
    lemma_main_key_wf(v, key);
    lemma_auth_key_wf(v, key);
}


/// A snapshot keeps the current configuration as the last entry of the
/// undo history.
pub proof fn lemma_snapshot_last(v: AppView)
    ensures
        v.snapshot().undo_stack.len() > 0,
        v.snapshot().undo_stack.last() == v.config,
{
}

/// Every change to the configuration can be undone: after deleting,
/// moving or saving an entry (or saving the authentication settings), one
/// undo brings back the configuration from before, and a redo then brings
/// the change back.
pub proof fn law_change_then_undo(v: AppView, delta: int)
    ensures
        v.do_delete().undo().config == v.config,
        v.do_delete().undo().redo().config == v.do_delete().config,
        v.move_rule(delta).undo().config == v.config,
        v.move_rule(delta).undo().redo().config == v.move_rule(delta).config,
        v.save_auth().undo().config == v.config,
        v.save_auth().undo().redo().config == v.save_auth().config,
        v.acl_form_ok() ==> v.save_acl_edit().undo().config == v.config,
        v.access_acl_refs.len() > 0 ==> v.save_access_edit().undo().config == v.config,
{
    reveal(AppView::do_delete);
    reveal(AppView::delete_acl);
    reveal(AppView::fix_acl_selection);
    reveal(AppView::delete_access_rule);
    reveal(AppView::delete_always_rule);
    reveal(AppView::delete_never_rule);
    reveal(AppView::move_rule);
    reveal(AppView::save_auth);
    reveal(AppView::save_acl_edit);
    reveal(AppView::save_access_edit);
    reveal(AppView::store_acl);
    reveal(AppView::store_rule);
    lemma_snapshot_last(v);
}

/// Control+Z undoes and Control+Y redoes on every screen, whenever the
/// menu bar is closed.
pub proof fn law_control_keys_undo_redo(v: AppView)
    requires
        !v.menu_active,
    ensures
        v.step(Key { code: KeyCode::Char('z'), ctrl: true }) == (v.undo(), Action::Nothing),
        v.step(Key { code: KeyCode::Char('y'), ctrl: true }) == (v.redo(), Action::Nothing),
        v.step(Key { code: KeyCode::Char('s'), ctrl: true }) == (v, Action::Save),
{
}

/// No value is refused exactly when every value passes its check.
proof fn lemma_first_invalid_none(t: AclType, vs: Seq<Seq<char>>)
    ensures
        first_invalid(t, vs) is None <==> forall|k: int|
            0 <= k < vs.len() ==> #[trigger] value_check(t, vs[k]) is Ok,
    decreases vs.len(),
{
    if vs.len() > 0 {
        lemma_first_invalid_none(t, vs.drop_first());
        if first_invalid(t, vs) is None {
            assert forall|k: int| 0 <= k < vs.len() implies #[trigger] value_check(t, vs[k]) is Ok by {
                if k > 0 {
                    assert(vs[k] == vs.drop_first()[k - 1]);
                }
            }
        }
        if forall|k: int| 0 <= k < vs.len() ==> #[trigger] value_check(t, vs[k]) is Ok {
            assert(value_check(t, vs[0]) is Ok);
            assert forall|k: int| 0 <= k < vs.drop_first().len() implies #[trigger] value_check(
                t,
                vs.drop_first()[k],
            ) is Ok by {
                assert(vs.drop_first()[k] == vs[k + 1]);
            }
        }
    }
}

/// The message given is that of the first refused value.
proof fn lemma_first_invalid_at(t: AclType, vs: Seq<Seq<char>>, k: int)
    requires
        0 <= k < vs.len(),
        forall|j: int| 0 <= j < k ==> #[trigger] value_check(t, vs[j]) is Ok,
        value_check(t, vs[k]) is Err,
    ensures
        first_invalid(t, vs) == Some(value_check(t, vs[k])->Err_0),
    decreases k,
{
    if k > 0 {
        assert(value_check(t, vs[0]) is Ok);
        assert forall|j: int| 0 <= j < k - 1 implies #[trigger] value_check(
            t,
            vs.drop_first()[j],
        ) is Ok by {
            assert(vs.drop_first()[j] == vs[j + 1]);
        }
        assert(vs.drop_first()[k - 1] == vs[k]);
        lemma_first_invalid_at(t, vs.drop_first(), k - 1);
    }
}

/// Saving the ACL form stores an ACL only when each of its values passes
/// the check of its type; when some value is refused, at any position,
/// nothing is stored, the form stays open, and the status line gives the
/// message of the first refused value after "Validation: ".
pub proof fn law_acl_save_validates(v: AppView)
    ensures
        ({
            let a = v.edited_acl();
            let w = v.save_acl_edit();
            &&& w.config != v.config ==> a.name.len() > 0 && a.values.len() > 0 && forall|k: int|
                0 <= k < a.values.len() ==> #[trigger] value_check(a.acl_type, a.values[k]) is Ok
            &&& forall|k: int|
                0 <= k < a.values.len() && a.name.len() > 0 && (forall|j: int|
                    0 <= j < k ==> #[trigger] value_check(a.acl_type, a.values[j]) is Ok)
                    ==> (#[trigger] value_check(a.acl_type, a.values[k]) matches Err(m) ==> {
                    &&& w.config == v.config
                    &&& w.screen == v.screen
                    &&& w.status_message == Some("Validation: "@ + m)
                })
        }),
{
    reveal(AppView::save_acl_edit);
    let a = v.edited_acl();
    lemma_first_invalid_none(a.acl_type, a.values);
    assert forall|k: int|
        0 <= k < a.values.len() && a.name.len() > 0 && (forall|j: int|
            0 <= j < k ==> #[trigger] value_check(a.acl_type, a.values[j]) is Ok)
            implies (#[trigger] value_check(a.acl_type, a.values[k]) matches Err(m) ==> {
            &&& v.save_acl_edit().config == v.config
            &&& v.save_acl_edit().screen == v.screen
            &&& v.save_acl_edit().status_message == Some("Validation: "@ + m)
        }) by {
        if value_check(a.acl_type, a.values[k]) is Err {
            lemma_first_invalid_at(a.acl_type, a.values, k);
        }
    }
}

/// The indices that `matching` keeps: in increasing order, below `n`, and
/// each index below `n` kept exactly when its ACL matches.
proof fn lemma_matching(acls: Seq<AclView>, q: Seq<char>, n: int)
    requires
        0 <= n <= acls.len(),
        acls.len() <= usize::MAX,
    ensures
        forall|j: int| 0 <= j < matching(acls, q, n).len() ==> #[trigger] matching(acls, q, n)[j] < n,
        forall|j1: int, j2: int|
            #![trigger matching(acls, q, n)[j1], matching(acls, q, n)[j2]]
            0 <= j1 < j2 < matching(acls, q, n).len() ==> matching(acls, q, n)[j1] < matching(
                acls,
                q,
                n,
            )[j2],
        forall|i: int|
            0 <= i < n ==> (matching(acls, q, n).contains(i as usize) <==> acl_matches(
                #[trigger] acls[i],
                q,
            )),
    decreases n,
{
    if n > 0 {
        lemma_matching(acls, q, n - 1);
        let m0 = matching(acls, q, n - 1);
        let m = matching(acls, q, n);
        assert forall|i: int| 0 <= i < n implies (m.contains(i as usize) <==> acl_matches(
            #[trigger] acls[i],
            q,
        )) by {
            if m.contains(i as usize) {
                let j = choose|j: int| 0 <= j < m.len() && m[j] == i as usize;
                if i < n - 1 {
                    assert(j < m0.len());
                    assert(m0.contains(i as usize));
                }
            }
            if acl_matches(acls[i], q) {
                if i < n - 1 {
                    let j = choose|j: int| 0 <= j < m0.len() && m0[j] == i as usize;
                    assert(m[j] == i as usize);
                } else {
                    assert(m[m.len() - 1] == i as usize);
                }
            }
        }
    }
}

/// The search shows, in the order of the list, exactly the ACLs whose
/// name or type keyword, lowercased, contains the lowercased query at any
/// position; without a query, or with an empty one, it shows every ACL.
pub proof fn law_search_shows_substring_matches(v: AppView)
    requires
        v.config.acls.len() <= usize::MAX,
    ensures
        ({
            let acls = v.config.acls;
            let r = v.filtered_acl_indices();
            &&& forall|j: int| 0 <= j < r.len() ==> #[trigger] r[j] < acls.len()
            &&& forall|j1: int, j2: int|
                #![trigger r[j1], r[j2]]
                0 <= j1 < j2 < r.len() ==> r[j1] < r[j2]
            &&& match v.acl_filter {
                Some(f) if lowercase(f.content).len() > 0 => forall|i: int|
                    0 <= i < acls.len() ==> (r.contains(i as usize) <==> (occurs_in(
                        lowercase(f.content),
                        lowercase((#[trigger] acls[i]).name),
                    ) || occurs_in(lowercase(f.content), lowercase(acls[i].acl_type.text())))),
                _ => r.len() == acls.len() && forall|j: int| 0 <= j < r.len() ==> #[trigger] r[j] == j,
            }
        }),
{
    reveal(AppView::filtered_acl_indices);
    let acls = v.config.acls;
    match v.acl_filter {
        Some(f) if lowercase(f.content).len() > 0 => {
            let q = lowercase(f.content);
            lemma_matching(acls, q, acls.len() as int);
            assert forall|i: int| 0 <= i < acls.len() implies (acl_matches(#[trigger] acls[i], q)
                <==> (occurs_in(q, lowercase(acls[i].name)) || occurs_in(
                q,
                lowercase(acls[i].acl_type.text()),
            ))) by {
                lemma_find_occurs(lowercase(acls[i].name), q);
                lemma_find_occurs(lowercase(acls[i].acl_type.text()), q);
            }
        },
        _ => {},
    }
}

} // verus!
