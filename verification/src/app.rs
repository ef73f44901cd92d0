//! The editor's state and what each key press does to it. Drawing, the
//! clock, the file system and the terminal stay with the program that runs
//! the editor: it hands key presses in and carries out the actions that come
//! back.
use vstd::prelude::*;

use crate::input::TextInput;
use crate::key::{Key, KeyCode};
use crate::model::{
    AccessAction, AccessRule, Acl, AclRef, AclType, DirectRule, SquidConfig, access_view,
    acls_view, direct_view, opt_view, refs_view,
};
use crate::state::{
    is_char, lemma_auth_key_wf, lemma_main_key_wf, lemma_saves_wf, lemma_status_wf,
    AppView, SaveView, acl_matches, acl_names, add_missing, all_indices, auth_field_next, auth_field_prev,
    clamp, configs_view, fixed_selection, filled, first_rule_naming, initial, rule_names, join_lines, lemma_filled_wf,
    matching, opt_input_view, save_view, text_or_empty, type_index, swapped, type_at, kept_values,
    first_invalid, opt_setting,
};
use crate::model::{AclRefView, AclView, AuthView, ConfigView, RuleView, copy_refs, predefined_acl_names, predefined_acls};
use crate::text::{
    chars_of, find_vec, lines, seqs_of, split_lines, string_of, strings_of, to_lowercase, trim_vec,
};
use crate::validate::validate_acl_value;

verus! {

/// The editor's tabs.
#[derive(Clone, Copy, Debug, PartialEq, Eq, Structural)]
pub enum Tab {
    Rules,
    Auth,
    Direct,
}

impl Tab {
    /// The tab after this one, the last wrapping to the first.
    pub open spec fn next_spec(self) -> Tab {
        match self {
            Tab::Rules => Tab::Auth,
            Tab::Auth => Tab::Direct,
            Tab::Direct => Tab::Rules,
        }
    }

    /// The tab before this one, the first wrapping to the last.
    pub open spec fn prev_spec(self) -> Tab {
        match self {
            Tab::Rules => Tab::Direct,
            Tab::Auth => Tab::Rules,
            Tab::Direct => Tab::Auth,
        }
    }

    /// The title shown on the tab.
    pub open spec fn title_spec(self) -> Seq<char> {
        match self {
            Tab::Rules => "ACLs & Rules"@,
            Tab::Auth => "Auth"@,
            Tab::Direct => "Direct"@,
        }
    }

    /// The tab after this one.
    pub fn next(&self) -> (r: Tab)
        ensures
            r == self.next_spec(),
    {
        match self {
            Tab::Rules => Tab::Auth,
            Tab::Auth => Tab::Direct,
            Tab::Direct => Tab::Rules,
        }
    }

    /// The tab before this one.
    pub fn prev(&self) -> (r: Tab)
        ensures
            r == self.prev_spec(),
    {
        match self {
            Tab::Rules => Tab::Direct,
            Tab::Auth => Tab::Rules,
            Tab::Direct => Tab::Auth,
        }
    }

    /// The title shown on the tab.
    pub fn title(&self) -> (r: &'static str)
        ensures
            r@ == self.title_spec(),
    {
        match self {
            Tab::Rules => "ACLs & Rules",
            Tab::Auth => "Auth",
            Tab::Direct => "Direct",
        }
    }
}

/// Going to the next tab and back, or back and then on, returns to the same
/// tab; three steps either way go round once.
pub proof fn law_tab_cycle(t: Tab)
    ensures
        t.next_spec().prev_spec() == t,
        t.prev_spec().next_spec() == t,
        t.next_spec().next_spec().next_spec() == t,
        t.prev_spec().prev_spec().prev_spec() == t,
{
}

/// The tabs in the order in which they are shown.
pub const ALL_TABS: [Tab; 3] = [Tab::Rules, Tab::Auth, Tab::Direct];

/// What the editor shows.
#[derive(Clone, Copy, Debug, PartialEq, Eq, Structural)]
pub enum Screen {
    List,
    AclEdit { index: Option<usize> },
    AccessEdit { index: Option<usize> },
    DirectEdit { always: bool, index: Option<usize> },
    ConfirmQuit,
    ConfirmDelete,
}

/// The field of a form that has the focus.
#[derive(Clone, Copy, Debug, PartialEq, Eq, Structural)]
pub enum InputField {
    Name,
    Type,
    Values,
    CaseInsensitive,
    Action,
    AclPicker,
    AuthProgram,
    AuthChildren,
    AuthRealm,
    AuthTtl,
}

/// The selected row of a table, if any.
#[derive(Clone, Copy, Debug, PartialEq, Eq, Structural)]
pub struct TableState {
    pub selected: Option<usize>,
}

impl TableState {
    /// A table with no row selected.
    pub fn new() -> (r: TableState)
        ensures
            r.selected is None,
    {
        TableState { selected: None }
    }

    /// The selected row.
    pub fn selected(&self) -> (r: Option<usize>)
        ensures
            r == self.selected,
    {
        self.selected
    }

    /// Selects a row, or none.
    pub fn select(&mut self, row: Option<usize>)
        ensures
            final(self).selected == row,
    {
        self.selected = row;
    }
}

/// What the program that runs the editor must do after a key press.
#[derive(Clone, Copy, Debug, PartialEq, Eq, Structural)]
pub enum Action {
    Nothing,
    /// Write the configuration to its file, then report with
    /// [`App::finish_save`].
    Save,
}

/// How writing the configuration to its file went.
#[derive(Debug)]
pub enum SaveOutcome {
    /// Written to the editor's file.
    Saved,
    /// The backup copy of the old file could not be made.
    BackupFailed { error: String },
    /// The file could not be written.
    WriteFailed { error: String },
}

/// The number of entries that the undo history keeps.
pub const UNDO_LIMIT: usize = 50;

/// The number of entries in each menu of the menu bar.
pub open spec fn menu_item_count(menu: int) -> nat {
    if menu == 0 {
        2
    } else if menu == 1 {
        5
    } else if menu == 2 {
        4
    } else {
        1
    }
}

/// The number of menus in the menu bar.
pub open spec fn menu_count() -> nat {
    4
}

/// The menus of the menu bar: each title with its entries and their keys.
pub open spec fn menu_structure() -> Seq<(Seq<char>, Seq<(Seq<char>, Seq<char>)>)> {
    seq![
        ("File"@, seq![("Save"@, "Ctrl+S"@), ("Quit"@, "Ctrl+Q"@)]),
        (
            "Edit"@,
            seq![
                ("Undo"@, "Ctrl+Z"@),
                ("Redo"@, "Ctrl+Y"@),
                ("Add"@, "a"@),
                ("Edit"@, "e"@),
                ("Delete"@, "d"@),
            ],
        ),
        ("View"@, seq![("Rules"@, ""@), ("Auth"@, ""@), ("Direct"@, ""@), ("Search"@, "/"@)]),
        ("Help"@, seq![("Help"@, "F1"@)]),
    ]
}

/// The value of the menu structure as `menu_items` hands it out.
pub open spec fn menu_view(m: Seq<(&'static str, Vec<(&'static str, &'static str)>)>) -> Seq<
    (Seq<char>, Seq<(Seq<char>, Seq<char>)>),
> {
    m.map_values(
        |e: (&'static str, Vec<(&'static str, &'static str)>)|
            (e.0@, e.1@.map_values(|p: (&'static str, &'static str)| (p.0@, p.1@))),
    )
}

/// The editor: the configuration being edited, what is shown, the undo
/// history, and the state of each form.
pub struct App {
    pub config: SquidConfig,
    pub screen: Screen,
    pub tab: Tab,
    pub should_quit: bool,
    pub file_path: String,
    pub dirty: bool,
    pub status_message: Option<String>,
    /// Counts the status messages set so far (wrapping), so that the program
    /// can tell when a new one appears and clear it after a while.
    pub status_serial: u64,
    pub help_visible: bool,
    pub menu_active: bool,
    pub menu_index: usize,
    pub menu_item: usize,
    /// The configurations that undo brings back, the oldest first.
    pub undo_stack: Vec<SquidConfig>,
    /// The configurations that redo brings back, the oldest first.
    pub redo_stack: Vec<SquidConfig>,
    pub rules_focus_acls: bool,
    pub acl_table_state: TableState,
    pub access_table_state: TableState,
    pub acl_filter: Option<TextInput>,
    pub always_direct_state: TableState,
    pub never_direct_state: TableState,
    pub direct_focus_always: bool,
    pub edit_name: TextInput,
    pub edit_type_index: usize,
    pub edit_values: TextInput,
    pub edit_case_insensitive: bool,
    pub edit_field: InputField,
    pub access_action: AccessAction,
    pub access_acl_refs: Vec<AclRef>,
    pub access_available_cursor: usize,
    pub access_selected_cursor: usize,
    pub access_focus_available: bool,
    pub auth_program: TextInput,
    pub auth_children: TextInput,
    pub auth_realm: TextInput,
    pub auth_ttl: TextInput,
    pub auth_field: InputField,
}

impl View for App {
    type V = AppView;

    open spec fn view(&self) -> AppView {
        AppView {
            config: self.config@,
            screen: self.screen,
            tab: self.tab,
            should_quit: self.should_quit,
            file_path: self.file_path@,
            dirty: self.dirty,
            status_message: opt_view(self.status_message),
            status_serial: self.status_serial,
            help_visible: self.help_visible,
            menu_active: self.menu_active,
            menu_index: self.menu_index,
            menu_item: self.menu_item,
            undo_stack: configs_view(self.undo_stack@),
            redo_stack: configs_view(self.redo_stack@),
            rules_focus_acls: self.rules_focus_acls,
            acl_table_state: self.acl_table_state.selected,
            access_table_state: self.access_table_state.selected,
            acl_filter: opt_input_view(self.acl_filter),
            always_direct_state: self.always_direct_state.selected,
            never_direct_state: self.never_direct_state.selected,
            direct_focus_always: self.direct_focus_always,
            edit_name: self.edit_name@,
            edit_type_index: self.edit_type_index,
            edit_values: self.edit_values@,
            edit_case_insensitive: self.edit_case_insensitive,
            edit_field: self.edit_field,
            access_action: self.access_action,
            access_acl_refs: refs_view(self.access_acl_refs@),
            access_available_cursor: self.access_available_cursor,
            access_selected_cursor: self.access_selected_cursor,
            access_focus_available: self.access_focus_available,
            auth_program: self.auth_program@,
            auth_children: self.auth_children@,
            auth_realm: self.auth_realm@,
            auth_ttl: self.auth_ttl@,
            auth_field: self.auth_field,
        }
    }
}


/// An empty text field.
fn empty_input() -> (r: TextInput)
    ensures
        r@ == crate::state::empty_field(),
{
    TextInput { content: String::new(), cursor: 0 }
}

/// A text field holding a setting's text, empty when it is absent.
fn input_of(o: &Option<String>) -> (r: TextInput)
    ensures
        r@ == filled(text_or_empty(opt_view(*o))),
{
    match o {
        Some(s) => TextInput::new(s.clone()),
        None => TextInput::new(String::new()),
    }
}

impl App {
    /// An editor on `config`, which is saved to `file_path`: the list of the
    /// first tab is shown, and the first row of each table is selected.
    pub fn new(config: SquidConfig, file_path: String) -> (r: App)
        ensures
            r@ == initial(config@, file_path@),
            r@.wf(),
    {
        let mut app = App {
            config,
            screen: Screen::List,
            tab: Tab::Rules,
            should_quit: false,
            file_path,
            dirty: false,
            status_message: None,
            status_serial: 0,
            help_visible: false,
            menu_active: false,
            menu_index: 0,
            menu_item: 0,
            undo_stack: Vec::new(),
            redo_stack: Vec::new(),
            rules_focus_acls: true,
            acl_table_state: TableState::new(),
            access_table_state: TableState::new(),
            acl_filter: None,
            always_direct_state: TableState::new(),
            never_direct_state: TableState::new(),
            direct_focus_always: true,
            edit_name: empty_input(),
            edit_type_index: 0,
            edit_values: empty_input(),
            edit_case_insensitive: false,
            edit_field: InputField::Name,
            access_action: AccessAction::Allow,
            access_acl_refs: Vec::new(),
            access_available_cursor: 0,
            access_selected_cursor: 0,
            access_focus_available: true,
            auth_program: empty_input(),
            auth_children: empty_input(),
            auth_realm: empty_input(),
            auth_ttl: empty_input(),
            auth_field: InputField::AuthProgram,
        };
        app.load_auth_fields();
        if app.config.acls.len() > 0 {
            app.acl_table_state.select(Some(0));
        }
        if app.config.http_access.len() > 0 {
            app.access_table_state.select(Some(0));
        }
        if app.config.always_direct.len() > 0 {
            app.always_direct_state.select(Some(0));
        }
        if app.config.never_direct.len() > 0 {
            app.never_direct_state.select(Some(0));
        }
        proof {
            assert(configs_view(app.undo_stack@) =~= Seq::empty());
            assert(configs_view(app.redo_stack@) =~= Seq::empty());
            assert(refs_view(app.access_acl_refs@) =~= Seq::empty());
            lemma_filled_wf(text_or_empty(app@.config.auth_param.program));
            lemma_filled_wf(text_or_empty(app@.config.auth_param.children));
            lemma_filled_wf(text_or_empty(app@.config.auth_param.realm));
            lemma_filled_wf(text_or_empty(app@.config.auth_param.credentialsttl));
            lemma_filled_wf(Seq::empty());
            assert(app@ == initial(app@.config, app@.file_path));
        }
        app
    }

    /// Fills the authentication form from the configuration.
    fn load_auth_fields(&mut self)
        ensures
            final(self)@ == old(self)@.with_auth_fields(),
    {
        self.auth_program = input_of(&self.config.auth_param.program);
        self.auth_children = input_of(&self.config.auth_param.children);
        self.auth_realm = input_of(&self.config.auth_param.realm);
        self.auth_ttl = input_of(&self.config.auth_param.credentialsttl);
        proof {
            assert(self@ == old(self)@.with_auth_fields());
        }
    }

    /// Shows `msg` on the status line.
    pub fn set_status(&mut self, msg: String)
        ensures
            final(self)@ == old(self)@.with_status(msg@),
            old(self)@.wf() ==> final(self)@.wf(),
    {
        proof {
            if old(self)@.wf() {
                lemma_status_wf(old(self)@, msg@);
            }
        }
        self.show_status(msg);
    }

    /// Puts `msg` on the status line and counts it.
    fn show_status(&mut self, msg: String)
        ensures
            final(self)@ == old(self)@.with_status(msg@),
    {
        self.status_message = Some(msg);
        if self.status_serial == u64::MAX {
            self.status_serial = 0;
        } else {
            self.status_serial = self.status_serial + 1;
        }
        proof {
            assert(self@ == old(self)@.with_status(msg@));
        }
    }

    /// Clears the status line (when its message has been shown long enough).
    pub fn clear_status(&mut self)
        ensures
            final(self)@ == (AppView { status_message: None, ..old(self)@ }),
            old(self)@.wf() ==> final(self)@.wf(),
    {
        proof {
            if old(self)@.wf() {
                lemma_status_wf(old(self)@, Seq::empty());
            }
        }
        self.status_message = None;
        proof {
            assert(self@ == AppView { status_message: None, ..old(self)@ });
        }
    }

    /// Pushes the configuration onto the undo history and empties the redo
    /// history; the oldest entry goes beyond [`UNDO_LIMIT`].
    pub fn snapshot(&mut self)
        ensures
            final(self)@ == old(self)@.snapshot(),
    {
        let copy = self.config.duplicate();
        self.undo_stack.push(copy);
        self.redo_stack.clear();
        if self.undo_stack.len() > UNDO_LIMIT {
            self.undo_stack.remove(0);
        }
        proof {
            let u = configs_view(old(self).undo_stack@).push(old(self)@.config);
            assert(configs_view(old(self).undo_stack@.push(copy)) =~= u);
            if u.len() > UNDO_LIMIT {
                assert(configs_view(old(self).undo_stack@.push(copy).remove(0)) =~= u.drop_first());
            }
            assert(configs_view(self.redo_stack@) =~= Seq::empty());
            assert(self@ == old(self)@.snapshot());
        }
    }

    /// Brings back the configuration from before the last change.
    pub fn undo(&mut self)
        ensures
            final(self)@ == old(self)@.undo(),
    {
        match self.undo_stack.pop() {
            Some(mut cur) => {
                proof {
                    assert(configs_view(self.undo_stack@) =~= configs_view(old(self).undo_stack@).drop_last());
                    assert(cur@ == configs_view(old(self).undo_stack@).last());
                }
                std::mem::swap(&mut self.config, &mut cur);
                self.redo_stack.push(cur);
                self.dirty = true;
                proof {
                    assert(configs_view(self.redo_stack@) =~= configs_view(old(self).redo_stack@).push(old(self)@.config));
                }
                self.load_auth_fields();
                self.set_status(String::from_str("Undo"));
            },
            None => {},
        }
    }

    /// Brings back the configuration that the last undo took away.
    pub fn redo(&mut self)
        ensures
            final(self)@ == old(self)@.redo(),
    {
        match self.redo_stack.pop() {
            Some(mut cur) => {
                proof {
                    assert(configs_view(self.redo_stack@) =~= configs_view(old(self).redo_stack@).drop_last());
                    assert(cur@ == configs_view(old(self).redo_stack@).last());
                }
                std::mem::swap(&mut self.config, &mut cur);
                self.undo_stack.push(cur);
                self.dirty = true;
                proof {
                    assert(configs_view(self.undo_stack@) =~= configs_view(old(self).undo_stack@).push(old(self)@.config));
                }
                self.load_auth_fields();
                self.set_status(String::from_str("Redo"));
            },
            None => {},
        }
    }

    /// Reports how writing the file went: on success the changes count as
    /// saved.
    pub fn finish_save(&mut self, outcome: SaveOutcome)
        ensures
            final(self)@ == old(self)@.after_save(save_view(outcome)),
            old(self)@.wf() ==> final(self)@.wf(),
    {
        proof {
            if old(self)@.wf() {
                lemma_status_wf(old(self)@, "Saved to "@ + old(self)@.file_path);
                match save_view(outcome) {
                    SaveView::BackupFailed(e) => lemma_status_wf(old(self)@, "Backup failed: "@ + e),
                    SaveView::WriteFailed(e) => lemma_status_wf(old(self)@, "Error saving: "@ + e),
                    _ => {},
                }
            }
        }
        match outcome {
            SaveOutcome::Saved => {
                self.dirty = false;
                let msg = String::from_str("Saved to ").concat(self.file_path.as_str());
                self.set_status(msg);
            },
            SaveOutcome::BackupFailed { error } => {
                let msg = String::from_str("Backup failed: ").concat(error.as_str());
                self.set_status(msg);
            },
            SaveOutcome::WriteFailed { error } => {
                let msg = String::from_str("Error saving: ").concat(error.as_str());
                self.set_status(msg);
            },
        }
    }
}


/// Whether `v` holds a string equal to `s`.
fn contains_string(v: &Vec<String>, s: &String) -> (r: bool)
    ensures
        r == strings_of(v@).contains(s@),
{
    let mut i: usize = 0;
    while i < v.len()
        invariant
            0 <= i <= v.len(),
            forall|k: int| 0 <= k < i ==> strings_of(v@)[k] != s@,
        decreases v.len() - i,
    {
        if v[i] == *s {
            assert(strings_of(v@)[i as int] == s@);
            return true;
        }
        i += 1;
    }
    false
}

/// The indices `0..n`.
fn all_indices_vec(n: usize) -> (r: Vec<usize>)
    ensures
        r@ == all_indices(n as nat),
{
    let mut r: Vec<usize> = Vec::new();
    let mut i: usize = 0;
    while i < n
        invariant
            0 <= i <= n,
            r@ == all_indices(i as nat),
        decreases n - i,
    {
        r.push(i);
        i += 1;
        assert(r@ =~= all_indices(i as nat));
    }
    r
}

/// Whether the ACL `a` matches the lowercased search `q`.
fn acl_matches_exec(a: &Acl, q: &Vec<char>) -> (r: bool)
    ensures
        r == acl_matches(a@, q@),
{
    let name = chars_of(to_lowercase(a.name.as_str()).as_str());
    if find_vec(&name, q).is_some() {
        return true;
    }
    let kind = chars_of(to_lowercase(a.acl_type.as_str()).as_str());
    find_vec(&kind, q).is_some()
}

/// Whether one of `refs` names the ACL `name`.
fn names_acl(refs: &Vec<AclRef>, name: &String) -> (r: bool)
    ensures
        r == (exists|k: int| 0 <= k < refs@.len() && refs_view(refs@)[k].name == name@),
{
    let mut i: usize = 0;
    while i < refs.len()
        invariant
            0 <= i <= refs.len(),
            forall|k: int| 0 <= k < i ==> refs_view(refs@)[k].name != name@,
        decreases refs.len() - i,
    {
        if refs[i].name == *name {
            assert(refs_view(refs@)[i as int].name == name@);
            return true;
        }
        i += 1;
    }
    false
}

/// The first access rule that names the ACL `name`.
fn first_access_rule_naming(rules: &Vec<AccessRule>, name: &String) -> (r: Option<usize>)
    ensures
        r == first_rule_naming(access_view(rules@), name@, 0),
{
    let mut i: usize = 0;
    while i < rules.len()
        invariant
            0 <= i <= rules.len(),
            first_rule_naming(access_view(rules@), name@, 0) == first_rule_naming(
                access_view(rules@),
                name@,
                i as int,
            ),
        decreases rules.len() - i,
    {
        let found = names_acl(&rules[i].acl_refs, name);
        proof {
            let rv = access_view(rules@)[i as int];
            let refs = rules@[i as int].acl_refs@;
            assert(rv.acl_refs == refs_view(refs));
            if found {
                let k = choose|k: int| 0 <= k < refs.len() && refs_view(refs)[k].name == name@;
                assert(rv.acl_refs[k].name == name@);
            }
            if rule_names(rv, name@) {
                let k = choose|k: int| 0 <= k < rv.acl_refs.len() && rv.acl_refs[k].name == name@;
                assert(refs_view(refs)[k].name == name@);
            }
        }
        if found {
            return Some(i);
        }
        i += 1;
    }
    None
}

/// The row `delta` (one up or one down) away from `cur`, held within a
/// table of `len` rows.
fn step_index(cur: usize, delta: i32, len: usize) -> (r: usize)
    requires
        len > 0,
        delta == 1 || delta == -1,
    ensures
        r == clamp(cur + delta, 0, len - 1),
{
    if delta > 0 {
        if cur >= len - 1 {
            len - 1
        } else {
            cur + 1
        }
    } else if cur == 0 {
        0
    } else if cur - 1 > len - 1 {
        len - 1
    } else {
        cur - 1
    }
}

/// The field after `f` in the authentication form.
fn next_auth_field(f: InputField) -> (r: InputField)
    ensures
        r == auth_field_next(f),
{
    match f {
        InputField::AuthProgram => InputField::AuthChildren,
        InputField::AuthChildren => InputField::AuthRealm,
        InputField::AuthRealm => InputField::AuthTtl,
        _ => InputField::AuthProgram,
    }
}

/// The field before `f` in the authentication form.
fn prev_auth_field(f: InputField) -> (r: InputField)
    ensures
        r == auth_field_prev(f),
{
    match f {
        InputField::AuthProgram => InputField::AuthTtl,
        InputField::AuthChildren => InputField::AuthProgram,
        InputField::AuthRealm => InputField::AuthChildren,
        InputField::AuthTtl => InputField::AuthRealm,
        _ => InputField::AuthProgram,
    }
}

/// The values joined with newlines between them.
fn join_values(values: &Vec<String>) -> (r: String)
    ensures
        r@ == join_lines(strings_of(values@)),
{
    let mut out = String::new();
    let mut i: usize = 0;
    while i < values.len()
        invariant
            0 <= i <= values.len(),
            out@ == join_lines(strings_of(values@).take(i as int)),
        decreases values.len() - i,
    {
        if i > 0 {
            out.append("\n");
        }
        out.append(values[i].as_str());
        i += 1;
        proof {
            let t = strings_of(values@).take(i as int);
            assert(t.drop_last() =~= strings_of(values@).take(i - 1));
            if i == 1 {
                assert(out@ =~= t[0]);
            } else {
                assert(out@ =~= join_lines(t.drop_last()) + "\n"@ + t.last());
            }
        }
    }
    assert(strings_of(values@).take(values@.len() as int) =~= strings_of(values@));
    out
}

/// The position of `t` in [`AclType::ALL`].
fn type_position(t: AclType) -> (r: usize)
    ensures
        r == type_index(t),
{
    match t {
        AclType::Src => 0,
        AclType::Dst => 1,
        AclType::SrcDomain => 2,
        AclType::DstDomain => 3,
        AclType::SrcDomRegex => 4,
        AclType::DstDomRegex => 5,
        AclType::UrlRegex => 6,
        AclType::UrlPathRegex => 7,
        AclType::Port => 8,
        AclType::Proto => 9,
        AclType::Method => 10,
        AclType::Time => 11,
        AclType::Arp => 12,
        AclType::MyIp => 13,
        AclType::MyPort => 14,
        AclType::ProxyAuth => 15,
        AclType::Browser => 16,
        AclType::RefererRegex => 17,
        AclType::ReqMimeType => 18,
        AclType::RepMimeType => 19,
        AclType::MaxConn => 20,
        AclType::External => 21,
        AclType::Snmp => 22,
    }
}

impl App {
    /// The names that a rule can pick: the configured ACLs in order, then
    /// the predefined ones that are not among them.
    pub fn available_acl_names(&self) -> (r: Vec<String>)
        ensures
            strings_of(r@) == self@.available_acl_names(),
    {
        proof {
            reveal(AppView::available_acl_names);
        }
        let mut names: Vec<String> = Vec::new();
        let n = self.config.acls.len();
        let ghost acls = self@.config.acls;
        let mut i: usize = 0;
        while i < n
            invariant
                0 <= i <= n == self.config.acls.len(),
                acls == self@.config.acls,
                strings_of(names@) == acl_names(acls).take(i as int),
            decreases n - i,
        {
            assert(acls[i as int] == self.config.acls@[i as int]@);
            let ghost before = strings_of(names@);
            let nm = self.config.acls[i].name.clone();
            assert(nm@ == acls[i as int].name);
            names.push(nm);
            assert(strings_of(names@) =~= before.push(acls[i as int].name));
            assert(acl_names(acls).take(i + 1) =~= acl_names(acls).take(i as int).push(
                acls[i as int].name,
            ));
            i += 1;
        }
        assert(acl_names(acls).take(n as int) =~= acl_names(acls));
        let pre = predefined_acl_names();
        let ghost pv = pre@.map_values(|s: &str| s@);
        let mut j: usize = 0;
        assert(pv.skip(0) =~= pv);
        while j < pre.len()
            invariant
                0 <= j <= pre.len(),
                pv == predefined_acls(),
                pv == pre@.map_values(|s: &str| s@),
                add_missing(strings_of(names@), pv.skip(j as int)) == self@.available_acl_names(),
            decreases pre.len() - j,
        {
            let p = String::from_str(pre[j]);
            assert(pv.skip(j as int).drop_first() =~= pv.skip(j + 1));
            assert(pv.skip(j as int)[0] == p@);
            let ghost before = strings_of(names@);
            let ghost pv_j = p@;
            if !contains_string(&names, &p) {
                names.push(p);
                assert(strings_of(names@) =~= before.push(pv_j));
            }
            j += 1;
        }
        assert(pv.skip(pre.len() as int) =~= Seq::<Seq<char>>::empty());
        names
    }
}


impl App {
    /// The indices of the ACLs that the search shows: all without a search
    /// or with an empty one, else those whose name or type contains the
    /// search, ignoring case.
    pub fn filtered_acl_indices(&self) -> (r: Vec<usize>)
        ensures
            r@ == self@.filtered_acl_indices(),
    {
        proof {
            reveal(AppView::filtered_acl_indices);
        }
        let n = self.config.acls.len();
        match &self.acl_filter {
            Some(f) => {
                let query = to_lowercase(f.value());
                if query.as_str().is_empty() {
                    return all_indices_vec(n);
                }
                let q = chars_of(query.as_str());
                let ghost acls = self@.config.acls;
                let mut r: Vec<usize> = Vec::new();
                let mut i: usize = 0;
                while i < n
                    invariant
                        0 <= i <= n == self.config.acls.len(),
                        acls == self@.config.acls,
                        r@ == matching(acls, q@, i as int),
                    decreases n - i,
                {
                    assert(acls[i as int] == self.config.acls@[i as int]@);
                    if acl_matches_exec(&self.config.acls[i], &q) {
                        r.push(i);
                    }
                    i += 1;
                }
                r
            },
            None => all_indices_vec(n),
        }
    }

    /// The index in the configuration of the ACL selected in the table.
    fn real_acl_index(&self) -> (r: Option<usize>)
        ensures
            r == self@.real_acl_index(),
    {
        proof {
            reveal(AppView::real_acl_index);
        }
        match self.acl_table_state.selected() {
            Some(sel) => {
                let indices = self.filtered_acl_indices();
                if sel < indices.len() {
                    Some(indices[sel])
                } else {
                    None
                }
            },
            None => None,
        }
    }

    /// Whether the focused table has a selected row.
    fn has_selection(&self) -> (r: bool)
        ensures
            r == self@.has_selection(),
    {
        match self.tab {
            Tab::Rules => {
                if self.rules_focus_acls {
                    self.acl_table_state.selected().is_some() && self.config.acls.len() > 0
                } else {
                    self.access_table_state.selected().is_some() && self.config.http_access.len()
                        > 0
                }
            },
            Tab::Direct => {
                if self.direct_focus_always {
                    self.always_direct_state.selected().is_some() && self.config.always_direct.len()
                        > 0
                } else {
                    self.never_direct_state.selected().is_some() && self.config.never_direct.len()
                        > 0
                }
            },
            Tab::Auth => false,
        }
    }

    /// Selects in the access table the first rule that names the ACL
    /// selected in the ACL table.
    fn sync_access_to_acl(&mut self)
        ensures
            final(self)@ == old(self)@.sync_access_to_acl(),
    {
        proof {
            reveal(AppView::sync_access_to_acl);
        }
        match self.real_acl_index() {
            Some(i) => {
                if i < self.config.acls.len() {
                    let pos = first_access_rule_naming(
                        &self.config.http_access,
                        &self.config.acls[i].name,
                    );
                    match pos {
                        Some(idx) => {
                            self.access_table_state.select(Some(idx));
                            assert(self@ == AppView {
                                access_table_state: Some(idx),
                                ..old(self)@
                            });
                        },
                        None => {},
                    }
                }
            },
            None => {},
        }
    }

    /// Moves the selection of the ACL table and follows it in the access
    /// table.
    fn move_acl_selection(&mut self, delta: i32)
        requires
            delta == 1 || delta == -1,
        ensures
            final(self)@ == old(self)@.move_acl_selection(delta as int),
    {
        proof {
            reveal(AppView::move_acl_selection);
        }
        let len = self.filtered_acl_indices().len();
        if len == 0 {
            return;
        }
        let cur = match self.acl_table_state.selected() {
            Some(s) => s,
            None => 0,
        };
        self.acl_table_state.select(Some(step_index(cur, delta, len)));
        self.sync_access_to_acl();
    }

    /// Moves the selection of the access table.
    fn move_access_selection(&mut self, delta: i32)
        requires
            delta == 1 || delta == -1,
        ensures
            final(self)@ == old(self)@.move_access_selection(delta as int),
    {
        proof {
            reveal(AppView::move_access_selection);
        }
        let len = self.config.http_access.len();
        if len == 0 {
            return;
        }
        let cur = match self.access_table_state.selected() {
            Some(s) => s,
            None => 0,
        };
        self.access_table_state.select(Some(step_index(cur, delta, len)));
    }

    /// Moves the selection of the `always_direct` table.
    fn move_always_selection(&mut self, delta: i32)
        requires
            delta == 1 || delta == -1,
        ensures
            final(self)@ == old(self)@.move_always_selection(delta as int),
    {
        proof {
            reveal(AppView::move_always_selection);
        }
        let len = self.config.always_direct.len();
        if len == 0 {
            return;
        }
        let cur = match self.always_direct_state.selected() {
            Some(s) => s,
            None => 0,
        };
        self.always_direct_state.select(Some(step_index(cur, delta, len)));
    }

    /// Moves the selection of the `never_direct` table.
    fn move_never_selection(&mut self, delta: i32)
        requires
            delta == 1 || delta == -1,
        ensures
            final(self)@ == old(self)@.move_never_selection(delta as int),
    {
        proof {
            reveal(AppView::move_never_selection);
        }
        let len = self.config.never_direct.len();
        if len == 0 {
            return;
        }
        let cur = match self.never_direct_state.selected() {
            Some(s) => s,
            None => 0,
        };
        self.never_direct_state.select(Some(step_index(cur, delta, len)));
    }

    /// Moves the selection of the focused table one row down (`delta` 1)
    /// or up (-1), held within the table; on the authentication tab it
    /// moves between the fields.
    fn move_selection(&mut self, delta: i32)
        requires
            delta == 1 || delta == -1,
        ensures
            final(self)@ == old(self)@.move_selection(delta as int),
    {
        proof {
            reveal(AppView::move_selection);
        }
        match self.tab {
            Tab::Rules => {
                if self.rules_focus_acls {
                    self.move_acl_selection(delta);
                } else {
                    self.move_access_selection(delta);
                }
            },
            Tab::Direct => {
                if self.direct_focus_always {
                    self.move_always_selection(delta);
                } else {
                    self.move_never_selection(delta);
                }
            },
            Tab::Auth => {
                self.auth_field = if delta > 0 {
                    next_auth_field(self.auth_field)
                } else {
                    prev_auth_field(self.auth_field)
                };
            },
        }
    }

    /// Empties the rule form.
    fn reset_rule_form(&mut self)
        ensures
            final(self)@ == old(self)@.reset_rule_form(),
    {
        self.access_action = AccessAction::Allow;
        self.access_acl_refs.clear();
        self.access_available_cursor = 0;
        self.access_selected_cursor = 0;
        self.access_focus_available = true;
        self.edit_field = InputField::Action;
        assert(refs_view(self.access_acl_refs@) =~= Seq::empty());
        assert(self@ == old(self)@.reset_rule_form());
    }

    /// Fills the rule form with a rule's action and references.
    fn load_rule_form(&mut self, action: AccessAction, refs: Vec<AclRef>)
        ensures
            final(self)@ == old(self)@.load_rule_form(
                RuleView { action, acl_refs: refs_view(refs@) },
            ),
    {
        self.access_action = action;
        self.access_acl_refs = refs;
        self.access_available_cursor = 0;
        self.access_selected_cursor = 0;
        self.access_focus_available = true;
        self.edit_field = InputField::Action;
        assert(self@ == old(self)@.load_rule_form(
            RuleView { action, acl_refs: refs_view(refs@) },
        ));
    }

    /// Opens an empty form for a new entry of the focused table.
    fn start_add(&mut self)
        ensures
            final(self)@ == old(self)@.start_add(),
    {
        proof {
            reveal(AppView::start_add);
        }
        match self.tab {
            Tab::Rules => {
                if self.rules_focus_acls {
                    self.edit_name.clear();
                    self.edit_type_index = 0;
                    self.edit_values.clear();
                    self.edit_case_insensitive = false;
                    self.edit_field = InputField::Name;
                    self.screen = Screen::AclEdit { index: None };
                    assert(self@ == old(self)@.start_add());
                } else {
                    self.reset_rule_form();
                    self.screen = Screen::AccessEdit { index: None };
                    assert(self@ == old(self)@.start_add());
                }
            },
            Tab::Direct => {
                self.reset_rule_form();
                self.screen = Screen::DirectEdit { always: self.direct_focus_always, index: None };
                assert(self@ == old(self)@.start_add());
            },
            Tab::Auth => {},
        }
    }

    /// Opens the form on the selected entry of the focused table.
    fn start_edit(&mut self)
        ensures
            final(self)@ == old(self)@.start_edit(),
    {
        proof {
            reveal(AppView::start_edit);
        }
        match self.tab {
            Tab::Rules => {
                if self.rules_focus_acls {
                    match self.real_acl_index() {
                        Some(idx) => {
                            if idx < self.config.acls.len() {
                                let ghost a = self@.config.acls[idx as int];
                                assert(a == self.config.acls@[idx as int]@);
                                let name = self.config.acls[idx].name.clone();
                                let values = join_values(&self.config.acls[idx].values);
                                let kind = type_position(self.config.acls[idx].acl_type);
                                let ci = self.config.acls[idx].case_insensitive;
                                self.edit_name.set(name);
                                self.edit_type_index = kind;
                                self.edit_values.set(values);
                                self.edit_case_insensitive = ci;
                                self.edit_field = InputField::Name;
                                self.screen = Screen::AclEdit { index: Some(idx) };
                                assert(self@ == old(self)@.start_edit());
                            }
                        },
                        None => {},
                    }
                } else {
                    match self.access_table_state.selected() {
                        Some(idx) => {
                            if idx < self.config.http_access.len() {
                                assert(self@.config.http_access[idx as int]
                                    == self.config.http_access@[idx as int]@);
                                let action = self.config.http_access[idx].action;
                                let refs = copy_refs(&self.config.http_access[idx].acl_refs);
                                self.load_rule_form(action, refs);
                                self.screen = Screen::AccessEdit { index: Some(idx) };
                                assert(self@ == old(self)@.start_edit());
                            }
                        },
                        None => {},
                    }
                }
            },
            Tab::Direct => {
                if self.direct_focus_always {
                    match self.always_direct_state.selected() {
                        Some(idx) => {
                            if idx < self.config.always_direct.len() {
                                assert(self@.config.always_direct[idx as int]
                                    == self.config.always_direct@[idx as int]@);
                                let action = self.config.always_direct[idx].action;
                                let refs = copy_refs(&self.config.always_direct[idx].acl_refs);
                                self.load_rule_form(action, refs);
                                self.screen = Screen::DirectEdit { always: true, index: Some(idx) };
                                assert(self@ == old(self)@.start_edit());
                            }
                        },
                        None => {},
                    }
                } else {
                    match self.never_direct_state.selected() {
                        Some(idx) => {
                            if idx < self.config.never_direct.len() {
                                assert(self@.config.never_direct[idx as int]
                                    == self.config.never_direct@[idx as int]@);
                                let action = self.config.never_direct[idx].action;
                                let refs = copy_refs(&self.config.never_direct[idx].acl_refs);
                                self.load_rule_form(action, refs);
                                self.screen = Screen::DirectEdit { always: false, index: Some(idx) };
                                assert(self@ == old(self)@.start_edit());
                            }
                        },
                        None => {},
                    }
                }
            },
            Tab::Auth => {},
        }
    }
}


/// `v` with the entries at `i` and `j` exchanged.
fn swap_entries<T>(v: &mut Vec<T>, i: usize, j: usize)
    requires
        i < old(v).len(),
        j < old(v).len(),
    ensures
        final(v)@ == swapped(old(v)@, i as int, j as int),
{
    if i == j {
        assert(v@ =~= swapped(old(v)@, i as int, j as int));
        return;
    }
    let (lo, hi) = if i < j {
        (i, j)
    } else {
        (j, i)
    };
    let b = v.remove(hi);
    let a = v.remove(lo);
    v.insert(lo, b);
    v.insert(hi, a);
    assert(v@ =~= swapped(old(v)@, i as int, j as int));
}

/// The ACL type at position `i` of [`AclType::ALL`].
fn type_at_index(i: usize) -> (r: AclType)
    requires
        i < 23,
    ensures
        r == type_at(i as int),
{
    if i == 0 {
        AclType::Src
    } else if i == 1 {
        AclType::Dst
    } else if i == 2 {
        AclType::SrcDomain
    } else if i == 3 {
        AclType::DstDomain
    } else if i == 4 {
        AclType::SrcDomRegex
    } else if i == 5 {
        AclType::DstDomRegex
    } else if i == 6 {
        AclType::UrlRegex
    } else if i == 7 {
        AclType::UrlPathRegex
    } else if i == 8 {
        AclType::Port
    } else if i == 9 {
        AclType::Proto
    } else if i == 10 {
        AclType::Method
    } else if i == 11 {
        AclType::Time
    } else if i == 12 {
        AclType::Arp
    } else if i == 13 {
        AclType::MyIp
    } else if i == 14 {
        AclType::MyPort
    } else if i == 15 {
        AclType::ProxyAuth
    } else if i == 16 {
        AclType::Browser
    } else if i == 17 {
        AclType::RefererRegex
    } else if i == 18 {
        AclType::ReqMimeType
    } else if i == 19 {
        AclType::RepMimeType
    } else if i == 20 {
        AclType::MaxConn
    } else if i == 21 {
        AclType::External
    } else {
        AclType::Snmp
    }
}

/// The trimmed, non-empty lines of `text`.
fn kept_lines(text: &str) -> (r: Vec<String>)
    ensures
        strings_of(r@) == kept_values(lines(text@)),
{
    let ls = split_lines(&chars_of(text));
    let ghost all = seqs_of(ls@);
    let mut r: Vec<String> = Vec::new();
    let mut i: usize = 0;
    while i < ls.len()
        invariant
            0 <= i <= ls.len(),
            all == seqs_of(ls@),
            strings_of(r@) == kept_values(all.take(i as int)),
        decreases ls.len() - i,
    {
        let t = trim_vec(&ls[i]);
        let ghost before = strings_of(r@);
        assert(all.take(i + 1).drop_last() =~= all.take(i as int));
        assert(all.take(i + 1).last() == ls@[i as int]@);
        if t.len() > 0 {
            let st = string_of(&t);
            r.push(st);
            assert(strings_of(r@) =~= before.push(t@));
        }
        i += 1;
    }
    assert(all.take(ls.len() as int) =~= all);
    r
}

/// The message of the first of `values` that type `t` refuses.
fn first_invalid_value(t: AclType, values: &Vec<String>) -> (r: Option<String>)
    ensures
        match r {
            Some(e) => first_invalid(t, strings_of(values@)) == Some(e@),
            None => first_invalid(t, strings_of(values@)) is None,
        },
{
    let ghost vs = strings_of(values@);
    let mut i: usize = 0;
    assert(vs.skip(0) =~= vs);
    while i < values.len()
        invariant
            0 <= i <= values.len(),
            vs == strings_of(values@),
            first_invalid(t, vs) == first_invalid(t, vs.skip(i as int)),
        decreases values.len() - i,
    {
        assert(vs.skip(i as int)[0] == values@[i as int]@);
        assert(vs.skip(i as int).drop_first() =~= vs.skip(i + 1));
        match validate_acl_value(&t, values[i].as_str()) {
            Err(e) => {
                return Some(e);
            },
            Ok(()) => {},
        }
        i += 1;
    }
    assert(vs.skip(values.len() as int) =~= Seq::<Seq<char>>::empty());
    None
}

/// A setting as the authentication form saves it: trimmed, absent when
/// blank.
fn setting_of(text: &str) -> (r: Option<String>)
    ensures
        opt_view(r) == opt_setting(text@),
{
    let t = trim_vec(&chars_of(text));
    if t.len() == 0 {
        None
    } else {
        Some(string_of(&t))
    }
}

impl App {
    /// Removes ACL `idx` from the configuration.
    fn remove_acl(&mut self, idx: usize)
        requires
            idx < old(self).config.acls.len(),
        ensures
            final(self)@ == old(self)@.without_acl(idx as int),
    {
        let ghost s = self@;
        let _ = self.config.acls.remove(idx);
        self.dirty = true;
        proof {
            assert(acls_view(self.config.acls@) =~= s.config.acls.remove(idx as int));
            assert(self@.config == ConfigView { acls: s.config.acls.remove(idx as int), ..s.config });
        }
    }

    /// Keeps the selection of the ACL table within the rows shown.
    fn fix_acl_selection(&mut self)
        ensures
            final(self)@ == old(self)@.fix_acl_selection(),
    {
        proof {
            reveal(AppView::fix_acl_selection);
        }
        let filtered_len = self.filtered_acl_indices().len();
        if filtered_len == 0 {
            self.acl_table_state.select(None);
        } else {
            match self.acl_table_state.selected() {
                Some(sel) => {
                    if sel >= filtered_len {
                        self.acl_table_state.select(Some(filtered_len - 1));
                    }
                },
                None => {},
            }
        }
    }

    /// Deletes the ACL selected in the ACL table.
    fn delete_acl(&mut self)
        ensures
            final(self)@ == old(self)@.delete_acl(),
    {
        proof {
            reveal(AppView::delete_acl);
        }
        match self.real_acl_index() {
            Some(idx) => {
                if idx < self.config.acls.len() {
                    self.remove_acl(idx);
                    self.fix_acl_selection();
                    self.set_status(String::from_str("ACL deleted"));
                }
            },
            None => {},
        }
    }

    /// Deletes the rule selected in the access table.
    fn delete_access_rule(&mut self)
        ensures
            final(self)@ == old(self)@.delete_access_rule(),
    {
        proof {
            reveal(AppView::delete_access_rule);
        }
        let ghost s = self@;
        match self.access_table_state.selected() {
            Some(idx) => {
                if idx < self.config.http_access.len() {
                    let _ = self.config.http_access.remove(idx);
                    self.dirty = true;
                    let len = self.config.http_access.len();
                    if len == 0 {
                        self.access_table_state.select(None);
                    } else if idx >= len {
                        self.access_table_state.select(Some(len - 1));
                    }
                    proof {
                        let rest = s.config.http_access.remove(idx as int);
                        assert(access_view(self.config.http_access@) =~= rest);
                        assert(self@ == AppView {
                            config: ConfigView { http_access: rest, ..s.config },
                            dirty: true,
                            access_table_state: fixed_selection(s.access_table_state, rest.len()),
                            ..s
                        });
                    }
                    self.set_status(String::from_str("Access rule deleted"));
                }
            },
            None => {},
        }
    }

    /// Deletes the selected `always_direct` rule.
    fn delete_always_rule(&mut self)
        ensures
            final(self)@ == old(self)@.delete_always_rule(),
    {
        proof {
            reveal(AppView::delete_always_rule);
        }
        let ghost s = self@;
        match self.always_direct_state.selected() {
            Some(idx) => {
                if idx < self.config.always_direct.len() {
                    let _ = self.config.always_direct.remove(idx);
                    self.dirty = true;
                    proof {
                        let rest = s.config.always_direct.remove(idx as int);
                        assert(direct_view(self.config.always_direct@) =~= rest);
                        assert(self@ == AppView {
                            config: ConfigView { always_direct: rest, ..s.config },
                            dirty: true,
                            ..s
                        });
                    }
                    self.set_status(String::from_str("always_direct rule deleted"));
                }
            },
            None => {},
        }
    }

    /// Deletes the selected `never_direct` rule.
    fn delete_never_rule(&mut self)
        ensures
            final(self)@ == old(self)@.delete_never_rule(),
    {
        proof {
            reveal(AppView::delete_never_rule);
        }
        let ghost s = self@;
        match self.never_direct_state.selected() {
            Some(idx) => {
                if idx < self.config.never_direct.len() {
                    let _ = self.config.never_direct.remove(idx);
                    self.dirty = true;
                    proof {
                        let rest = s.config.never_direct.remove(idx as int);
                        assert(direct_view(self.config.never_direct@) =~= rest);
                        assert(self@ == AppView {
                            config: ConfigView { never_direct: rest, ..s.config },
                            dirty: true,
                            ..s
                        });
                    }
                    self.set_status(String::from_str("never_direct rule deleted"));
                }
            },
            None => {},
        }
    }

    /// Deletes the selected entry of the focused table, after a snapshot.
    fn do_delete(&mut self)
        ensures
            final(self)@ == old(self)@.do_delete(),
    {
        proof {
            reveal(AppView::do_delete);
        }
        self.snapshot();
        match self.tab {
            Tab::Rules => {
                if self.rules_focus_acls {
                    self.delete_acl();
                } else {
                    self.delete_access_rule();
                }
            },
            Tab::Direct => {
                if self.direct_focus_always {
                    self.delete_always_rule();
                } else {
                    self.delete_never_rule();
                }
            },
            Tab::Auth => {},
        }
    }

    /// Moves the selected rule one place up (`delta` -1) or down (1) its
    /// list, after a snapshot; the selection follows it.
    fn move_rule(&mut self, delta: i32)
        requires
            delta == 1 || delta == -1,
            !old(self)@.move_target_missing(),
        ensures
            final(self)@ == old(self)@.move_rule(delta as int),
    {
        proof {
            reveal(AppView::move_rule);
        }
        self.snapshot();
        let ghost s = self@;
        match self.tab {
            Tab::Rules => {
                if !self.rules_focus_acls {
                    match self.access_table_state.selected() {
                        Some(idx) => {
                            let len = self.config.http_access.len();
                            let n = step_index(idx, delta, len);
                            if n != idx {
                                swap_entries(&mut self.config.http_access, idx, n);
                                self.access_table_state.select(Some(n));
                                self.dirty = true;
                                proof {
                                    assert(access_view(self.config.http_access@) =~= swapped(
                                        s.config.http_access,
                                        idx as int,
                                        n as int,
                                    ));
                                    assert(self@ == old(self)@.move_rule(delta as int));
                                }
                            }
                        },
                        None => {},
                    }
                }
            },
            Tab::Direct => {
                if self.direct_focus_always {
                    match self.always_direct_state.selected() {
                        Some(idx) => {
                            let len = self.config.always_direct.len();
                            let n = step_index(idx, delta, len);
                            if n != idx {
                                swap_entries(&mut self.config.always_direct, idx, n);
                                self.always_direct_state.select(Some(n));
                                self.dirty = true;
                                proof {
                                    assert(direct_view(self.config.always_direct@) =~= swapped(
                                        s.config.always_direct,
                                        idx as int,
                                        n as int,
                                    ));
                                    assert(self@ == old(self)@.move_rule(delta as int));
                                }
                            }
                        },
                        None => {},
                    }
                } else {
                    match self.never_direct_state.selected() {
                        Some(idx) => {
                            let len = self.config.never_direct.len();
                            let n = step_index(idx, delta, len);
                            if n != idx {
                                swap_entries(&mut self.config.never_direct, idx, n);
                                self.never_direct_state.select(Some(n));
                                self.dirty = true;
                                proof {
                                    assert(direct_view(self.config.never_direct@) =~= swapped(
                                        s.config.never_direct,
                                        idx as int,
                                        n as int,
                                    ));
                                    assert(self@ == old(self)@.move_rule(delta as int));
                                }
                            }
                        },
                        None => {},
                    }
                }
            },
            Tab::Auth => {},
        }
    }
}


impl App {
    /// Puts `acl` in the configuration, in place of the edited ACL or at
    /// the end of the list.
    fn store_acl(&mut self, acl: Acl)
        requires
            !(old(self).screen matches Screen::AclEdit { index: Some(idx) } && idx
                >= old(self).config.acls.len()),
        ensures
            final(self)@ == old(self)@.store_acl(acl@),
    {
        let ghost s = self@;
        let ghost a = acl@;
        reveal(AppView::store_acl);
        match self.screen {
            Screen::AclEdit { index: Some(idx) } => {
                self.config.acls.set(idx, acl);
                proof {
                    assert(acls_view(self.config.acls@) =~= s.config.acls.update(idx as int, a));
                    assert(self@ == AppView {
                        config: ConfigView { acls: s.config.acls.update(idx as int, a), ..s.config },
                        ..s
                    });
                }
                self.set_status(String::from_str("ACL updated"));
            },
            _ => {
                self.config.acls.push(acl);
                let len = self.config.acls.len();
                self.acl_table_state.select(Some(len - 1));
                proof {
                    assert(acls_view(self.config.acls@) =~= s.config.acls.push(a));
                    assert(self@ == AppView {
                        config: ConfigView { acls: s.config.acls.push(a), ..s.config },
                        acl_table_state: Some(s.config.acls.len() as usize),
                        ..s
                    });
                }
                self.set_status(String::from_str("ACL added"));
            },
        }
    }

    /// Saves the ACL form, if it passes its checks.
    fn save_acl_edit(&mut self)
        requires
            old(self)@.wf(),
            !old(self)@.acl_target_missing(),
        ensures
            final(self)@ == old(self)@.save_acl_edit(),
    {
        proof {
            reveal(AppView::save_acl_edit);
        }
        let ghost a = self@.edited_acl();
        let name = trim_vec(&chars_of(self.edit_name.value()));
        if name.len() == 0 {
            self.set_status(String::from_str("ACL name cannot be empty"));
            return;
        }
        let acl_type = type_at_index(self.edit_type_index);
        let values = kept_lines(self.edit_values.value());
        if values.len() == 0 {
            self.set_status(String::from_str("ACL must have at least one value"));
            return;
        }
        match first_invalid_value(acl_type, &values) {
            Some(e) => {
                let msg = String::from_str("Validation: ").concat(e.as_str());
                self.set_status(msg);
                return;
            },
            None => {},
        }
        let acl = Acl {
            name: string_of(&name),
            acl_type,
            case_insensitive: self.edit_case_insensitive,
            values,
        };
        assert(acl@ =~= a);
        self.snapshot();
        self.store_acl(acl);
        self.close_form();
    }

    /// Puts `rule` in place of the edited access rule, or at the end.
    fn store_access_rule(&mut self, rule: AccessRule, index: Option<usize>)
        requires
            old(self).screen == (Screen::AccessEdit { index }),
            index matches Some(idx) ==> idx < old(self).config.http_access.len(),
        ensures
            final(self)@ == old(self)@.store_rule(rule@),
    {
        let ghost s = self@;
        let ghost r = rule@;
        reveal(AppView::store_rule);
        match index {
            Some(idx) => {
                self.config.http_access.set(idx, rule);
                proof {
                    assert(access_view(self.config.http_access@) =~= s.config.http_access.update(
                        idx as int,
                        r,
                    ));
                    assert(self@ == AppView {
                        config: ConfigView {
                            http_access: s.config.http_access.update(idx as int, r),
                            ..s.config
                        },
                        ..s
                    });
                }
                self.set_status(String::from_str("Access rule updated"));
            },
            None => {
                self.config.http_access.push(rule);
                let len = self.config.http_access.len();
                self.access_table_state.select(Some(len - 1));
                proof {
                    assert(access_view(self.config.http_access@) =~= s.config.http_access.push(r));
                    assert(self@ == AppView {
                        config: ConfigView { http_access: s.config.http_access.push(r), ..s.config },
                        access_table_state: Some(s.config.http_access.len() as usize),
                        ..s
                    });
                }
                self.set_status(String::from_str("Access rule added"));
            },
        }
    }

    /// Puts `rule` in place of the edited direct rule, or at the end of its
    /// list.
    fn store_direct_rule(&mut self, rule: DirectRule, always: bool, index: Option<usize>)
        requires
            old(self).screen == (Screen::DirectEdit { always, index }),
            index matches Some(idx) ==> idx < (if always {
                old(self).config.always_direct.len()
            } else {
                old(self).config.never_direct.len()
            }),
        ensures
            final(self)@ == old(self)@.store_rule(rule@),
    {
        let ghost s = self@;
        let ghost r = rule@;
        reveal(AppView::store_rule);
        if always {
            match index {
                Some(idx) => {
                    self.config.always_direct.set(idx, rule);
                    proof {
                        assert(direct_view(self.config.always_direct@)
                            =~= s.config.always_direct.update(idx as int, r));
                        assert(self@ == AppView {
                            config: ConfigView {
                                always_direct: s.config.always_direct.update(idx as int, r),
                                ..s.config
                            },
                            ..s
                        });
                    }
                },
                None => {
                    self.config.always_direct.push(rule);
                    let len = self.config.always_direct.len();
                    self.always_direct_state.select(Some(len - 1));
                    proof {
                        assert(direct_view(self.config.always_direct@)
                            =~= s.config.always_direct.push(r));
                        assert(self@ == AppView {
                            config: ConfigView {
                                always_direct: s.config.always_direct.push(r),
                                ..s.config
                            },
                            always_direct_state: Some(s.config.always_direct.len() as usize),
                            ..s
                        });
                    }
                },
            }
            self.set_status(String::from_str("always_direct rule saved"));
        } else {
            match index {
                Some(idx) => {
                    self.config.never_direct.set(idx, rule);
                    proof {
                        assert(direct_view(self.config.never_direct@)
                            =~= s.config.never_direct.update(idx as int, r));
                        assert(self@ == AppView {
                            config: ConfigView {
                                never_direct: s.config.never_direct.update(idx as int, r),
                                ..s.config
                            },
                            ..s
                        });
                    }
                },
                None => {
                    self.config.never_direct.push(rule);
                    let len = self.config.never_direct.len();
                    self.never_direct_state.select(Some(len - 1));
                    proof {
                        assert(direct_view(self.config.never_direct@)
                            =~= s.config.never_direct.push(r));
                        assert(self@ == AppView {
                            config: ConfigView {
                                never_direct: s.config.never_direct.push(r),
                                ..s.config
                            },
                            never_direct_state: Some(s.config.never_direct.len() as usize),
                            ..s
                        });
                    }
                },
            }
            self.set_status(String::from_str("never_direct rule saved"));
        }
    }

    /// Puts the rule of the form in the configuration.
    fn store_rule_form(&mut self)
        requires
            !old(self)@.rule_target_missing(),
            old(self)@.access_acl_refs.len() > 0,
        ensures
            final(self)@ == old(self)@.store_rule(old(self)@.edited_rule()),
    {
        let ghost r = self@.edited_rule();
        match self.screen {
            Screen::AccessEdit { index } => {
                let rule = AccessRule {
                    action: self.access_action,
                    acl_refs: copy_refs(&self.access_acl_refs),
                };
                assert(rule@ =~= r);
                self.store_access_rule(rule, index);
            },
            Screen::DirectEdit { always, index } => {
                let rule = DirectRule {
                    action: self.access_action,
                    acl_refs: copy_refs(&self.access_acl_refs),
                };
                assert(rule@ =~= r);
                self.store_direct_rule(rule, always, index);
            },
            _ => {
                assert(self@ == self@.store_rule(r)) by {
                    reveal(AppView::store_rule);
                }
            },
        }
    }

    /// Returns to the list after a saved form.
    fn close_form(&mut self)
        ensures
            final(self)@ == old(self)@.close_form(),
    {
        self.dirty = true;
        self.screen = Screen::List;
    }

    /// Saves the rule form, if it names an ACL.
    fn save_access_edit(&mut self)
        requires
            !old(self)@.rule_target_missing(),
        ensures
            final(self)@ == old(self)@.save_access_edit(),
    {
        proof {
            reveal(AppView::save_access_edit);
        }
        if self.access_acl_refs.len() == 0 {
            self.set_status(String::from_str("Rule must reference at least one ACL"));
            return;
        }
        let ghost r = self@.edited_rule();
        self.snapshot();
        assert(self@.edited_rule() == r);
        self.store_rule_form();
        self.close_form();
    }

    /// Saves the authentication form to the configuration, after a
    /// snapshot: each setting trimmed, a blank one removed.
    pub fn save_auth(&mut self)
        ensures
            final(self)@ == old(self)@.save_auth(),
            old(self)@.wf() ==> final(self)@.wf(),
    {
        proof {
            if old(self)@.wf() {
                lemma_saves_wf(old(self)@);
            }
        }
        proof {
            reveal(AppView::save_auth);
        }
        let program = setting_of(self.auth_program.value());
        let children = setting_of(self.auth_children.value());
        let realm = setting_of(self.auth_realm.value());
        let ttl = setting_of(self.auth_ttl.value());
        self.snapshot();
        self.config.auth_param.program = program;
        self.config.auth_param.children = children;
        self.config.auth_param.realm = realm;
        self.config.auth_param.credentialsttl = ttl;
        self.dirty = true;
        proof {
            let s = old(self)@.snapshot();
            assert(self@ == AppView {
                config: ConfigView {
                    auth_param: AuthView {
                        program: opt_setting(old(self)@.auth_program.content),
                        children: opt_setting(old(self)@.auth_children.content),
                        realm: opt_setting(old(self)@.auth_realm.content),
                        credentialsttl: opt_setting(old(self)@.auth_ttl.content),
                    },
                    ..s.config
                },
                dirty: true,
                ..s
            });
        }
        self.set_status(String::from_str("Auth configuration saved"));
    }
}


/// The number of entries of menu `menu`.
fn menu_item_count_of(menu: usize) -> (r: usize)
    ensures
        r == menu_item_count(menu as int),
{
    if menu == 0 {
        2
    } else if menu == 1 {
        5
    } else if menu == 2 {
        4
    } else {
        1
    }
}

/// Whether the key is `c`, with or without Control.
fn key_is_char(key: Key, c: char) -> (r: bool)
    ensures
        r == is_char(key, c),
{
    match key.code {
        KeyCode::Char(k) => k == c,
        _ => false,
    }
}

impl App {
    /// The menus of the menu bar: each title with its entries and their
    /// keys.
    pub fn menu_items(&self) -> (r: Vec<(&'static str, Vec<(&'static str, &'static str)>)>)
        ensures
            menu_view(r@) == menu_structure(),
    {
        let r = vec![
            ("File", vec![("Save", "Ctrl+S"), ("Quit", "Ctrl+Q")]),
            (
                "Edit",
                vec![
                    ("Undo", "Ctrl+Z"),
                    ("Redo", "Ctrl+Y"),
                    ("Add", "a"),
                    ("Edit", "e"),
                    ("Delete", "d"),
                ],
            ),
            ("View", vec![("Rules", ""), ("Auth", ""), ("Direct", ""), ("Search", "/")]),
            ("Help", vec![("Help", "F1")]),
        ];
        assert(menu_view(r@) =~~= menu_structure());
        r
    }

    /// Opens or closes the menu bar, on its first entry.
    fn toggle_menu(&mut self)
        ensures
            final(self)@ == old(self)@.toggle_menu(),
    {
        self.menu_active = !self.menu_active;
        self.menu_index = 0;
        self.menu_item = 0;
    }

    /// Asks to quit: at once, or after a confirmation when there are
    /// unsaved changes.
    fn request_quit(&mut self)
        ensures
            final(self)@ == old(self)@.request_quit(),
    {
        if self.dirty {
            self.screen = Screen::ConfirmQuit;
        } else {
            self.should_quit = true;
        }
    }

    /// Carries out the selected entry of the menu bar.
    fn execute_menu_action(&mut self) -> (a: Action)
        ensures
            (final(self)@, a) == old(self)@.menu_action(),
    {
        proof {
            reveal(AppView::menu_action);
        }
        let m = self.menu_index;
        let i = self.menu_item;
        if m == 0 && i == 0 {
            return Action::Save;
        } else if m == 0 && i == 1 {
            self.request_quit();
        } else if m == 1 && i == 0 {
            self.undo();
        } else if m == 1 && i == 1 {
            self.redo();
        } else if m == 1 && i == 2 {
            self.start_add();
        } else if m == 1 && i == 3 {
            self.start_edit();
        } else if m == 1 && i == 4 && self.has_selection() {
            self.screen = Screen::ConfirmDelete;
        } else if m == 2 && i == 0 {
            self.tab = Tab::Rules;
        } else if m == 2 && i == 1 {
            self.tab = Tab::Auth;
        } else if m == 2 && i == 2 {
            self.tab = Tab::Direct;
        } else if m == 2 && i == 3 && self.tab == Tab::Rules && self.rules_focus_acls {
            self.acl_filter = Some(empty_input());
        } else if m == 3 && i == 0 {
            self.help_visible = true;
        }
        Action::Nothing
    }

    /// Moves through the open menu bar, or closes it.
    fn navigate_menu(&mut self, key: Key)
        requires
            old(self)@.wf(),
        ensures
            final(self)@ == old(self)@.menu_nav(key),
    {
        let count = menu_item_count_of(self.menu_index);
        if key.code == KeyCode::Esc || key.code == KeyCode::F(9) {
            self.menu_active = false;
        }
        if key.code == KeyCode::Left {
            self.menu_index = if self.menu_index == 0 {
                3
            } else {
                self.menu_index - 1
            };
        } else if key.code == KeyCode::Right {
            self.menu_index = if self.menu_index + 1 < 4 {
                self.menu_index + 1
            } else {
                0
            };
        }
        if key.code == KeyCode::Left || key.code == KeyCode::Right {
            self.menu_item = 0;
        } else if key.code == KeyCode::Up {
            self.menu_item = if self.menu_item == 0 {
                count - 1
            } else {
                self.menu_item - 1
            };
        } else if key.code == KeyCode::Down {
            self.menu_item = if self.menu_item + 1 < count {
                self.menu_item + 1
            } else {
                0
            };
        }
    }

    /// A key press while the menu bar is open.
    fn handle_menu_key(&mut self, key: Key) -> (a: Action)
        requires
            old(self)@.wf(),
        ensures
            (final(self)@, a) == old(self)@.menu_key(key),
    {
        if key.code == KeyCode::Enter {
            let a = self.execute_menu_action();
            self.menu_active = false;
            a
        } else {
            self.navigate_menu(key);
            Action::Nothing
        }
    }

    /// The bindings with Control that work everywhere: quit, save, undo and
    /// redo. `None`, and nothing done, for other keys.
    fn handle_control_key(&mut self, key: Key) -> (r: Option<Action>)
        ensures
            match r {
                Some(a) => old(self)@.control_key(key) == Some((final(self)@, a)),
                None => old(self)@.control_key(key) is None && final(self)@ == old(self)@,
            },
    {
        if !key.ctrl {
            return None;
        }
        if key_is_char(key, 'q') {
            self.request_quit();
            Some(Action::Nothing)
        } else if key_is_char(key, 's') {
            Some(Action::Save)
        } else if key_is_char(key, 'z') {
            self.undo();
            Some(Action::Nothing)
        } else if key_is_char(key, 'y') {
            self.redo();
            Some(Action::Nothing)
        } else {
            None
        }
    }
}


impl App {
    /// Selects the first row that the search shows, or none.
    fn select_first_found(&mut self)
        ensures
            final(self)@ == old(self)@.select_first_found(),
    {
        proof {
            reveal(AppView::select_first_found);
        }
        let found = self.filtered_acl_indices().len();
        if found == 0 {
            self.acl_table_state.select(None);
        } else {
            self.acl_table_state.select(Some(0));
        }
    }

    /// A key press while the search is open.
    fn handle_search_key(&mut self, key: Key)
        requires
            old(self)@.wf(),
            old(self).acl_filter is Some,
        ensures
            final(self)@ == old(self)@.search_key(key),
    {
        if key.code == KeyCode::Esc {
            self.acl_filter = None;
        } else if key.code == KeyCode::Enter {
        } else {
            match &mut self.acl_filter {
                Some(f) => {
                    f.handle_key(key);
                },
                None => {},
            }
            assert(self@ == old(self)@.edit_search(key));
            self.select_first_found();
        }
    }

    /// A key press that changes what a list shows.
    fn handle_list_view_key(&mut self, key: Key)
        requires
            old(self)@.is_view_key(key),
        ensures
            final(self)@ == old(self)@.list_view_key(key),
    {
        proof {
            reveal(AppView::list_view_key);
        }
        if key_is_char(key, '?') || key.code == KeyCode::F(1) {
            self.help_visible = true;
        } else if key.code == KeyCode::Tab {
            if self.tab == Tab::Rules {
                self.rules_focus_acls = !self.rules_focus_acls;
            } else if self.tab == Tab::Direct {
                self.direct_focus_always = !self.direct_focus_always;
            }
        } else if key.code == KeyCode::BackTab {
            self.tab = self.tab.prev();
        } else if key.code == KeyCode::Esc {
            self.tab = self.tab.next();
        } else if key_is_char(key, 'q') {
            self.request_quit();
        } else {
            self.acl_filter = Some(empty_input());
        }
    }

    /// A key press that acts on the entries of a list.
    fn handle_list_action_key(&mut self, key: Key)
        requires
            !((is_char(key, 'u') || is_char(key, 'J')) && old(self)@.move_target_missing()),
        ensures
            final(self)@ == old(self)@.list_action_key(key),
    {
        proof {
            reveal(AppView::list_action_key);
        }
        if key_is_char(key, 'j') || key.code == KeyCode::Down {
            self.move_selection(1);
        } else if key_is_char(key, 'k') || key.code == KeyCode::Up {
            self.move_selection(-1);
        } else if key_is_char(key, 'a') {
            self.start_add();
        } else if key_is_char(key, 'e') || key.code == KeyCode::Enter {
            self.start_edit();
        } else if key_is_char(key, 'd') && self.has_selection() {
            self.screen = Screen::ConfirmDelete;
        } else if key_is_char(key, 'u') {
            self.move_rule(-1);
        } else if key_is_char(key, 'J') {
            self.move_rule(1);
        }
    }

    /// A key press on a list with no search open.
    fn handle_list_command(&mut self, key: Key)
        requires
            !((is_char(key, 'u') || is_char(key, 'J')) && old(self)@.move_target_missing()),
        ensures
            final(self)@ == old(self)@.list_command(key),
    {
        let view_key = key_is_char(key, '?') || key.code == KeyCode::F(1) || key.code
            == KeyCode::Tab || key.code == KeyCode::BackTab || key.code == KeyCode::Esc
            || key_is_char(key, 'q') || (key_is_char(key, '/') && self.tab == Tab::Rules
            && self.rules_focus_acls);
        if view_key {
            self.handle_list_view_key(key);
        } else {
            self.handle_list_action_key(key);
        }
    }

    /// A key press on a list.
    fn handle_list_key(&mut self, key: Key)
        requires
            old(self)@.wf(),
            !(old(self).acl_filter is None && (is_char(key, 'u') || is_char(key, 'J'))
                && old(self)@.move_target_missing()),
        ensures
            final(self)@ == old(self)@.list_key(key),
    {
        if self.acl_filter.is_some() {
            self.handle_search_key(key);
        } else {
            self.handle_list_command(key);
        }
    }

    /// A key press on the focused field of the ACL form.
    fn handle_acl_field_key(&mut self, key: Key)
        requires
            old(self)@.wf(),
        ensures
            final(self)@ == old(self)@.acl_field_key(key),
    {
        if self.edit_field == InputField::Name {
            self.edit_name.handle_key(key);
        } else if self.edit_field == InputField::Type {
            if key.code == KeyCode::Left {
                self.edit_type_index = if self.edit_type_index > 0 {
                    self.edit_type_index - 1
                } else {
                    22
                };
            } else if key.code == KeyCode::Right {
                self.edit_type_index = if self.edit_type_index + 1 < 23 {
                    self.edit_type_index + 1
                } else {
                    0
                };
            }
        } else if self.edit_field == InputField::Values {
            self.edit_values.handle_key(key);
        } else if self.edit_field == InputField::CaseInsensitive {
            if key_is_char(key, ' ') || key.code == KeyCode::Enter {
                self.edit_case_insensitive = !self.edit_case_insensitive;
            }
        }
    }

    /// A key press in the ACL form.
    fn handle_acl_edit_key(&mut self, key: Key)
        requires
            old(self)@.wf(),
            !(key.code == KeyCode::F(2) && old(self)@.acl_target_missing()),
        ensures
            final(self)@ == old(self)@.acl_edit_key(key),
    {
        if key.code == KeyCode::Esc {
            self.screen = Screen::List;
        } else if key.code == KeyCode::Tab {
            self.edit_field = match self.edit_field {
                InputField::Name => InputField::Type,
                InputField::Type => InputField::Values,
                InputField::Values => InputField::CaseInsensitive,
                _ => InputField::Name,
            };
        } else if key.code == KeyCode::BackTab {
            self.edit_field = match self.edit_field {
                InputField::Name => InputField::CaseInsensitive,
                InputField::Type => InputField::Name,
                InputField::Values => InputField::Type,
                InputField::CaseInsensitive => InputField::Values,
                _ => InputField::Name,
            };
        } else if key.code == KeyCode::F(2) {
            self.save_acl_edit();
        } else {
            self.handle_acl_field_key(key);
        }
    }

    /// Space or Enter in the ACL picker: adds the highlighted name, or
    /// removes the highlighted reference.
    fn picker_choose(&mut self)
        requires
            old(self)@.wf(),
        ensures
            final(self)@ == old(self)@.picker_choose(),
    {
        proof {
            reveal(AppView::picker_choose);
        }
        if self.access_focus_available {
            let names = self.available_acl_names();
            let cur = self.access_available_cursor;
            if cur < names.len() {
                let name = names[cur].clone();
                assert(name@ == self@.available_acl_names()[cur as int]);
                if !names_acl(&self.access_acl_refs, &name) {
                    let ghost before = self@.access_acl_refs;
                    let ghost nv = name@;
                    self.access_acl_refs.push(AclRef { negated: false, name });
                    assert(refs_view(self.access_acl_refs@) =~= before.push(
                        AclRefView { negated: false, name: nv },
                    ));
                }
            }
        } else if self.access_acl_refs.len() > 0 {
            let ghost before = self@.access_acl_refs;
            let _ = self.access_acl_refs.remove(self.access_selected_cursor);
            assert(refs_view(self.access_acl_refs@) =~= before.remove(
                self.access_selected_cursor as int,
            ));
            let len = self.access_acl_refs.len();
            if self.access_selected_cursor >= len && len > 0 {
                self.access_selected_cursor = len - 1;
            }
        }
    }

    /// Moves the cursor of the focused side of the ACL picker.
    fn picker_cursor(&mut self, key: Key)
        ensures
            final(self)@ == old(self)@.picker_cursor(key),
    {
        let down = key.code == KeyCode::Down || key_is_char(key, 'j');
        let up = key.code == KeyCode::Up || key_is_char(key, 'k');
        if down {
            if self.access_focus_available {
                let max = self.available_acl_names().len();
                if max > 0 {
                    self.access_available_cursor = if self.access_available_cursor >= max - 1 {
                        max - 1
                    } else {
                        self.access_available_cursor + 1
                    };
                }
            } else {
                let max = self.access_acl_refs.len();
                if max > 0 {
                    self.access_selected_cursor = if self.access_selected_cursor >= max - 1 {
                        max - 1
                    } else {
                        self.access_selected_cursor + 1
                    };
                }
            }
        } else if up {
            if self.access_focus_available {
                if self.access_available_cursor > 0 {
                    self.access_available_cursor = self.access_available_cursor - 1;
                }
            } else if self.access_selected_cursor > 0 {
                self.access_selected_cursor = self.access_selected_cursor - 1;
            }
        }
    }

    /// Switches the focused side of the ACL picker, or negates the
    /// highlighted reference.
    fn picker_flip(&mut self, key: Key)
        ensures
            final(self)@ == old(self)@.picker_flip(key),
    {
        if key.code == KeyCode::Left || key.code == KeyCode::Right {
            self.access_focus_available = !self.access_focus_available;
        } else if key_is_char(key, '!') && !self.access_focus_available
            && self.access_selected_cursor < self.access_acl_refs.len() {
            let i = self.access_selected_cursor;
            let ghost before = self@.access_acl_refs;
            let mut r = self.access_acl_refs[i].duplicate();
            r.negated = !r.negated;
            let ghost rv = r@;
            self.access_acl_refs.set(i, r);
            assert(refs_view(self.access_acl_refs@) =~= before.update(i as int, rv));
        }
    }

    /// The keys of the ACL picker that move its cursors or its focus, or
    /// negate the highlighted reference.
    fn picker_move(&mut self, key: Key)
        ensures
            final(self)@ == old(self)@.picker_move(key),
    {
        self.picker_cursor(key);
        self.picker_flip(key);
    }

    /// A key press in the ACL picker.
    fn handle_picker_key(&mut self, key: Key)
        requires
            old(self)@.wf(),
        ensures
            final(self)@ == old(self)@.picker_key(key),
    {
        if key_is_char(key, ' ') || key.code == KeyCode::Enter {
            self.picker_choose();
        } else {
            self.picker_move(key);
        }
    }

    /// A key press in the rule form.
    fn handle_access_edit_key(&mut self, key: Key)
        requires
            old(self)@.wf(),
            !(key.code == KeyCode::F(2) && old(self)@.rule_target_missing()),
        ensures
            final(self)@ == old(self)@.access_edit_key(key),
    {
        if key.code == KeyCode::Esc {
            self.screen = Screen::List;
        } else if key.code == KeyCode::Tab || key.code == KeyCode::BackTab {
            self.edit_field = if self.edit_field == InputField::Action {
                InputField::AclPicker
            } else {
                InputField::Action
            };
        } else if key.code == KeyCode::F(2) {
            self.save_access_edit();
        } else if self.edit_field == InputField::Action {
            if key.code == KeyCode::Left || key.code == KeyCode::Right || key_is_char(key, ' ') {
                self.access_action = match self.access_action {
                    AccessAction::Allow => AccessAction::Deny,
                    AccessAction::Deny => AccessAction::Allow,
                };
            }
        } else if self.edit_field == InputField::AclPicker {
            self.handle_picker_key(key);
        }
    }
}


impl App {
    /// A key press on the screen shown.
    fn handle_screen_key(&mut self, key: Key)
        requires
            old(self)@.wf(),
            !(match old(self).screen {
                Screen::List => old(self).acl_filter is None && (is_char(key, 'u') || is_char(
                    key,
                    'J',
                )) && old(self)@.move_target_missing(),
                Screen::AclEdit { .. } => key.code == KeyCode::F(2)
                    && old(self)@.acl_target_missing(),
                Screen::AccessEdit { .. } => key.code == KeyCode::F(2)
                    && old(self)@.rule_target_missing(),
                Screen::DirectEdit { .. } => key.code == KeyCode::F(2)
                    && old(self)@.rule_target_missing(),
                _ => false,
            }),
        ensures
            final(self)@ == old(self)@.screen_key(key),
    {
        let yes = key_is_char(key, 'y') || key_is_char(key, 'Y');
        match self.screen {
            Screen::ConfirmQuit => {
                if yes {
                    self.should_quit = true;
                } else {
                    self.screen = Screen::List;
                }
            },
            Screen::ConfirmDelete => {
                if yes {
                    self.do_delete();
                }
                self.screen = Screen::List;
            },
            Screen::List => self.handle_list_key(key),
            Screen::AclEdit { .. } => self.handle_acl_edit_key(key),
            _ => self.handle_access_edit_key(key),
        }
    }

    /// Handles a key press anywhere but on the authentication tab's form
    /// and says what the program must do next. The clock does not enter:
    /// the program clears an old status message itself
    /// ([`App::clear_status`]).
    pub fn handle_key(&mut self, key: Key) -> (a: Action)
        requires
            old(self)@.wf(),
            !old(self)@.main_key_targets_missing(key),
        ensures
            (final(self)@, a) == old(self)@.main_key(key),
            final(self)@.wf(),
    {
        proof {
            lemma_main_key_wf(old(self)@, key);
        }
        if key.code == KeyCode::F(9) {
            self.toggle_menu();
            return Action::Nothing;
        }
        if self.menu_active {
            return self.handle_menu_key(key);
        }
        match self.handle_control_key(key) {
            Some(a) => {
                return a;
            },
            None => {},
        }
        if self.help_visible {
            if key.code == KeyCode::Esc || key_is_char(key, '?') || key.code == KeyCode::F(1) {
                self.help_visible = false;
            }
            return Action::Nothing;
        }
        self.handle_screen_key(key);
        Action::Nothing
    }

    /// A key press on the focused field of the authentication form.
    fn handle_auth_field_key(&mut self, key: Key)
        requires
            old(self)@.wf(),
        ensures
            final(self)@ == old(self)@.auth_field_key(key),
    {
        if self.auth_field == InputField::AuthProgram {
            self.auth_program.handle_key(key);
        } else if self.auth_field == InputField::AuthChildren {
            self.auth_children.handle_key(key);
        } else if self.auth_field == InputField::AuthRealm {
            self.auth_realm.handle_key(key);
        } else if self.auth_field == InputField::AuthTtl {
            self.auth_ttl.handle_key(key);
        }
    }

    /// A key press on the authentication form with no menu open and no
    /// binding with Control.
    fn handle_auth_command(&mut self, key: Key)
        requires
            old(self)@.wf(),
        ensures
            final(self)@ == old(self)@.auth_command(key),
    {
        if key_is_char(key, '?') || key.code == KeyCode::F(1) {
            self.help_visible = !self.help_visible;
        } else if key.code == KeyCode::Esc {
            self.tab = self.tab.next();
        } else if key.code == KeyCode::BackTab {
            self.tab = self.tab.prev();
        } else if key.code == KeyCode::Tab {
            self.auth_field = next_auth_field(self.auth_field);
        } else if key.code == KeyCode::F(2) {
            self.save_auth();
        } else {
            self.handle_auth_field_key(key);
        }
    }

    /// Handles a key press on the authentication tab's form and says what
    /// the program must do next.
    pub fn handle_auth_key(&mut self, key: Key) -> (a: Action)
        requires
            old(self)@.wf(),
        ensures
            (final(self)@, a) == old(self)@.auth_key(key),
            final(self)@.wf(),
    {
        proof {
            lemma_auth_key_wf(old(self)@, key);
        }
        if key.code == KeyCode::F(9) {
            self.toggle_menu();
            return Action::Nothing;
        }
        if self.menu_active {
            return self.handle_menu_key(key);
        }
        match self.handle_control_key(key) {
            Some(a) => {
                return a;
            },
            None => {},
        }
        self.handle_auth_command(key);
        Action::Nothing
    }

    /// Handles a key press: the authentication form takes it on its tab's
    /// list, the rest of the editor everywhere else. The result says what
    /// the program must do next.
    pub fn on_key(&mut self, key: Key) -> (a: Action)
        requires
            old(self)@.wf(),
            !old(self)@.targets_missing_entry(key),
        ensures
            (final(self)@, a) == old(self)@.step(key),
            final(self)@.wf(),
    {
        if self.tab == Tab::Auth && self.screen == Screen::List {
            self.handle_auth_key(key)
        } else {
            self.handle_key(key)
        }
    }

    /// Whether the key would act on an entry beyond the end of its list
    /// (see [`AppView::targets_missing_entry`]), which
    /// [`App::on_key`] does not accept.
    pub fn targets_missing_entry(&self, key: Key) -> (r: bool)
        requires
            self@.wf(),
        ensures
            r == self@.targets_missing_entry(key),
    {
        if self.tab == Tab::Auth && self.screen == Screen::List {
            return false;
        }
        if key.code == KeyCode::F(9) || self.menu_active || self.help_visible {
            return false;
        }
        if key.ctrl && (key_is_char(key, 'q') || key_is_char(key, 's') || key_is_char(key, 'z')
            || key_is_char(key, 'y')) {
            return false;
        }
        match self.screen {
            Screen::List => {
                self.acl_filter.is_none() && (key_is_char(key, 'u') || key_is_char(key, 'J'))
                    && self.move_target_missing()
            },
            Screen::AclEdit { .. } => key.code == KeyCode::F(2) && self.acl_target_missing(),
            Screen::AccessEdit { .. } => key.code == KeyCode::F(2) && self.rule_target_missing(),
            Screen::DirectEdit { .. } => key.code == KeyCode::F(2) && self.rule_target_missing(),
            _ => false,
        }
    }

    /// Whether the selected rule to move lies beyond the end of its list.
    fn move_target_missing(&self) -> (r: bool)
        ensures
            r == self@.move_target_missing(),
    {
        match self.tab {
            Tab::Rules => {
                !self.rules_focus_acls && match self.access_table_state.selected() {
                    Some(idx) => idx >= self.config.http_access.len(),
                    None => false,
                }
            },
            Tab::Direct => {
                if self.direct_focus_always {
                    match self.always_direct_state.selected() {
                        Some(idx) => idx >= self.config.always_direct.len(),
                        None => false,
                    }
                } else {
                    match self.never_direct_state.selected() {
                        Some(idx) => idx >= self.config.never_direct.len(),
                        None => false,
                    }
                }
            },
            Tab::Auth => false,
        }
    }

    /// Whether saving the ACL form would replace an ACL beyond the end of
    /// the list.
    fn acl_target_missing(&self) -> (r: bool)
        requires
            self@.wf(),
        ensures
            r == self@.acl_target_missing(),
    {
        match self.screen {
            Screen::AclEdit { index: Some(idx) } => {
                if idx < self.config.acls.len() {
                    return false;
                }
            },
            _ => {
                return false;
            },
        }
        let name = trim_vec(&chars_of(self.edit_name.value()));
        if name.len() == 0 {
            return false;
        }
        let acl_type = type_at_index(self.edit_type_index);
        let values = kept_lines(self.edit_values.value());
        if values.len() == 0 {
            return false;
        }
        first_invalid_value(acl_type, &values).is_none()
    }

    /// Whether saving the rule form would replace a rule beyond the end of
    /// its list.
    fn rule_target_missing(&self) -> (r: bool)
        ensures
            r == self@.rule_target_missing(),
    {
        if self.access_acl_refs.len() == 0 {
            return false;
        }
        match self.screen {
            Screen::AccessEdit { index: Some(idx) } => idx >= self.config.http_access.len(),
            Screen::DirectEdit { always, index: Some(idx) } => {
                if always {
                    idx >= self.config.always_direct.len()
                } else {
                    idx >= self.config.never_direct.len()
                }
            },
            _ => false,
        }
    }
}

} // verus!
