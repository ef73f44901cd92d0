use kfs_squid_editor::app::{Action, App, InputField, SaveOutcome, Screen, Tab, ALL_TABS, UNDO_LIMIT};
use kfs_squid_editor::key::{Key, KeyCode};
use kfs_squid_editor::model::{AccessAction, AclType};
use kfs_squid_editor::parser::parse;

fn press(app: &mut App, code: KeyCode) -> Action {
    let k = Key::plain(code);
    assert!(!app.targets_missing_entry(k));
    app.on_key(k)
}

fn ctrl(app: &mut App, c: char) -> Action {
    let k = Key::with_ctrl(KeyCode::Char(c));
    assert!(!app.targets_missing_entry(k));
    app.on_key(k)
}

fn typed(app: &mut App, text: &str) {
    for c in text.chars() {
        press(app, KeyCode::Char(c));
    }
}

fn sample() -> App {
    let config = parse(
        "acl lan src 10.0.0.0/8\n\
         acl sites dstdomain .example.com\n\
         http_access deny sites\n\
         http_access allow lan\n\
         http_access deny all\n\
         always_direct allow lan\n\
         auth_param basic realm Proxy\n",
    )
    .unwrap();
    App::new(config, "/tmp/squid.conf".to_string())
}

#[test]
fn tabs_cycle() {
    for t in ALL_TABS {
        assert_eq!(t.next().prev(), t);
        assert_eq!(t.next().next().next(), t);
    }
    assert_eq!(Tab::Rules.next(), Tab::Auth);
    assert_eq!(Tab::Rules.prev(), Tab::Direct);
    assert_eq!(Tab::Rules.title(), "ACLs & Rules");
    assert_eq!(Tab::Auth.title(), "Auth");
    assert_eq!(Tab::Direct.title(), "Direct");
}

#[test]
fn new_editor_selects_first_rows() {
    let app = sample();
    assert_eq!(app.screen, Screen::List);
    assert_eq!(app.tab, Tab::Rules);
    assert_eq!(app.acl_table_state.selected(), Some(0));
    assert_eq!(app.access_table_state.selected(), Some(0));
    assert_eq!(app.always_direct_state.selected(), Some(0));
    assert_eq!(app.never_direct_state.selected(), None);
    assert_eq!(app.auth_realm.value(), "Proxy");
    assert_eq!(app.auth_realm.cursor, 5);
    assert_eq!(app.auth_program.value(), "");
    assert!(!app.dirty);
}

#[test]
fn add_acl_through_the_form() {
    let mut app = sample();
    press(&mut app, KeyCode::Char('a'));
    assert_eq!(app.screen, Screen::AclEdit { index: None });
    typed(&mut app, " office ");
    press(&mut app, KeyCode::Tab);
    assert_eq!(app.edit_field, InputField::Type);
    press(&mut app, KeyCode::Left);
    assert_eq!(app.edit_type_index, 22);
    press(&mut app, KeyCode::Right);
    press(&mut app, KeyCode::Right);
    assert_eq!(app.edit_type_index, 1);
    press(&mut app, KeyCode::Tab);
    typed(&mut app, "192.168.0.0/16\n\n  172.16.0.0/12  ");
    press(&mut app, KeyCode::Enter);
    press(&mut app, KeyCode::F(2));
    assert_eq!(app.screen, Screen::List);
    assert_eq!(app.status_message.as_deref(), Some("ACL added"));
    assert!(app.dirty);
    assert_eq!(app.config.acls.len(), 3);
    let acl = &app.config.acls[2];
    assert_eq!(acl.name, "office");
    assert_eq!(acl.acl_type, AclType::Dst);
    assert_eq!(acl.values, vec!["192.168.0.0/16", "172.16.0.0/12"]);
    assert_eq!(app.acl_table_state.selected(), Some(2));
}

#[test]
fn acl_form_refusals() {
    let mut app = sample();
    press(&mut app, KeyCode::Char('a'));
    press(&mut app, KeyCode::F(2));
    assert_eq!(app.status_message.as_deref(), Some("ACL name cannot be empty"));
    typed(&mut app, "x");
    press(&mut app, KeyCode::F(2));
    assert_eq!(app.status_message.as_deref(), Some("ACL must have at least one value"));
    press(&mut app, KeyCode::Tab);
    press(&mut app, KeyCode::Tab);
    typed(&mut app, "999.1.1.1");
    press(&mut app, KeyCode::F(2));
    assert_eq!(
        app.status_message.as_deref(),
        Some("Validation: invalid IP address: 999.1.1.1")
    );
    assert_eq!(app.screen, Screen::AclEdit { index: None });
    assert_eq!(app.config.acls.len(), 2);
    press(&mut app, KeyCode::Esc);
    assert_eq!(app.screen, Screen::List);
}

#[test]
fn edit_acl_loads_and_replaces() {
    let mut app = sample();
    press(&mut app, KeyCode::Char('j'));
    assert_eq!(app.acl_table_state.selected(), Some(1));
    // The access table follows the ACL: the first rule that uses "sites".
    assert_eq!(app.access_table_state.selected(), Some(0));
    press(&mut app, KeyCode::Char('e'));
    assert_eq!(app.screen, Screen::AclEdit { index: Some(1) });
    assert_eq!(app.edit_name.value(), "sites");
    assert_eq!(app.edit_type_index, 3);
    assert_eq!(app.edit_values.value(), ".example.com");
    press(&mut app, KeyCode::Tab);
    press(&mut app, KeyCode::Tab);
    typed(&mut app, "\n.test.org");
    press(&mut app, KeyCode::F(2));
    assert_eq!(app.status_message.as_deref(), Some("ACL updated"));
    assert_eq!(app.config.acls[1].values, vec![".example.com", ".test.org"]);
    assert_eq!(app.config.acls.len(), 2);
}

#[test]
fn undo_and_redo_a_change() {
    let mut app = sample();
    press(&mut app, KeyCode::Char('d'));
    assert_eq!(app.screen, Screen::ConfirmDelete);
    press(&mut app, KeyCode::Char('y'));
    assert_eq!(app.screen, Screen::List);
    assert_eq!(app.status_message.as_deref(), Some("ACL deleted"));
    assert_eq!(app.config.acls.len(), 1);
    assert_eq!(app.config.acls[0].name, "sites");
    ctrl(&mut app, 'z');
    assert_eq!(app.status_message.as_deref(), Some("Undo"));
    assert_eq!(app.config.acls.len(), 2);
    assert_eq!(app.config.acls[0].name, "lan");
    ctrl(&mut app, 'y');
    assert_eq!(app.status_message.as_deref(), Some("Redo"));
    assert_eq!(app.config.acls.len(), 1);
    ctrl(&mut app, 'z');
    ctrl(&mut app, 'z');
    // Nothing more to undo: the state stays.
    assert_eq!(app.config.acls.len(), 2);
    assert_eq!(app.status_message.as_deref(), Some("Undo"));
}

#[test]
fn cancelled_delete_changes_nothing() {
    let mut app = sample();
    press(&mut app, KeyCode::Char('d'));
    press(&mut app, KeyCode::Char('n'));
    assert_eq!(app.screen, Screen::List);
    assert_eq!(app.config.acls.len(), 2);
    assert!(!app.dirty);
}

#[test]
fn history_keeps_fifty_entries() {
    let mut app = sample();
    app.tab = Tab::Auth;
    for _ in 0..(UNDO_LIMIT + 10) {
        press(&mut app, KeyCode::F(2));
    }
    assert_eq!(app.status_message.as_deref(), Some("Auth configuration saved"));
    let mut undone = 0;
    while {
        let before = app.status_serial;
        ctrl(&mut app, 'z');
        app.status_serial != before
    } {
        undone += 1;
    }
    assert_eq!(undone, UNDO_LIMIT);
}

#[test]
fn auth_form_saves_trimmed_settings() {
    let mut app = sample();
    press(&mut app, KeyCode::Esc);
    assert_eq!(app.tab, Tab::Auth);
    typed(&mut app, "  /usr/bin/auth  ");
    press(&mut app, KeyCode::Tab);
    press(&mut app, KeyCode::Tab);
    assert_eq!(app.auth_field, InputField::AuthRealm);
    for _ in 0..5 {
        press(&mut app, KeyCode::Backspace);
    }
    press(&mut app, KeyCode::F(2));
    assert_eq!(app.config.auth_param.program.as_deref(), Some("/usr/bin/auth"));
    assert_eq!(app.config.auth_param.realm, None);
    assert_eq!(app.status_message.as_deref(), Some("Auth configuration saved"));
    ctrl(&mut app, 'z');
    assert_eq!(app.config.auth_param.realm.as_deref(), Some("Proxy"));
    assert_eq!(app.auth_program.value(), "");
}

#[test]
fn search_filters_by_name_or_type() {
    let mut app = sample();
    press(&mut app, KeyCode::Char('/'));
    assert!(app.acl_filter.is_some());
    typed(&mut app, "DST");
    assert_eq!(app.filtered_acl_indices(), vec![1]);
    assert_eq!(app.acl_table_state.selected(), Some(0));
    press(&mut app, KeyCode::Backspace);
    press(&mut app, KeyCode::Backspace);
    press(&mut app, KeyCode::Backspace);
    typed(&mut app, "LA");
    assert_eq!(app.filtered_acl_indices(), vec![0]);
    typed(&mut app, "zz");
    assert_eq!(app.filtered_acl_indices(), Vec::<usize>::new());
    assert_eq!(app.acl_table_state.selected(), None);
    press(&mut app, KeyCode::Esc);
    assert!(app.acl_filter.is_none());
    assert_eq!(app.filtered_acl_indices(), vec![0, 1]);
}

#[test]
fn available_names_add_predefined_ones() {
    let app = sample();
    assert_eq!(
        app.available_acl_names(),
        vec!["lan", "sites", "all", "manager", "localhost", "to_localhost", "to_linklocal", "CONNECT"]
    );
}

#[test]
fn rule_form_picks_and_negates() {
    let mut app = sample();
    press(&mut app, KeyCode::Tab);
    assert!(!app.rules_focus_acls);
    press(&mut app, KeyCode::Char('a'));
    assert_eq!(app.screen, Screen::AccessEdit { index: None });
    press(&mut app, KeyCode::F(2));
    assert_eq!(app.status_message.as_deref(), Some("Rule must reference at least one ACL"));
    press(&mut app, KeyCode::Char(' '));
    assert_eq!(app.access_action, AccessAction::Deny);
    press(&mut app, KeyCode::Tab);
    assert_eq!(app.edit_field, InputField::AclPicker);
    press(&mut app, KeyCode::Char('j'));
    press(&mut app, KeyCode::Enter);
    press(&mut app, KeyCode::Enter);
    assert_eq!(app.access_acl_refs.len(), 1);
    assert_eq!(app.access_acl_refs[0].name, "sites");
    press(&mut app, KeyCode::Right);
    press(&mut app, KeyCode::Char('!'));
    assert!(app.access_acl_refs[0].negated);
    press(&mut app, KeyCode::F(2));
    assert_eq!(app.status_message.as_deref(), Some("Access rule added"));
    assert_eq!(app.config.http_access.len(), 4);
    assert_eq!(app.config.http_access[3].action, AccessAction::Deny);
    assert_eq!(app.config.http_access[3].acl_refs[0].to_string(), "!sites");
    assert_eq!(app.access_table_state.selected(), Some(3));
}

#[test]
fn rules_move_up_and_down() {
    let mut app = sample();
    press(&mut app, KeyCode::Tab);
    press(&mut app, KeyCode::Char('J'));
    assert_eq!(app.access_table_state.selected(), Some(1));
    assert_eq!(app.config.http_access[0].acl_refs[0].name, "lan");
    assert_eq!(app.config.http_access[1].acl_refs[0].name, "sites");
    press(&mut app, KeyCode::Char('J'));
    press(&mut app, KeyCode::Char('J'));
    assert_eq!(app.access_table_state.selected(), Some(2));
    assert_eq!(app.config.http_access[2].acl_refs[0].name, "sites");
    press(&mut app, KeyCode::Char('u'));
    assert_eq!(app.access_table_state.selected(), Some(1));
    assert_eq!(app.config.http_access[1].acl_refs[0].name, "sites");
}

#[test]
fn stale_selection_after_undo_is_reported() {
    let mut app = sample();
    press(&mut app, KeyCode::BackTab);
    assert_eq!(app.tab, Tab::Direct);
    press(&mut app, KeyCode::Char('a'));
    press(&mut app, KeyCode::Tab);
    press(&mut app, KeyCode::Enter);
    press(&mut app, KeyCode::F(2));
    assert_eq!(app.status_message.as_deref(), Some("always_direct rule saved"));
    assert_eq!(app.always_direct_state.selected(), Some(1));
    ctrl(&mut app, 'z');
    assert_eq!(app.config.always_direct.len(), 1);
    assert!(app.targets_missing_entry(Key::plain(KeyCode::Char('J'))));
    assert!(!app.targets_missing_entry(Key::plain(KeyCode::Char('j'))));
    press(&mut app, KeyCode::Char('k'));
    assert_eq!(app.always_direct_state.selected(), Some(0));
    assert!(!app.targets_missing_entry(Key::plain(KeyCode::Char('J'))));
}

#[test]
fn quitting_asks_when_dirty() {
    let mut app = sample();
    press(&mut app, KeyCode::Char('q'));
    assert!(app.should_quit);
    let mut app = sample();
    app.dirty = true;
    ctrl(&mut app, 'q');
    assert_eq!(app.screen, Screen::ConfirmQuit);
    press(&mut app, KeyCode::Char('n'));
    assert_eq!(app.screen, Screen::List);
    assert!(!app.should_quit);
    press(&mut app, KeyCode::Char('q'));
    press(&mut app, KeyCode::Char('Y'));
    assert!(app.should_quit);
}

#[test]
fn saving_reports_the_outcome() {
    let mut app = sample();
    app.dirty = true;
    assert_eq!(ctrl(&mut app, 's'), Action::Save);
    app.finish_save(SaveOutcome::BackupFailed { error: "denied".to_string() });
    assert_eq!(app.status_message.as_deref(), Some("Backup failed: denied"));
    assert!(app.dirty);
    app.finish_save(SaveOutcome::WriteFailed { error: "disk full".to_string() });
    assert_eq!(app.status_message.as_deref(), Some("Error saving: disk full"));
    app.finish_save(SaveOutcome::Saved);
    assert_eq!(app.status_message.as_deref(), Some("Saved to /tmp/squid.conf"));
    assert!(!app.dirty);
    app.clear_status();
    assert_eq!(app.status_message, None);
}

#[test]
fn menu_bar_navigation() {
    let mut app = sample();
    let menus = app.menu_items();
    assert_eq!(menus.len(), 4);
    assert_eq!(menus[1].0, "Edit");
    assert_eq!(menus[1].1[4], ("Delete", "d"));
    press(&mut app, KeyCode::F(9));
    assert!(app.menu_active);
    press(&mut app, KeyCode::Left);
    assert_eq!(app.menu_index, 3);
    press(&mut app, KeyCode::Right);
    press(&mut app, KeyCode::Right);
    press(&mut app, KeyCode::Right);
    assert_eq!(app.menu_index, 2);
    press(&mut app, KeyCode::Up);
    assert_eq!(app.menu_item, 3);
    press(&mut app, KeyCode::Down);
    assert_eq!(app.menu_item, 0);
    press(&mut app, KeyCode::Down);
    assert_eq!(press(&mut app, KeyCode::Enter), Action::Nothing);
    assert!(!app.menu_active);
    assert_eq!(app.tab, Tab::Auth);
    press(&mut app, KeyCode::F(9));
    assert_eq!(press(&mut app, KeyCode::Enter), Action::Save);
    press(&mut app, KeyCode::F(9));
    press(&mut app, KeyCode::Esc);
    assert!(!app.menu_active);
}

#[test]
fn help_takes_keys_until_closed() {
    let mut app = sample();
    press(&mut app, KeyCode::Char('?'));
    assert!(app.help_visible);
    press(&mut app, KeyCode::Char('j'));
    assert_eq!(app.acl_table_state.selected(), Some(0));
    press(&mut app, KeyCode::F(1));
    assert!(!app.help_visible);
    press(&mut app, KeyCode::Char('j'));
    assert_eq!(app.acl_table_state.selected(), Some(1));
}

#[test]
fn status_serial_counts_messages() {
    let mut app = sample();
    assert_eq!(app.status_serial, 0);
    app.set_status("one".to_string());
    app.set_status("one".to_string());
    assert_eq!(app.status_serial, 2);
    assert_eq!(app.status_message.as_deref(), Some("one"));
}

#[test]
fn moved_rule_comes_back_with_undo() {
    let mut app = sample();
    press(&mut app, KeyCode::Tab);
    press(&mut app, KeyCode::Char('J'));
    assert_eq!(app.config.http_access[0].acl_refs[0].name, "lan");
    ctrl(&mut app, 'z');
    assert_eq!(app.config.http_access[0].acl_refs[0].name, "sites");
    assert_eq!(app.config.http_access[1].acl_refs[0].name, "lan");
    ctrl(&mut app, 'y');
    assert_eq!(app.config.http_access[0].acl_refs[0].name, "lan");
}

#[test]
fn undo_works_inside_a_form() {
    let mut app = sample();
    press(&mut app, KeyCode::Char('d'));
    press(&mut app, KeyCode::Char('y'));
    assert_eq!(app.config.acls.len(), 1);
    press(&mut app, KeyCode::Char('a'));
    typed(&mut app, "x");
    ctrl(&mut app, 'z');
    assert_eq!(app.config.acls.len(), 2);
    assert_eq!(app.screen, Screen::AclEdit { index: None });
    assert_eq!(app.edit_name.value(), "x");
}

#[test]
fn saving_an_edit_of_an_undone_entry_is_reported() {
    let mut app = sample();
    press(&mut app, KeyCode::Char('a'));
    typed(&mut app, "n");
    press(&mut app, KeyCode::Tab);
    press(&mut app, KeyCode::Tab);
    typed(&mut app, "1.2.3.4");
    press(&mut app, KeyCode::F(2));
    assert_eq!(app.config.acls.len(), 3);
    press(&mut app, KeyCode::Char('e'));
    assert_eq!(app.screen, Screen::AclEdit { index: Some(2) });
    ctrl(&mut app, 'z');
    assert_eq!(app.config.acls.len(), 2);
    assert!(app.targets_missing_entry(Key::plain(KeyCode::F(2))));
    press(&mut app, KeyCode::Esc);
    assert_eq!(app.screen, Screen::List);
}

#[test]
fn help_toggles_on_the_auth_form() {
    let mut app = sample();
    press(&mut app, KeyCode::Esc);
    assert_eq!(app.tab, Tab::Auth);
    press(&mut app, KeyCode::Char('?'));
    assert!(app.help_visible);
    press(&mut app, KeyCode::F(1));
    assert!(!app.help_visible);
    press(&mut app, KeyCode::F(1));
    assert!(app.help_visible);
    press(&mut app, KeyCode::Char('?'));
    assert!(!app.help_visible);
    assert_eq!(app.auth_program.value(), "");
}

#[test]
fn shift_tab_switches_rule_form_fields() {
    let mut app = sample();
    press(&mut app, KeyCode::Tab);
    press(&mut app, KeyCode::Char('a'));
    assert_eq!(app.edit_field, InputField::Action);
    press(&mut app, KeyCode::BackTab);
    assert_eq!(app.edit_field, InputField::AclPicker);
    press(&mut app, KeyCode::BackTab);
    assert_eq!(app.edit_field, InputField::Action);
}

#[test]
fn history_operations_directly() {
    let mut app = sample();
    app.snapshot();
    assert_eq!(app.undo_stack.len(), 1);
    assert!(app.redo_stack.is_empty());
    app.config.acls.clear();
    app.undo();
    assert_eq!(app.config.acls.len(), 2);
    assert!(app.dirty);
    assert_eq!(app.redo_stack.len(), 1);
    app.redo();
    assert!(app.config.acls.is_empty());
    assert_eq!(app.undo_stack.len(), 1);
    app.redo();
    assert!(app.config.acls.is_empty());
    for _ in 0..(UNDO_LIMIT + 5) {
        app.snapshot();
    }
    assert_eq!(app.undo_stack.len(), UNDO_LIMIT);
}
