use command_surfer::command_list::sort_command_list as sort_commands;
use command_surfer::selection::{
    clamp_selection, move_down, move_up, scroll_offset, viewport_height, visible_range,
};
use command_surfer::{
    build_command_list, filter_commands, get_package_manager_prefix, package_manager_prefix,
    Action, Key, ManifestError, Mode, PackageJson, Picker, Row,
};
use tempfile::tempdir;

fn strings(items: &[&str]) -> Vec<String> {
    items.iter().map(|s| s.to_string()).collect()
}

fn manifest(names: &[&str]) -> PackageJson {
    let commands = ["x", "y", "z"];
    PackageJson {
        name: None,
        version: None,
        description: None,
        author: None,
        scripts: Some(
            names
                .iter()
                .enumerate()
                .map(|(i, n)| (n.to_string(), commands[i % 3].to_string()))
                .collect(),
        ),
        dependencies: None,
    }
}

fn npm_list() -> Vec<String> {
    strings(&["npm run build", "npm run start", "npm run test"])
}

fn type_keys(picker: &mut Picker, text: &str) {
    for c in text.chars() {
        assert_eq!(picker.handle_key(Key::Char(c)), Action::Stay);
    }
}

#[test]
fn npm_manifest_without_lockfiles() {
    let dir = tempdir().expect("temp dir");
    let prefix = get_package_manager_prefix(dir.path());
    assert_eq!(prefix, "npm run");
    let list = build_command_list(&manifest(&["test", "build", "start"]), prefix);
    assert_eq!(list, Ok(npm_list()));
}

#[test]
fn yarn_manifest_with_yarn_lock() {
    let dir = tempdir().expect("temp dir");
    let _lock = tempfile::Builder::new()
        .prefix("yarn.lock")
        .rand_bytes(0)
        .tempfile_in(dir.path())
        .expect("lock file");
    let prefix = get_package_manager_prefix(dir.path());
    assert_eq!(prefix, "yarn");
    let list = build_command_list(&manifest(&["start", "test", "build"]), prefix);
    assert_eq!(list, Ok(strings(&["yarn build", "yarn start", "yarn test"])));
}

#[test]
fn prefix_precedence_from_flags() {
    assert_eq!(package_manager_prefix(true, true), "yarn");
    assert_eq!(package_manager_prefix(true, false), "yarn");
    assert_eq!(package_manager_prefix(false, true), "pnpm run");
    assert_eq!(package_manager_prefix(false, false), "npm run");
}

#[test]
fn build_without_script_table_is_an_error() {
    let mut m = manifest(&[]);
    m.scripts = None;
    assert_eq!(
        build_command_list(&m, "npm run"),
        Err(ManifestError::MissingScripts)
    );
}

#[test]
fn build_with_empty_script_table_is_empty() {
    assert_eq!(build_command_list(&manifest(&[]), "npm run"), Ok(vec![]));
}

#[test]
fn build_sorts_case_insensitively() {
    let list = build_command_list(&manifest(&["Zeta", "alpha", "Beta"]), "npm run");
    assert_eq!(
        list,
        Ok(strings(&["npm run alpha", "npm run Beta", "npm run Zeta"]))
    );
}

#[test]
fn sorted_list_is_non_decreasing_ignoring_case() {
    let sorted = sort_commands(strings(&["b", "C", "a", "B", "c", "A", "Ä", "ab"]));
    for pair in sorted.windows(2) {
        assert!(pair[0].to_lowercase() <= pair[1].to_lowercase());
    }
    assert_eq!(sorted.len(), 8);
}

#[test]
fn sort_ties_broken_by_exact_text() {
    let sorted = sort_commands(strings(&["b", "a", "B", "A"]));
    assert_eq!(sorted, strings(&["A", "a", "B", "b"]));
}

#[test]
fn filter_st_keeps_start_and_test() {
    assert_eq!(
        filter_commands(&npm_list(), "st"),
        strings(&["npm run start", "npm run test"])
    );
}

#[test]
fn filter_is_case_sensitive_substring() {
    let list = strings(&["npm run Build", "npm run build", "npm run rebuild"]);
    assert_eq!(
        filter_commands(&list, "build"),
        strings(&["npm run build", "npm run rebuild"])
    );
    assert_eq!(filter_commands(&list, "xyz"), Vec::<String>::new());
    assert_eq!(filter_commands(&list, "npm run rebuild!"), Vec::<String>::new());
}

#[test]
fn filter_results_contain_text_and_keep_order() {
    let list = strings(&["alpha", "beta", "gamma", "delta", "alphabet"]);
    for f in ["a", "al", "ta", "mm", "", "z"] {
        let kept = filter_commands(&list, f);
        let mut pos = 0;
        for item in &kept {
            assert!(item.contains(f));
            let found = list[pos..].iter().position(|x| x == item).expect("in list");
            pos += found + 1;
        }
    }
}

#[test]
fn empty_filter_twice_gives_the_list() {
    let list = strings(&["b", "a", "c"]);
    assert_eq!(filter_commands(&filter_commands(&list, ""), ""), list);
}

#[test]
fn moves_wrap_and_stay_in_range() {
    assert_eq!(move_up(0, 3), 2);
    assert_eq!(move_down(2, 3), 0);
    assert_eq!(move_up(2, 3), 1);
    assert_eq!(move_down(0, 3), 1);
    assert_eq!(move_up(0, 0), 0);
    assert_eq!(move_down(0, 0), 0);
    let mut index = 0;
    for step in 0..50 {
        index = if step % 3 == 0 { move_up(index, 4) } else { move_down(index, 4) };
        assert!(index < 4);
    }
}

#[test]
fn clamp_keeps_highlight_inside() {
    assert_eq!(clamp_selection(5, 3), 2);
    assert_eq!(clamp_selection(1, 3), 1);
    assert_eq!(clamp_selection(4, 0), 0);
}

#[test]
fn viewport_and_scroll_window() {
    assert_eq!(viewport_height(24), 23);
    assert_eq!(viewport_height(1), 1);
    assert_eq!(viewport_height(0), 1);
    assert_eq!(viewport_height(-5), 1);
    assert_eq!(scroll_offset(2, 3), 0);
    assert_eq!(scroll_offset(3, 3), 1);
    assert_eq!(scroll_offset(9, 1), 9);
    assert_eq!(visible_range(0, 10, 4), (0, 4));
    assert_eq!(visible_range(6, 10, 4), (3, 7));
    assert_eq!(visible_range(1, 2, 4), (0, 2));
}

#[test]
fn navigation_keys() {
    let mut picker = Picker::new(npm_list());
    assert_eq!(picker.mode(), Mode::Navigation);
    assert_eq!(picker.highlighted_index(), Some(0));
    assert_eq!(picker.handle_key(Key::Char('w')), Action::Stay);
    assert_eq!(picker.highlighted_index(), Some(2));
    assert_eq!(picker.handle_key(Key::Char('s')), Action::Stay);
    assert_eq!(picker.highlighted_index(), Some(0));
    picker.handle_key(Key::Char('s'));
    assert_eq!(
        picker.handle_key(Key::Char('\n')),
        Action::Run("npm run start".to_string())
    );
    assert_eq!(picker.handle_key(Key::Char('x')), Action::Stay);
    assert_eq!(picker.handle_key(Key::Other), Action::Stay);
    assert_eq!(picker.handle_key(Key::Char('q')), Action::Quit);
}

#[test]
fn typing_st_filters_the_view() {
    let mut picker = Picker::new(npm_list());
    picker.handle_key(Key::Char('s'));
    assert_eq!(picker.handle_key(Key::Char('f')), Action::Stay);
    assert_eq!(picker.mode(), Mode::FilterEntry);
    assert_eq!(picker.highlighted_index(), Some(0));
    type_keys(&mut picker, "st");
    assert_eq!(picker.filter_text(), "st");
    assert_eq!(
        picker.visible_commands(),
        &strings(&["npm run start", "npm run test"])
    );
    assert_eq!(
        picker.handle_key(Key::Char('\n')),
        Action::Run("npm run start".to_string())
    );
}

#[test]
fn filter_mode_edits() {
    let mut picker = Picker::new(npm_list());
    picker.handle_key(Key::Char('f'));
    type_keys(&mut picker, "q w");
    assert_eq!(picker.filter_text(), "q w");
    assert_eq!(picker.handle_key(Key::Char('-')), Action::Stay);
    assert_eq!(picker.filter_text(), "q w");
    picker.handle_key(Key::Char('é'));
    assert_eq!(picker.filter_text(), "q wé");
    picker.handle_key(Key::Backspace);
    assert_eq!(picker.filter_text(), "q w");
    picker.handle_key(Key::Delete);
    assert_eq!(picker.filter_text(), "q ");
    picker.handle_key(Key::Char('\x7f'));
    assert_eq!(picker.filter_text(), "q");
    picker.handle_key(Key::Backspace);
    picker.handle_key(Key::Backspace);
    assert_eq!(picker.filter_text(), "");
    assert_eq!(picker.visible_commands(), &npm_list());
    assert_eq!(picker.handle_key(Key::Other), Action::Stay);
}

#[test]
fn escape_clears_filter_and_returns_to_navigation() {
    let mut picker = Picker::new(npm_list());
    picker.handle_key(Key::Char('f'));
    type_keys(&mut picker, "test");
    assert_eq!(picker.visible_commands(), &strings(&["npm run test"]));
    assert_eq!(picker.handle_key(Key::Char('\x1b')), Action::Stay);
    assert_eq!(picker.mode(), Mode::Navigation);
    assert_eq!(picker.filter_text(), "");
    assert_eq!(picker.visible_commands(), &npm_list());
}

#[test]
fn confirm_on_empty_view_runs_nothing() {
    let mut picker = Picker::new(npm_list());
    picker.handle_key(Key::Char('f'));
    type_keys(&mut picker, "zzz");
    assert!(picker.visible_commands().is_empty());
    assert_eq!(picker.highlighted_index(), None);
    assert_eq!(picker.handle_key(Key::Char('\n')), Action::Stay);
    assert_eq!(picker.mode(), Mode::FilterEntry);

    let mut empty = Picker::new(vec![]);
    assert_eq!(empty.handle_key(Key::Char('w')), Action::Stay);
    assert_eq!(empty.handle_key(Key::Char('s')), Action::Stay);
    assert_eq!(empty.handle_key(Key::Char('\n')), Action::Stay);
    assert_eq!(empty.highlighted_index(), None);
}

#[test]
fn filter_edit_reclamps_highlight() {
    let mut picker = Picker::new(strings(&["a1", "a2", "b1", "b2"]));
    picker.handle_key(Key::Char('f'));
    picker.handle_key(Key::Char('2'));
    assert_eq!(picker.visible_commands(), &strings(&["a2", "b2"]));
    picker.handle_key(Key::Backspace);
    assert_eq!(picker.visible_commands().len(), 4);
    let mut picker = Picker::new(strings(&["a1", "a2", "b1", "b2"]));
    picker.handle_key(Key::Char('w'));
    assert_eq!(picker.highlighted_index(), Some(3));
    picker.append_filter_char('b');
    assert_eq!(picker.visible_commands(), &strings(&["b1", "b2"]));
    assert_eq!(picker.highlighted_index(), Some(1));
    picker.append_filter_char('2');
    assert_eq!(picker.highlighted_index(), Some(0));
    picker.append_filter_char('9');
    assert!(picker.visible_commands().is_empty());
    assert_eq!(picker.highlighted_index(), None);
    picker.remove_filter_char();
    assert_eq!(picker.highlighted_index(), Some(0));
}

#[test]
fn rows_follow_the_highlight() {
    let mut picker = Picker::new(strings(&["a", "b", "c", "d", "e"]));
    let rows = picker.rows(2);
    assert_eq!(
        rows,
        vec![
            Row { text: "a".to_string(), highlighted: true },
            Row { text: "b".to_string(), highlighted: false },
        ]
    );
    picker.handle_key(Key::Char('s'));
    picker.handle_key(Key::Char('s'));
    picker.handle_key(Key::Char('s'));
    let rows = picker.rows(2);
    assert_eq!(
        rows,
        vec![
            Row { text: "c".to_string(), highlighted: false },
            Row { text: "d".to_string(), highlighted: true },
        ]
    );
    assert_eq!(picker.rows(10).len(), 5);
    assert!(Picker::new(vec![]).rows(3).is_empty());
}
