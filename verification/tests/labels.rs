use level_editor::editor::Editor;
use level_editor::types::Action;
use level_editor::types::HashableVec2;
use level_editor::types::Mode;

fn cell(x: i64, y: i64) -> HashableVec2 {
    HashableVec2 { x, y }
}

fn entity_editor() -> Editor {
    let mut editor = Editor::new();
    editor.set_current_mode(Mode::Entity);
    editor
}

fn add_entity(editor: &mut Editor, at: HashableVec2, label: &str) {
    editor.handle_plot_clicks(at, true, false, false);
    editor.handle_entity_popup(label, false, false, true);
}

#[test]
fn click_on_empty_cell_opens_label_editor() {
    let mut editor = entity_editor();
    editor.handle_plot_clicks(cell(3, 3), true, false, false);
    assert!(editor.show_entity_popup());
    assert_eq!(editor.selected_entity(), Some(cell(3, 3)));
    assert_eq!(editor.entities().get(cell(3, 3)), Some(&String::new()));
    assert_eq!(editor.prev_entity_description(), "");
    assert_eq!(editor.undo_queue()[0], Action::ClickEntity(cell(3, 3), None));
    assert_eq!(editor.entity_descriptions().len(), 0);
}

#[test]
fn entity_drag_does_nothing() {
    let mut editor = entity_editor();
    editor.handle_plot_clicks(cell(3, 3), false, false, true);
    editor.handle_plot_clicks(cell(3, 3), true, false, true);
    assert!(editor.entities().is_empty());
    assert!(!editor.show_entity_popup());
    assert_eq!(editor.undo_queue().len(), 0);
}

#[test]
fn confirmed_label_is_stored_and_tracked() {
    let mut editor = entity_editor();
    add_entity(&mut editor, cell(3, 3), "chest");
    assert!(!editor.show_entity_popup());
    assert_eq!(editor.entities().get(cell(3, 3)), Some(&"chest".to_string()));
    assert!(editor.entity_descriptions().contains(&"chest".to_string()));
    assert_eq!(editor.entity_description(), "");
    assert_eq!(editor.undo_queue().len(), 1);
}

#[test]
fn typed_label_is_trimmed() {
    let mut editor = entity_editor();
    editor.handle_plot_clicks(cell(3, 3), true, false, false);
    editor.handle_entity_popup("  chest \t", false, false, false);
    assert_eq!(editor.entity_description(), "chest");
    assert!(editor.show_entity_popup());
    editor.handle_entity_popup(" chest", true, false, false);
    assert_eq!(editor.entities().get(cell(3, 3)), Some(&"chest".to_string()));
}

#[test]
fn empty_label_is_rejected() {
    let mut editor = entity_editor();
    editor.handle_plot_clicks(cell(3, 3), true, false, false);
    editor.handle_entity_popup("   ", true, false, true);
    assert!(editor.show_entity_popup());
    assert_eq!(editor.entities().get(cell(3, 3)), Some(&String::new()));
    assert_eq!(editor.entity_descriptions().len(), 0);
}

#[test]
fn label_used_elsewhere_is_rejected() {
    let mut editor = entity_editor();
    add_entity(&mut editor, cell(1, 1), "boss");
    editor.handle_plot_clicks(cell(2, 2), true, false, false);
    editor.handle_entity_popup("boss", false, false, true);
    assert!(editor.show_entity_popup());
    assert_eq!(editor.entity_description(), "boss");
    assert_eq!(editor.entities().get(cell(2, 2)), Some(&String::new()));
    assert_eq!(editor.entities().get(cell(1, 1)), Some(&"boss".to_string()));
    assert_eq!(editor.entity_descriptions().len(), 1);
    assert!(editor.label_used_elsewhere(&"boss".to_string(), cell(2, 2)));
    assert!(!editor.label_used_elsewhere(&"boss".to_string(), cell(1, 1)));
    assert_eq!(editor.entity_description_is_ok(), (false, cell(2, 2)));
    editor.confirm_entity();
    assert!(editor.show_entity_popup());
    assert_eq!(editor.entities().get(cell(2, 2)), Some(&String::new()));
    editor.handle_entity_popup("boss2", false, false, true);
    assert!(!editor.show_entity_popup());
    assert_eq!(editor.entities().get(cell(2, 2)), Some(&"boss2".to_string()));
    assert_eq!(editor.entity_descriptions().len(), 2);
}

#[test]
fn secondary_click_edits_existing_label() {
    let mut editor = entity_editor();
    add_entity(&mut editor, cell(1, 1), "boss");
    add_entity(&mut editor, cell(2, 2), "minion");
    editor.handle_plot_clicks(cell(1, 1), false, true, false);
    assert!(editor.show_entity_popup());
    assert_eq!(editor.entity_description(), "boss");
    assert_eq!(editor.prev_entity_description(), "boss");
    assert_eq!(editor.selected_entity(), Some(cell(1, 1)));
    assert_eq!(editor.undo_queue().len(), 2);
    assert_eq!(editor.entity_description_is_ok(), (true, cell(1, 1)));
    editor.handle_entity_popup("minion", true, false, false);
    assert!(editor.show_entity_popup());
    editor.handle_entity_popup("king", true, false, false);
    assert!(!editor.show_entity_popup());
    assert_eq!(editor.entities().get(cell(1, 1)), Some(&"king".to_string()));
    assert!(editor.entity_descriptions().contains(&"king".to_string()));
    assert!(editor.entity_descriptions().contains(&"minion".to_string()));
    assert!(!editor.entity_descriptions().contains(&"boss".to_string()));
    assert_eq!(editor.undo_queue().len(), 2);
}

#[test]
fn unchanged_label_may_be_confirmed() {
    let mut editor = entity_editor();
    add_entity(&mut editor, cell(1, 1), "boss");
    editor.handle_plot_clicks(cell(1, 1), false, true, false);
    editor.handle_entity_popup("boss", false, false, true);
    assert!(!editor.show_entity_popup());
    assert_eq!(editor.entities().get(cell(1, 1)), Some(&"boss".to_string()));
    assert!(editor.entity_descriptions().contains(&"boss".to_string()));
    assert_eq!(editor.entity_descriptions().len(), 1);
}

#[test]
fn secondary_click_on_empty_cell_does_nothing() {
    let mut editor = entity_editor();
    editor.handle_plot_clicks(cell(1, 1), false, true, false);
    assert!(!editor.show_entity_popup());
    assert!(editor.entities().is_empty());
}

#[test]
fn confirm_discards_redo() {
    let mut editor = entity_editor();
    add_entity(&mut editor, cell(1, 1), "boss");
    add_entity(&mut editor, cell(2, 2), "minion");
    editor.handle_undo_redo(true);
    assert_eq!(editor.redo_queue().len(), 1);
    editor.handle_plot_clicks(cell(1, 1), false, true, false);
    assert_eq!(editor.redo_queue().len(), 1);
    editor.handle_entity_popup("king", false, false, true);
    assert_eq!(editor.redo_queue().len(), 0);
}

#[test]
fn cancel_of_new_entity_removes_it() {
    let mut editor = entity_editor();
    editor.handle_plot_clicks(cell(1, 1), true, false, false);
    editor.handle_entity_popup("boss", false, true, false);
    assert!(!editor.show_entity_popup());
    assert!(editor.entities().is_empty());
    assert_eq!(editor.entity_description(), "");
    assert_eq!(editor.entity_descriptions().len(), 0);
    editor.handle_undo_redo(true);
    assert!(editor.entities().is_empty());
    assert_eq!(editor.redo_queue().len(), 1);
}

#[test]
fn cancel_of_edit_with_valid_text_keeps_old_label() {
    let mut editor = entity_editor();
    add_entity(&mut editor, cell(1, 1), "boss");
    editor.handle_plot_clicks(cell(1, 1), false, true, false);
    editor.handle_entity_popup("king", false, true, false);
    assert!(!editor.show_entity_popup());
    assert_eq!(editor.entities().get(cell(1, 1)), Some(&"boss".to_string()));
    assert!(editor.entity_descriptions().contains(&"boss".to_string()));
}

#[test]
fn cancel_of_edit_with_invalid_text_deletes_entity() {
    let mut editor = entity_editor();
    add_entity(&mut editor, cell(1, 1), "boss");
    add_entity(&mut editor, cell(2, 2), "minion");
    editor.handle_plot_clicks(cell(1, 1), false, true, false);
    editor.handle_entity_popup("minion", false, true, false);
    assert!(!editor.show_entity_popup());
    assert!(!editor.entities().contains(cell(1, 1)));
    assert!(editor.entities().contains(cell(2, 2)));
    assert!(editor.entity_descriptions().contains(&"boss".to_string()));
}

#[test]
fn popup_round_while_closed_does_nothing() {
    let mut editor = entity_editor();
    add_entity(&mut editor, cell(1, 1), "boss");
    editor.handle_entity_popup("king", true, true, true);
    assert_eq!(editor.entities().get(cell(1, 1)), Some(&"boss".to_string()));
    assert_eq!(editor.entity_description(), "");
}

#[test]
fn do_entity_ok_replaces_tracked_label() {
    let mut editor = entity_editor();
    add_entity(&mut editor, cell(1, 1), "boss");
    editor.handle_plot_clicks(cell(1, 1), false, true, false);
    editor.entity_popup_step("king".to_string(), false, false, false);
    editor.do_entity_ok(cell(1, 1));
    assert_eq!(editor.entities().get(cell(1, 1)), Some(&"king".to_string()));
    assert_eq!(editor.entity_descriptions().len(), 1);
    assert_eq!(editor.entity_descriptions().label_at(0), "king");
    assert!(!editor.show_entity_popup());
}

#[test]
fn undo_can_bring_back_a_label_that_is_in_use_again() {
    let mut editor = entity_editor();
    add_entity(&mut editor, cell(3, 3), "x");
    add_entity(&mut editor, cell(1, 1), "a");
    editor.handle_plot_clicks(cell(1, 1), true, false, false);
    editor.handle_plot_clicks(cell(3, 3), false, true, false);
    editor.handle_entity_popup("a", false, false, true);
    assert_eq!(editor.entities().get(cell(3, 3)), Some(&"a".to_string()));
    editor.handle_undo_redo(true);
    assert_eq!(editor.entities().get(cell(1, 1)), Some(&"a".to_string()));
    assert_eq!(editor.entities().get(cell(3, 3)), Some(&"a".to_string()));
}
