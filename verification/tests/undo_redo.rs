use level_editor::editor::Editor;
use level_editor::types::Action;
use level_editor::types::HashableVec2;
use level_editor::types::Mode;
use level_editor::types::SpriteUV;

fn cell(x: i64, y: i64) -> HashableVec2 {
    HashableVec2 { x, y }
}

fn uv(row: i64, col: i64) -> SpriteUV {
    SpriteUV { row, col, num_rows: 10, num_cols: 10 }
}

fn editor_with_brush(brush: SpriteUV) -> Editor {
    let mut editor = Editor::new();
    editor.set_selected_uv(brush);
    editor
}

#[test]
fn paint_then_undo_restores_empty_layer() {
    let mut editor = editor_with_brush(uv(0, 0));
    editor.handle_plot_clicks(cell(0, 0), true, false, false);
    assert_eq!(editor.background().get(cell(0, 0)), Some(&uv(0, 0)));
    assert_eq!(editor.undo_queue().len(), 1);
    editor.handle_undo_redo(true);
    assert!(editor.background().is_empty());
    assert_eq!(editor.undo_queue().len(), 0);
    assert_eq!(editor.redo_queue().len(), 1);
}

#[test]
fn second_undo_on_empty_log_is_noop() {
    let mut editor = editor_with_brush(uv(0, 0));
    editor.handle_plot_clicks(cell(0, 0), true, false, false);
    editor.handle_undo_redo(true);
    editor.handle_undo_redo(true);
    assert!(editor.background().is_empty());
    assert!(editor.foreground().is_empty());
    assert!(editor.collision().is_empty());
    assert!(editor.entities().is_empty());
    assert_eq!(editor.undo_queue().len(), 0);
    assert_eq!(editor.redo_queue().len(), 1);
}

#[test]
fn redo_on_empty_log_is_noop() {
    let mut editor = editor_with_brush(uv(0, 0));
    editor.handle_plot_clicks(cell(1, 1), true, false, false);
    editor.handle_undo_redo(false);
    assert_eq!(editor.background().get(cell(1, 1)), Some(&uv(0, 0)));
    assert_eq!(editor.undo_queue().len(), 1);
    assert_eq!(editor.redo_queue().len(), 0);
}

#[test]
fn redo_after_undo_restores_painted_cell() {
    let mut editor = editor_with_brush(uv(10, 20));
    editor.handle_plot_clicks(cell(5, -7), true, false, false);
    editor.handle_undo_redo(true);
    editor.handle_undo_redo(false);
    assert_eq!(editor.background().get(cell(5, -7)), Some(&uv(10, 20)));
    assert_eq!(
        editor.undo_queue()[0],
        Action::ClickBackground(cell(5, -7), uv(10, 20), None, false)
    );
    assert_eq!(editor.redo_queue().len(), 0);
}

#[test]
fn click_on_occupied_cell_erases_and_undo_puts_sprite_back() {
    let mut editor = editor_with_brush(uv(10, 20));
    editor.handle_plot_clicks(cell(2, 2), true, false, false);
    editor.set_selected_uv(uv(30, 40));
    editor.handle_plot_clicks(cell(2, 2), true, false, false);
    assert!(editor.background().is_empty());
    assert_eq!(
        editor.undo_queue()[1],
        Action::ClickBackground(cell(2, 2), uv(30, 40), Some(uv(10, 20)), false)
    );
    editor.handle_undo_redo(true);
    assert_eq!(editor.background().get(cell(2, 2)), Some(&uv(10, 20)));
    editor.handle_undo_redo(false);
    assert!(editor.background().is_empty());
    editor.handle_undo_redo(true);
    assert_eq!(editor.background().get(cell(2, 2)), Some(&uv(10, 20)));
}

#[test]
fn drag_overwrites_and_undo_redo_swap_sprites() {
    let mut editor = editor_with_brush(uv(10, 20));
    editor.set_current_mode(Mode::DrawForeground);
    editor.handle_plot_clicks(cell(2, 2), false, false, true);
    assert_eq!(
        editor.undo_queue()[0],
        Action::ClickForeground(cell(2, 2), uv(10, 20), None, true)
    );
    editor.set_selected_uv(uv(30, 40));
    editor.handle_plot_clicks(cell(2, 2), false, false, true);
    assert_eq!(editor.foreground().get(cell(2, 2)), Some(&uv(30, 40)));
    assert_eq!(
        editor.undo_queue()[1],
        Action::ClickForeground(cell(2, 2), uv(30, 40), Some(uv(10, 20)), true)
    );
    editor.handle_undo_redo(true);
    assert_eq!(editor.foreground().get(cell(2, 2)), Some(&uv(10, 20)));
    assert_eq!(
        editor.redo_queue()[0],
        Action::ClickForeground(cell(2, 2), uv(10, 20), Some(uv(30, 40)), true)
    );
    editor.handle_undo_redo(false);
    assert_eq!(editor.foreground().get(cell(2, 2)), Some(&uv(30, 40)));
    assert_eq!(
        editor.undo_queue()[1],
        Action::ClickForeground(cell(2, 2), uv(30, 40), Some(uv(10, 20)), true)
    );
    assert!(editor.background().is_empty());
}

#[test]
fn drag_with_same_sprite_logs_nothing() {
    let mut editor = editor_with_brush(uv(10, 20));
    editor.handle_plot_clicks(cell(2, 2), false, false, true);
    editor.handle_undo_redo(true);
    editor.handle_undo_redo(false);
    assert_eq!(editor.undo_queue().len(), 1);
    editor.handle_plot_clicks(cell(2, 2), false, false, true);
    assert_eq!(editor.undo_queue().len(), 1);
    assert_eq!(editor.background().len(), 1);
    assert_eq!(editor.background().get(cell(2, 2)), Some(&uv(10, 20)));
}

#[test]
fn drag_with_same_sprite_keeps_redo_log() {
    let mut editor = editor_with_brush(uv(10, 20));
    editor.handle_plot_clicks(cell(2, 2), false, false, true);
    editor.handle_plot_clicks(cell(3, 2), false, false, true);
    editor.handle_undo_redo(true);
    assert_eq!(editor.redo_queue().len(), 1);
    editor.handle_plot_clicks(cell(2, 2), false, false, true);
    assert_eq!(editor.redo_queue().len(), 1);
    assert_eq!(editor.undo_queue().len(), 1);
}

#[test]
fn new_edit_after_undo_discards_redo() {
    let mut editor = editor_with_brush(uv(10, 20));
    editor.handle_plot_clicks(cell(0, 0), true, false, false);
    editor.handle_plot_clicks(cell(1, 0), true, false, false);
    editor.handle_undo_redo(true);
    assert_eq!(editor.redo_queue().len(), 1);
    editor.handle_plot_clicks(cell(2, 0), true, false, false);
    assert_eq!(editor.redo_queue().len(), 0);
    editor.handle_undo_redo(false);
    assert_eq!(editor.background().len(), 2);
    assert!(editor.background().contains(cell(0, 0)));
    assert!(!editor.background().contains(cell(1, 0)));
    assert!(editor.background().contains(cell(2, 0)));
    assert_eq!(editor.undo_queue().len(), 2);
}

#[test]
fn undo_redo_cycle_repeats() {
    let mut editor = editor_with_brush(uv(10, 20));
    editor.set_current_mode(Mode::Entity);
    editor.handle_plot_clicks(cell(4, 4), true, false, false);
    editor.handle_entity_popup("guard", false, false, true);
    assert_eq!(editor.entities().get(cell(4, 4)), Some(&"guard".to_string()));
    editor.handle_undo_redo(true);
    assert!(editor.entities().is_empty());
    assert!(!editor.entity_descriptions().contains(&"guard".to_string()));
    assert_eq!(
        editor.redo_queue()[0],
        Action::ClickEntity(cell(4, 4), Some("guard".to_string()))
    );
    editor.handle_undo_redo(false);
    assert_eq!(editor.entities().get(cell(4, 4)), Some(&"guard".to_string()));
    assert!(editor.entity_descriptions().contains(&"guard".to_string()));
    assert_eq!(
        editor.undo_queue()[0],
        Action::ClickEntity(cell(4, 4), Some("guard".to_string()))
    );
    editor.handle_undo_redo(true);
    assert!(editor.entities().is_empty());
    assert_eq!(editor.redo_queue().len(), 1);
    assert_eq!(editor.undo_queue().len(), 0);
    editor.handle_undo_redo(false);
    assert_eq!(editor.entities().get(cell(4, 4)), Some(&"guard".to_string()));
    assert_eq!(editor.redo_queue().len(), 0);
    assert_eq!(editor.undo_queue().len(), 1);
}

#[test]
fn collision_toggled_twice_is_unchanged_and_two_undos_restore() {
    let mut editor = Editor::new();
    editor.set_current_mode(Mode::Collision);
    editor.handle_plot_clicks(cell(9, 9), true, false, false);
    assert!(editor.collision().contains(cell(9, 9)));
    let depth = editor.undo_queue().len();
    editor.handle_plot_clicks(cell(1, 2), true, false, false);
    assert!(editor.collision().contains(cell(1, 2)));
    editor.handle_plot_clicks(cell(1, 2), true, false, false);
    assert!(!editor.collision().contains(cell(1, 2)));
    assert!(editor.collision().contains(cell(9, 9)));
    assert_eq!(editor.undo_queue().len(), depth + 2);
    editor.handle_undo_redo(true);
    assert!(editor.collision().contains(cell(1, 2)));
    editor.handle_undo_redo(true);
    assert!(!editor.collision().contains(cell(1, 2)));
    assert!(editor.collision().contains(cell(9, 9)));
    assert_eq!(editor.collision().len(), 1);
    assert_eq!(editor.undo_queue().len(), depth);
    assert_eq!(editor.redo_queue().len(), 2);
}

#[test]
fn collision_drag_adds_once() {
    let mut editor = Editor::new();
    editor.set_current_mode(Mode::Collision);
    editor.handle_plot_clicks(cell(1, 2), false, false, true);
    editor.handle_plot_clicks(cell(1, 2), false, false, true);
    assert!(editor.collision().contains(cell(1, 2)));
    assert_eq!(editor.undo_queue().len(), 1);
    assert_eq!(editor.undo_queue()[0], Action::ClickCollision(cell(1, 2)));
}

#[test]
fn deleted_entity_comes_back_on_undo() {
    let mut editor = Editor::new();
    editor.set_current_mode(Mode::Entity);
    editor.handle_plot_clicks(cell(4, 4), true, false, false);
    editor.handle_entity_popup("door", true, false, false);
    editor.handle_plot_clicks(cell(4, 4), true, false, false);
    assert!(editor.entities().is_empty());
    assert!(!editor.entity_descriptions().contains(&"door".to_string()));
    assert!(!editor.show_entity_popup());
    assert_eq!(
        editor.undo_queue()[1],
        Action::ClickEntity(cell(4, 4), Some("door".to_string()))
    );
    editor.handle_undo_redo(true);
    assert_eq!(editor.entities().get(cell(4, 4)), Some(&"door".to_string()));
    assert!(editor.entity_descriptions().contains(&"door".to_string()));
    assert_eq!(editor.entity_descriptions().len(), 1);
}

#[test]
fn clear_empties_layers_and_logs() {
    let mut editor = editor_with_brush(uv(10, 20));
    editor.handle_plot_clicks(cell(0, 0), true, false, false);
    editor.handle_plot_clicks(cell(1, 0), true, false, false);
    editor.handle_undo_redo(true);
    editor.set_current_mode(Mode::Collision);
    editor.handle_plot_clicks(cell(1, 0), true, false, false);
    editor.request_clear();
    assert!(editor.show_clear_confirmation());
    editor.clear();
    assert!(editor.background().is_empty());
    assert!(editor.collision().is_empty());
    assert_eq!(editor.undo_queue().len(), 0);
    assert_eq!(editor.redo_queue().len(), 0);
    assert!(!editor.show_clear_confirmation());
    assert_eq!(editor.current_mode(), Mode::Collision);
    assert_eq!(editor.selected_uv(), Some(uv(10, 20)));
}
