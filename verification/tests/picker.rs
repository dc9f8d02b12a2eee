use level_editor::editor::Editor;
use level_editor::side_panel::sprite_selector_cells;
use level_editor::types::ColumnOrientation;
use level_editor::types::SheetSize;
use level_editor::types::SpriteUV;
use level_editor::types::SpritesheetInfo;

fn offsets(cells: &[SpriteUV]) -> Vec<(i64, i64)> {
    cells.iter().map(|uv| (uv.row, uv.col)).collect()
}

#[test]
fn picker_walks_height_first_in_major_orientation() {
    let info = SpritesheetInfo { sprite_size: 8, num_rows: 2, num_cols: 3 };
    let sheet = SheetSize { width: 20, height: 30 };
    let cells = sprite_selector_cells(info, sheet, ColumnOrientation::Major);
    assert_eq!(
        offsets(&cells),
        vec![(0, 0), (0, 10), (0, 20), (10, 0), (10, 10), (10, 20)]
    );
    assert!(cells.iter().all(|uv| uv.num_rows == 2 && uv.num_cols == 3));
}

#[test]
fn picker_walks_width_first_in_minor_orientation() {
    let info = SpritesheetInfo { sprite_size: 8, num_rows: 2, num_cols: 3 };
    let sheet = SheetSize { width: 20, height: 30 };
    let cells = sprite_selector_cells(info, sheet, ColumnOrientation::Minor);
    assert_eq!(
        offsets(&cells),
        vec![(0, 0), (10, 0), (0, 10), (10, 10), (0, 20), (10, 20)]
    );
}

#[test]
fn picker_keeps_the_sprite_left_over_at_the_edge() {
    let info = SpritesheetInfo { sprite_size: 8, num_rows: 3, num_cols: 1 };
    let sheet = SheetSize { width: 10, height: 4 };
    let cells = sprite_selector_cells(info, sheet, ColumnOrientation::Major);
    assert_eq!(offsets(&cells), vec![(0, 0), (3, 0), (6, 0), (9, 0)]);
}

#[test]
fn picker_of_a_ten_by_ten_sheet() {
    let info = SpritesheetInfo { sprite_size: 10, num_rows: 10, num_cols: 10 };
    let sheet = SheetSize { width: 100, height: 100 };
    let cells = sprite_selector_cells(info, sheet, ColumnOrientation::Minor);
    assert_eq!(cells.len(), 100);
    assert_eq!(cells[0], info.sprite_uv(0, 0));
    assert_eq!(cells[1], info.sprite_uv(10, 0));
    assert_eq!(cells[10], info.sprite_uv(0, 10));
    assert_eq!(cells[32], info.sprite_uv(20, 30));
    assert_eq!(cells[99], info.sprite_uv(90, 90));
}

#[test]
fn picker_of_a_single_pixel() {
    let info = SpritesheetInfo { sprite_size: 8, num_rows: 1, num_cols: 1 };
    let sheet = SheetSize { width: 1, height: 1 };
    let one = sprite_selector_cells(info, sheet, ColumnOrientation::Major);
    assert_eq!(offsets(&one), vec![(0, 0)]);
}

#[test]
fn session_picker_follows_its_settings() {
    let mut editor = Editor::new();
    assert!(editor.side_panel_sprite_selector().is_empty());
    editor.set_sheet(Some(SheetSize { width: 4, height: 100 }));
    assert!(editor.side_panel_sprite_selector().is_empty());
    editor.set_spritesheet_info(SpritesheetInfo { sprite_size: 8, num_rows: 2, num_cols: 50 });
    let minor = editor.side_panel_sprite_selector();
    assert_eq!(minor.len(), 100);
    assert_eq!(offsets(&minor[..3]), vec![(0, 0), (2, 0), (0, 2)]);
    editor.set_spritesheet_col_orientation(ColumnOrientation::Major);
    let major = editor.side_panel_sprite_selector();
    assert_eq!(offsets(&major[..3]), vec![(0, 0), (0, 2), (0, 4)]);
    assert_eq!(major[99], SpriteUV { row: 2, col: 98, num_rows: 2, num_cols: 50 });
}
