use level_editor::codec::decode_level;
use level_editor::codec::encode_level;
use level_editor::codec::DecodeError;
use level_editor::codec::TileRecord;
use level_editor::cell_map::CellMap;
use level_editor::editor::Editor;
use level_editor::file::OpenError;
use level_editor::file::SaveError;
use level_editor::sets::CellSet;
use level_editor::types::HashableVec2;
use level_editor::types::Mode;
use level_editor::types::SheetSize;
use level_editor::types::SpriteUV;
use level_editor::types::SpritesheetInfo;

fn cell(x: i64, y: i64) -> HashableVec2 {
    HashableVec2 { x, y }
}

fn sheet_editor() -> Editor {
    let mut editor = Editor::new();
    editor.set_sheet(Some(SheetSize { width: 100, height: 100 }));
    editor.set_spritesheet_info(SpritesheetInfo { sprite_size: 10, num_rows: 10, num_cols: 10 });
    editor
}

fn header(len_bg: u64, len_fg: u64, len_collision: u64) -> Vec<u8> {
    let mut bytes = Vec::new();
    bytes.extend_from_slice(&len_bg.to_le_bytes());
    bytes.extend_from_slice(&len_fg.to_le_bytes());
    bytes.extend_from_slice(&len_collision.to_le_bytes());
    bytes
}

fn tile(x: i64, y: i64, row: i16, col: i16) -> Vec<u8> {
    let mut bytes = Vec::new();
    bytes.extend_from_slice(&x.to_le_bytes());
    bytes.extend_from_slice(&y.to_le_bytes());
    bytes.extend_from_slice(&row.to_le_bytes());
    bytes.extend_from_slice(&col.to_le_bytes());
    bytes
}

fn entity(x: i64, y: i64, label: &[u8]) -> Vec<u8> {
    let mut bytes = Vec::new();
    bytes.extend_from_slice(&x.to_le_bytes());
    bytes.extend_from_slice(&y.to_le_bytes());
    bytes.extend_from_slice(&(label.len() as u64).to_le_bytes());
    bytes.extend_from_slice(label);
    bytes
}

#[test]
fn saved_tile_reloads_exactly() {
    let mut editor = sheet_editor();
    let brush = editor.spritesheet_info().sprite_uv(20, 30);
    editor.set_selected_uv(brush);
    editor.handle_plot_clicks(cell(3, 4), true, false, false);
    let bytes = editor.save().unwrap();
    let mut reloaded = sheet_editor();
    assert_eq!(reloaded.open(&bytes), Ok(()));
    assert_eq!(reloaded.background().len(), 1);
    assert_eq!(
        reloaded.background().get(cell(3, 4)),
        Some(&SpriteUV { row: 20, col: 30, num_rows: 10, num_cols: 10 })
    );
    assert!(reloaded.foreground().is_empty());
    assert!(reloaded.collision().is_empty());
    assert!(reloaded.entities().is_empty());
}

#[test]
fn saved_bytes_are_exact() {
    let mut editor = sheet_editor();
    editor.set_selected_uv(editor.spritesheet_info().sprite_uv(20, 30));
    editor.handle_plot_clicks(cell(3, 4), true, false, false);
    let bytes = editor.save().unwrap();
    let expected: Vec<u8> = vec![
        20, 0, 0, 0, 0, 0, 0, 0, 0, 0, 0, 0, 0, 0, 0, 0, 0, 0, 0, 0, 0, 0, 0, 0, 3, 0, 0, 0, 0, 0,
        0, 0, 4, 0, 0, 0, 0, 0, 0, 0, 20, 0, 30, 0,
    ];
    assert_eq!(bytes, expected);
}

#[test]
fn saved_bytes_of_all_sections() {
    let mut editor = sheet_editor();
    editor.set_selected_uv(editor.spritesheet_info().sprite_uv(10, 0));
    editor.handle_plot_clicks(cell(-1, 2), true, false, false);
    editor.handle_plot_clicks(cell(5, 5), true, false, false);
    editor.set_current_mode(Mode::DrawForeground);
    editor.set_selected_uv(editor.spritesheet_info().sprite_uv(-2, 300));
    editor.handle_plot_clicks(cell(0, 0), true, false, false);
    editor.set_current_mode(Mode::Collision);
    editor.handle_plot_clicks(cell(7, -8), true, false, false);
    editor.set_current_mode(Mode::Entity);
    editor.handle_plot_clicks(cell(1, 1), true, false, false);
    editor.handle_entity_popup("h\u{e9}", false, false, true);
    let bytes = editor.save().unwrap();
    let mut expected = header(40, 20, 16);
    expected.extend(tile(-1, 2, 10, 0));
    expected.extend(tile(5, 5, 10, 0));
    expected.extend(tile(0, 0, -2, 300));
    expected.extend_from_slice(&7i64.to_le_bytes());
    expected.extend_from_slice(&(-8i64).to_le_bytes());
    expected.extend(entity(1, 1, &[0x68, 0xc3, 0xa9]));
    assert_eq!(bytes, expected);
}

#[test]
fn round_trip_of_all_layers() {
    let mut editor = sheet_editor();
    editor.set_selected_uv(editor.spritesheet_info().sprite_uv(10, 0));
    editor.handle_plot_clicks(cell(-1, 2), true, false, false);
    editor.handle_plot_clicks(cell(i64::MAX, i64::MIN), true, false, false);
    editor.set_current_mode(Mode::DrawForeground);
    editor.set_selected_uv(editor.spritesheet_info().sprite_uv(-2, 300));
    editor.handle_plot_clicks(cell(0, 0), true, false, false);
    editor.set_current_mode(Mode::Collision);
    editor.handle_plot_clicks(cell(7, -8), true, false, false);
    editor.handle_plot_clicks(cell(7, 8), true, false, false);
    editor.set_current_mode(Mode::Entity);
    editor.handle_plot_clicks(cell(1, 1), true, false, false);
    editor.handle_entity_popup("player start", false, false, true);
    editor.handle_plot_clicks(cell(2, 1), true, false, false);
    editor.handle_entity_popup("\u{1f600} exit", false, false, true);
    let bytes = editor.save().unwrap();

    let mut reloaded = sheet_editor();
    reloaded.set_selected_uv(SpriteUV { row: 1, col: 1, num_rows: 1, num_cols: 1 });
    reloaded.handle_plot_clicks(cell(99, 99), true, false, false);
    assert_eq!(reloaded.open(&bytes), Ok(()));
    assert_eq!(reloaded.background().len(), 2);
    assert_eq!(reloaded.background().get(cell(-1, 2)), editor.background().get(cell(-1, 2)));
    assert_eq!(
        reloaded.background().get(cell(i64::MAX, i64::MIN)),
        Some(&SpriteUV { row: 10, col: 0, num_rows: 10, num_cols: 10 })
    );
    assert_eq!(reloaded.foreground().len(), 1);
    assert_eq!(
        reloaded.foreground().get(cell(0, 0)),
        Some(&SpriteUV { row: -2, col: 300, num_rows: 10, num_cols: 10 })
    );
    assert_eq!(reloaded.collision().len(), 2);
    assert!(reloaded.collision().contains(cell(7, -8)));
    assert!(reloaded.collision().contains(cell(7, 8)));
    assert_eq!(reloaded.entities().len(), 2);
    assert_eq!(reloaded.entities().get(cell(1, 1)), Some(&"player start".to_string()));
    assert_eq!(reloaded.entities().get(cell(2, 1)), Some(&"\u{1f600} exit".to_string()));
    assert_eq!(reloaded.entity_descriptions().len(), 2);
    assert!(reloaded.entity_descriptions().contains(&"player start".to_string()));
    assert_eq!(reloaded.undo_queue().len(), 0);
    assert_eq!(reloaded.redo_queue().len(), 0);
    assert_eq!(reloaded.save().unwrap(), bytes);
}

#[test]
fn offsets_beyond_16_bits_are_saved_at_the_nearest_value() {
    let mut editor = sheet_editor();
    editor.set_selected_uv(editor.spritesheet_info().sprite_uv(40000, -40000));
    editor.handle_plot_clicks(cell(0, 0), true, false, false);
    let bytes = editor.save().unwrap();
    let mut expected = header(20, 0, 0);
    expected.extend(tile(0, 0, 32767, -32768));
    assert_eq!(bytes, expected);
    let mut reloaded = sheet_editor();
    assert_eq!(reloaded.open(&bytes), Ok(()));
    assert_eq!(
        reloaded.background().get(cell(0, 0)),
        Some(&SpriteUV { row: 32767, col: -32768, num_rows: 10, num_cols: 10 })
    );
}

#[test]
fn reopening_under_other_divisions_gives_other_sprites() {
    let mut editor = sheet_editor();
    editor.set_selected_uv(editor.spritesheet_info().sprite_uv(20, 30));
    editor.handle_plot_clicks(cell(3, 4), true, false, false);
    let bytes = editor.save().unwrap();
    let mut reloaded = sheet_editor();
    reloaded.set_spritesheet_info(SpritesheetInfo { sprite_size: 10, num_rows: 5, num_cols: 4 });
    assert_eq!(reloaded.open(&bytes), Ok(()));
    assert_eq!(
        reloaded.background().get(cell(3, 4)),
        Some(&SpriteUV { row: 20, col: 30, num_rows: 5, num_cols: 4 })
    );
}

#[test]
fn save_without_spritesheet_gives_no_bytes() {
    let mut editor = Editor::new();
    editor.set_selected_uv(SpriteUV { row: 0, col: 0, num_rows: 10, num_cols: 10 });
    editor.handle_plot_clicks(cell(3, 4), true, false, false);
    assert_eq!(editor.save(), Err(SaveError::NoSpritesheet));
}

#[test]
fn save_without_background_tiles_gives_no_bytes() {
    let mut editor = sheet_editor();
    editor.set_current_mode(Mode::Collision);
    editor.handle_plot_clicks(cell(3, 4), true, false, false);
    assert_eq!(editor.save(), Err(SaveError::NoBackgroundTiles));
    let empty = Editor::new();
    assert_eq!(empty.save(), Err(SaveError::NoSpritesheet));
}

#[test]
fn open_without_spritesheet_changes_nothing() {
    let mut editor = Editor::new();
    editor.set_selected_uv(SpriteUV { row: 0, col: 0, num_rows: 10, num_cols: 10 });
    editor.handle_plot_clicks(cell(3, 4), true, false, false);
    let bytes = header(0, 0, 0);
    assert_eq!(editor.open(&bytes), Err(OpenError::NoSpritesheet));
    assert_eq!(editor.background().len(), 1);
    assert_eq!(editor.undo_queue().len(), 1);
}

#[test]
fn open_of_corrupt_file_changes_nothing() {
    let mut editor = sheet_editor();
    editor.set_selected_uv(SpriteUV { row: 0, col: 0, num_rows: 10, num_cols: 10 });
    editor.handle_plot_clicks(cell(3, 4), true, false, false);
    assert_eq!(editor.open(&[1, 2, 3]), Err(OpenError::Corrupt(DecodeError::TruncatedHeader)));
    assert_eq!(editor.background().len(), 1);
    assert_eq!(editor.undo_queue().len(), 1);
    let mut bytes = header(0, 0, 0);
    bytes.extend(entity(1, 1, &[0xff, 0xfe]));
    assert_eq!(editor.open(&bytes), Err(OpenError::Corrupt(DecodeError::InvalidLabel)));
    assert_eq!(editor.background().len(), 1);
}

#[test]
fn open_clears_logs_and_popup_text() {
    let mut editor = sheet_editor();
    editor.set_selected_uv(SpriteUV { row: 0, col: 0, num_rows: 10, num_cols: 10 });
    editor.handle_plot_clicks(cell(3, 4), true, false, false);
    editor.handle_plot_clicks(cell(4, 4), true, false, false);
    editor.handle_undo_redo(true);
    assert_eq!(editor.open(&header(0, 0, 0)), Ok(()));
    assert!(editor.background().is_empty());
    assert_eq!(editor.undo_queue().len(), 0);
    assert_eq!(editor.redo_queue().len(), 0);
    assert_eq!(editor.selected_uv(), Some(SpriteUV { row: 0, col: 0, num_rows: 10, num_cols: 10 }));
}

#[test]
fn decode_empty_level() {
    let level = decode_level(&header(0, 0, 0)).unwrap();
    assert!(level.background.is_empty());
    assert!(level.foreground.is_empty());
    assert!(level.collision.is_empty());
    assert!(level.entities.is_empty());
}

#[test]
fn decode_sections_in_order() {
    let mut bytes = header(20, 40, 16);
    bytes.extend(tile(1, 2, 3, 4));
    bytes.extend(tile(-1, -2, -3, -4));
    bytes.extend(tile(10, 20, 30, 40));
    bytes.extend_from_slice(&5i64.to_le_bytes());
    bytes.extend_from_slice(&6i64.to_le_bytes());
    bytes.extend(entity(7, 8, b"npc"));
    bytes.extend(entity(9, 10, b""));
    let level = decode_level(&bytes).unwrap();
    assert_eq!(level.background, vec![TileRecord { cell: cell(1, 2), row: 3, col: 4 }]);
    assert_eq!(
        level.foreground,
        vec![
            TileRecord { cell: cell(-1, -2), row: -3, col: -4 },
            TileRecord { cell: cell(10, 20), row: 30, col: 40 },
        ]
    );
    assert_eq!(level.collision, vec![cell(5, 6)]);
    assert_eq!(level.entities, vec![(cell(7, 8), "npc".to_string()), (cell(9, 10), String::new())]);
}

#[test]
fn decode_truncated_header() {
    assert!(matches!(decode_level(&[]), Err(DecodeError::TruncatedHeader)));
    assert!(matches!(decode_level(&[0u8; 23]), Err(DecodeError::TruncatedHeader)));
    assert!(decode_level(&[0u8; 24]).is_ok());
}

#[test]
fn decode_section_out_of_range() {
    assert!(matches!(decode_level(&header(1, 0, 0)), Err(DecodeError::SectionOutOfRange)));
    assert!(matches!(decode_level(&header(0, 20, 0)), Err(DecodeError::SectionOutOfRange)));
    assert!(matches!(decode_level(&header(0, 0, 16)), Err(DecodeError::SectionOutOfRange)));
    assert!(matches!(decode_level(&header(u64::MAX, 0, 0)), Err(DecodeError::SectionOutOfRange)));
    assert!(matches!(
        decode_level(&header(u64::MAX, u64::MAX, u64::MAX)),
        Err(DecodeError::SectionOutOfRange)
    ));
    let mut bytes = header(20, 20, 0);
    bytes.extend(tile(1, 2, 3, 4));
    assert!(matches!(decode_level(&bytes), Err(DecodeError::SectionOutOfRange)));
}

#[test]
fn decode_truncated_entity() {
    let mut bytes = header(0, 0, 0);
    bytes.push(0);
    assert!(matches!(decode_level(&bytes), Err(DecodeError::TruncatedEntity)));
    let mut bytes = header(0, 0, 0);
    bytes.extend(entity(1, 1, b"abc"));
    bytes.pop();
    assert!(matches!(decode_level(&bytes), Err(DecodeError::TruncatedEntity)));
    let mut bytes = header(0, 0, 0);
    bytes.extend(entity(1, 1, b"abc"));
    bytes.extend_from_slice(&[0u8; 23]);
    assert!(matches!(decode_level(&bytes), Err(DecodeError::TruncatedEntity)));
    let mut bytes = header(0, 0, 0);
    bytes.extend_from_slice(&1i64.to_le_bytes());
    bytes.extend_from_slice(&1i64.to_le_bytes());
    bytes.extend_from_slice(&u64::MAX.to_le_bytes());
    assert!(matches!(decode_level(&bytes), Err(DecodeError::TruncatedEntity)));
}

#[test]
fn decode_invalid_label() {
    let mut bytes = header(0, 0, 0);
    bytes.extend(entity(1, 1, b"ok"));
    bytes.extend(entity(1, 2, &[0xc3]));
    assert!(matches!(decode_level(&bytes), Err(DecodeError::InvalidLabel)));
}

#[test]
fn first_bad_entity_decides_the_error() {
    let mut bytes = header(0, 0, 0);
    bytes.extend(entity(1, 2, &[0x80]));
    bytes.push(0);
    assert!(matches!(decode_level(&bytes), Err(DecodeError::InvalidLabel)));
}

#[test]
fn leftover_bytes_of_a_section_belong_to_no_record() {
    let mut bytes = header(25, 0, 17);
    bytes.extend(tile(1, 2, 3, 4));
    bytes.extend_from_slice(&[9, 9, 9, 9, 9]);
    bytes.extend_from_slice(&5i64.to_le_bytes());
    bytes.extend_from_slice(&6i64.to_le_bytes());
    bytes.push(7);
    let level = decode_level(&bytes).unwrap();
    assert_eq!(level.background, vec![TileRecord { cell: cell(1, 2), row: 3, col: 4 }]);
    assert_eq!(level.collision, vec![cell(5, 6)]);
    assert!(level.entities.is_empty());
}

#[test]
fn later_record_of_a_cell_replaces_earlier_one() {
    let mut bytes = header(40, 0, 32);
    bytes.extend(tile(1, 2, 3, 4));
    bytes.extend(tile(1, 2, 5, 6));
    bytes.extend_from_slice(&5i64.to_le_bytes());
    bytes.extend_from_slice(&6i64.to_le_bytes());
    bytes.extend_from_slice(&5i64.to_le_bytes());
    bytes.extend_from_slice(&6i64.to_le_bytes());
    bytes.extend(entity(7, 8, b"first"));
    bytes.extend(entity(7, 8, b"second"));
    let mut editor = sheet_editor();
    assert_eq!(editor.open(&bytes), Ok(()));
    assert_eq!(editor.background().len(), 1);
    assert_eq!(
        editor.background().get(cell(1, 2)),
        Some(&SpriteUV { row: 5, col: 6, num_rows: 10, num_cols: 10 })
    );
    assert_eq!(editor.collision().len(), 1);
    assert_eq!(editor.entities().len(), 1);
    assert_eq!(editor.entities().get(cell(7, 8)), Some(&"second".to_string()));
    assert_eq!(editor.entity_descriptions().len(), 1);
    assert!(editor.entity_descriptions().contains(&"second".to_string()));
}

#[test]
fn encode_level_of_plain_layers() {
    let mut background: CellMap<SpriteUV> = CellMap::new();
    background.insert(cell(1, 2), SpriteUV { row: 3, col: 4, num_rows: 1, num_cols: 1 });
    let foreground: CellMap<SpriteUV> = CellMap::new();
    let mut collision = CellSet::new();
    collision.insert(cell(5, 6));
    let mut entities: CellMap<String> = CellMap::new();
    entities.insert(cell(7, 8), "npc".to_string());
    let bytes = encode_level(&background, &foreground, &collision, &entities);
    let mut expected = header(20, 0, 16);
    expected.extend(tile(1, 2, 3, 4));
    expected.extend_from_slice(&5i64.to_le_bytes());
    expected.extend_from_slice(&6i64.to_le_bytes());
    expected.extend(entity(7, 8, b"npc"));
    assert_eq!(bytes, expected);
}

#[test]
fn saved_bytes_do_not_depend_on_the_order_of_edits() {
    let mut first = sheet_editor();
    first.set_selected_uv(first.spritesheet_info().sprite_uv(10, 0));
    first.handle_plot_clicks(cell(5, 5), true, false, false);
    first.handle_plot_clicks(cell(-1, 2), true, false, false);
    first.set_current_mode(Mode::Collision);
    first.handle_plot_clicks(cell(3, 3), true, false, false);
    first.handle_plot_clicks(cell(1, 1), true, false, false);

    let mut second = sheet_editor();
    second.set_current_mode(Mode::Collision);
    second.handle_plot_clicks(cell(1, 1), true, false, false);
    second.handle_plot_clicks(cell(2, 2), true, false, false);
    second.handle_plot_clicks(cell(3, 3), true, false, false);
    second.handle_undo_redo(true);
    second.handle_undo_redo(true);
    second.handle_undo_redo(false);
    second.handle_undo_redo(false);
    second.handle_plot_clicks(cell(2, 2), true, false, false);
    second.set_current_mode(Mode::DrawBackground);
    second.set_selected_uv(second.spritesheet_info().sprite_uv(10, 0));
    second.handle_plot_clicks(cell(-1, 2), false, false, true);
    second.handle_plot_clicks(cell(5, 5), false, false, true);

    let bytes = first.save().unwrap();
    assert_eq!(second.save().unwrap(), bytes);
    let mut expected = header(40, 0, 32);
    expected.extend(tile(-1, 2, 10, 0));
    expected.extend(tile(5, 5, 10, 0));
    expected.extend_from_slice(&1i64.to_le_bytes());
    expected.extend_from_slice(&1i64.to_le_bytes());
    expected.extend_from_slice(&3i64.to_le_bytes());
    expected.extend_from_slice(&3i64.to_le_bytes());
    assert_eq!(bytes, expected);
}
