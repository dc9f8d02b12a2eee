//! A level that is written and read again is the same level.

use crate::cell_map::as_map;
use crate::cell_map::ascending;
use crate::cell_map::cell_lt;
use crate::cell_map::distinct_cells;
use crate::cell_map::has_cell;
use crate::cell_map::lemma_ascending_distinct;
use crate::cell_map::lemma_cell_index_unique;
use crate::cell_map::lemma_insert_at;
use crate::codec::cell_at;
use crate::codec::cell_bytes;
use crate::codec::cells_at;
use crate::codec::cells_bytes;
use crate::codec::clamp_i16;
use crate::codec::concat_all;
use crate::codec::entities_at;
use crate::codec::entities_bytes;
use crate::codec::entity_bytes;
use crate::codec::i16_at;
use crate::codec::i16_bytes;
use crate::codec::i64_at;
use crate::codec::i64_bytes;
use crate::codec::level_bytes;
use crate::codec::parse_level;
use crate::codec::tile_at;
use crate::codec::tile_bytes;
use crate::codec::tile_record;
use crate::codec::tile_records;
use crate::codec::tiles_at;
use crate::codec::tiles_bytes;
use crate::codec::u64_at;
use crate::codec::DecodeError;
use crate::codec::LevelView;
use crate::codec::TileRecord;
use crate::editor::Editor;
use crate::file::entities_map;
use crate::file::tiles_map;
use crate::types::HashableVec2;
use crate::types::SpriteUV;
use crate::types::SpritesheetInfo;
use vstd::bytes::lemma_auto_spec_u16_to_from_le_bytes;
use vstd::bytes::lemma_auto_spec_u64_to_from_le_bytes;
use vstd::bytes::spec_u16_to_le_bytes;
use vstd::bytes::spec_u64_to_le_bytes;
use vstd::prelude::*;
use vstd::utf8::encode_utf8;

verus! {

/// Every length that a level file writes down fits the 64 bits it has: the
/// three section lengths and each label's length.
pub open spec fn level_fits(level: LevelView) -> bool {
    &&& tiles_bytes(level.background).len() <= u64::MAX
    &&& tiles_bytes(level.foreground).len() <= u64::MAX
    &&& cells_bytes(level.collision).len() <= u64::MAX
    &&& forall|i: int|
        0 <= i < level.entities.len() ==> encode_utf8((#[trigger] level.entities[i]).1).len()
            <= u64::MAX
}

/// The sprite comes back from a level file as it went in: its offsets fit
/// 16 bits, and its divisions are those of the sheet settings.
pub open spec fn survives_saving(uv: SpriteUV, info: SpritesheetInfo) -> bool {
    uv == info.spec_sprite_uv(clamp_i16(uv.row) as i64, clamp_i16(uv.col) as i64)
}

/// The eight bytes of an unsigned number, wherever they stand, are read as
/// that number.
pub proof fn lemma_u64_at(bytes: Seq<u8>, at: int, x: u64)
    requires
        0 <= at,
        at + 8 <= bytes.len(),
        bytes.subrange(at, at + 8) == spec_u64_to_le_bytes(x),
    ensures
        u64_at(bytes, at) == x,
{
    lemma_auto_spec_u64_to_from_le_bytes();
}

/// The eight bytes of a signed number, wherever they stand, are read as
/// that number.
pub proof fn lemma_i64_at(bytes: Seq<u8>, at: int, x: i64)
    requires
        0 <= at,
        at + 8 <= bytes.len(),
        bytes.subrange(at, at + 8) == i64_bytes(x),
    ensures
        i64_at(bytes, at) == x,
{
    lemma_auto_spec_u64_to_from_le_bytes();
    assert(((x as u64) as i64) == x) by (bit_vector);
}

/// The two bytes of a signed number, wherever they stand, are read as that
/// number.
pub proof fn lemma_i16_at(bytes: Seq<u8>, at: int, x: i16)
    requires
        0 <= at,
        at + 2 <= bytes.len(),
        bytes.subrange(at, at + 2) == i16_bytes(x),
    ensures
        i16_at(bytes, at) == x,
{
    lemma_auto_spec_u16_to_from_le_bytes();
    assert(spec_u16_to_le_bytes(x as u16).len() == 2);
    assert(((x as u16) as i16) == x) by (bit_vector);
}

/// A cell takes 16 bytes, and wherever they stand they are read as that
/// cell.
pub proof fn lemma_cell_at(bytes: Seq<u8>, at: int, cell: HashableVec2)
    requires
        0 <= at,
        at + 16 <= bytes.len(),
        bytes.subrange(at, at + 16) == cell_bytes(cell),
    ensures
        cell_at(bytes, at) == cell,
{
    lemma_auto_spec_u64_to_from_le_bytes();
    let part = bytes.subrange(at, at + 16);
    assert(i64_bytes(cell.x).len() == 8 && i64_bytes(cell.y).len() == 8);
    assert(bytes.subrange(at, at + 8) =~= part.subrange(0, 8));
    assert(part.subrange(0, 8) =~= i64_bytes(cell.x));
    assert(bytes.subrange(at + 8, at + 16) =~= part.subrange(8, 16));
    assert(part.subrange(8, 16) =~= i64_bytes(cell.y));
    lemma_i64_at(bytes, at, cell.x);
    lemma_i64_at(bytes, at + 8, cell.y);
}

/// The lengths of the records of the file.
pub proof fn lemma_record_lengths(cell: HashableVec2, record: TileRecord)
    ensures
        cell_bytes(cell).len() == 16,
        tile_bytes(record).len() == 20,
{
    lemma_auto_spec_u64_to_from_le_bytes();
    lemma_auto_spec_u16_to_from_le_bytes();
    assert(spec_u16_to_le_bytes(record.row as u16).len() == 2);
    assert(spec_u16_to_le_bytes(record.col as u16).len() == 2);
}

/// The 20 bytes of a tile record, wherever they stand, are read as that
/// record.
pub proof fn lemma_tile_at(bytes: Seq<u8>, at: int, record: TileRecord)
    requires
        0 <= at,
        at + 20 <= bytes.len(),
        bytes.subrange(at, at + 20) == tile_bytes(record),
    ensures
        tile_at(bytes, at) == record,
{
    lemma_record_lengths(record.cell, record);
    lemma_auto_spec_u16_to_from_le_bytes();
    let part = bytes.subrange(at, at + 20);
    assert(bytes.subrange(at, at + 16) =~= part.subrange(0, 16));
    assert(part.subrange(0, 16) =~= cell_bytes(record.cell));
    assert(bytes.subrange(at + 16, at + 18) =~= part.subrange(16, 18));
    assert(part.subrange(16, 18) =~= i16_bytes(record.row));
    assert(bytes.subrange(at + 18, at + 20) =~= part.subrange(18, 20));
    assert(part.subrange(18, 20) =~= i16_bytes(record.col));
    lemma_cell_at(bytes, at, record.cell);
    lemma_i16_at(bytes, at + 16, record.row);
    lemma_i16_at(bytes, at + 18, record.col);
}

/// Parts of one width `w` stand one after the other at the multiples of
/// `w`.
pub proof fn lemma_parts_of_one_width(parts: Seq<Seq<u8>>, w: int, i: int)
    requires
        w >= 0,
        forall|j: int| 0 <= j < parts.len() ==> (#[trigger] parts[j]).len() == w,
    ensures
        concat_all(parts).len() == w * parts.len(),
        0 <= i < parts.len() ==> 0 <= w * i && w * i + w <= concat_all(parts).len() && concat_all(
            parts,
        ).subrange(w * i, w * i + w) == parts[i],
    decreases parts.len(),
{
    if parts.len() == 0 {
        assert(w * 0 == 0);
    } else {
        let rest = parts.drop_first();
        assert forall|j: int| 0 <= j < rest.len() implies (#[trigger] rest[j]).len() == w by {
            assert(rest[j] == parts[j + 1]);
        }
        lemma_parts_of_one_width(rest, w, i - 1);
        let n = parts.len() as int;
        assert(w * n == w * (n - 1) + w) by (nonlinear_arith);
        assert(concat_all(parts) == parts.first() + concat_all(rest));
        if 0 <= i < n {
            if i == 0 {
                assert(w * 0 == 0);
                assert(concat_all(parts).subrange(0, w) =~= parts[0]);
            } else {
                assert(w * i == w * (i - 1) + w) by (nonlinear_arith);
                assert(w * (i - 1) >= 0) by (nonlinear_arith)
                    requires
                        w >= 0,
                        i >= 1,
                ;
                assert(rest[i - 1] == parts[i]);
                assert(concat_all(parts).subrange(w * i, w * i + w) =~= concat_all(rest).subrange(
                    w * (i - 1),
                    w * (i - 1) + w,
                ));
            }
        }
    }
}

/// A tile section takes 20 bytes for each record, and wherever it stands
/// its records are read as they are.
pub proof fn lemma_tiles_at(bytes: Seq<u8>, at: int, records: Seq<TileRecord>)
    requires
        0 <= at,
        at + tiles_bytes(records).len() <= bytes.len(),
        bytes.subrange(at, at + tiles_bytes(records).len()) == tiles_bytes(records),
    ensures
        tiles_bytes(records).len() == 20 * records.len(),
        tiles_at(bytes, at, records.len() as int) == records,
{
    let parts = records.map_values(|r: TileRecord| tile_bytes(r));
    assert forall|j: int| 0 <= j < parts.len() implies (#[trigger] parts[j]).len() == 20 by {
        lemma_record_lengths(records[j].cell, records[j]);
    }
    lemma_parts_of_one_width(parts, 20, 0);
    let section = tiles_bytes(records);
    assert forall|i: int| 0 <= i < records.len() implies tiles_at(
        bytes,
        at,
        records.len() as int,
    )[i] == records[i] by {
        lemma_parts_of_one_width(parts, 20, i);
        assert(bytes.subrange(at + 20 * i, at + 20 * i + 20) =~= bytes.subrange(
            at,
            at + section.len(),
        ).subrange(20 * i, 20 * i + 20));
        lemma_tile_at(bytes, at + 20 * i, records[i]);
    }
    assert(tiles_at(bytes, at, records.len() as int) =~= records);
}

/// A collision section takes 16 bytes for each cell, and wherever it stands
/// its cells are read as they are.
pub proof fn lemma_cells_at(bytes: Seq<u8>, at: int, cells: Seq<HashableVec2>)
    requires
        0 <= at,
        at + cells_bytes(cells).len() <= bytes.len(),
        bytes.subrange(at, at + cells_bytes(cells).len()) == cells_bytes(cells),
    ensures
        cells_bytes(cells).len() == 16 * cells.len(),
        cells_at(bytes, at, cells.len() as int) == cells,
{
    let parts = cells.map_values(|c: HashableVec2| cell_bytes(c));
    assert forall|j: int| 0 <= j < parts.len() implies (#[trigger] parts[j]).len() == 16 by {
        lemma_record_lengths(cells[j], TileRecord { cell: cells[j], row: 0, col: 0 });
    }
    lemma_parts_of_one_width(parts, 16, 0);
    let section = cells_bytes(cells);
    assert forall|i: int| 0 <= i < cells.len() implies cells_at(bytes, at, cells.len() as int)[i]
        == cells[i] by {
        lemma_parts_of_one_width(parts, 16, i);
        assert(bytes.subrange(at + 16 * i, at + 16 * i + 16) =~= bytes.subrange(
            at,
            at + section.len(),
        ).subrange(16 * i, 16 * i + 16));
        lemma_cell_at(bytes, at + 16 * i, cells[i]);
    }
    assert(cells_at(bytes, at, cells.len() as int) =~= cells);
}

/// An entity section that runs to the end of the file is read as the
/// entities it was written from.
pub proof fn lemma_entities_at(bytes: Seq<u8>, at: int, entities: Seq<(HashableVec2, Seq<char>)>)
    requires
        0 <= at <= bytes.len(),
        bytes.subrange(at, bytes.len() as int) == entities_bytes(entities),
        forall|i: int|
            0 <= i < entities.len() ==> encode_utf8((#[trigger] entities[i]).1).len() <= u64::MAX,
    ensures
        entities_at(bytes, at) == Ok::<_, DecodeError>(entities),
    decreases entities.len(),
{
    let parts = entities.map_values(|e: (HashableVec2, Seq<char>)| entity_bytes(e));
    let tail = bytes.subrange(at, bytes.len() as int);
    if entities.len() == 0 {
        assert(tail.len() == 0);
        assert(entities =~= Seq::empty());
    } else {
        lemma_auto_spec_u64_to_from_le_bytes();
        let first = entities[0];
        let rest = entities.drop_first();
        let text = encode_utf8(first.1);
        let n = text.len() as int;
        let record = entity_bytes(first);
        lemma_record_lengths(first.0, TileRecord { cell: first.0, row: 0, col: 0 });
        assert(record.len() == 24 + n);
        assert(parts.first() == record);
        assert(parts.drop_first() =~= rest.map_values(
            |e: (HashableVec2, Seq<char>)| entity_bytes(e),
        ));
        assert(parts.len() > 0);
        assert(concat_all(parts) == parts.first() + concat_all(parts.drop_first()));
        assert(tail == record + entities_bytes(rest));
        assert(bytes.len() - at >= 24 + n);
        assert(bytes.subrange(at, at + 16) =~= tail.subrange(0, 16));
        assert(tail.subrange(0, 16) =~= cell_bytes(first.0));
        lemma_cell_at(bytes, at, first.0);
        assert(bytes.subrange(at + 16, at + 24) =~= tail.subrange(16, 24));
        assert(tail.subrange(16, 24) =~= spec_u64_to_le_bytes(n as u64));
        lemma_u64_at(bytes, at + 16, n as u64);
        assert(u64_at(bytes, at + 16) as int == n);
        assert(bytes.subrange(at + 24, at + 24 + n) =~= tail.subrange(24, 24 + n));
        assert(tail.subrange(24, 24 + n) =~= text);
        vstd::utf8::encode_utf8_valid_utf8(first.1);
        vstd::utf8::encode_utf8_decode_utf8(first.1);
        assert(tail.subrange(24 + n, tail.len() as int) =~= entities_bytes(rest));
        assert(bytes.subrange(at + 24 + n, bytes.len() as int) =~= tail.subrange(
            24 + n,
            tail.len() as int,
        ));
        assert forall|i: int| 0 <= i < rest.len() implies encode_utf8((#[trigger] rest[i]).1).len()
            <= u64::MAX by {
            assert(rest[i] == entities[i + 1]);
        }
        lemma_entities_at(bytes, at + 24 + n, rest);
        assert(seq![first] + rest =~= entities);
    }
}

/// Reading what was written gives back the level: every record of every
/// section, in order.
pub proof fn law_level_round_trip(level: LevelView)
    requires
        level_fits(level),
    ensures
        parse_level(level_bytes(level)) == Ok::<_, DecodeError>(level),
{
    lemma_auto_spec_u64_to_from_le_bytes();
    let bg = tiles_bytes(level.background);
    let fg = tiles_bytes(level.foreground);
    let cells = cells_bytes(level.collision);
    let tail = entities_bytes(level.entities);
    let bytes = level_bytes(level);
    let len_bg = bg.len() as int;
    let len_fg = fg.len() as int;
    let len_cells = cells.len() as int;
    assert(bytes.len() == 24 + len_bg + len_fg + len_cells + tail.len());
    assert(bytes.subrange(0, 8) =~= spec_u64_to_le_bytes(bg.len() as u64));
    assert(bytes.subrange(8, 16) =~= spec_u64_to_le_bytes(fg.len() as u64));
    assert(bytes.subrange(16, 24) =~= spec_u64_to_le_bytes(cells.len() as u64));
    lemma_u64_at(bytes, 0, bg.len() as u64);
    lemma_u64_at(bytes, 8, fg.len() as u64);
    lemma_u64_at(bytes, 16, cells.len() as u64);
    assert(bytes.subrange(24, 24 + len_bg) =~= bg);
    assert(bytes.subrange(24 + len_bg, 24 + len_bg + len_fg) =~= fg);
    assert(bytes.subrange(24 + len_bg + len_fg, 24 + len_bg + len_fg + len_cells) =~= cells);
    assert(bytes.subrange(24 + len_bg + len_fg + len_cells, bytes.len() as int) =~= tail);
    lemma_tiles_at(bytes, 24, level.background);
    lemma_tiles_at(bytes, 24 + len_bg, level.foreground);
    lemma_cells_at(bytes, 24 + len_bg + len_fg, level.collision);
    lemma_entities_at(bytes, 24 + len_bg + len_fg + len_cells, level.entities);
    assert(len_bg / 20 == level.background.len());
    assert(len_fg / 20 == level.foreground.len());
    assert(len_cells / 16 == level.collision.len());
    assert(parse_level(bytes)->Ok_0 =~= level);
}

/// The tile layer that is read back from the records of a layer's entries
/// has the cells of the layer, each with the sprite at its saved offsets
/// under the sheet settings; so a sprite that survives saving comes back as
/// it was.
pub proof fn lemma_tiles_reopen(entries: Seq<(HashableVec2, SpriteUV)>, info: SpritesheetInfo)
    requires
        distinct_cells(entries),
    ensures
        tiles_map(tile_records(entries), info).dom() == as_map(entries).dom(),
        forall|c: HashableVec2| #[trigger]
            as_map(entries).contains_key(c) ==> tiles_map(tile_records(entries), info)[c]
                == info.spec_sprite_uv(
                clamp_i16(as_map(entries)[c].row) as i64,
                clamp_i16(as_map(entries)[c].col) as i64,
            ),
    decreases entries.len(),
{
    let records = tile_records(entries);
    let loaded = tiles_map(records, info);
    if entries.len() == 0 {
        assert(loaded.dom() =~= as_map(entries).dom());
    } else {
        let front = entries.drop_last();
        let last = entries.last();
        assert(records.drop_last() =~= tile_records(front));
        assert(records.last() == tile_record(last));
        assert(distinct_cells(front)) by {
            assert forall|i: int, j: int|
                0 <= i < front.len() && 0 <= j < front.len() && i != j implies (
            #[trigger] front[i]).0 != (#[trigger] front[j]).0 by {
                assert(front[i] == entries[i] && front[j] == entries[j]);
            }
        }
        lemma_tiles_reopen(front, info);
        let k = entries.len() - 1;
        lemma_cell_index_unique(entries, k);
        assert forall|c: HashableVec2| has_cell(entries, c) == (has_cell(front, c) || c
            == last.0) by {
            if has_cell(entries, c) {
                let i = choose|i: int| 0 <= i < entries.len() && (#[trigger] entries[i]).0 == c;
                if i < k {
                    assert(front[i].0 == c);
                }
            }
            if has_cell(front, c) {
                let i = choose|i: int| 0 <= i < front.len() && (#[trigger] front[i]).0 == c;
                assert(entries[i].0 == c);
            }
        }
        assert(loaded.dom() =~= as_map(entries).dom());
        assert forall|c: HashableVec2| #[trigger] as_map(entries).contains_key(c) implies loaded[c]
            == info.spec_sprite_uv(
            clamp_i16(as_map(entries)[c].row) as i64,
            clamp_i16(as_map(entries)[c].col) as i64,
        ) by {
            if c != last.0 {
                let i = choose|i: int| 0 <= i < front.len() && (#[trigger] front[i]).0 == c;
                lemma_cell_index_unique(front, i);
                assert(entries[i] == front[i]);
                lemma_cell_index_unique(entries, i);
            }
        }
    }
}

/// The entity layer that is read back from a layer's entries is the layer.
pub proof fn lemma_entities_reopen(entries: Seq<(HashableVec2, Seq<char>)>)
    requires
        ascending(entries),
    ensures
        entities_map(entries) == as_map(entries),
    decreases entries.len(),
{
    if entries.len() == 0 {
        assert(entities_map(entries) =~= as_map(entries));
    } else {
        let front = entries.drop_last();
        let last = entries.last();
        let k = entries.len() - 1;
        assert forall|i: int, j: int| 0 <= i < j < front.len() implies cell_lt(
            (#[trigger] front[i]).0,
            (#[trigger] front[j]).0,
        ) by {
            assert(front[i] == entries[i] && front[j] == entries[j]);
        }
        lemma_entities_reopen(front);
        assert forall|i: int| 0 <= i < k implies cell_lt((#[trigger] front[i]).0, last.0) by {
            assert(front[i] == entries[i]);
            assert(cell_lt(entries[i].0, entries[k].0));
        }
        lemma_insert_at(front, k, last.0, last.1);
        assert(front.insert(k, last) =~= entries);
    }
}

/// A session's layers, saved and opened again under the same sheet
/// settings, are the same layers: the collision layer and the entity layer
/// come back as they were, and each tile layer comes back with the same
/// cells, every cell with the sprite at its saved offsets; a tile layer
/// whose sprites all survive saving comes back as it was.
pub proof fn law_saved_level_reopens(editor: Editor)
    requires
        editor.wf(),
        level_fits(editor@.saved_level()),
    ensures
        parse_level(level_bytes(editor@.saved_level())) == Ok::<_, DecodeError>(
            editor@.saved_level(),
        ),
        ({
            let reopened = editor@.opened(editor@.saved_level());
            let info = editor@.spritesheet_info;
            &&& reopened.collision == editor@.collision
            &&& reopened.entities == editor@.entities
            &&& reopened.background.dom() == editor@.background.dom()
            &&& reopened.foreground.dom() == editor@.foreground.dom()
            &&& forall|c: HashableVec2| #[trigger]
                editor@.background.contains_key(c) ==> reopened.background[c]
                    == info.spec_sprite_uv(
                    clamp_i16(editor@.background[c].row) as i64,
                    clamp_i16(editor@.background[c].col) as i64,
                )
            &&& forall|c: HashableVec2| #[trigger]
                editor@.foreground.contains_key(c) ==> reopened.foreground[c]
                    == info.spec_sprite_uv(
                    clamp_i16(editor@.foreground[c].row) as i64,
                    clamp_i16(editor@.foreground[c].col) as i64,
                )
            &&& (forall|c: HashableVec2| #[trigger]
                editor@.background.contains_key(c) ==> survives_saving(editor@.background[c], info))
                ==> reopened.background == editor@.background
            &&& (forall|c: HashableVec2| #[trigger]
                editor@.foreground.contains_key(c) ==> survives_saving(editor@.foreground[c], info))
                ==> reopened.foreground == editor@.foreground
        }),
{
    editor.lemma_wf();
    law_level_round_trip(editor@.saved_level());
    let info = editor@.spritesheet_info;
    lemma_ascending_distinct(editor.background_entries());
    lemma_ascending_distinct(editor.foreground_entries());
    lemma_tiles_reopen(editor.background_entries(), info);
    lemma_tiles_reopen(editor.foreground_entries(), info);
    lemma_entities_reopen(editor.entity_entries());
    let reopened = editor@.opened(editor@.saved_level());
    if forall|c: HashableVec2| #[trigger]
        editor@.background.contains_key(c) ==> survives_saving(editor@.background[c], info) {
        assert(reopened.background =~= editor@.background);
    }
    if forall|c: HashableVec2| #[trigger]
        editor@.foreground.contains_key(c) ==> survives_saving(editor@.foreground[c], info) {
        assert(reopened.foreground =~= editor@.foreground);
    }
}

} // verus!
