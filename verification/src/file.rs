//! Saving the layers as a level file, and opening one.
//!
//! A level file names sprites by their pixel offsets in the sheet, so both
//! operations need a loaded sheet. The bytes go to and come from the
//! caller, which owns the file.

use crate::cell_map::entries_of;
use crate::cell_map::lemma_ascending_distinct;
use crate::cell_map::lemma_cell_index_unique;
use crate::cell_map::CellMap;
use crate::codec::decode_level;
use crate::codec::encode_level;
use crate::codec::level_bytes;
use crate::codec::parse_level;
use crate::codec::tile_records;
use crate::codec::DecodeError;
use crate::codec::LevelView;
use crate::codec::TileRecord;
use crate::editor::Editor;
use crate::model::EditorView;
use crate::sets::cells_of;
use crate::sets::CellSet;
use crate::sets::LabelSet;
use crate::types::HashableVec2;
use crate::types::SpriteUV;
use crate::types::SpritesheetInfo;
use vstd::prelude::*;

verus! {

/// Why nothing was saved.
#[derive(Copy, Clone, PartialEq, Eq, Debug, Structural)]
pub enum SaveError {
    /// No spritesheet is loaded.
    NoSpritesheet,
    /// The background layer is empty.
    NoBackgroundTiles,
}

/// Why no level was opened.
#[derive(Copy, Clone, PartialEq, Eq, Debug, Structural)]
pub enum OpenError {
    /// No spritesheet is loaded.
    NoSpritesheet,
    /// The bytes are no level file.
    Corrupt(DecodeError),
}

/// The tile layer that a section's records form under the sheet settings
/// `info`: each record files the sprite at its offsets under its cell, a
/// later record replacing an earlier one of the same cell.
pub open spec fn tiles_map(records: Seq<TileRecord>, info: SpritesheetInfo) -> Map<
    HashableVec2,
    SpriteUV,
>
    decreases records.len(),
{
    if records.len() == 0 {
        Map::empty()
    } else {
        tiles_map(records.drop_last(), info).insert(
            records.last().cell,
            info.spec_sprite_uv(records.last().row as i64, records.last().col as i64),
        )
    }
}

/// The entity layer that the entity records form, a later record replacing
/// an earlier one of the same cell.
pub open spec fn entities_map(records: Seq<(HashableVec2, Seq<char>)>) -> Map<
    HashableVec2,
    Seq<char>,
>
    decreases records.len(),
{
    if records.len() == 0 {
        Map::empty()
    } else {
        entities_map(records.drop_last()).insert(records.last().0, records.last().1)
    }
}

impl EditorView {
    /// The level that the session is saved as: every tile entry as its
    /// record, every collision cell and every entity, each section in
    /// ascending order of its cells.
    pub open spec fn saved_level(self) -> LevelView {
        LevelView {
            background: tile_records(entries_of(self.background)),
            foreground: tile_records(entries_of(self.foreground)),
            collision: cells_of(self.collision),
            entities: entries_of(self.entities),
        }
    }

    /// The reason why the session is not saved, if there is one: no sheet
    /// is loaded, or the background layer is empty.
    pub open spec fn save_error(self) -> Option<SaveError> {
        if self.sheet is None {
            Some(SaveError::NoSpritesheet)
        } else if self.background.dom() =~= Set::empty() {
            Some(SaveError::NoBackgroundTiles)
        } else {
            None
        }
    }

    /// The session after `level` has been opened: everything is erased as
    /// by [`EditorView::clear`], then the four layers are those that the
    /// level's records form under the current sheet settings, and the set
    /// of used labels holds the labels of the level's entities.
    pub open spec fn opened(self, level: LevelView) -> EditorView {
        let entities = entities_map(level.entities);
        EditorView {
            background: tiles_map(level.background, self.spritesheet_info),
            foreground: tiles_map(level.foreground, self.spritesheet_info),
            collision: level.collision.to_set(),
            entities,
            entity_descriptions: entities.values(),
            ..self.clear()
        }
    }
}

/// The tile layer that `records` form under `info`.
fn load_tiles(records: &Vec<TileRecord>, info: SpritesheetInfo) -> (layer: CellMap<SpriteUV>)
    ensures
        layer.wf(),
        layer@ == tiles_map(records@, info),
{
    let mut layer: CellMap<SpriteUV> = CellMap::new();
    let n = records.len();
    let mut i: usize = 0;
    proof {
        assert(records@.take(0) =~= Seq::<TileRecord>::empty());
    }
    while i < n
        invariant
            n == records@.len(),
            i <= n,
            layer.wf(),
            layer@ == tiles_map(records@.take(i as int), info),
        decreases n - i,
    {
        let record = records[i];
        layer.insert(record.cell, info.sprite_uv(record.row as i64, record.col as i64));
        proof {
            let next = records@.take(i + 1);
            assert(next.drop_last() =~= records@.take(i as int));
            assert(next.last() == record);
        }
        i += 1;
    }
    proof {
        assert(records@.take(n as int) =~= records@);
    }
    layer
}

/// The set of the cells in `cells`.
fn load_cells(cells: &Vec<HashableVec2>) -> (set: CellSet)
    ensures
        set.wf(),
        set@ == cells@.to_set(),
{
    let mut set = CellSet::new();
    let n = cells.len();
    let mut i: usize = 0;
    proof {
        assert(cells@.take(0).to_set() =~= Set::<HashableVec2>::empty());
    }
    while i < n
        invariant
            n == cells@.len(),
            i <= n,
            set.wf(),
            set@ == cells@.take(i as int).to_set(),
        decreases n - i,
    {
        set.insert(cells[i]);
        proof {
            let next = cells@.take(i + 1);
            assert(next =~= cells@.take(i as int).push(cells@[i as int]));
            assert forall|c: HashableVec2|
                next.to_set().contains(c) == cells@.take(i as int).to_set().insert(
                    cells@[i as int],
                ).contains(c) by {
                if next.contains(c) {
                    let j = choose|j: int| 0 <= j < next.len() && next[j] == c;
                    if j < i {
                        assert(cells@.take(i as int)[j] == c);
                    }
                }
                if cells@.take(i as int).contains(c) {
                    let j = choose|j: int|
                        0 <= j < cells@.take(i as int).len() && cells@.take(i as int)[j] == c;
                    assert(next[j] == c);
                }
                if c == cells@[i as int] {
                    assert(next[i as int] == c);
                }
            }
            assert(set@ =~= next.to_set());
        }
        i += 1;
    }
    proof {
        assert(cells@.take(n as int) =~= cells@);
    }
    set
}

/// The entity layer that `records` form.
fn load_entities(records: &Vec<(HashableVec2, String)>) -> (layer: CellMap<String>)
    ensures
        layer.wf(),
        layer@ == entities_map(crate::codec::entities_view(records@)),
{
    let mut layer: CellMap<String> = CellMap::new();
    let n = records.len();
    let mut i: usize = 0;
    let ghost all = crate::codec::entities_view(records@);
    proof {
        assert(all.take(0) =~= Seq::<(HashableVec2, Seq<char>)>::empty());
    }
    while i < n
        invariant
            n == records@.len(),
            all == crate::codec::entities_view(records@),
            i <= n,
            layer.wf(),
            layer@ == entities_map(all.take(i as int)),
        decreases n - i,
    {
        let cell = records[i].0;
        let label = records[i].1.clone();
        layer.insert(cell, label);
        proof {
            let next = all.take(i + 1);
            assert(next.drop_last() =~= all.take(i as int));
            assert(next.last() == (cell, label@));
        }
        i += 1;
    }
    proof {
        assert(all.take(n as int) =~= all);
    }
    layer
}

/// The set of the labels that the entities of `layer` hold.
fn used_labels(layer: &CellMap<String>) -> (labels: LabelSet)
    requires
        layer.wf(),
    ensures
        labels.wf(),
        labels@ == layer@.values(),
{
    let mut labels = LabelSet::new();
    let n = layer.len();
    let mut i: usize = 0;
    while i < n
        invariant
            n == layer.entries().len(),
            i <= n,
            layer.wf(),
            labels.wf(),
            forall|l: Seq<char>|
                labels@.contains(l) <==> exists|j: int|
                    0 <= j < i && (#[trigger] layer.entries()[j]).1 == l,
        decreases n - i,
    {
        let label = layer.value_at(i).clone();
        let ghost before = labels@;
        labels.insert(label);
        proof {
            assert forall|l: Seq<char>|
                labels@.contains(l) <==> exists|j: int|
                    0 <= j < i + 1 && (#[trigger] layer.entries()[j]).1 == l by {
                if labels@.contains(l) {
                    if before.contains(l) {
                        let j = choose|j: int| 0 <= j < i && (#[trigger] layer.entries()[j]).1 == l;
                        assert(0 <= j < i + 1 && layer.entries()[j].1 == l);
                    } else {
                        assert(layer.entries()[i as int].1 == l);
                    }
                }
                if exists|j: int| 0 <= j < i + 1 && (#[trigger] layer.entries()[j]).1 == l {
                    let j = choose|j: int|
                        0 <= j < i + 1 && (#[trigger] layer.entries()[j]).1 == l;
                    if j < i {
                        assert(before.contains(l));
                    }
                }
            }
        }
        i += 1;
    }
    proof {
        lemma_ascending_distinct(layer.entries());
        assert forall|l: Seq<char>| labels@.contains(l) == layer@.values().contains(l) by {
            if labels@.contains(l) {
                let j = choose|j: int| 0 <= j < n && (#[trigger] layer.entries()[j]).1 == l;
                lemma_cell_index_unique(layer.entries(), j);
                assert(layer@.contains_key(layer.entries()[j].0));
            }
            if layer@.values().contains(l) {
                let c = choose|c: HashableVec2| layer@.contains_key(c) && layer@[c] == l;
                let j = crate::cell_map::cell_index(layer.entries(), c);
                assert(0 <= j < n && layer.entries()[j].0 == c);
                lemma_cell_index_unique(layer.entries(), j);
            }
        }
        assert(labels@ =~= layer@.values());
    }
    labels
}

impl Editor {
    /// The bytes of the level file that holds the four layers.
    ///
    /// Nothing is saved without a loaded spritesheet, or while the
    /// background layer is empty.
    pub fn save(&self) -> (r: Result<Vec<u8>, SaveError>)
        requires
            self.wf(),
        ensures
            match r {
                Ok(bytes) => self@.save_error() is None && bytes@ == level_bytes(
                    self@.saved_level(),
                ),
                Err(e) => self@.save_error() == Some(e),
            },
    {
        if self.sheet.is_none() {
            return Err(SaveError::NoSpritesheet);
        }
        if self.background_plotted_tiles.is_empty() {
            proof {
                assert(self@.background.dom() =~= Set::empty());
            }
            return Err(SaveError::NoBackgroundTiles);
        }
        proof {
            self.lemma_wf();
            lemma_ascending_distinct(self.background_entries());
            lemma_cell_index_unique(self.background_entries(), 0);
        }
        Ok(
            encode_level(
                &self.background_plotted_tiles,
                &self.foreground_plotted_tiles,
                &self.collision_tiles,
                &self.entity_tiles,
            ),
        )
    }

    /// Opens the level file that `bytes` hold.
    ///
    /// Without a loaded spritesheet, or where the bytes are no level file,
    /// the session stays as it is. Else everything is erased, both logs
    /// with it, and the layers are filled from the file under the current
    /// sheet settings.
    pub fn open(&mut self, bytes: &[u8]) -> (r: Result<(), OpenError>)
        requires
            old(self).wf(),
        ensures
            final(self).wf(),
            match r {
                Ok(()) => old(self)@.sheet is Some && parse_level(bytes@) is Ok && final(self)@
                    == old(self)@.opened(parse_level(bytes@)->Ok_0),
                Err(OpenError::NoSpritesheet) => old(self)@.sheet is None && *final(self) == *old(
                    self,
                ),
                Err(OpenError::Corrupt(e)) => old(self)@.sheet is Some && parse_level(bytes@)
                    == Err::<LevelView, _>(e) && *final(self) == *old(self),
            },
    {
        if self.sheet.is_none() {
            return Err(OpenError::NoSpritesheet);
        }
        let level = match decode_level(bytes) {
            Ok(level) => level,
            Err(e) => {
                return Err(OpenError::Corrupt(e));
            },
        };
        let background = load_tiles(&level.background, self.spritesheet_info);
        let foreground = load_tiles(&level.foreground, self.spritesheet_info);
        let collision = load_cells(&level.collision);
        let entities = load_entities(&level.entities);
        let labels = used_labels(&entities);
        self.clear();
        self.background_plotted_tiles = background;
        self.foreground_plotted_tiles = foreground;
        self.collision_tiles = collision;
        self.entity_tiles = entities;
        self.entity_descriptions = labels;
        Ok(())
    }
}

} // verus!
