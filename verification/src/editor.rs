//! The editor session: the four layers, the brush, the tool mode, the two
//! logs and the state of the modal windows, owned by one value.

use crate::cell_map::as_map;
use crate::cell_map::ascending;
use crate::cell_map::entries_of;
use crate::cell_map::CellMap;
use crate::model::actions_view;
use crate::model::EditorView;
use crate::sets::ascending_cells;
use crate::sets::ascending_labels;
use crate::sets::cells_of;
use crate::sets::labels_of;
use crate::sets::CellSet;
use crate::sets::LabelSet;
use crate::types::Action;
use crate::types::ColumnOrientation;
use crate::types::HashableVec2;
use crate::types::Mode;
use crate::types::SheetSize;
use crate::types::SpriteUV;
use crate::types::SpritesheetInfo;
use vstd::prelude::*;

verus! {

/// An editor session.
///
/// The layers change only through the operations of the session, so that
/// every edit is logged; what replaces the layers wholesale (clearing,
/// opening a level) empties the logs with them.
pub struct Editor {
    pub(crate) spritesheet_info: SpritesheetInfo,
    pub(crate) sheet: Option<SheetSize>,
    pub(crate) spritesheet_col_orientation: ColumnOrientation,
    pub(crate) foreground_plotted_tiles: CellMap<SpriteUV>,
    pub(crate) background_plotted_tiles: CellMap<SpriteUV>,
    pub(crate) collision_tiles: CellSet,
    pub(crate) entity_tiles: CellMap<String>,
    pub(crate) selected_uv: Option<SpriteUV>,
    pub(crate) selected_entity: Option<HashableVec2>,
    pub(crate) entity_description: String,
    pub(crate) prev_entity_description: String,
    pub(crate) entity_descriptions: LabelSet,
    pub(crate) current_mode: Mode,
    pub(crate) undo_queue: Vec<Action>,
    pub(crate) redo_queue: Vec<Action>,
    pub(crate) show_entity_popup: bool,
    pub(crate) show_clear_confirmation: bool,
}

impl Editor {
    /// The entries of the foreground layer, in ascending order of their
    /// cells.
    pub open(crate) spec fn foreground_entries(&self) -> Seq<(HashableVec2, SpriteUV)> {
        self.foreground_plotted_tiles.entries()
    }

    /// The entries of the background layer, in ascending order of their
    /// cells.
    pub open(crate) spec fn background_entries(&self) -> Seq<(HashableVec2, SpriteUV)> {
        self.background_plotted_tiles.entries()
    }

    /// The cells of the collision layer, in ascending order.
    pub open(crate) spec fn collision_entries(&self) -> Seq<HashableVec2> {
        self.collision_tiles.entries()
    }

    /// The entries of the entity layer, in ascending order of their cells.
    pub open(crate) spec fn entity_entries(&self) -> Seq<(HashableVec2, Seq<char>)> {
        self.entity_tiles.entries()
    }

    /// The used labels, in ascending order.
    pub open(crate) spec fn label_entries(&self) -> Seq<Seq<char>> {
        self.entity_descriptions.entries()
    }

    /// The session as a mathematical value.
    pub open(crate) spec fn view(&self) -> EditorView {
        EditorView {
            spritesheet_info: self.spritesheet_info,
            sheet: self.sheet,
            spritesheet_col_orientation: self.spritesheet_col_orientation,
            foreground: self.foreground_plotted_tiles@,
            background: self.background_plotted_tiles@,
            collision: self.collision_tiles@,
            entities: self.entity_tiles@,
            selected_uv: self.selected_uv,
            selected_entity: self.selected_entity,
            entity_description: self.entity_description@,
            prev_entity_description: self.prev_entity_description@,
            entity_descriptions: self.entity_descriptions@,
            current_mode: self.current_mode,
            undo_queue: actions_view(self.undo_queue@),
            redo_queue: actions_view(self.redo_queue@),
            show_entity_popup: self.show_entity_popup,
            show_clear_confirmation: self.show_clear_confirmation,
        }
    }

    /// The session is well formed: each layer stands in ascending order of
    /// its cells, the used labels stand in ascending order, and the
    /// session's value is well formed.
    pub open(crate) spec fn wf(&self) -> bool {
        &&& self.foreground_plotted_tiles.wf()
        &&& self.background_plotted_tiles.wf()
        &&& self.collision_tiles.wf()
        &&& self.entity_tiles.wf()
        &&& self.entity_descriptions.wf()
        &&& self@.wf()
    }

    /// In a well-formed session the entries of each layer are the entries of
    /// the map, or the cells of the set, that the layer forms, in ascending
    /// order of their cells; and the session's value is well formed.
    pub proof fn lemma_wf(&self)
        requires
            self.wf(),
        ensures
            self@.wf(),
            self.foreground_entries() == entries_of(self@.foreground),
            self.background_entries() == entries_of(self@.background),
            self.collision_entries() == cells_of(self@.collision),
            self.entity_entries() == entries_of(self@.entities),
            self.label_entries() == labels_of(self@.entity_descriptions),
            self@.foreground == as_map(self.foreground_entries()),
            self@.background == as_map(self.background_entries()),
            self@.collision == self.collision_entries().to_set(),
            self@.entities == as_map(self.entity_entries()),
            self@.entity_descriptions == self.label_entries().to_set(),
            ascending(self.foreground_entries()),
            ascending(self.background_entries()),
            ascending(self.entity_entries()),
            ascending_cells(self.collision_entries()),
            ascending_labels(self.label_entries()),
    {
        self.foreground_plotted_tiles.lemma_entries();
        self.background_plotted_tiles.lemma_entries();
        self.entity_tiles.lemma_entries();
        self.collision_tiles.lemma_entries();
        self.entity_descriptions.lemma_entries();
    }

    /// A new session: nothing painted, nothing logged, no sheet loaded,
    /// background mode, the default sheet settings.
    pub fn new() -> (editor: Self)
        ensures
            editor.wf(),
            editor@ == EditorView::initial(),
            editor.foreground_entries().len() == 0,
            editor.background_entries().len() == 0,
            editor.collision_entries().len() == 0,
            editor.entity_entries().len() == 0,
            editor.label_entries().len() == 0,
    {
        let editor = Editor {
            spritesheet_info: SpritesheetInfo { sprite_size: 32, num_rows: 10, num_cols: 10 },
            sheet: None,
            spritesheet_col_orientation: ColumnOrientation::Minor,
            foreground_plotted_tiles: CellMap::new(),
            background_plotted_tiles: CellMap::new(),
            collision_tiles: CellSet::new(),
            entity_tiles: CellMap::new(),
            selected_uv: None,
            selected_entity: None,
            entity_description: String::new(),
            prev_entity_description: String::new(),
            entity_descriptions: LabelSet::new(),
            current_mode: Mode::DrawBackground,
            undo_queue: Vec::new(),
            redo_queue: Vec::new(),
            show_entity_popup: false,
            show_clear_confirmation: false,
        };
        proof {
            assert(actions_view(editor.undo_queue@) =~= Seq::empty());
            assert(actions_view(editor.redo_queue@) =~= Seq::empty());
        }
        editor
    }

    /// Erases everything: the four layers, the set of used labels and both
    /// logs are emptied, and the clear confirmation is closed.
    pub fn clear(&mut self)
        requires
            old(self).wf(),
        ensures
            final(self).wf(),
            final(self)@ == old(self)@.clear(),
            final(self).foreground_entries().len() == 0,
            final(self).background_entries().len() == 0,
            final(self).collision_entries().len() == 0,
            final(self).entity_entries().len() == 0,
            final(self).label_entries().len() == 0,
    {
        self.show_clear_confirmation = false;
        self.foreground_plotted_tiles.clear();
        self.background_plotted_tiles.clear();
        self.collision_tiles.clear();
        self.entity_descriptions.clear();
        self.entity_tiles.clear();
        self.undo_queue.clear();
        self.redo_queue.clear();
        proof {
            assert(actions_view(self.undo_queue@) =~= Seq::empty());
            assert(actions_view(self.redo_queue@) =~= Seq::empty());
        }
    }

    /// Switches to the next mode of the cycle background, foreground,
    /// collision, entity.
    pub fn toggle_current_mode(&mut self)
        requires
            old(self).wf(),
        ensures
            final(self).wf(),
            final(self)@ == old(self)@.toggle_current_mode(),
    {
        self.current_mode = self.current_mode.next();
    }
}

impl Default for Editor {
    fn default() -> (editor: Self)
        ensures
            editor.wf(),
            editor@ == EditorView::initial(),
    {
        Editor::new()
    }
}

impl Editor {
    /// The sheet settings.
    pub fn spritesheet_info(&self) -> (info: SpritesheetInfo)
        ensures
            info == self@.spritesheet_info,
    {
        self.spritesheet_info
    }

    /// Takes new sheet settings; they must be within their ranges.
    pub fn set_spritesheet_info(&mut self, info: SpritesheetInfo)
        requires
            old(self).wf(),
            info.wf(),
        ensures
            final(self).wf(),
            final(self)@ == (EditorView { spritesheet_info: info, ..old(self)@ }),
    {
        self.spritesheet_info = info;
    }

    /// The dimensions of the loaded spritesheet, if one is loaded.
    pub fn sheet(&self) -> (sheet: Option<SheetSize>)
        ensures
            sheet == self@.sheet,
    {
        self.sheet
    }

    /// Records that a spritesheet of the given dimensions has been loaded,
    /// or that none is loaded.
    pub fn set_sheet(&mut self, sheet: Option<SheetSize>)
        requires
            old(self).wf(),
        ensures
            final(self).wf(),
            final(self)@ == (EditorView { sheet, ..old(self)@ }),
    {
        self.sheet = sheet;
    }

    /// The order in which the sprite picker walks the sheet.
    pub fn spritesheet_col_orientation(&self) -> (orientation: ColumnOrientation)
        ensures
            orientation == self@.spritesheet_col_orientation,
    {
        self.spritesheet_col_orientation
    }

    /// Sets the order in which the sprite picker walks the sheet.
    pub fn set_spritesheet_col_orientation(&mut self, orientation: ColumnOrientation)
        requires
            old(self).wf(),
        ensures
            final(self).wf(),
            final(self)@ == (EditorView { spritesheet_col_orientation: orientation, ..old(self)@ }),
    {
        self.spritesheet_col_orientation = orientation;
    }

    /// The current mode.
    pub fn current_mode(&self) -> (mode: Mode)
        ensures
            mode == self@.current_mode,
    {
        self.current_mode
    }

    /// Switches to `mode`.
    pub fn set_current_mode(&mut self, mode: Mode)
        requires
            old(self).wf(),
        ensures
            final(self).wf(),
            final(self)@ == (EditorView { current_mode: mode, ..old(self)@ }),
    {
        self.current_mode = mode;
    }

    /// The brush, if a sprite has been picked.
    pub fn selected_uv(&self) -> (uv: Option<SpriteUV>)
        ensures
            uv == self@.selected_uv,
    {
        self.selected_uv
    }

    /// Takes `uv` as the brush.
    pub fn set_selected_uv(&mut self, uv: SpriteUV)
        requires
            old(self).wf(),
        ensures
            final(self).wf(),
            final(self)@ == (EditorView { selected_uv: Some(uv), ..old(self)@ }),
    {
        self.selected_uv = Some(uv);
    }

    /// Whether `uv` is the brush.
    pub fn is_selected(&self, uv: SpriteUV) -> (b: bool)
        ensures
            b == (self@.selected_uv == Some(uv)),
    {
        match self.selected_uv {
            Some(selected) => selected == uv,
            None => false,
        }
    }

    /// The cell of the entity that the label editor was last opened on.
    pub fn selected_entity(&self) -> (cell: Option<HashableVec2>)
        ensures
            cell == self@.selected_entity,
    {
        self.selected_entity
    }

    /// The text that the label editor holds.
    pub fn entity_description(&self) -> (text: &String)
        ensures
            text@ == self@.entity_description,
    {
        &self.entity_description
    }

    /// The label that the label editor was opened on.
    pub fn prev_entity_description(&self) -> (text: &String)
        ensures
            text@ == self@.prev_entity_description,
    {
        &self.prev_entity_description
    }

    /// Whether the label editor is open.
    pub fn show_entity_popup(&self) -> (open: bool)
        ensures
            open == self@.show_entity_popup,
    {
        self.show_entity_popup
    }

    /// Whether the clear confirmation is open.
    pub fn show_clear_confirmation(&self) -> (open: bool)
        ensures
            open == self@.show_clear_confirmation,
    {
        self.show_clear_confirmation
    }

    /// Opens the clear confirmation.
    pub fn request_clear(&mut self)
        requires
            old(self).wf(),
        ensures
            final(self).wf(),
            final(self)@ == (EditorView { show_clear_confirmation: true, ..old(self)@ }),
    {
        self.show_clear_confirmation = true;
    }

    /// The foreground layer.
    pub fn foreground(&self) -> (layer: &CellMap<SpriteUV>)
        ensures
            layer.entries() == self.foreground_entries(),
            layer@ == self@.foreground,
    {
        &self.foreground_plotted_tiles
    }

    /// The background layer.
    pub fn background(&self) -> (layer: &CellMap<SpriteUV>)
        ensures
            layer.entries() == self.background_entries(),
            layer@ == self@.background,
    {
        &self.background_plotted_tiles
    }

    /// The collision layer.
    pub fn collision(&self) -> (layer: &CellSet)
        ensures
            layer.entries() == self.collision_entries(),
            layer@ == self@.collision,
    {
        &self.collision_tiles
    }

    /// The entity layer.
    pub fn entities(&self) -> (layer: &CellMap<String>)
        ensures
            layer.entries() == self.entity_entries(),
            layer@ == self@.entities,
    {
        &self.entity_tiles
    }

    /// The set of used labels.
    pub fn entity_descriptions(&self) -> (labels: &LabelSet)
        ensures
            labels.entries() == self.label_entries(),
            labels@ == self@.entity_descriptions,
    {
        &self.entity_descriptions
    }

    /// The undo log, the newest action last.
    pub fn undo_queue(&self) -> (log: &Vec<Action>)
        ensures
            actions_view(log@) == self@.undo_queue,
    {
        &self.undo_queue
    }

    /// The redo log, the action to redo next last.
    pub fn redo_queue(&self) -> (log: &Vec<Action>)
        ensures
            actions_view(log@) == self@.redo_queue,
    {
        &self.redo_queue
    }
}

} // verus!
