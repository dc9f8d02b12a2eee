//! The editor session as a mathematical value, and every operation on it as
//! a function from one such value to the next.
//!
//! The executable session states each of its operations by the function of
//! this module that it refines; the laws of the editor are proved of these
//! functions.

use crate::types::Action;
use crate::types::ActionView;
use crate::types::ColumnOrientation;
use crate::types::HashableVec2;
use crate::types::Mode;
use crate::types::SheetSize;
use crate::types::SpriteUV;
use crate::types::SpritesheetInfo;
use vstd::prelude::*;

verus! {

/// A key of the keyboard, as far as the editor's shortcuts tell keys apart.
#[derive(Copy, Clone, PartialEq, Eq, Debug, Structural)]
pub enum Key {
    M,
    Z,
    R,
    O,
    S,
    Other,
}

/// What a shortcut leaves for the caller to do: nothing, or to ask for a
/// level file and open it, or to ask where to save and save.
#[derive(Copy, Clone, PartialEq, Eq, Debug, Structural)]
pub enum FileRequest {
    Nothing,
    Open,
    Save,
}

/// The state of an editor session.
#[verifier::ext_equal]
pub struct EditorView {
    pub spritesheet_info: SpritesheetInfo,
    pub sheet: Option<SheetSize>,
    pub spritesheet_col_orientation: ColumnOrientation,
    pub foreground: Map<HashableVec2, SpriteUV>,
    pub background: Map<HashableVec2, SpriteUV>,
    pub collision: Set<HashableVec2>,
    pub entities: Map<HashableVec2, Seq<char>>,
    pub selected_uv: Option<SpriteUV>,
    pub selected_entity: Option<HashableVec2>,
    pub entity_description: Seq<char>,
    pub prev_entity_description: Seq<char>,
    pub entity_descriptions: Set<Seq<char>>,
    pub current_mode: Mode,
    pub undo_queue: Seq<ActionView>,
    pub redo_queue: Seq<ActionView>,
    pub show_entity_popup: bool,
    pub show_clear_confirmation: bool,
}

/// The views of a list of actions, in order.
pub open spec fn actions_view(actions: Seq<Action>) -> Seq<ActionView> {
    actions.map_values(|a: Action| a@)
}

/// A painted layer after one paint action has been reverted, and the action
/// that reverts the reversal.
///
/// A drag over an occupied cell is reverted by putting the earlier sprite
/// back, and the two sprites change places in the action. Every other paint
/// action toggles the cell: a cell that is empty gets the sprite that the
/// action names (the earlier one where it names one), a cell that is
/// occupied is emptied.
pub open spec fn revert_paint(
    layer: Map<HashableVec2, SpriteUV>,
    cell: HashableVec2,
    uv: SpriteUV,
    prev: Option<SpriteUV>,
    drag: bool,
) -> (Map<HashableVec2, SpriteUV>, SpriteUV, Option<SpriteUV>) {
    match prev {
        Some(old_uv) => if drag {
            (layer.insert(cell, old_uv), old_uv, Some(uv))
        } else if layer.contains_key(cell) {
            (layer.remove(cell), uv, prev)
        } else {
            (layer.insert(cell, old_uv), uv, prev)
        },
        None => if layer.contains_key(cell) {
            (layer.remove(cell), uv, prev)
        } else {
            (layer.insert(cell, uv), uv, prev)
        },
    }
}

/// A painted layer after the brush has met `cell`, and whether the edit is
/// logged: `None` where it is not, else the sprite that the cell held
/// before, if any.
///
/// A click paints an empty cell and erases an occupied one, and is always
/// logged. A drag step paints or overwrites, and is logged unless the cell
/// already held the brush's sprite.
pub open spec fn painted(
    layer: Map<HashableVec2, SpriteUV>,
    brush: SpriteUV,
    is_drag: bool,
    cell: HashableVec2,
) -> (Map<HashableVec2, SpriteUV>, Option<Option<SpriteUV>>) {
    if layer.contains_key(cell) {
        if !is_drag {
            (layer.remove(cell), Some(Some(layer[cell])))
        } else if layer[cell] != brush {
            (layer.insert(cell, brush), Some(Some(layer[cell])))
        } else {
            (layer, None)
        }
    } else {
        (layer.insert(cell, brush), Some(None))
    }
}

/// A set with the membership of `cell` switched.
pub open spec fn toggled(set: Set<HashableVec2>, cell: HashableVec2) -> Set<HashableVec2> {
    if set.contains(cell) {
        set.remove(cell)
    } else {
        set.insert(cell)
    }
}

impl EditorView {
    /// The session that a program starts with: nothing painted, nothing
    /// logged, no sheet loaded, background mode.
    pub open spec fn initial() -> EditorView {
        EditorView {
            spritesheet_info: SpritesheetInfo { sprite_size: 32, num_rows: 10, num_cols: 10 },
            sheet: None,
            spritesheet_col_orientation: ColumnOrientation::Minor,
            foreground: Map::empty(),
            background: Map::empty(),
            collision: Set::empty(),
            entities: Map::empty(),
            selected_uv: None,
            selected_entity: None,
            entity_description: Seq::empty(),
            prev_entity_description: Seq::empty(),
            entity_descriptions: Set::empty(),
            current_mode: Mode::DrawBackground,
            undo_queue: Seq::empty(),
            redo_queue: Seq::empty(),
            show_entity_popup: false,
            show_clear_confirmation: false,
        }
    }

    /// What holds of every session: the settings are within their ranges,
    /// and while the label editor is open an entity is selected.
    pub open spec fn wf(self) -> bool {
        &&& self.spritesheet_info.wf()
        &&& self.show_entity_popup ==> self.selected_entity is Some
    }

    /// Whether a modal window (the label editor or the clear confirmation)
    /// is open.
    pub open spec fn modal_open(self) -> bool {
        self.show_clear_confirmation || self.show_entity_popup
    }

    /// The four layers are those of `other`.
    pub open spec fn same_layers(self, other: EditorView) -> bool {
        &&& self.foreground == other.foreground
        &&& self.background == other.background
        &&& self.collision == other.collision
        &&& self.entities == other.entities
    }

    /// The session with `action` logged: it is the newest entry of the undo
    /// log, and nothing is left to redo.
    pub open spec fn commit(self, action: ActionView) -> EditorView {
        EditorView {
            undo_queue: self.undo_queue.push(action),
            redo_queue: Seq::empty(),
            ..self
        }
    }

    /// The session with everything erased: the four layers, the set of used
    /// labels and both logs are empty, and the clear confirmation is closed.
    pub open spec fn clear(self) -> EditorView {
        EditorView {
            show_clear_confirmation: false,
            foreground: Map::empty(),
            background: Map::empty(),
            collision: Set::empty(),
            entity_descriptions: Set::empty(),
            entities: Map::empty(),
            undo_queue: Seq::empty(),
            redo_queue: Seq::empty(),
            ..self
        }
    }

    /// The session with the next mode of the cycle.
    pub open spec fn toggle_current_mode(self) -> EditorView {
        EditorView { current_mode: self.current_mode.spec_next(), ..self }
    }

    /// The session with the layers as they are once `action` is reverted,
    /// together with the action that reverts the reversal.
    ///
    /// An entity action on a cell that holds an entity takes the entity out,
    /// with its label out of the set of used labels, and hands the label on
    /// in the new action; on an empty cell it puts back the label that the
    /// action carries, if it carries one.
    pub open spec fn revert(self, action: ActionView) -> (EditorView, ActionView) {
        match action {
            ActionView::ClickForeground(cell, uv, prev, drag) => {
                let (layer, uv2, prev2) = revert_paint(self.foreground, cell, uv, prev, drag);
                (
                    EditorView { foreground: layer, ..self },
                    ActionView::ClickForeground(cell, uv2, prev2, drag),
                )
            },
            ActionView::ClickBackground(cell, uv, prev, drag) => {
                let (layer, uv2, prev2) = revert_paint(self.background, cell, uv, prev, drag);
                (
                    EditorView { background: layer, ..self },
                    ActionView::ClickBackground(cell, uv2, prev2, drag),
                )
            },
            ActionView::ClickCollision(cell) => (
                EditorView { collision: toggled(self.collision, cell), ..self },
                action,
            ),
            ActionView::ClickEntity(cell, prev) => if self.entities.contains_key(cell) {
                let label = self.entities[cell];
                (
                    EditorView {
                        entities: self.entities.remove(cell),
                        entity_descriptions: self.entity_descriptions.remove(label),
                        ..self
                    },
                    ActionView::ClickEntity(cell, Some(label)),
                )
            } else {
                match prev {
                    Some(label) => (
                        EditorView {
                            entities: self.entities.insert(cell, label),
                            entity_descriptions: self.entity_descriptions.insert(label),
                            ..self
                        },
                        action,
                    ),
                    None => (self, action),
                }
            },
        }
    }

    /// The session after an undo (`is_undo`) or a redo: the newest action of
    /// the one log is taken off and reverted, and the action that reverts
    /// the reversal becomes the newest of the other log. With nothing in the
    /// log the session stays as it is.
    pub open spec fn handle_undo_redo(self, is_undo: bool) -> EditorView {
        let queue = if is_undo {
            self.undo_queue
        } else {
            self.redo_queue
        };
        if queue.len() == 0 {
            self
        } else {
            let (reverted, back) = self.revert(queue.last());
            if is_undo {
                EditorView {
                    undo_queue: queue.drop_last(),
                    redo_queue: self.redo_queue.push(back),
                    ..reverted
                }
            } else {
                EditorView {
                    redo_queue: queue.drop_last(),
                    undo_queue: self.undo_queue.push(back),
                    ..reverted
                }
            }
        }
    }

    /// The session after an undo.
    pub open spec fn undo(self) -> EditorView {
        self.handle_undo_redo(true)
    }

    /// The session after a redo.
    pub open spec fn redo(self) -> EditorView {
        self.handle_undo_redo(false)
    }

    /// The layer that the current mode paints: the foreground in foreground
    /// mode, else the background.
    pub open spec fn draw_layer(self) -> Map<HashableVec2, SpriteUV> {
        if self.current_mode == Mode::DrawForeground {
            self.foreground
        } else {
            self.background
        }
    }

    /// The session with `layer` as the layer that the current mode paints.
    pub open spec fn with_draw_layer(self, layer: Map<HashableVec2, SpriteUV>) -> EditorView {
        if self.current_mode == Mode::DrawForeground {
            EditorView { foreground: layer, ..self }
        } else {
            EditorView { background: layer, ..self }
        }
    }

    /// The paint action of the current mode.
    pub open spec fn paint_action(
        self,
        cell: HashableVec2,
        uv: SpriteUV,
        prev: Option<SpriteUV>,
        drag: bool,
    ) -> ActionView {
        if self.current_mode == Mode::DrawForeground {
            ActionView::ClickForeground(cell, uv, prev, drag)
        } else {
            ActionView::ClickBackground(cell, uv, prev, drag)
        }
    }

    /// The session after the brush has met `cell` in a paint mode: the layer
    /// of the current mode is painted, and the edit is logged where
    /// [`painted`] says so. Without a brush nothing happens.
    pub open spec fn paint(self, is_drag: bool, cell: HashableVec2) -> EditorView {
        match self.selected_uv {
            Some(brush) => {
                let (layer, logged) = painted(self.draw_layer(), brush, is_drag, cell);
                let after = self.with_draw_layer(layer);
                match logged {
                    Some(prev) => after.commit(self.paint_action(cell, brush, prev, is_drag)),
                    None => after,
                }
            },
            None => self,
        }
    }

    /// The session after the sprite of `cell`, if it has one in the layer
    /// of the current mode, has been taken up as the brush.
    pub open spec fn sample(self, cell: HashableVec2) -> EditorView {
        if self.draw_layer().contains_key(cell) {
            EditorView { selected_uv: Some(self.draw_layer()[cell]), ..self }
        } else {
            self
        }
    }

    /// The session after a pointer event on `cell` in a paint mode: a
    /// primary click or a drag step paints, then a secondary click samples.
    pub open spec fn handle_plot_fg_bg_clicks(
        self,
        primary_clicked: bool,
        secondary_clicked: bool,
        is_drag: bool,
        cell: HashableVec2,
    ) -> EditorView {
        let painted = if primary_clicked || is_drag {
            self.paint(is_drag, cell)
        } else {
            self
        };
        if secondary_clicked {
            painted.sample(cell)
        } else {
            painted
        }
    }

    /// The session after a pointer event on `cell` in collision mode.
    ///
    /// A click switches the membership of the cell and is always logged. A
    /// drag step adds the cell, and is logged where the cell was no member.
    pub open spec fn handle_plot_collision_clicks(
        self,
        primary_clicked: bool,
        is_drag: bool,
        cell: HashableVec2,
    ) -> EditorView {
        if primary_clicked || is_drag {
            if !is_drag {
                EditorView { collision: toggled(self.collision, cell), ..self }.commit(
                    ActionView::ClickCollision(cell),
                )
            } else if !self.collision.contains(cell) {
                EditorView { collision: self.collision.insert(cell), ..self }.commit(
                    ActionView::ClickCollision(cell),
                )
            } else {
                self
            }
        } else {
            self
        }
    }

    /// The session after a pointer event on `cell` in entity mode.
    ///
    /// A primary click on an occupied cell deletes the entity, takes its
    /// label out of the set of used labels and logs the label. On an empty
    /// cell it enters an entity with an empty label, selects it, opens the
    /// label editor and logs the action without a label. A drag step does
    /// nothing. A secondary click on an occupied cell selects the entity
    /// and opens the label editor on its label; this is not logged.
    pub open spec fn handle_plot_entity_clicks(
        self,
        primary_clicked: bool,
        secondary_clicked: bool,
        is_drag: bool,
        cell: HashableVec2,
    ) -> EditorView {
        if primary_clicked || is_drag {
            if is_drag {
                self
            } else if self.entities.contains_key(cell) {
                let label = self.entities[cell];
                EditorView {
                    entities: self.entities.remove(cell),
                    entity_descriptions: self.entity_descriptions.remove(label),
                    ..self
                }.commit(ActionView::ClickEntity(cell, Some(label)))
            } else {
                EditorView {
                    entities: self.entities.insert(cell, Seq::empty()),
                    show_entity_popup: true,
                    prev_entity_description: Seq::empty(),
                    selected_entity: Some(cell),
                    ..self
                }.commit(ActionView::ClickEntity(cell, None))
            }
        } else if secondary_clicked && self.entities.contains_key(cell) {
            EditorView {
                show_entity_popup: true,
                entity_description: self.entities[cell],
                prev_entity_description: self.entities[cell],
                selected_entity: Some(cell),
                ..self
            }
        } else {
            self
        }
    }

    /// The session after a pointer event on `cell`: nothing happens without
    /// a click or a drag step, or while a modal window is open; else the
    /// event goes to the tool of the current mode.
    pub open spec fn handle_plot_clicks(
        self,
        cell: HashableVec2,
        primary_clicked: bool,
        secondary_clicked: bool,
        is_drag: bool,
    ) -> EditorView {
        if !(primary_clicked || secondary_clicked || is_drag) || self.modal_open() {
            self
        } else {
            match self.current_mode {
                Mode::DrawForeground | Mode::DrawBackground => self.handle_plot_fg_bg_clicks(
                    primary_clicked,
                    secondary_clicked,
                    is_drag,
                    cell,
                ),
                Mode::Collision => self.handle_plot_collision_clicks(
                    primary_clicked,
                    is_drag,
                    cell,
                ),
                Mode::Entity => self.handle_plot_entity_clicks(
                    primary_clicked,
                    secondary_clicked,
                    is_drag,
                    cell,
                ),
            }
        }
    }

    /// Whether some cell other than `key` holds an entity labelled `label`.
    pub open spec fn label_used_elsewhere(self, label: Seq<char>, key: HashableVec2) -> bool {
        exists|c: HashableVec2|
            c != key && #[trigger] self.entities.contains_key(c) && self.entities[c] == label
    }

    /// Whether the label editor may confirm the text it holds for the
    /// entity at `key`: the text is not empty, and no other cell uses it.
    pub open spec fn description_ok(self, key: HashableVec2) -> bool {
        self.entity_description.len() > 0 && !self.label_used_elsewhere(
            self.entity_description,
            key,
        )
    }

    /// The session after the label editor has confirmed its text for the
    /// entity at `key`: the entity holds the text as its label, the set of
    /// used labels holds it in place of the label that the editor was
    /// opened on, the editor is closed and empty, and nothing is left to
    /// redo.
    pub open spec fn do_entity_ok(self, key: HashableVec2) -> EditorView {
        let kept = if self.prev_entity_description != self.entity_description {
            self.entity_descriptions.remove(self.prev_entity_description)
        } else {
            self.entity_descriptions
        };
        EditorView {
            show_entity_popup: false,
            entities: self.entities.insert(key, self.entity_description),
            entity_descriptions: kept.insert(self.entity_description),
            entity_description: Seq::empty(),
            redo_queue: Seq::empty(),
            ..self
        }
    }

    /// The session after a request to confirm the label editor's text: it
    /// is confirmed where it may be, else nothing changes.
    pub open spec fn confirm_entity(self) -> EditorView {
        match self.selected_entity {
            Some(key) => if self.description_ok(key) {
                self.do_entity_ok(key)
            } else {
                self
            },
            None => self,
        }
    }

    /// The session after the label editor has been cancelled: the editor is
    /// closed and empty, and the selected entity is deleted where the text
    /// could not have been confirmed or the editor was opened on an empty
    /// label.
    pub open spec fn cancel_entity(self) -> EditorView {
        match self.selected_entity {
            Some(key) => {
                let entities = if !self.description_ok(key) || self.prev_entity_description.len()
                    == 0 {
                    self.entities.remove(key)
                } else {
                    self.entities
                };
                EditorView {
                    entities,
                    show_entity_popup: false,
                    entity_description: Seq::empty(),
                    ..self
                }
            },
            None => self,
        }
    }

    /// The session after one round of the label editor, given the text that
    /// its field holds and which of its controls were used: the text is
    /// taken over, then a pressed enter key confirms, then a clicked cancel
    /// button cancels, then a clicked ok button confirms. While the editor
    /// is closed nothing happens.
    pub open spec fn entity_popup_step(
        self,
        text: Seq<char>,
        enter_pressed: bool,
        cancel_clicked: bool,
        ok_clicked: bool,
    ) -> EditorView {
        if !self.show_entity_popup {
            self
        } else {
            let typed = EditorView { entity_description: text, ..self };
            let entered = if enter_pressed {
                typed.confirm_entity()
            } else {
                typed
            };
            let cancelled = if cancel_clicked {
                entered.cancel_entity()
            } else {
                entered
            };
            if ok_clicked {
                cancelled.confirm_entity()
            } else {
                cancelled
            }
        }
    }

    /// The session after one round of the clear confirmation: while it is
    /// open, cancel closes it and ok erases everything.
    pub open spec fn handle_clear_confirmation_popup(
        self,
        cancel_clicked: bool,
        ok_clicked: bool,
    ) -> EditorView {
        if !self.show_clear_confirmation {
            self
        } else {
            let cancelled = if cancel_clicked {
                EditorView { show_clear_confirmation: false, ..self }
            } else {
                self
            };
            if ok_clicked {
                cancelled.clear()
            } else {
                cancelled
            }
        }
    }

    /// Whether a key event is one that the shortcuts act on: a key that is
    /// let go while no modal window is open.
    pub open spec fn shortcut_enabled(self, pressed: bool) -> bool {
        !self.modal_open() && !pressed
    }

    /// The session after a key event: M switches the mode, and with the
    /// control key Z undoes and R redoes.
    pub open spec fn handle_toplevel_input(self, key: Key, pressed: bool, ctrl: bool)
        -> EditorView {
        if !self.shortcut_enabled(pressed) {
            self
        } else {
            match key {
                Key::M => self.toggle_current_mode(),
                Key::Z => if ctrl {
                    self.undo()
                } else {
                    self
                },
                Key::R => if ctrl {
                    self.redo()
                } else {
                    self
                },
                _ => self,
            }
        }
    }

    /// What a key event leaves for the caller to do: with the control key,
    /// O asks to open a level and S asks to save one.
    pub open spec fn file_request(self, key: Key, pressed: bool, ctrl: bool) -> FileRequest {
        if self.shortcut_enabled(pressed) && ctrl {
            match key {
                Key::O => FileRequest::Open,
                Key::S => FileRequest::Save,
                _ => FileRequest::Nothing,
            }
        } else {
            FileRequest::Nothing
        }
    }
}

} // verus!
