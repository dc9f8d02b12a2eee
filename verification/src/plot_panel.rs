//! The edit-mode dispatcher: a pointer event on a grid cell goes to the
//! tool of the current mode, which changes one layer and logs the edit.

use crate::cell_map::CellMap;
use crate::editor::Editor;
use crate::model::actions_view;
use crate::model::painted;
use crate::types::Action;
use crate::types::HashableVec2;
use crate::types::Mode;
use crate::types::SpriteUV;
use vstd::prelude::*;

verus! {

/// Lets the brush meet `cell` on `layer`, and says whether the edit is to
/// be logged, and with which earlier sprite.
fn paint_on(layer: &mut CellMap<SpriteUV>, brush: SpriteUV, is_drag: bool, cell: HashableVec2) -> (logged:
    Option<Option<SpriteUV>>)
    requires
        old(layer).wf(),
    ensures
        final(layer).wf(),
        (final(layer)@, logged) == painted(old(layer)@, brush, is_drag, cell),
{
    if !is_drag {
        match layer.remove(cell) {
            Some(earlier_uv) => Some(Some(earlier_uv)),
            None => {
                layer.insert(cell, brush);
                Some(None)
            },
        }
    } else {
        match layer.insert(cell, brush) {
            Some(earlier_uv) => {
                if earlier_uv != brush {
                    Some(Some(earlier_uv))
                } else {
                    proof {
                        assert(layer@ =~= old(layer)@);
                    }
                    None
                }
            },
            None => Some(None),
        }
    }
}

impl Editor {
    /// Logs `action`: it becomes the newest entry of the undo log, and the
    /// redo log is emptied.
    pub(crate) fn commit(&mut self, action: Action)
        requires
            old(self).wf(),
        ensures
            final(self).wf(),
            final(self)@ == old(self)@.commit(action@),
    {
        self.undo_queue.push(action);
        self.redo_queue.clear();
        proof {
            assert(actions_view(self.undo_queue@) =~= old(self)@.undo_queue.push(action@));
            assert(actions_view(self.redo_queue@) =~= Seq::empty());
        }
    }

    /// A pointer event on `cell` in one of the two paint modes.
    ///
    /// With a brush, a primary click paints an empty cell and erases an
    /// occupied one, and a drag step paints or overwrites; each is logged,
    /// but for a drag step over a cell that already held the brush's
    /// sprite. After that a secondary click takes the sprite of the cell,
    /// if it has one, as the brush.
    pub fn handle_plot_fg_bg_clicks(
        &mut self,
        primary_clicked: bool,
        secondary_clicked: bool,
        is_drag: bool,
        hashable_point: HashableVec2,
    )
        requires
            old(self).wf(),
            old(self)@.current_mode.is_draw(),
        ensures
            final(self).wf(),
            final(self)@ == old(self)@.handle_plot_fg_bg_clicks(
                primary_clicked,
                secondary_clicked,
                is_drag,
                hashable_point,
            ),
    {
        let foreground = self.current_mode == Mode::DrawForeground;
        if primary_clicked || is_drag {
            if let Some(selected_uv) = self.selected_uv {
                let logged = if foreground {
                    paint_on(&mut self.foreground_plotted_tiles, selected_uv, is_drag, hashable_point)
                } else {
                    paint_on(&mut self.background_plotted_tiles, selected_uv, is_drag, hashable_point)
                };
                if let Some(earlier_uv) = logged {
                    let action = if foreground {
                        Action::ClickForeground(hashable_point, selected_uv, earlier_uv, is_drag)
                    } else {
                        Action::ClickBackground(hashable_point, selected_uv, earlier_uv, is_drag)
                    };
                    self.commit(action);
                }
            }
        }
        if secondary_clicked {
            let sampled = if foreground {
                self.foreground_plotted_tiles.get(hashable_point)
            } else {
                self.background_plotted_tiles.get(hashable_point)
            };
            if let Some(uv) = sampled {
                self.selected_uv = Some(*uv);
            }
        }
    }

    /// A pointer event on `cell` in collision mode.
    ///
    /// A primary click switches the membership of the cell and is always
    /// logged. A drag step adds the cell, and is logged where the cell was
    /// no member before.
    pub fn handle_plot_collision_clicks(
        &mut self,
        primary_clicked: bool,
        is_drag: bool,
        hashable_point: HashableVec2,
    )
        requires
            old(self).wf(),
        ensures
            final(self).wf(),
            final(self)@ == old(self)@.handle_plot_collision_clicks(
                primary_clicked,
                is_drag,
                hashable_point,
            ),
    {
        if primary_clicked || is_drag {
            if !is_drag {
                if !self.collision_tiles.remove(hashable_point) {
                    self.collision_tiles.insert(hashable_point);
                }
                self.commit(Action::ClickCollision(hashable_point));
            } else {
                if self.collision_tiles.insert(hashable_point) {
                    self.commit(Action::ClickCollision(hashable_point));
                } else {
                    proof {
                        assert(self.collision_tiles@ =~= old(self).collision_tiles@);
                    }
                }
            }
        }
    }

    /// A pointer event on `cell` in entity mode.
    ///
    /// A primary click on an occupied cell deletes the entity, takes its
    /// label out of the set of used labels, and logs the label. On an empty
    /// cell it enters an entity with an empty label, selects it, opens the
    /// label editor and logs the action without a label. A drag step does
    /// nothing. A secondary click on an occupied cell selects the entity
    /// and opens the label editor on its label, which is not logged.
    pub fn handle_plot_entity_clicks(
        &mut self,
        primary_clicked: bool,
        secondary_clicked: bool,
        is_drag: bool,
        hashable_point: HashableVec2,
    )
        requires
            old(self).wf(),
        ensures
            final(self).wf(),
            final(self)@ == old(self)@.handle_plot_entity_clicks(
                primary_clicked,
                secondary_clicked,
                is_drag,
                hashable_point,
            ),
    {
        if primary_clicked || is_drag {
            if !is_drag {
                match self.entity_tiles.remove(hashable_point) {
                    Some(label) => {
                        self.entity_descriptions.remove(&label);
                        self.commit(Action::ClickEntity(hashable_point, Some(label)));
                    },
                    None => {
                        self.entity_tiles.insert(hashable_point, String::new());
                        self.show_entity_popup = true;
                        self.prev_entity_description = String::new();
                        self.selected_entity = Some(hashable_point);
                        self.commit(Action::ClickEntity(hashable_point, None));
                    },
                }
            }
        } else if secondary_clicked {
            let found = match self.entity_tiles.get(hashable_point) {
                Some(description) => Some(description.clone()),
                None => None,
            };
            if let Some(description) = found {
                self.show_entity_popup = true;
                self.prev_entity_description = description.clone();
                self.entity_description = description;
                self.selected_entity = Some(hashable_point);
            }
        }
    }

    /// A pointer event on the grid cell under the pointer.
    ///
    /// Nothing happens without a click or a drag step, or while a modal
    /// window is open. Else the event goes to the tool of the current mode.
    pub fn handle_plot_clicks(
        &mut self,
        hashable_point: HashableVec2,
        primary_clicked: bool,
        secondary_clicked: bool,
        is_drag: bool,
    )
        requires
            old(self).wf(),
        ensures
            final(self).wf(),
            final(self)@ == old(self)@.handle_plot_clicks(
                hashable_point,
                primary_clicked,
                secondary_clicked,
                is_drag,
            ),
    {
        if !(primary_clicked || secondary_clicked || is_drag) {
            return ;
        }
        if !self.show_clear_confirmation && !self.show_entity_popup {
            match self.current_mode {
                Mode::DrawForeground | Mode::DrawBackground => {
                    self.handle_plot_fg_bg_clicks(
                        primary_clicked,
                        secondary_clicked,
                        is_drag,
                        hashable_point,
                    );
                },
                Mode::Collision => {
                    self.handle_plot_collision_clicks(primary_clicked, is_drag, hashable_point);
                },
                Mode::Entity => {
                    self.handle_plot_entity_clicks(
                        primary_clicked,
                        secondary_clicked,
                        is_drag,
                        hashable_point,
                    );
                },
            }
        }
    }
}

} // verus!
