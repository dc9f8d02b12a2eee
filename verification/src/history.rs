//! The undo/redo engine: logged actions are taken off one log, reverted on
//! the layers, and pushed on the other log in the form that reverts the
//! reversal.

use crate::cell_map::CellMap;
use crate::editor::Editor;
use crate::model::actions_view;
use crate::model::revert_paint;
use crate::types::Action;
use crate::types::HashableVec2;
use crate::types::SpriteUV;
use vstd::prelude::*;

verus! {

/// Reverts one paint action on `layer`, and hands back the sprite and the
/// earlier sprite of the action that reverts the reversal.
fn revert_paint_on(
    layer: &mut CellMap<SpriteUV>,
    cell: HashableVec2,
    uv: SpriteUV,
    prev: Option<SpriteUV>,
    drag: bool,
) -> (back: (SpriteUV, Option<SpriteUV>))
    requires
        old(layer).wf(),
    ensures
        final(layer).wf(),
        (final(layer)@, back.0, back.1) == revert_paint(old(layer)@, cell, uv, prev, drag),
{
    match prev {
        Some(old_uv) => {
            if drag {
                layer.insert(cell, old_uv);
                (old_uv, Some(uv))
            } else if layer.contains(cell) {
                layer.remove(cell);
                (uv, prev)
            } else {
                layer.insert(cell, old_uv);
                (uv, prev)
            }
        },
        None => {
            if layer.contains(cell) {
                layer.remove(cell);
                (uv, prev)
            } else {
                layer.insert(cell, uv);
                (uv, prev)
            }
        },
    }
}

impl Editor {
    /// Reverts `action` on the layers and hands back the action that
    /// reverts the reversal.
    fn revert(&mut self, action: Action) -> (back: Action)
        requires
            old(self).wf(),
        ensures
            final(self).wf(),
            (final(self)@, back@) == old(self)@.revert(action@),
    {
        match action {
            Action::ClickForeground(cell, uv, prev, drag) => {
                let (uv2, prev2) = revert_paint_on(
                    &mut self.foreground_plotted_tiles,
                    cell,
                    uv,
                    prev,
                    drag,
                );
                Action::ClickForeground(cell, uv2, prev2, drag)
            },
            Action::ClickBackground(cell, uv, prev, drag) => {
                let (uv2, prev2) = revert_paint_on(
                    &mut self.background_plotted_tiles,
                    cell,
                    uv,
                    prev,
                    drag,
                );
                Action::ClickBackground(cell, uv2, prev2, drag)
            },
            Action::ClickCollision(cell) => {
                if self.collision_tiles.contains(cell) {
                    self.collision_tiles.remove(cell);
                } else {
                    self.collision_tiles.insert(cell);
                }
                Action::ClickCollision(cell)
            },
            Action::ClickEntity(cell, prev) => {
                match self.entity_tiles.remove(cell) {
                    Some(label) => {
                        self.entity_descriptions.remove(&label);
                        Action::ClickEntity(cell, Some(label))
                    },
                    None => match prev {
                        Some(label) => {
                            self.entity_tiles.insert(cell, label.clone());
                            self.entity_descriptions.insert(label.clone());
                            Action::ClickEntity(cell, Some(label))
                        },
                        None => Action::ClickEntity(cell, None),
                    },
                }
            },
        }
    }

    /// Undoes the newest logged action (`is_undo`), or redoes the newest
    /// undone one. With an empty log this does nothing.
    pub fn handle_undo_redo(&mut self, is_undo: bool)
        requires
            old(self).wf(),
        ensures
            final(self).wf(),
            final(self)@ == old(self)@.handle_undo_redo(is_undo),
    {
        let popped = if is_undo {
            self.undo_queue.pop()
        } else {
            self.redo_queue.pop()
        };
        if let Some(action) = popped {
            proof {
                let queue = if is_undo {
                    old(self).undo_queue@
                } else {
                    old(self).redo_queue@
                };
                assert(actions_view(queue.drop_last()) =~= actions_view(queue).drop_last());
                assert(actions_view(queue).last() == action@);
            }
            let ghost before = self@;
            let back = self.revert(action);
            if is_undo {
                self.redo_queue.push(back);
                proof {
                    assert(actions_view(self.redo_queue@) =~= before.redo_queue.push(back@));
                }
            } else {
                self.undo_queue.push(back);
                proof {
                    assert(actions_view(self.undo_queue@) =~= before.undo_queue.push(back@));
                }
            }
        }
    }

    /// Undoes the newest logged action, if there is one.
    pub fn undo(&mut self)
        requires
            old(self).wf(),
        ensures
            final(self).wf(),
            final(self)@ == old(self)@.undo(),
    {
        self.handle_undo_redo(true);
    }

    /// Redoes the newest undone action, if there is one.
    pub fn redo(&mut self)
        requires
            old(self).wf(),
        ensures
            final(self).wf(),
            final(self)@ == old(self)@.redo(),
    {
        self.handle_undo_redo(false);
    }
}

} // verus!
