//! Laws of the editor, proved of the session's value and its operations.

use crate::model::EditorView;
use crate::types::ActionView;
use crate::types::HashableVec2;
use crate::types::Mode;
use vstd::prelude::*;

verus! {

impl EditorView {
    /// Whether a pointer event on `cell` logs an action.
    pub open spec fn logs_action(
        self,
        cell: HashableVec2,
        primary_clicked: bool,
        secondary_clicked: bool,
        is_drag: bool,
    ) -> bool {
        self.handle_plot_clicks(cell, primary_clicked, secondary_clicked, is_drag).undo_queue.len()
            == self.undo_queue.len() + 1
    }

    /// The set of used labels keeps step with the entity layer at `cell`: it
    /// does not hold the empty label, and it holds the label of the entity
    /// at `cell`, if there is one.
    pub open spec fn tracks_label_at(self, cell: HashableVec2) -> bool {
        &&& !self.entity_descriptions.contains(Seq::empty())
        &&& self.entities.contains_key(cell) ==> self.entity_descriptions.contains(
            self.entities[cell],
        )
    }

    /// The entities with a label that is not empty have pairwise different
    /// labels.
    pub open spec fn labels_unique(self) -> bool {
        forall|a: HashableVec2, b: HashableVec2|
            #![trigger self.entities[a], self.entities[b]]
            self.entities.contains_key(a) && self.entities.contains_key(b) && a != b
                && self.entities[a].len() > 0 ==> self.entities[a] != self.entities[b]
    }
}

/// A pointer event logs at most one action, and where it logs one, nothing
/// is left to redo.
pub proof fn law_event_logs_at_most_one_action(
    s: EditorView,
    cell: HashableVec2,
    primary_clicked: bool,
    secondary_clicked: bool,
    is_drag: bool,
)
    ensures
        ({
            let after = s.handle_plot_clicks(cell, primary_clicked, secondary_clicked, is_drag);
            &&& s.logs_action(cell, primary_clicked, secondary_clicked, is_drag) ==> {
                &&& after.undo_queue.drop_last() == s.undo_queue
                &&& after.redo_queue.len() == 0
            }
            &&& !s.logs_action(cell, primary_clicked, secondary_clicked, is_drag) ==> {
                &&& after.undo_queue == s.undo_queue
                &&& after.redo_queue == s.redo_queue
                &&& after.same_layers(s)
            }
        }),
{
    let after = s.handle_plot_clicks(cell, primary_clicked, secondary_clicked, is_drag);
    if s.logs_action(cell, primary_clicked, secondary_clicked, is_drag) {
        assert(after.undo_queue.drop_last() =~= s.undo_queue);
    }
}

/// Undo after a logged edit restores the four layers to what they were
/// before the edit, and the undo log with them. The set of used labels is
/// restored too where it kept step with the entity layer at the cell.
pub proof fn law_undo_restores_layers(
    s: EditorView,
    cell: HashableVec2,
    primary_clicked: bool,
    secondary_clicked: bool,
    is_drag: bool,
)
    requires
        s.logs_action(cell, primary_clicked, secondary_clicked, is_drag),
    ensures
        ({
            let undone = s.handle_plot_clicks(
                cell,
                primary_clicked,
                secondary_clicked,
                is_drag,
            ).undo();
            &&& undone.same_layers(s)
            &&& undone.undo_queue == s.undo_queue
            &&& undone.redo_queue.len() == 1
            &&& s.tracks_label_at(cell) ==> undone.entity_descriptions == s.entity_descriptions
        }),
{
    let after = s.handle_plot_clicks(cell, primary_clicked, secondary_clicked, is_drag);
    let undone = after.undo();
    assert(after.undo_queue.drop_last() =~= s.undo_queue);
    assert(undone.foreground =~= s.foreground);
    assert(undone.background =~= s.background);
    assert(undone.collision =~= s.collision);
    assert(undone.entities =~= s.entities);
    if s.tracks_label_at(cell) {
        assert(undone.entity_descriptions =~= s.entity_descriptions);
    }
}

/// Redo after the undo of a logged edit restores the four layers to what
/// they were after the edit; the undo log is as long as it was, and nothing
/// is left to redo.
pub proof fn law_redo_restores_layers(
    s: EditorView,
    cell: HashableVec2,
    primary_clicked: bool,
    secondary_clicked: bool,
    is_drag: bool,
)
    requires
        s.logs_action(cell, primary_clicked, secondary_clicked, is_drag),
    ensures
        ({
            let after = s.handle_plot_clicks(cell, primary_clicked, secondary_clicked, is_drag);
            let redone = after.undo().redo();
            &&& redone.same_layers(after)
            &&& redone.undo_queue.len() == after.undo_queue.len()
            &&& redone.undo_queue.drop_last() == s.undo_queue
            &&& redone.redo_queue.len() == 0
        }),
{
    let after = s.handle_plot_clicks(cell, primary_clicked, secondary_clicked, is_drag);
    let undone = after.undo();
    let redone = undone.redo();
    assert(after.undo_queue.drop_last() =~= s.undo_queue);
    assert(undone.redo_queue.drop_last() =~= after.redo_queue);
    assert(redone.undo_queue.drop_last() =~= s.undo_queue);
    assert(redone.foreground =~= after.foreground);
    assert(redone.background =~= after.background);
    assert(redone.collision =~= after.collision);
    assert(redone.entities =~= after.entities);
}

/// Once an action has been undone, further rounds of redo and undo move
/// between the same two sessions: undo, redo, undo gives what undo gave, and
/// undo, redo, undo, redo gives what undo, redo gave.
pub proof fn law_undo_redo_cycle(s: EditorView)
    requires
        s.undo_queue.len() > 0,
    ensures
        s.undo().redo().undo() == s.undo(),
        s.undo().redo().undo().redo() == s.undo().redo(),
{
    let s2 = s.undo();
    let s3 = s2.redo();
    let s4 = s3.undo();
    assert(s2.redo_queue.drop_last() =~= s.redo_queue);
    assert(s3.undo_queue.drop_last() =~= s2.undo_queue);
    assert(s4.undo_queue =~= s2.undo_queue);
    assert(s4.redo_queue =~= s2.redo_queue);
    assert(s4.foreground =~= s2.foreground);
    assert(s4.background =~= s2.background);
    assert(s4.collision =~= s2.collision);
    assert(s4.entities =~= s2.entities);
    assert(s4.entity_descriptions =~= s2.entity_descriptions);
    assert(s4 =~= s2);
}

/// A newly logged action discards what could be redone: a redo right after
/// it changes nothing.
pub proof fn law_commit_discards_redo(s: EditorView, action: ActionView)
    ensures
        s.commit(action).redo_queue.len() == 0,
        s.commit(action).redo() == s.commit(action),
{
}

/// After an undo, a pointer event that logs an action leaves nothing to
/// redo: a redo right after it changes nothing.
pub proof fn law_edit_after_undo_discards_redo(
    s: EditorView,
    cell: HashableVec2,
    primary_clicked: bool,
    secondary_clicked: bool,
    is_drag: bool,
)
    requires
        s.undo().logs_action(cell, primary_clicked, secondary_clicked, is_drag),
    ensures
        ({
            let after = s.undo().handle_plot_clicks(
                cell,
                primary_clicked,
                secondary_clicked,
                is_drag,
            );
            &&& after.redo_queue.len() == 0
            &&& after.redo() == after
        }),
{
}

/// Undo and redo on an empty log change nothing.
pub proof fn law_empty_log_is_noop(s: EditorView)
    ensures
        s.undo_queue.len() == 0 ==> s.undo() == s,
        s.redo_queue.len() == 0 ==> s.redo() == s,
{
}

/// Two clicks on one cell in collision mode leave the collision layer as it
/// was and log two actions; two undos after them restore the four layers
/// and the undo log, and leave two actions to redo.
pub proof fn law_collision_toggle_twice(s: EditorView, cell: HashableVec2)
    requires
        s.current_mode == Mode::Collision,
        !s.modal_open(),
    ensures
        ({
            let once = s.handle_plot_clicks(cell, true, false, false);
            let twice = once.handle_plot_clicks(cell, true, false, false);
            let back = twice.undo().undo();
            &&& once.collision.contains(cell) == !s.collision.contains(cell)
            &&& twice.same_layers(s)
            &&& twice.undo_queue.len() == s.undo_queue.len() + 2
            &&& back.same_layers(s)
            &&& back.undo_queue == s.undo_queue
            &&& back.redo_queue.len() == 2
        }),
{
    let once = s.handle_plot_clicks(cell, true, false, false);
    let twice = once.handle_plot_clicks(cell, true, false, false);
    let first = twice.undo();
    let back = first.undo();
    assert(twice.collision =~= s.collision);
    assert(twice.undo_queue.drop_last() =~= once.undo_queue);
    assert(once.undo_queue.drop_last() =~= s.undo_queue);
    assert(first.undo_queue =~= once.undo_queue);
    assert(back.undo_queue =~= s.undo_queue);
    assert(first.collision =~= once.collision);
    assert(back.collision =~= s.collision);
}

/// The label editor turns down a label that another cell's entity uses:
/// nothing changes, and the editor stays as it was. The same holds of an
/// empty label.
pub proof fn law_used_label_is_rejected(s: EditorView, key: HashableVec2)
    requires
        s.selected_entity == Some(key),
        s.entity_description.len() == 0 || s.label_used_elsewhere(s.entity_description, key),
    ensures
        s.confirm_entity() == s,
        !s.description_ok(key),
{
}

/// A label that the label editor confirms is the label of no other cell's
/// entity: where the labels were pairwise different, they still are.
pub proof fn law_confirmed_labels_stay_unique(s: EditorView)
    requires
        s.labels_unique(),
    ensures
        s.confirm_entity().labels_unique(),
{
    let after = s.confirm_entity();
    if after != s {
        let key = s.selected_entity->0;
        let label = s.entity_description;
        assert forall|a: HashableVec2, b: HashableVec2|
            #![trigger after.entities[a], after.entities[b]]
            after.entities.contains_key(a) && after.entities.contains_key(b) && a != b
                && after.entities[a].len() > 0 implies after.entities[a] != after.entities[b] by {
            if a == key {
                assert(s.entities.contains_key(b));
            } else if b == key {
                assert(s.entities.contains_key(a));
            }
        }
    }
}

/// Pointer events and every round of the label editor keep the labels
/// pairwise different.
pub proof fn law_edits_keep_labels_unique(
    s: EditorView,
    cell: HashableVec2,
    primary_clicked: bool,
    secondary_clicked: bool,
    is_drag: bool,
    text: Seq<char>,
    enter_pressed: bool,
    cancel_clicked: bool,
    ok_clicked: bool,
)
    requires
        s.labels_unique(),
    ensures
        s.handle_plot_clicks(cell, primary_clicked, secondary_clicked, is_drag).labels_unique(),
        s.entity_popup_step(text, enter_pressed, cancel_clicked, ok_clicked).labels_unique(),
        s.cancel_entity().labels_unique(),
        s.clear().labels_unique(),
{
    let clicked = s.handle_plot_clicks(cell, primary_clicked, secondary_clicked, is_drag);
    assert(clicked.labels_unique()) by {
        assert forall|a: HashableVec2, b: HashableVec2|
            #![trigger clicked.entities[a], clicked.entities[b]]
            clicked.entities.contains_key(a) && clicked.entities.contains_key(b) && a != b
                && clicked.entities[a].len() > 0 implies clicked.entities[a]
            != clicked.entities[b] by {
            if clicked.entities != s.entities {
                if s.entities.contains_key(cell) {
                    assert(s.entities.contains_key(a) && s.entities.contains_key(b));
                } else {
                    assert(a != cell);
                    if b != cell {
                        assert(s.entities.contains_key(a) && s.entities.contains_key(b));
                    }
                }
            }
        }
    }
    lemma_cancel_keeps_labels_unique(s);
    if s.show_entity_popup {
        let typed = EditorView { entity_description: text, ..s };
        assert(typed.labels_unique());
        law_confirmed_labels_stay_unique(typed);
        let entered = if enter_pressed {
            typed.confirm_entity()
        } else {
            typed
        };
        lemma_cancel_keeps_labels_unique(entered);
        let cancelled = if cancel_clicked {
            entered.cancel_entity()
        } else {
            entered
        };
        law_confirmed_labels_stay_unique(cancelled);
    }
}

/// Cancelling the label editor keeps the labels pairwise different.
pub proof fn lemma_cancel_keeps_labels_unique(s: EditorView)
    requires
        s.labels_unique(),
    ensures
        s.cancel_entity().labels_unique(),
{
    let after = s.cancel_entity();
    assert forall|a: HashableVec2, b: HashableVec2|
        #![trigger after.entities[a], after.entities[b]]
        after.entities.contains_key(a) && after.entities.contains_key(b) && a != b
            && after.entities[a].len() > 0 implies after.entities[a] != after.entities[b] by {
        assert(s.entities.contains_key(a) && s.entities.contains_key(b));
    }
}

} // verus!
