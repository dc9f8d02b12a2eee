//! The two modal windows: the confirmation before everything is erased, and
//! the editor of an entity's label, which keeps labels apart.

use crate::cell_map::lemma_ascending_distinct;
use crate::cell_map::lemma_cell_index_unique;
use crate::editor::Editor;
use crate::model::actions_view;
use crate::types::HashableVec2;
use vstd::prelude::*;

verus! {

/// The text without the white space at its two ends.
pub uninterp spec fn trimmed(text: Seq<char>) -> Seq<char>;

/// The text without the white space at its two ends, as a string of its
/// own.
///
/// This is `str::trim` of the standard library. It is taken on trust that
/// what it returns depends on the characters of the text alone.
#[verifier::external_body]
fn trim_text(text: &str) -> (r: String)
    ensures
        r@ == trimmed(text@),
{
    text.trim().to_string()
}

impl Editor {
    /// Whether some cell other than `key` holds an entity labelled `label`.
    pub fn label_used_elsewhere(&self, label: &String, key: HashableVec2) -> (used: bool)
        requires
            self.wf(),
        ensures
            used == self@.label_used_elsewhere(label@, key),
    {
        let n = self.entity_tiles.len();
        let mut i: usize = 0;
        while i < n
            invariant
                self.wf(),
                n == self.entity_tiles.entries().len(),
                i <= n,
                forall|j: int|
                    0 <= j < i ==> !({
                        &&& (#[trigger] self.entity_tiles.entries()[j]).0 != key
                        &&& self.entity_tiles.entries()[j].1 == label@
                    }),
            decreases n - i,
        {
            if self.entity_tiles.cell_at(i) != key && *self.entity_tiles.value_at(i) == *label {
                proof {
                    lemma_ascending_distinct(self.entity_tiles.entries());
                    lemma_cell_index_unique(self.entity_tiles.entries(), i as int);
                    assert(self@.entities.contains_key(self.entity_tiles.entries()[i as int].0));
                }
                return true;
            }
            i += 1;
        }
        proof {
            if self@.label_used_elsewhere(label@, key) {
                let c = choose|c: HashableVec2|
                    c != key && #[trigger] self@.entities.contains_key(c) && self@.entities[c]
                        == label@;
                let j = crate::cell_map::cell_index(self.entity_tiles.entries(), c);
                assert(0 <= j < n && self.entity_tiles.entries()[j].0 == c);
                lemma_ascending_distinct(self.entity_tiles.entries());
                lemma_cell_index_unique(self.entity_tiles.entries(), j);
            }
        }
        false
    }

    /// Whether the label editor may confirm the text it holds, and the cell
    /// of the selected entity: the text may be confirmed where it is not
    /// empty and no other cell's entity uses it as its label.
    pub fn entity_description_is_ok(&self) -> (r: (bool, HashableVec2))
        requires
            self.wf(),
            self@.selected_entity is Some,
        ensures
            r.1 == self@.selected_entity->0,
            r.0 == self@.description_ok(r.1),
    {
        match self.selected_entity {
            Some(entity_key) => (
                !self.entity_description.as_str().is_empty() && !self.label_used_elsewhere(
                    &self.entity_description,
                    entity_key,
                ),
                entity_key,
            ),
            None => (false, HashableVec2 { x: 0, y: 0 }),
        }
    }

    /// Confirms the label editor's text for the entity at `entity_key`: the
    /// entity holds the text as its label, the set of used labels holds it
    /// in place of the label that the editor was opened on, the editor is
    /// closed and emptied, and the redo log is emptied.
    pub fn do_entity_ok(&mut self, entity_key: HashableVec2)
        requires
            old(self).wf(),
        ensures
            final(self).wf(),
            final(self)@ == old(self)@.do_entity_ok(entity_key),
    {
        if self.prev_entity_description != self.entity_description {
            self.entity_descriptions.remove(&self.prev_entity_description);
        }
        self.show_entity_popup = false;
        self.entity_tiles.insert(entity_key, self.entity_description.clone());
        self.entity_descriptions.insert(self.entity_description.clone());
        self.entity_description = String::new();
        self.redo_queue.clear();
        proof {
            assert(actions_view(self.redo_queue@) =~= Seq::empty());
        }
    }

    /// Confirms the label editor's text where it may be confirmed. A text
    /// that is empty, or that another cell's entity uses as its label, is
    /// turned down: nothing changes, and the editor stays open.
    pub fn confirm_entity(&mut self)
        requires
            old(self).wf(),
        ensures
            final(self).wf(),
            final(self)@ == old(self)@.confirm_entity(),
            old(self)@.selected_entity matches Some(key) && !old(self)@.description_ok(key)
                ==> *final(self) == *old(self),
    {
        if self.selected_entity.is_some() {
            let (description_is_ok, entity_key) = self.entity_description_is_ok();
            if description_is_ok {
                self.do_entity_ok(entity_key);
            }
        }
    }

    /// Cancels the label editor: it is closed and emptied, and the selected
    /// entity is deleted where the text could not have been confirmed or
    /// the editor was opened on an empty label.
    pub fn cancel_entity(&mut self)
        requires
            old(self).wf(),
        ensures
            final(self).wf(),
            final(self)@ == old(self)@.cancel_entity(),
    {
        if self.selected_entity.is_some() {
            let (description_is_ok, entity_key) = self.entity_description_is_ok();
            if !description_is_ok || self.prev_entity_description.as_str().is_empty() {
                self.entity_tiles.remove(entity_key);
            }
            self.show_entity_popup = false;
            self.entity_description = String::new();
        }
    }

    /// One round of the label editor, given the text of its field and which
    /// of its controls were used: the text is taken over, then a pressed
    /// enter key confirms, then a clicked cancel button cancels, then a
    /// clicked ok button confirms. While the editor is closed nothing
    /// happens.
    pub fn entity_popup_step(
        &mut self,
        text: String,
        enter_pressed: bool,
        cancel_clicked: bool,
        ok_clicked: bool,
    )
        requires
            old(self).wf(),
        ensures
            final(self).wf(),
            final(self)@ == old(self)@.entity_popup_step(
                text@,
                enter_pressed,
                cancel_clicked,
                ok_clicked,
            ),
    {
        if self.show_entity_popup {
            self.entity_description = text;
            if enter_pressed {
                self.confirm_entity();
            }
            if cancel_clicked {
                self.cancel_entity();
            }
            if ok_clicked {
                self.confirm_entity();
            }
        }
    }

    /// One round of the label editor on the text as it was typed: the white
    /// space at the two ends of the text is dropped, and the round goes on
    /// as [`Editor::entity_popup_step`] says.
    pub fn handle_entity_popup(
        &mut self,
        typed: &str,
        enter_pressed: bool,
        cancel_clicked: bool,
        ok_clicked: bool,
    )
        requires
            old(self).wf(),
        ensures
            final(self).wf(),
            final(self)@ == old(self)@.entity_popup_step(
                trimmed(typed@),
                enter_pressed,
                cancel_clicked,
                ok_clicked,
            ),
    {
        let text = trim_text(typed);
        self.entity_popup_step(text, enter_pressed, cancel_clicked, ok_clicked);
    }

    /// One round of the clear confirmation: while it is open, cancel closes
    /// it and ok erases everything.
    pub fn handle_clear_confirmation_popup(&mut self, cancel_clicked: bool, ok_clicked: bool)
        requires
            old(self).wf(),
        ensures
            final(self).wf(),
            final(self)@ == old(self)@.handle_clear_confirmation_popup(cancel_clicked, ok_clicked),
    {
        if self.show_clear_confirmation {
            if cancel_clicked {
                self.show_clear_confirmation = false;
            }
            if ok_clicked {
                self.clear();
            }
        }
    }
}

} // verus!
