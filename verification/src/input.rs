//! The keyboard shortcuts of the editor.

use crate::editor::Editor;
use crate::model::FileRequest;
use crate::model::Key;
use vstd::prelude::*;

verus! {

impl Editor {
    /// A key event.
    ///
    /// Only a key that is let go while no modal window is open does
    /// anything: M switches the mode; with the control key, Z undoes, R
    /// redoes, and O and S hand the request to open or to save a level back
    /// to the caller, who owns the files.
    pub fn handle_toplevel_input(&mut self, key: Key, pressed: bool, ctrl: bool) -> (request:
        FileRequest)
        requires
            old(self).wf(),
        ensures
            final(self).wf(),
            final(self)@ == old(self)@.handle_toplevel_input(key, pressed, ctrl),
            request == old(self)@.file_request(key, pressed, ctrl),
    {
        if self.show_clear_confirmation || self.show_entity_popup || pressed {
            return FileRequest::Nothing;
        }
        match key {
            Key::M => {
                self.toggle_current_mode();
                FileRequest::Nothing
            },
            Key::Z => {
                if ctrl {
                    self.handle_undo_redo(true);
                }
                FileRequest::Nothing
            },
            Key::R => {
                if ctrl {
                    self.handle_undo_redo(false);
                }
                FileRequest::Nothing
            },
            Key::O => {
                if ctrl {
                    FileRequest::Open
                } else {
                    FileRequest::Nothing
                }
            },
            Key::S => {
                if ctrl {
                    FileRequest::Save
                } else {
                    FileRequest::Nothing
                }
            },
            Key::Other => FileRequest::Nothing,
        }
    }
}

} // verus!
