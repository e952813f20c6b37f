//! Editing-surface state machines: popup and picker modes, and the
//! tap-dance editor, as pure transitions from state and input event
//! to the next state.

use vstd::prelude::*;
use crate::layout::Layout;
use crate::tap_dance::TapDanceAction;

verus! {

/// What a color being picked applies to.
#[derive(Clone, Copy, Debug, PartialEq, Eq, Structural)]
pub enum ColorPickerContext {
    /// An individual key's override.
    IndividualKey,
    /// A layer's default color.
    LayerDefault,
    /// A category's color.
    Category,
}

/// What a category being picked applies to.
#[derive(Clone, Copy, Debug, PartialEq, Eq, Structural)]
pub enum CategoryPickerContext {
    /// An individual key.
    IndividualKey,
    /// A whole layer.
    Layer,
}

/// The popups that can sit over the main editing surface.
#[derive(Clone, Copy, Debug, PartialEq, Eq, Structural)]
pub enum PopupType {
    KeycodePicker,
    ColorPicker,
    CategoryPicker,
    CategoryManager,
    TemplateBrowser,
    HelpOverlay,
    BuildLog,
    MetadataEditor,
    UnsavedChangesPrompt,
}

/// Events the tap-dance editor hands back to its caller.
#[derive(Clone, Debug, PartialEq, Eq)]
pub enum TapDanceEditorEvent {
    /// The user selected a tap dance, by name.
    Selected(String),
    /// The user cancelled.
    Cancelled,
    /// The user asked to delete a tap dance, by name.
    Delete(String),
}

/// An input key, as the state machines see it.
#[derive(Clone, Copy, Debug, PartialEq, Eq, Structural)]
pub enum InputKey {
    Char(char),
    Enter,
    Esc,
    Backspace,
    Up,
    Down,
}

/// Which mode the tap-dance editor is in.
#[derive(Clone, Copy, Debug, PartialEq, Eq, Structural)]
pub enum EditorMode {
    /// Selecting from the existing tap dances.
    Select,
    /// Creating a new tap dance, field by field.
    Edit,
}

/// The field being filled in edit mode.
#[derive(Clone, Copy, Debug, PartialEq, Eq, Structural)]
pub enum EditField {
    Name,
    SingleTap,
    DoubleTap,
    Hold,
}

/// Whether every character of a name is ASCII alphanumeric or an
/// underscore.
pub open spec fn name_chars_ok(s: Seq<char>) -> bool {
    forall|i: int|
        0 <= i < s.len() ==> {
            let u = (#[trigger] s[i]) as u32;
            (48 <= u && u <= 57) || (97 <= u && u <= 122) || (65 <= u && u <= 90) || s[i] == '_'
        }
}

/// Relies on String::push: appends exactly the given character.
#[verifier::external_body]
fn push_char(s: &mut String, c: char)
    ensures
        final(s)@ == old(s)@.push(c),
{
    s.push(c);
}

/// Relies on String::pop: removes and returns the last character.
#[verifier::external_body]
fn pop_char(s: &mut String) -> (r: Option<char>)
    ensures
        old(s)@.len() == 0 ==> final(s)@ == old(s)@ && r is None,
        old(s)@.len() > 0 ==> final(s)@ == old(s)@.drop_last() && r == Some(old(s)@.last()),
{
    s.pop()
}

/// Whether a name is acceptable, executably.
fn check_name(s: &str) -> (r: bool)
    ensures
        r == name_chars_ok(s@),
{
    let n = s.unicode_len();
    let mut i: usize = 0;
    while i < n
        invariant
            i <= n == s@.len(),
            forall|j: int|
                0 <= j < i ==> {
                    let u = (#[trigger] s@[j]) as u32;
                    (48 <= u && u <= 57) || (97 <= u && u <= 122) || (65 <= u && u <= 90) || s@[j]
                        == '_'
                },
        decreases n - i,
    {
        let c = s.get_char(i);
        let u = c as u32;
        if !((48 <= u && u <= 57) || (97 <= u && u <= 122) || (65 <= u && u <= 90) || c == '_') {
            return false;
        }
        i = i + 1;
    }
    true
}

/// The tap-dance editor: a two-mode state machine over the layout's
/// tap dances.
#[derive(Clone, Debug)]
pub struct TapDanceEditor {
    pub mode: EditorMode,
    /// The selected list entry, meaningful when the list is non-empty.
    pub selected: usize,
    pub tap_dances: Vec<TapDanceAction>,
    /// The action under construction in edit mode.
    pub editing: Option<TapDanceAction>,
    pub edit_field: EditField,
    pub input_buffer: String,
    pub status: String,
}

impl TapDanceEditor {
    /// Opens the editor on a layout's tap dances, in select mode.
    pub fn new(layout: &Layout) -> (e: TapDanceEditor)
        ensures
            e.mode == EditorMode::Select,
            e.selected == 0,
            e.tap_dances@.len() == layout.tap_dances@.len(),
            forall|i: int|
                0 <= i < layout.tap_dances@.len() ==> #[trigger] e.tap_dances@[i]
                    == layout.tap_dances@[i],
            e.editing is None,
            e.input_buffer@.len() == 0,
    {
        let mut tds: Vec<TapDanceAction> = Vec::new();
        let n = layout.tap_dances.len();
        let mut i: usize = 0;
        while i < n
            invariant
                i <= n == layout.tap_dances@.len(),
                tds@.len() == i,
                forall|j: int| 0 <= j < i ==> #[trigger] tds@[j] == layout.tap_dances@[j],
            decreases n - i,
        {
            tds.push(layout.tap_dances[i].duplicate());
            i = i + 1;
        }
        TapDanceEditor {
            mode: EditorMode::Select,
            selected: 0,
            tap_dances: tds,
            editing: None,
            edit_field: EditField::Name,
            input_buffer: String::new(),
            status: String::from_str("Select a tap dance or press 'n' to create new"),
        }
    }

    /// The selected tap dance's name, when the list has one.
    pub fn selected_name(&self) -> (r: Option<String>)
        ensures
            r is Some <==> self.selected < self.tap_dances@.len(),
            r matches Some(n) ==> n@ == self.tap_dances@[self.selected as int].name@,
    {
        if self.selected < self.tap_dances.len() {
            Some(self.tap_dances[self.selected].name.clone())
        } else {
            None
        }
    }

    /// One step of the select mode: up and down move the selection,
    /// enter selects, `n` starts a new action, `d` asks for deletion,
    /// and escape cancels.
    pub fn handle_select_mode(&mut self, key: InputKey) -> (r: Option<TapDanceEditorEvent>)
        ensures
            key == InputKey::Up ==> r is None && final(self).mode == old(self).mode && final(self).selected == (if old(self).selected > 0 {
                (old(self).selected - 1) as int
            } else {
                old(self).selected as int
            }),
            key == InputKey::Down ==> r is None && final(self).mode == old(self).mode && final(self).selected == (if old(self).selected + 1 < old(self).tap_dances@.len() {
                old(self).selected + 1
            } else {
                old(self).selected as int
            }),
            key == InputKey::Enter && old(self).selected < old(self).tap_dances@.len() ==> (
            r matches Some(e) && (e matches TapDanceEditorEvent::Selected(n) && n@ == old(self).tap_dances@[old(self).selected as int].name@)),
            key == InputKey::Enter && old(self).selected >= old(self).tap_dances@.len() ==> r is None,
            key == InputKey::Char('n') ==> r is None && final(self).mode == EditorMode::Edit && (
            final(self).editing matches Some(td) && td.name@.len() == 0 && td.single_tap@.len()
                == 0 && td.double_tap is None && td.hold is None) && final(self).edit_field
                == EditField::Name && final(self).input_buffer@.len() == 0,
            key == InputKey::Char('d') && old(self).selected < old(self).tap_dances@.len() ==> (
            r matches Some(e) && (e matches TapDanceEditorEvent::Delete(n) && n@ == old(self).tap_dances@[old(self).selected as int].name@)),
            key == InputKey::Esc ==> r == Some(TapDanceEditorEvent::Cancelled),
            final(self).tap_dances@ == old(self).tap_dances@,
    {
        match key {
            InputKey::Up => {
                if self.selected > 0 {
                    self.selected = self.selected - 1;
                }
                None
            },
            InputKey::Down => {
                if self.selected < self.tap_dances.len() && self.selected + 1
                    < self.tap_dances.len() {
                    self.selected = self.selected + 1;
                }
                None
            },
            InputKey::Enter => {
                match self.selected_name() {
                    Some(n) => Some(TapDanceEditorEvent::Selected(n)),
                    None => None,
                }
            },
            InputKey::Char(c) => {
                if c == 'n' {
                    self.mode = EditorMode::Edit;
                    self.editing = Some(
                        TapDanceAction {
                            name: String::new(),
                            single_tap: String::new(),
                            double_tap: None,
                            hold: None,
                        },
                    );
                    self.edit_field = EditField::Name;
                    self.input_buffer = String::new();
                    self.status = String::from_str(
                        "Enter tap dance name (alphanumeric + underscore)",
                    );
                    None
                } else if c == 'd' {
                    match self.selected_name() {
                        Some(n) => Some(TapDanceEditorEvent::Delete(n)),
                        None => None,
                    }
                } else {
                    None
                }
            },
            InputKey::Esc => Some(TapDanceEditorEvent::Cancelled),
            InputKey::Backspace => None,
        }
    }

    /// One step of the edit mode: characters extend the input buffer,
    /// backspace shortens it, enter applies the current field and
    /// advances (validating the name, requiring a single-tap code,
    /// and finishing on the hold field), and escape cancels back to
    /// select mode.
    pub fn handle_edit_mode(&mut self, key: InputKey) -> (r: Option<TapDanceEditorEvent>)
        requires
            old(self).mode == EditorMode::Edit,
        ensures
            r is None,
            key matches InputKey::Char(c) ==> final(self).input_buffer@ == old(self).input_buffer@.push(c) && final(self).mode == EditorMode::Edit && final(self).editing
                == old(self).editing && final(self).edit_field == old(self).edit_field,
            key == InputKey::Backspace ==> final(self).input_buffer@ == (if old(self).input_buffer@.len() > 0 {
                old(self).input_buffer@.drop_last()
            } else {
                old(self).input_buffer@
            }) && final(self).mode == EditorMode::Edit,
            key == InputKey::Esc ==> final(self).mode == EditorMode::Select && final(self).editing is None && final(self).input_buffer@.len() == 0,
            final(self).tap_dances@.len() >= old(self).tap_dances@.len(),
    {
        match key {
            InputKey::Char(c) => {
                push_char(&mut self.input_buffer, c);
                None
            },
            InputKey::Backspace => {
                let _ = pop_char(&mut self.input_buffer);
                None
            },
            InputKey::Esc => {
                self.mode = EditorMode::Select;
                self.editing = None;
                self.input_buffer = String::new();
                self.status = String::from_str("Editing cancelled");
                None
            },
            InputKey::Enter => {
                let field = self.edit_field;
                let buffer_empty = self.input_buffer.as_str().unicode_len() == 0;
                match field {
                    EditField::Name => {
                        if buffer_empty {
                            self.status = String::from_str("Error: Name cannot be empty");
                            return None;
                        }
                        if !check_name(self.input_buffer.as_str()) {
                            self.status = String::from_str(
                                "Error: Name must be alphanumeric with underscores only",
                            );
                            return None;
                        }
                        if let Some(td) = &self.editing {
                            let updated = TapDanceAction {
                                name: self.input_buffer.clone(),
                                single_tap: td.single_tap.clone(),
                                double_tap: None,
                                hold: None,
                            };
                            self.editing = Some(updated);
                            self.edit_field = EditField::SingleTap;
                            self.input_buffer = String::new();
                            self.status = String::from_str("Enter single tap keycode (required)");
                        }
                        None
                    },
                    EditField::SingleTap => {
                        if buffer_empty {
                            self.status = String::from_str(
                                "Error: Single tap keycode cannot be empty",
                            );
                            return None;
                        }
                        if let Some(td) = &self.editing {
                            let updated = TapDanceAction {
                                name: td.name.clone(),
                                single_tap: self.input_buffer.clone(),
                                double_tap: None,
                                hold: None,
                            };
                            self.editing = Some(updated);
                            self.edit_field = EditField::DoubleTap;
                            self.input_buffer = String::new();
                            self.status = String::from_str(
                                "Enter double tap keycode (optional, Enter to skip)",
                            );
                        }
                        None
                    },
                    EditField::DoubleTap => {
                        if let Some(td) = &self.editing {
                            let updated = TapDanceAction {
                                name: td.name.clone(),
                                single_tap: td.single_tap.clone(),
                                double_tap: if buffer_empty {
                                    None
                                } else {
                                    Some(self.input_buffer.clone())
                                },
                                hold: None,
                            };
                            self.editing = Some(updated);
                            self.edit_field = EditField::Hold;
                            self.input_buffer = String::new();
                            self.status = String::from_str(
                                "Enter hold keycode (optional, Enter to finish)",
                            );
                        }
                        None
                    },
                    EditField::Hold => {
                        if let Some(td) = &self.editing {
                            let finished = TapDanceAction {
                                name: td.name.clone(),
                                single_tap: td.single_tap.clone(),
                                double_tap: match &td.double_tap {
                                    Some(s) => Some(s.clone()),
                                    None => None,
                                },
                                hold: if buffer_empty {
                                    None
                                } else {
                                    Some(self.input_buffer.clone())
                                },
                            };
                            if !finished.validate() {
                                self.status = String::from_str("Validation error");
                                return None;
                            }
                            self.tap_dances.push(finished);
                            self.mode = EditorMode::Select;
                            self.editing = None;
                            self.input_buffer = String::new();
                            if self.tap_dances.len() > 0 {
                                self.selected = self.tap_dances.len() - 1;
                            }
                            self.status = String::from_str("Created tap dance");
                        }
                        None
                    },
                }
            },
            _ => None,
        }
    }

    /// Routes one input to the active mode.
    pub fn handle_input(&mut self, key: InputKey) -> (r: Option<TapDanceEditorEvent>)
    {
        match self.mode {
            EditorMode::Select => self.handle_select_mode(key),
            EditorMode::Edit => self.handle_edit_mode(key),
        }
    }
}

} // verus!
