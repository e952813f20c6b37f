//! The keycode reference: a read-only table of valid codes with
//! display names and categories.

use vstd::prelude::*;
use crate::text::str_eq;

verus! {

/// One keycode of the reference.
#[derive(Clone, Debug)]
pub struct KeycodeDefinition {
    /// The firmware code, such as `KC_A`.
    pub code: String,
    /// The display name, such as `A`.
    pub name: String,
    /// The category name, such as `basic`.
    pub category: String,
    /// An optional longer description.
    pub description: Option<String>,
}

/// The keycode reference table.
#[derive(Clone, Debug)]
pub struct KeycodeDb {
    pub keycodes: Vec<KeycodeDefinition>,
}

/// The first index at or after `i` whose entry has the given code, or
/// -1 when there is none.
pub open spec fn db_index_from(s: Seq<KeycodeDefinition>, code: Seq<char>, i: int) -> int
    decreases s.len() - i,
{
    if i < 0 || i >= s.len() {
        -1
    } else if s[i].code@ == code {
        i
    } else {
        db_index_from(s, code, i + 1)
    }
}

/// Whether the reference knows a code.
pub open spec fn db_has(db: KeycodeDb, code: Seq<char>) -> bool {
    db_index_from(db.keycodes@, code, 0) >= 0
}

/// Whether one string is a prefix of another.
pub open spec fn is_prefix(p: Seq<char>, s: Seq<char>) -> bool {
    p.len() <= s.len() && forall|i: int| 0 <= i < p.len() ==> p[i] == #[trigger] s[i]
}

/// Whether a prefix starts a string, executably.
pub fn starts_with(s: &str, p: &str) -> (r: bool)
    ensures
        r == is_prefix(p@, s@),
{
    let np = p.unicode_len();
    let ns = s.unicode_len();
    if np > ns {
        return false;
    }
    let mut i: usize = 0;
    while i < np
        invariant
            i <= np == p@.len(),
            np <= ns == s@.len(),
            forall|j: int| 0 <= j < i ==> p@[j] == #[trigger] s@[j],
        decreases np - i,
    {
        if p.get_char(i) != s.get_char(i) {
            return false;
        }
        i = i + 1;
    }
    true
}

/// Appends one definition.
fn push_def(v: &mut Vec<KeycodeDefinition>, code: &str, name: &str, category: &str)
    ensures
        final(v)@.len() == old(v)@.len() + 1,
        forall|i: int| 0 <= i < old(v)@.len() ==> final(v)@[i] == #[trigger] old(v)@[i],
        final(v)@.last().code@ == code@,
        final(v)@.last().name@ == name@,
        final(v)@.last().category@ == category@,
        final(v)@.last().description is None,
{
    v.push(
        KeycodeDefinition {
            code: String::from_str(code),
            name: String::from_str(name),
            category: String::from_str(category),
            description: None,
        },
    );
}

impl KeycodeDb {
    /// Loads the embedded keycode reference. The embedded table always
    /// loads.
    pub fn load() -> (r: Result<KeycodeDb, ()>)
        ensures
            r is Ok,
            r matches Ok(db) ==> db.keycodes@.len() > 0,
    {
        let mut v: Vec<KeycodeDefinition> = Vec::new();
        push_def(&mut v, "KC_A", "A", "basic");
        push_def(&mut v, "KC_B", "B", "basic");
        push_def(&mut v, "KC_C", "C", "basic");
        push_def(&mut v, "KC_D", "D", "basic");
        push_def(&mut v, "KC_E", "E", "basic");
        push_def(&mut v, "KC_F", "F", "basic");
        push_def(&mut v, "KC_G", "G", "basic");
        push_def(&mut v, "KC_H", "H", "basic");
        push_def(&mut v, "KC_I", "I", "basic");
        push_def(&mut v, "KC_J", "J", "basic");
        push_def(&mut v, "KC_K", "K", "basic");
        push_def(&mut v, "KC_L", "L", "basic");
        push_def(&mut v, "KC_M", "M", "basic");
        push_def(&mut v, "KC_N", "N", "basic");
        push_def(&mut v, "KC_O", "O", "basic");
        push_def(&mut v, "KC_P", "P", "basic");
        push_def(&mut v, "KC_Q", "Q", "basic");
        push_def(&mut v, "KC_R", "R", "basic");
        push_def(&mut v, "KC_S", "S", "basic");
        push_def(&mut v, "KC_T", "T", "basic");
        push_def(&mut v, "KC_U", "U", "basic");
        push_def(&mut v, "KC_V", "V", "basic");
        push_def(&mut v, "KC_W", "W", "basic");
        push_def(&mut v, "KC_X", "X", "basic");
        push_def(&mut v, "KC_Y", "Y", "basic");
        push_def(&mut v, "KC_Z", "Z", "basic");
        push_def(&mut v, "KC_1", "1", "basic");
        push_def(&mut v, "KC_2", "2", "basic");
        push_def(&mut v, "KC_3", "3", "basic");
        push_def(&mut v, "KC_4", "4", "basic");
        push_def(&mut v, "KC_5", "5", "basic");
        push_def(&mut v, "KC_6", "6", "basic");
        push_def(&mut v, "KC_7", "7", "basic");
        push_def(&mut v, "KC_8", "8", "basic");
        push_def(&mut v, "KC_9", "9", "basic");
        push_def(&mut v, "KC_0", "0", "basic");
        push_def(&mut v, "KC_ENT", "Enter", "basic");
        push_def(&mut v, "KC_ESC", "Escape", "basic");
        push_def(&mut v, "KC_BSPC", "Backspace", "basic");
        push_def(&mut v, "KC_TAB", "Tab", "basic");
        push_def(&mut v, "KC_SPC", "Space", "basic");
        push_def(&mut v, "KC_MINS", "-", "basic");
        push_def(&mut v, "KC_EQL", "=", "basic");
        push_def(&mut v, "KC_LBRC", "[", "basic");
        push_def(&mut v, "KC_RBRC", "]", "basic");
        push_def(&mut v, "KC_BSLS", "\\", "basic");
        push_def(&mut v, "KC_SCLN", ";", "basic");
        push_def(&mut v, "KC_QUOT", "'", "basic");
        push_def(&mut v, "KC_DQUO", "\"", "shifted");
        push_def(&mut v, "KC_GRV", "`", "basic");
        push_def(&mut v, "KC_COMM", ",", "basic");
        push_def(&mut v, "KC_DOT", ".", "basic");
        push_def(&mut v, "KC_SLSH", "/", "basic");
        push_def(&mut v, "KC_LSFT", "Shift", "modifiers");
        push_def(&mut v, "KC_RSFT", "Right Shift", "modifiers");
        push_def(&mut v, "KC_LCTL", "Ctrl", "modifiers");
        push_def(&mut v, "KC_RCTL", "Right Ctrl", "modifiers");
        push_def(&mut v, "KC_LALT", "Alt", "modifiers");
        push_def(&mut v, "KC_RALT", "Right Alt", "modifiers");
        push_def(&mut v, "KC_LGUI", "GUI", "modifiers");
        push_def(&mut v, "KC_RGUI", "Right GUI", "modifiers");
        push_def(&mut v, "KC_LEFT", "Left", "navigation");
        push_def(&mut v, "KC_RGHT", "Right", "navigation");
        push_def(&mut v, "KC_UP", "Up", "navigation");
        push_def(&mut v, "KC_DOWN", "Down", "navigation");
        push_def(&mut v, "KC_HOME", "Home", "navigation");
        push_def(&mut v, "KC_END", "End", "navigation");
        push_def(&mut v, "KC_PGUP", "Page Up", "navigation");
        push_def(&mut v, "KC_PGDN", "Page Down", "navigation");
        push_def(&mut v, "KC_DEL", "Delete", "navigation");
        push_def(&mut v, "KC_INS", "Insert", "navigation");
        push_def(&mut v, "KC_F1", "F1", "function");
        push_def(&mut v, "KC_F2", "F2", "function");
        push_def(&mut v, "KC_F3", "F3", "function");
        push_def(&mut v, "KC_F4", "F4", "function");
        push_def(&mut v, "KC_F5", "F5", "function");
        push_def(&mut v, "KC_F6", "F6", "function");
        push_def(&mut v, "KC_F7", "F7", "function");
        push_def(&mut v, "KC_F8", "F8", "function");
        push_def(&mut v, "KC_F9", "F9", "function");
        push_def(&mut v, "KC_F10", "F10", "function");
        push_def(&mut v, "KC_F11", "F11", "function");
        push_def(&mut v, "KC_F12", "F12", "function");
        push_def(&mut v, "KC_TRNS", "Transparent", "special");
        push_def(&mut v, "KC_NO", "None", "special");
        Ok(KeycodeDb { keycodes: v })
    }

    /// The definition of a code, if the reference knows it.
    pub fn get(&self, code: &str) -> (r: Option<&KeycodeDefinition>)
        ensures
            db_has(*self, code@) <==> r is Some,
            r matches Some(d) ==> *d == self.keycodes@[db_index_from(self.keycodes@, code@, 0)]
                && d.code@ == code@,
    {
        let n = self.keycodes.len();
        let mut i: usize = 0;
        while i < n
            invariant
                i <= n == self.keycodes@.len(),
                db_index_from(self.keycodes@, code@, 0) == db_index_from(
                    self.keycodes@,
                    code@,
                    i as int,
                ),
            decreases n - i,
        {
            if str_eq(self.keycodes[i].code.as_str(), code) {
                return Some(&self.keycodes[i]);
            }
            i = i + 1;
        }
        None
    }

    /// The first index of an entry in the given category, if any.
    pub fn get_category(&self, name: &str) -> (r: Option<usize>)
        ensures
            r matches Some(i) ==> i < self.keycodes@.len() && self.keycodes@[i as int].category@
                == name@,
            r is None ==> forall|i: int|
                0 <= i < self.keycodes@.len() ==> (#[trigger] self.keycodes@[i]).category@ != name@,
    {
        let n = self.keycodes.len();
        let mut i: usize = 0;
        while i < n
            invariant
                i <= n == self.keycodes@.len(),
                forall|j: int|
                    0 <= j < i ==> (#[trigger] self.keycodes@[j]).category@ != name@,
            decreases n - i,
        {
            if str_eq(self.keycodes[i].category.as_str(), name) {
                return Some(i);
            }
            i = i + 1;
        }
        None
    }

    /// The entries of one category, in table order.
    pub fn get_category_keycodes(&self, name: &str) -> (r: Vec<&KeycodeDefinition>)
        ensures
            r@.len() <= self.keycodes@.len(),
            forall|j: int|
                0 <= j < r@.len() ==> (#[trigger] r@[j]).category@ == name@,
    {
        let n = self.keycodes.len();
        let mut out: Vec<&KeycodeDefinition> = Vec::new();
        let mut i: usize = 0;
        while i < n
            invariant
                i <= n == self.keycodes@.len(),
                out@.len() <= i,
                forall|j: int| 0 <= j < out@.len() ==> (#[trigger] out@[j]).category@ == name@,
            decreases n - i,
        {
            if str_eq(self.keycodes[i].category.as_str(), name) {
                out.push(&self.keycodes[i]);
            }
            i = i + 1;
        }
        out
    }

    /// The entries whose code or name starts with the query, in table
    /// order; the empty query lists the whole table.
    pub fn search(&self, query: &str) -> (r: Vec<&KeycodeDefinition>)
        ensures
            r@.len() <= self.keycodes@.len(),
            forall|j: int|
                0 <= j < r@.len() ==> is_prefix(query@, (#[trigger] r@[j]).code@) || is_prefix(
                    query@,
                    r@[j].name@,
                ),
            query@.len() == 0 ==> r@.len() == self.keycodes@.len(),
    {
        let n = self.keycodes.len();
        let mut out: Vec<&KeycodeDefinition> = Vec::new();
        let mut i: usize = 0;
        while i < n
            invariant
                i <= n == self.keycodes@.len(),
                out@.len() <= i,
                forall|j: int|
                    0 <= j < out@.len() ==> is_prefix(query@, (#[trigger] out@[j]).code@)
                        || is_prefix(query@, out@[j].name@),
                query@.len() == 0 ==> out@.len() == i,
            decreases n - i,
        {
            if starts_with(self.keycodes[i].code.as_str(), query) || starts_with(
                self.keycodes[i].name.as_str(),
                query,
            ) {
                out.push(&self.keycodes[i]);
            }
            i = i + 1;
        }
        out
    }
}

} // verus!
