//! Layers and per-key definitions of the editable layout.

use vstd::prelude::*;
use crate::position::Position;
use crate::rgb::RgbColor;

verus! {

/// One key binding on a layer: a logical position, a keycode string,
/// and optional color and category overrides.
#[derive(Clone, Debug)]
pub struct KeyDefinition {
    pub position: Position,
    pub keycode: String,
    pub color_override: Option<RgbColor>,
    pub category_id: Option<String>,
}

impl KeyDefinition {
    /// Creates a key definition with no overrides.
    pub fn new(position: Position, keycode: &str) -> (k: KeyDefinition)
        ensures
            k.position == position,
            k.keycode@ == keycode@,
            k.color_override is None,
            k.category_id is None,
    {
        KeyDefinition {
            position,
            keycode: String::from_str(keycode),
            color_override: None,
            category_id: None,
        }
    }

    /// An exact copy.
    pub fn duplicate(&self) -> (k: KeyDefinition)
        ensures
            k == *self,
    {
        KeyDefinition {
            position: self.position,
            keycode: self.keycode.clone(),
            color_override: self.color_override,
            category_id: match &self.category_id {
                Some(id) => Some(id.clone()),
                None => None,
            },
        }
    }
}

/// One layer: a number, a name, a default color, an optional category,
/// and its keys.
#[derive(Clone, Debug)]
pub struct Layer {
    pub number: u8,
    pub name: String,
    pub default_color: RgbColor,
    pub category_id: Option<String>,
    pub keys: Vec<KeyDefinition>,
}

impl Layer {
    /// Creates an empty layer; an empty name is rejected.
    pub fn new(number: u8, name: &str, default_color: RgbColor) -> (r: Result<Layer, ()>)
        ensures
            name@.len() == 0 <==> r is Err,
            r matches Ok(l) ==> l.number == number && l.name@ == name@ && l.default_color
                == default_color && l.category_id is None && l.keys@.len() == 0,
    {
        if name.unicode_len() == 0 {
            Err(())
        } else {
            Ok(
                Layer {
                    number,
                    name: String::from_str(name),
                    default_color,
                    category_id: None,
                    keys: Vec::new(),
                },
            )
        }
    }

    /// Appends a key to the layer.
    pub fn add_key(&mut self, key: KeyDefinition)
        ensures
            final(self).keys@ == old(self).keys@.push(key),
            final(self).number == old(self).number,
            final(self).name == old(self).name,
            final(self).default_color == old(self).default_color,
            final(self).category_id == old(self).category_id,
    {
        self.keys.push(key);
    }

    /// The key at a logical position, if any.
    pub fn key_at(&self, position: Position) -> (r: Option<&KeyDefinition>)
        ensures
            r matches Some(k) ==> exists|i: int|
                0 <= i < self.keys@.len() && self.keys@[i] == *k && self.keys@[i].position
                    == position,
            r is None ==> forall|i: int|
                0 <= i < self.keys@.len() ==> (#[trigger] self.keys@[i]).position != position,
    {
        let mut i: usize = 0;
        while i < self.keys.len()
            invariant
                i <= self.keys@.len(),
                forall|j: int|
                    0 <= j < i ==> (#[trigger] self.keys@[j]).position != position,
            decreases self.keys@.len() - i,
        {
            if self.keys[i].position.row == position.row && self.keys[i].position.col
                == position.col {
                return Some(&self.keys[i]);
            }
            i = i + 1;
        }
        None
    }
}

} // verus!
