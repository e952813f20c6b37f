//! Key categories: named groups of keys that share a color.

use vstd::prelude::*;
use crate::rgb::RgbColor;

verus! {

/// A category groups keys under an id, a display name and a color.
///
/// Keys and layers refer to a category by its id string; the reference
/// is weak and resolved by lookup, never an owning link.
#[derive(Clone, Debug)]
pub struct Category {
    pub id: String,
    pub name: String,
    pub color: RgbColor,
}

impl Category {
    /// Creates a category.
    pub fn new(id: String, name: String, color: RgbColor) -> (c: Category)
        ensures
            c.id@ == id@,
            c.name@ == name@,
            c.color == color,
    {
        Category { id, name, color }
    }

    /// Renames the category; an empty name is rejected.
    pub fn set_name(&mut self, name: &String) -> (r: Result<(), ()>)
        ensures
            name@.len() == 0 ==> (r is Err && *final(self) == *old(self)),
            name@.len() > 0 ==> (r is Ok && final(self).name@ == name@ && final(self).id@ == old(
                self,
            ).id@ && final(self).color == old(self).color),
    {
        if name.as_str().unicode_len() == 0 {
            Err(())
        } else {
            self.name = name.clone();
            Ok(())
        }
    }

    /// An exact copy.
    pub fn duplicate(&self) -> (c: Category)
        ensures
            c == *self,
    {
        Category { id: self.id.clone(), name: self.name.clone(), color: self.color }
    }
}

} // verus!
