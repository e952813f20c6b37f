//! Tap-dance actions: one key bound to different codes by tap count or
//! hold.

use vstd::prelude::*;

verus! {

/// How many ways a tap dance branches; derived from which optional
/// codes are present, never stored.
#[derive(Clone, Copy, Debug, PartialEq, Eq, Structural)]
pub enum TapDanceKind {
    /// Only a single-tap code.
    Single,
    /// Single- and double-tap codes.
    TwoWay,
    /// A hold code as well.
    ThreeWay,
}

/// A named tap-dance action.
///
/// The single-tap code is required and must not be empty; double-tap
/// and hold codes are optional.
#[derive(Clone, Debug)]
pub struct TapDanceAction {
    pub name: String,
    pub single_tap: String,
    pub double_tap: Option<String>,
    pub hold: Option<String>,
}

/// The derived kind of a tap dance: three-way when a hold code is
/// present, else two-way when a double-tap code is present, else
/// single.
pub open spec fn spec_kind(td: TapDanceAction) -> TapDanceKind {
    if td.hold is Some {
        TapDanceKind::ThreeWay
    } else if td.double_tap is Some {
        TapDanceKind::TwoWay
    } else {
        TapDanceKind::Single
    }
}

impl TapDanceAction {
    /// Creates a tap dance with only a single-tap code.
    pub fn new(name: &str, single_tap: &str) -> (td: TapDanceAction)
        ensures
            td.name@ == name@,
            td.single_tap@ == single_tap@,
            td.double_tap is None,
            td.hold is None,
    {
        TapDanceAction {
            name: String::from_str(name),
            single_tap: String::from_str(single_tap),
            double_tap: None,
            hold: None,
        }
    }

    /// Adds a double-tap code.
    pub fn with_double_tap(self, code: &str) -> (td: TapDanceAction)
        ensures
            td.name@ == self.name@,
            td.single_tap@ == self.single_tap@,
            td.double_tap matches Some(c) && c@ == code@,
            td.hold == self.hold,
    {
        TapDanceAction { double_tap: Some(String::from_str(code)), ..self }
    }

    /// Adds a hold code.
    pub fn with_hold(self, code: &str) -> (td: TapDanceAction)
        ensures
            td.name@ == self.name@,
            td.single_tap@ == self.single_tap@,
            td.double_tap == self.double_tap,
            td.hold matches Some(c) && c@ == code@,
    {
        TapDanceAction { hold: Some(String::from_str(code)), ..self }
    }

    /// The derived kind.
    pub fn kind(&self) -> (k: TapDanceKind)
        ensures
            k == spec_kind(*self),
    {
        if self.hold.is_some() {
            TapDanceKind::ThreeWay
        } else if self.double_tap.is_some() {
            TapDanceKind::TwoWay
        } else {
            TapDanceKind::Single
        }
    }

    /// Whether the action is well formed: a non-empty name and a
    /// non-empty single-tap code.
    pub fn validate(&self) -> (r: bool)
        ensures
            r == (self.name@.len() > 0 && self.single_tap@.len() > 0),
    {
        self.name.as_str().unicode_len() > 0 && self.single_tap.as_str().unicode_len() > 0
    }

    /// An exact copy.
    pub fn duplicate(&self) -> (td: TapDanceAction)
        ensures
            td == *self,
    {
        TapDanceAction {
            name: self.name.clone(),
            single_tap: self.single_tap.clone(),
            double_tap: match &self.double_tap {
                Some(c) => Some(c.clone()),
                None => None,
            },
            hold: match &self.hold {
                Some(c) => Some(c.clone()),
                None => None,
            },
        }
    }
}

} // verus!
