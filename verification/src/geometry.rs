//! Physical keyboard geometry: per-key electrical and visual facts.
//!
//! Visual coordinates and sizes are kept in hundredths of a keyboard
//! unit, and rotation in hundredths of a degree, so that geometry is
//! exact integer data.

use vstd::prelude::*;

verus! {

/// Terminal cells per keyboard unit, horizontally.
pub const TERMINAL_X_SCALE_PER_UNIT: u32 = 7;

/// Terminal lines per forty hundredths of a keyboard unit: one unit is
/// two and a half lines.
pub const TERMINAL_Y_DIVISOR: u32 = 40;

/// Minimum key width in terminal cells.
pub const TERMINAL_MIN_WIDTH: u16 = 3;

/// Minimum key height in terminal lines.
pub const TERMINAL_MIN_HEIGHT: u16 = 3;

/// One physical key.
///
/// `matrix_position` is the electrical address, `led_index` the key's
/// position in the RGB driver's addressing order, and `layout_index`
/// its position in the firmware's keymap array.
#[derive(Clone, Copy, Debug, PartialEq, Eq)]
pub struct KeyGeometry {
    /// Electrical matrix position (row, col).
    pub matrix_position: (u8, u8),
    /// Position in the RGB matrix driver's addressing order.
    pub led_index: u8,
    /// Position in the firmware's keymap array.
    pub layout_index: u8,
    /// Physical x position, hundredths of a keyboard unit.
    pub visual_x: u16,
    /// Physical y position, hundredths of a keyboard unit.
    pub visual_y: u16,
    /// Key width, hundredths of a keyboard unit.
    pub width: u16,
    /// Key height, hundredths of a keyboard unit.
    pub height: u16,
    /// Rotation, hundredths of a degree.
    pub rotation: u16,
}

impl KeyGeometry {
    /// Creates a key of default size; the layout index defaults to the
    /// LED index.
    pub fn new(matrix_position: (u8, u8), led_index: u8, visual_x: u16, visual_y: u16) -> (k:
        KeyGeometry)
        ensures
            k.matrix_position == matrix_position,
            k.led_index == led_index,
            k.layout_index == led_index,
            k.visual_x == visual_x,
            k.visual_y == visual_y,
            k.width == 100,
            k.height == 100,
            k.rotation == 0,
    {
        KeyGeometry {
            matrix_position,
            led_index,
            layout_index: led_index,
            visual_x,
            visual_y,
            width: 100,
            height: 100,
            rotation: 0,
        }
    }

    /// Sets the key width.
    pub fn with_width(self, width: u16) -> (k: KeyGeometry)
        ensures
            k == (KeyGeometry { width, ..self }),
    {
        KeyGeometry { width, ..self }
    }

    /// Sets the key height.
    pub fn with_height(self, height: u16) -> (k: KeyGeometry)
        ensures
            k == (KeyGeometry { height, ..self }),
    {
        KeyGeometry { height, ..self }
    }

    /// Sets the key rotation.
    pub fn with_rotation(self, rotation: u16) -> (k: KeyGeometry)
        ensures
            k == (KeyGeometry { rotation, ..self }),
    {
        KeyGeometry { rotation, ..self }
    }

    /// The key's x position in terminal cells.
    pub fn terminal_x(&self) -> (r: u16)
        ensures
            r as int == self.visual_x as int * TERMINAL_X_SCALE_PER_UNIT as int / 100,
    {
        ((self.visual_x as u32) * TERMINAL_X_SCALE_PER_UNIT / 100) as u16
    }

    /// The key's y position in terminal lines.
    pub fn terminal_y(&self) -> (r: u16)
        ensures
            r as int == self.visual_y as int / TERMINAL_Y_DIVISOR as int,
    {
        ((self.visual_y as u32) / TERMINAL_Y_DIVISOR) as u16
    }

    /// The key's width in terminal cells, at least the minimum.
    pub fn terminal_width(&self) -> (r: u16)
        ensures
            r as int == if self.width as int * TERMINAL_X_SCALE_PER_UNIT as int / 100
                > TERMINAL_MIN_WIDTH as int {
                self.width as int * TERMINAL_X_SCALE_PER_UNIT as int / 100
            } else {
                TERMINAL_MIN_WIDTH as int
            },
    {
        let w = ((self.width as u32) * TERMINAL_X_SCALE_PER_UNIT / 100) as u16;
        if w > TERMINAL_MIN_WIDTH {
            w
        } else {
            TERMINAL_MIN_WIDTH
        }
    }

    /// The key's height in terminal lines, at least the minimum.
    pub fn terminal_height(&self) -> (r: u16)
        ensures
            r as int == if self.height as int / TERMINAL_Y_DIVISOR as int
                > TERMINAL_MIN_HEIGHT as int {
                self.height as int / TERMINAL_Y_DIVISOR as int
            } else {
                TERMINAL_MIN_HEIGHT as int
            },
    {
        let h = ((self.height as u32) / TERMINAL_Y_DIVISOR) as u16;
        if h > TERMINAL_MIN_HEIGHT {
            h
        } else {
            TERMINAL_MIN_HEIGHT
        }
    }
}

/// A hardware+variant pair: matrix dimensions and the ordered keys.
#[derive(Clone, Debug)]
pub struct KeyboardGeometry {
    pub keyboard_name: String,
    pub layout_name: String,
    pub matrix_rows: u8,
    pub matrix_cols: u8,
    pub keys: Vec<KeyGeometry>,
    pub encoder_count: u8,
}

/// Well-formedness of a geometry: every key's matrix position lies
/// within the declared matrix, and matrix positions and LED indices
/// are unique.
pub open spec fn geometry_wf(g: KeyboardGeometry) -> bool {
    &&& forall|i: int|
        0 <= i < g.keys@.len() ==> (#[trigger] g.keys@[i]).matrix_position.0 < g.matrix_rows
            && g.keys@[i].matrix_position.1 < g.matrix_cols
    &&& forall|i: int, j: int|
        0 <= i < j < g.keys@.len() ==> (#[trigger] g.keys@[i]).matrix_position != (
        #[trigger] g.keys@[j]).matrix_position
    &&& forall|i: int, j: int|
        0 <= i < j < g.keys@.len() ==> (#[trigger] g.keys@[i]).led_index != (
        #[trigger] g.keys@[j]).led_index
}

impl KeyboardGeometry {
    /// Creates an empty geometry.
    pub fn new(keyboard_name: &str, layout_name: &str, matrix_rows: u8, matrix_cols: u8) -> (g:
        KeyboardGeometry)
        ensures
            g.keyboard_name@ == keyboard_name@,
            g.layout_name@ == layout_name@,
            g.matrix_rows == matrix_rows,
            g.matrix_cols == matrix_cols,
            g.keys@.len() == 0,
            g.encoder_count == 0,
    {
        KeyboardGeometry {
            keyboard_name: String::from_str(keyboard_name),
            layout_name: String::from_str(layout_name),
            matrix_rows,
            matrix_cols,
            keys: Vec::new(),
            encoder_count: 0,
        }
    }

    /// Appends a key.
    pub fn add_key(&mut self, key: KeyGeometry)
        ensures
            final(self).keys@ == old(self).keys@.push(key),
            final(self).keyboard_name == old(self).keyboard_name,
            final(self).layout_name == old(self).layout_name,
            final(self).matrix_rows == old(self).matrix_rows,
            final(self).matrix_cols == old(self).matrix_cols,
            final(self).encoder_count == old(self).encoder_count,
    {
        self.keys.push(key);
    }

    /// The number of keys.
    pub fn key_count(&self) -> (n: usize)
        ensures
            n == self.keys@.len(),
    {
        self.keys.len()
    }

    /// The first key with the given LED index, if any.
    pub fn get_key_by_led(&self, led_index: u8) -> (r: Option<&KeyGeometry>)
        ensures
            r matches Some(k) ==> exists|i: int|
                0 <= i < self.keys@.len() && self.keys@[i] == *k && self.keys@[i].led_index
                    == led_index,
            r is None ==> forall|i: int|
                0 <= i < self.keys@.len() ==> (#[trigger] self.keys@[i]).led_index != led_index,
    {
        let mut i: usize = 0;
        while i < self.keys.len()
            invariant
                i <= self.keys@.len(),
                forall|j: int| 0 <= j < i ==> (#[trigger] self.keys@[j]).led_index != led_index,
            decreases self.keys@.len() - i,
        {
            if self.keys[i].led_index == led_index {
                return Some(&self.keys[i]);
            }
            i = i + 1;
        }
        None
    }

    /// The first key at the given matrix position, if any.
    pub fn get_key_by_matrix(&self, position: (u8, u8)) -> (r: Option<&KeyGeometry>)
        ensures
            r matches Some(k) ==> exists|i: int|
                0 <= i < self.keys@.len() && self.keys@[i] == *k && self.keys@[i].matrix_position
                    == position,
            r is None ==> forall|i: int|
                0 <= i < self.keys@.len() ==> (#[trigger] self.keys@[i]).matrix_position
                    != position,
    {
        let mut i: usize = 0;
        while i < self.keys.len()
            invariant
                i <= self.keys@.len(),
                forall|j: int|
                    0 <= j < i ==> (#[trigger] self.keys@[j]).matrix_position != position,
            decreases self.keys@.len() - i,
        {
            if self.keys[i].matrix_position.0 == position.0 && self.keys[i].matrix_position.1
                == position.1 {
                return Some(&self.keys[i]);
            }
            i = i + 1;
        }
        None
    }

    /// Whether the keyboard has RGB matrix LEDs: true when any keys
    /// are defined.
    pub fn has_rgb_matrix(&self) -> (r: bool)
        ensures
            r == (self.keys@.len() > 0),
    {
        self.keys.len() > 0
    }
}

} // verus!
