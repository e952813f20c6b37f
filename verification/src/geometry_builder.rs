//! Building a [`KeyboardGeometry`] from a hardware description.
//!
//! The hardware description is plain data handed in by the caller:
//! the keyboard's matrix dimensions, a layouts section keyed by
//! variant name with per-key electrical and visual facts, and an
//! optional ordered LED-position array.

use vstd::prelude::*;
use crate::geometry::{geometry_wf, KeyGeometry, KeyboardGeometry};
use crate::text::str_eq;

verus! {

/// One key entry of a hardware description variant.
#[derive(Clone, Copy, Debug, PartialEq, Eq, Structural)]
pub struct HardwareKey {
    /// Electrical matrix row.
    pub row: u8,
    /// Electrical matrix column.
    pub col: u8,
    /// Visual x position, hundredths of a keyboard unit.
    pub x: u16,
    /// Visual y position, hundredths of a keyboard unit.
    pub y: u16,
    /// Key width, hundredths of a keyboard unit.
    pub w: u16,
    /// Key height, hundredths of a keyboard unit.
    pub h: u16,
}

/// One entry of the RGB-matrix LED array: the matrix position the LED
/// sits on, in the driver's addressing order.
#[derive(Clone, Copy, Debug, PartialEq, Eq, Structural)]
pub struct LedPosition {
    pub row: u8,
    pub col: u8,
}

/// One named layout variant of a hardware description.
#[derive(Clone, Debug)]
pub struct HardwareVariant {
    pub name: String,
    pub keys: Vec<HardwareKey>,
}

/// A hardware description document, already read into plain data.
#[derive(Clone, Debug)]
pub struct HardwareDescription {
    pub keyboard: String,
    pub matrix_rows: u8,
    pub matrix_cols: u8,
    pub variants: Vec<HardwareVariant>,
    /// The RGB-matrix LED array, if the board has one.
    pub leds: Option<Vec<LedPosition>>,
    pub encoder_count: u8,
}

/// Why a geometry could not be built.
#[derive(Clone, Copy, Debug, PartialEq, Eq, Structural)]
pub enum GeometryError {
    /// The requested variant name is not in the document.
    VariantNotFound,
    /// The key array is larger than the declared matrix, or too large
    /// to index.
    KeyCountMismatch,
    /// A key's matrix position lies outside the declared matrix.
    PositionOutOfBounds,
    /// Two keys share a matrix position.
    DuplicatePosition,
    /// The LED array disagrees with the key array: a different length,
    /// a repeated entry, or an entry at a matrix position that has no
    /// key.
    LedMismatch,
}

/// The first variant index with the given name, or -1.
pub open spec fn variant_index_from(s: Seq<HardwareVariant>, name: Seq<char>, i: int) -> int
    decreases s.len() - i,
{
    if i < 0 || i >= s.len() {
        -1
    } else if s[i].name@ == name {
        i
    } else {
        variant_index_from(s, name, i + 1)
    }
}

/// Every key's matrix position lies within the declared matrix.
pub open spec fn keys_in_bounds(keys: Seq<HardwareKey>, rows: u8, cols: u8) -> bool {
    forall|i: int|
        0 <= i < keys.len() ==> (#[trigger] keys[i]).row < rows && keys[i].col < cols
}

/// No two keys share a matrix position.
pub open spec fn keys_unique(keys: Seq<HardwareKey>) -> bool {
    forall|i: int, j: int|
        0 <= i < j < keys.len() ==> !((#[trigger] keys[i]).row == (#[trigger] keys[j]).row
            && keys[i].col == keys[j].col)
}

/// The first LED-array index at the given matrix position, or -1.
pub open spec fn led_index_from(leds: Seq<LedPosition>, row: u8, col: u8, i: int) -> int
    decreases leds.len() - i,
{
    if i < 0 || i >= leds.len() {
        -1
    } else if leds[i].row == row && leds[i].col == col {
        i
    } else {
        led_index_from(leds, row, col, i + 1)
    }
}

/// No two LED entries share a matrix position.
pub open spec fn leds_unique(leds: Seq<LedPosition>) -> bool {
    forall|i: int, j: int|
        0 <= i < j < leds.len() ==> !((#[trigger] leds[i]).row == (#[trigger] leds[j]).row
            && leds[i].col == leds[j].col)
}

/// The LED array agrees with the key array: same length, unique
/// entries, every LED on a key, and every key under a LED.
pub open spec fn leds_consistent(leds: Seq<LedPosition>, keys: Seq<HardwareKey>) -> bool {
    &&& leds.len() == keys.len()
    &&& leds_unique(leds)
    &&& forall|j: int|
        0 <= j < leds.len() ==> exists|i: int|
            0 <= i < keys.len() && (#[trigger] leds[j]).row == (#[trigger] keys[i]).row
                && leds[j].col == keys[i].col
    &&& forall|i: int|
        0 <= i < keys.len() ==> led_index_from(leds, (#[trigger] keys[i]).row, keys[i].col, 0) >= 0
}

/// The LED index a key gets: its position in the LED array when the
/// document has one, else its document order.
pub open spec fn spec_led_index(desc: HardwareDescription, keys: Seq<HardwareKey>, i: int) -> int {
    match desc.leds {
        Some(leds) => led_index_from(leds@, keys[i].row, keys[i].col, 0),
        None => i,
    }
}

/// Whether a hardware description and variant admit a geometry.
pub open spec fn buildable(desc: HardwareDescription, variant: Seq<char>) -> bool {
    &&& variant_index_from(desc.variants@, variant, 0) >= 0
    &&& {
        let keys = desc.variants@[variant_index_from(desc.variants@, variant, 0)].keys@;
        &&& keys.len() <= desc.matrix_rows as int * desc.matrix_cols as int
        &&& keys.len() <= 256
        &&& keys_in_bounds(keys, desc.matrix_rows, desc.matrix_cols)
        &&& keys_unique(keys)
        &&& match desc.leds {
            Some(leds) => leds_consistent(leds@, keys),
            None => true,
        }
    }
}

/// What the built geometry holds: the declared dimensions, and one key
/// per document entry, in document order, with LED and layout indices
/// as the document assigns them.
pub open spec fn geometry_matches(desc: HardwareDescription, variant: Seq<char>, g:
    KeyboardGeometry) -> bool {
    let keys = desc.variants@[variant_index_from(desc.variants@, variant, 0)].keys@;
    &&& g.keyboard_name@ == desc.keyboard@
    &&& g.layout_name@ == variant
    &&& g.matrix_rows == desc.matrix_rows
    &&& g.matrix_cols == desc.matrix_cols
    &&& g.encoder_count == desc.encoder_count
    &&& g.keys@.len() == keys.len()
    &&& forall|i: int|
        0 <= i < keys.len() ==> {
            let k = #[trigger] g.keys@[i];
            &&& k.matrix_position == ((keys[i].row, keys[i].col))
            &&& k.visual_x == keys[i].x
            &&& k.visual_y == keys[i].y
            &&& k.width == keys[i].w
            &&& k.height == keys[i].h
            &&& k.rotation == 0
            &&& k.led_index == spec_led_index(desc, keys, i)
            &&& k.layout_index == k.led_index
        }
}

/// Finds a variant by name.
fn find_variant<'a>(desc: &'a HardwareDescription, variant: &str) -> (r: Option<&'a HardwareVariant>)
    ensures
        variant_index_from(desc.variants@, variant@, 0) < 0 <==> r is None,
        r matches Some(v) ==> *v == desc.variants@[variant_index_from(desc.variants@, variant@, 0)],
{
    let n = desc.variants.len();
    let mut i: usize = 0;
    while i < n
        invariant
            i <= n == desc.variants@.len(),
            variant_index_from(desc.variants@, variant@, 0) == variant_index_from(
                desc.variants@,
                variant@,
                i as int,
            ),
        decreases n - i,
    {
        if str_eq(desc.variants[i].name.as_str(), variant) {
            return Some(&desc.variants[i]);
        }
        i = i + 1;
    }
    None
}

/// The position of a matrix address in the LED array, if any.
fn find_led_index(leds: &Vec<LedPosition>, row: u8, col: u8) -> (r: Option<usize>)
    ensures
        led_index_from(leds@, row, col, 0) < 0 <==> r is None,
        r matches Some(i) ==> i == led_index_from(leds@, row, col, 0) && i < leds@.len(),
{
    let n = leds.len();
    let mut i: usize = 0;
    while i < n
        invariant
            i <= n == leds@.len(),
            led_index_from(leds@, row, col, 0) == led_index_from(leds@, row, col, i as int),
        decreases n - i,
    {
        if leds[i].row == row && leds[i].col == col {
            return Some(i);
        }
        i = i + 1;
    }
    None
}

/// Builds the geometry for one variant of a hardware description.
///
/// Succeeds exactly when the variant exists, the key array fits the
/// declared matrix, matrix positions are in bounds and unique, and the
/// LED array, if present, agrees with the key array. The built
/// geometry is well formed and mirrors the document in document order.
#[verifier::loop_isolation(false)]
#[verifier::rlimit(60)]
#[verifier::spinoff_prover]
pub fn build_keyboard_geometry(desc: &HardwareDescription, variant: &str) -> (r: Result<
    KeyboardGeometry,
    GeometryError,
>)
    ensures
        r is Ok <==> buildable(*desc, variant@),
        r matches Ok(g) ==> geometry_matches(*desc, variant@, g) && geometry_wf(g),
        r matches Err(e) ==> match e {
            GeometryError::VariantNotFound => variant_index_from(desc.variants@, variant@, 0) < 0,
            _ => variant_index_from(desc.variants@, variant@, 0) >= 0,
        },
{
    let variant_def = match find_variant(desc, variant) {
        Some(v) => v,
        None => {
            return Err(GeometryError::VariantNotFound);
        },
    };
    let keys = &variant_def.keys;
    let n = keys.len();
    let rows_u = desc.matrix_rows as usize;
    let cols_u = desc.matrix_cols as usize;
    proof {
        assert(rows_u * cols_u <= 65025) by (nonlinear_arith)
            requires
                rows_u <= 255,
                cols_u <= 255,
        ;
    }
    if n > rows_u * cols_u || n > 256 {
        return Err(GeometryError::KeyCountMismatch);
    }
    // Bounds check.
    let mut i: usize = 0;
    while i < n
        invariant
            i <= n == keys@.len(),
            forall|j: int|
                0 <= j < i ==> (#[trigger] keys@[j]).row < desc.matrix_rows && keys@[j].col
                    < desc.matrix_cols,
        decreases n - i,
    {
        if keys[i].row >= desc.matrix_rows || keys[i].col >= desc.matrix_cols {
            return Err(GeometryError::PositionOutOfBounds);
        }
        i = i + 1;
    }
    // Uniqueness check.
    let mut i: usize = 0;
    while i < n
        invariant
            i <= n == keys@.len(),
            forall|a: int, b: int|
                0 <= a < b < i ==> !((#[trigger] keys@[a]).row == (#[trigger] keys@[b]).row
                    && keys@[a].col == keys@[b].col),
        decreases n - i,
    {
        let mut j: usize = 0;
        while j < i
            invariant
                j <= i < n == keys@.len(),
                forall|b: int|
                    0 <= b < j ==> !((#[trigger] keys@[b]).row == keys@[i as int].row && keys@[b].col
                        == keys@[i as int].col),
            decreases i - j,
        {
            if keys[j].row == keys[i].row && keys[j].col == keys[i].col {
                return Err(GeometryError::DuplicatePosition);
            }
            j = j + 1;
        }
        i = i + 1;
    }
    // LED array consistency check.
    if let Some(leds) = &desc.leds {
        let ln = leds.len();
        if ln != n {
            return Err(GeometryError::LedMismatch);
        }
        let mut i: usize = 0;
        while i < ln
            invariant
                i <= ln == leds@.len(),
                n == keys@.len(),
                forall|a: int, b: int|
                    0 <= a < b < i ==> !((#[trigger] leds@[a]).row == (#[trigger] leds@[b]).row
                        && leds@[a].col == leds@[b].col),
                forall|j: int|
                    0 <= j < i ==> exists|a: int|
                        0 <= a < keys@.len() && (#[trigger] leds@[j]).row == (#[trigger] keys@[a]).row
                            && leds@[j].col == keys@[a].col,
            decreases ln - i,
        {
            let mut j: usize = 0;
            while j < i
                invariant
                    j <= i < ln == leds@.len(),
                    forall|b: int|
                        0 <= b < j ==> !((#[trigger] leds@[b]).row == leds@[i as int].row
                            && leds@[b].col == leds@[i as int].col),
                decreases i - j,
            {
                if leds[j].row == leds[i].row && leds[j].col == leds[i].col {
                    return Err(GeometryError::LedMismatch);
                }
                j = j + 1;
            }
            let mut found = false;
            let mut a: usize = 0;
            while a < n
                invariant
                    a <= n == keys@.len(),
                    i < leds@.len(),
                    found ==> exists|b: int|
                        0 <= b < keys@.len() && leds@[i as int].row == (#[trigger] keys@[b]).row
                            && leds@[i as int].col == keys@[b].col,
                    !found ==> forall|b: int|
                        0 <= b < a ==> !(leds@[i as int].row == (#[trigger] keys@[b]).row
                            && leds@[i as int].col == keys@[b].col),
                decreases n - a,
            {
                if keys[a].row == leds[i].row && keys[a].col == leds[i].col {
                    found = true;
                }
                a = a + 1;
            }
            if !found {
                return Err(GeometryError::LedMismatch);
            }
            i = i + 1;
        }
        // Every key must sit under a LED.
        let mut i: usize = 0;
        while i < n
            invariant
                i <= n == keys@.len(),
                ln == leds@.len(),
                forall|j: int|
                    0 <= j < i ==> led_index_from(leds@, (#[trigger] keys@[j]).row, keys@[j].col, 0)
                        >= 0,
            decreases n - i,
        {
            if find_led_index(leds, keys[i].row, keys[i].col).is_none() {
                return Err(GeometryError::LedMismatch);
            }
            i = i + 1;
        }
    }
    // Assemble the geometry in document order.
    let mut out_keys: Vec<KeyGeometry> = Vec::new();
    let mut i: usize = 0;
    while i < n
        invariant
            i <= n == keys@.len(),
            n <= 256,
            out_keys@.len() == i,
            keys_in_bounds(keys@, desc.matrix_rows, desc.matrix_cols),
            keys_unique(keys@),
            match desc.leds {
                Some(leds) => leds_consistent(leds@, keys@),
                None => true,
            },
            forall|j: int|
                0 <= j < i ==> {
                    let k = #[trigger] out_keys@[j];
                    &&& k.matrix_position == ((keys@[j].row, keys@[j].col))
                    &&& k.visual_x == keys@[j].x
                    &&& k.visual_y == keys@[j].y
                    &&& k.width == keys@[j].w
                    &&& k.height == keys@[j].h
                    &&& k.rotation == 0
                    &&& k.led_index == spec_led_index(*desc, keys@, j)
                    &&& k.layout_index == k.led_index
                },
        decreases n - i,
    {
        let led_index: u8 = match &desc.leds {
            Some(leds) => {
                let idx = find_led_index(leds, keys[i].row, keys[i].col);
                match idx {
                    Some(j) => j as u8,
                    None => 0,  // unreachable: consistency was checked above
                }
            },
            None => i as u8,
        };
        out_keys.push(
            KeyGeometry {
                matrix_position: (keys[i].row, keys[i].col),
                led_index,
                layout_index: led_index,
                visual_x: keys[i].x,
                visual_y: keys[i].y,
                width: keys[i].w,
                height: keys[i].h,
                rotation: 0,
            },
        );
        i = i + 1;
    }
    let g = KeyboardGeometry {
        keyboard_name: desc.keyboard.clone(),
        layout_name: String::from_str(variant),
        matrix_rows: desc.matrix_rows,
        matrix_cols: desc.matrix_cols,
        keys: out_keys,
        encoder_count: desc.encoder_count,
    };
    proof {
        lemma_built_geometry_wf(*desc, variant@, g);
    }
    Ok(g)
}

/// A geometry that mirrors a buildable description is well formed:
/// bounds come from the bounds check, matrix uniqueness from the key
/// array's, and LED uniqueness from document order or from the LED
/// array's own uniqueness.
proof fn lemma_built_geometry_wf(desc: HardwareDescription, variant: Seq<char>, g: KeyboardGeometry)
    requires
        buildable(desc, variant),
        geometry_matches(desc, variant, g),
    ensures
        geometry_wf(g),
{
    let keys = desc.variants@[variant_index_from(desc.variants@, variant, 0)].keys@;
    assert forall|i: int, j: int| 0 <= i < j < g.keys@.len() implies (#[trigger] g.keys@[i]).led_index
        != (#[trigger] g.keys@[j]).led_index by {
        match desc.leds {
            Some(leds) => {
                lemma_led_index_found(leds@, keys[i].row, keys[i].col, 0);
                lemma_led_index_found(leds@, keys[j].row, keys[j].col, 0);
                let a = led_index_from(leds@, keys[i].row, keys[i].col, 0);
                let b = led_index_from(leds@, keys[j].row, keys[j].col, 0);
                if a == b {
                    assert(leds@[a].row == keys[i].row && leds@[a].col == keys[i].col);
                    assert(leds@[b].row == keys[j].row && leds@[b].col == keys[j].col);
                    assert(keys[i].row == keys[j].row && keys[i].col == keys[j].col);
                    assert(false);
                }
            },
            None => {},
        }
    }
}

/// A non-negative first-index points at a matching LED entry.
proof fn lemma_led_index_found(leds: Seq<LedPosition>, row: u8, col: u8, i: int)
    requires
        0 <= i <= leds.len(),
    ensures
        led_index_from(leds, row, col, i) >= 0 ==> {
            let r = led_index_from(leds, row, col, i);
            i <= r < leds.len() && leds[r].row == row && leds[r].col == col
        },
    decreases leds.len() - i,
{
    if i < leds.len() && !(leds[i].row == row && leds[i].col == col) {
        lemma_led_index_found(leds, row, col, i + 1);
    }
}

} // verus!
