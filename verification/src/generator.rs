//! Deterministic generation of firmware artifacts from a validated
//! layout.
//!
//! The firmware fragment emits, for each layer, one keycode per
//! physical key ordered by `layout_index` — physical-array order,
//! independent of how the grid was edited. The companion description
//! is keyed by LED index and carries resolved colors and category
//! metadata. Identical inputs produce byte-identical output.

use vstd::prelude::*;
use crate::cli_common::ValidationLocation;
use crate::geometry::{KeyGeometry, KeyboardGeometry};
use crate::keycode::{is_td_ref, td_name, classify_code, CodeClass};
use crate::keycode_db::KeycodeDb;
use crate::layer::{KeyDefinition, Layer};
use crate::layout::{td_index_from, spec_resolve_color, Layout};
use crate::numfmt::{dec_string, hex_byte, u8_to_hex, usize_to_string};
use crate::rgb::RgbColor;
use crate::validator::{layout_ok, validate_layout, is_error};
use crate::visual_mapping::VisualLayoutMapping;

verus! {

/// The first key index at or after `i` whose layout index is `j`, or
/// -1.
pub open spec fn sk_index_from(keys: Seq<KeyGeometry>, j: int, i: int) -> int
    decreases keys.len() - i,
{
    if i < 0 || i >= keys.len() {
        -1
    } else if keys[i].layout_index as int == j {
        i
    } else {
        sk_index_from(keys, j, i + 1)
    }
}

/// The first key index at or after `i` whose LED index is `j`, or -1.
pub open spec fn lk_index_from(keys: Seq<KeyGeometry>, j: int, i: int) -> int
    decreases keys.len() - i,
{
    if i < 0 || i >= keys.len() {
        -1
    } else if keys[i].led_index as int == j {
        i
    } else {
        lk_index_from(keys, j, i + 1)
    }
}

/// The first column at or after `c` of a grid row holding the matrix
/// position, or -1.
pub open spec fn col_search(row: Seq<KeyGeometry>, matrix: (u8, u8), c: int) -> int
    decreases row.len() - c,
{
    if c < 0 || c >= row.len() {
        -1
    } else if row[c].matrix_position == matrix {
        c
    } else {
        col_search(row, matrix, c + 1)
    }
}

/// The first grid slot at or after row `r` holding the matrix
/// position, or (-1, -1).
pub open spec fn row_search(rows: Seq<Vec<KeyGeometry>>, matrix: (u8, u8), r: int) -> (int, int)
    decreases rows.len() - r,
{
    if r < 0 || r >= rows.len() {
        (-1, -1)
    } else {
        let c = col_search(rows[r]@, matrix, 0);
        if c >= 0 {
            (r, c)
        } else {
            row_search(rows, matrix, r + 1)
        }
    }
}

/// The first key definition at or after `i` at the given logical
/// position, or -1.
pub open spec fn kd_index_from(keys: Seq<KeyDefinition>, row: u8, col: u8, i: int) -> int
    decreases keys.len() - i,
{
    if i < 0 || i >= keys.len() {
        -1
    } else if keys[i].position.row == row && keys[i].position.col == col {
        i
    } else {
        kd_index_from(keys, row, col, i + 1)
    }
}

/// The key definition a physical key resolves to on one layer: the
/// definition at the key's logical grid position, or -1 when the key
/// is not on the grid or the layer leaves it unbound.
pub open spec fn slot_def_index(
    layout: Layout,
    li: int,
    m: VisualLayoutMapping,
    matrix: (u8, u8),
) -> int {
    let rc = row_search(m.rows@, matrix, 0);
    if rc.0 < 0 || rc.0 > 255 || rc.1 > 255 {
        -1
    } else {
        kd_index_from(layout.layers@[li].keys@, rc.0 as u8, rc.1 as u8, 0)
    }
}

/// The code a key definition emits: a tap-dance reference becomes an
/// indexed macro reference, everything else is emitted as written.
pub open spec fn emitted_code(layout: Layout, k: KeyDefinition) -> Seq<char> {
    if is_td_ref(k.keycode@) && td_index_from(layout.tap_dances@, td_name(k.keycode@), 0) >= 0 {
        "TD("@ + dec_string(td_index_from(layout.tap_dances@, td_name(k.keycode@), 0) as nat)
            + ")"@
    } else {
        k.keycode@
    }
}

/// The code emitted into keymap slot `j` of one layer: the transparent
/// marker when no physical key has that layout index or the layer
/// leaves it unbound, else the bound definition's emitted code.
pub open spec fn spec_slot_code(
    layout: Layout,
    li: int,
    g: KeyboardGeometry,
    m: VisualLayoutMapping,
    j: int,
) -> Seq<char> {
    let ki = sk_index_from(g.keys@, j, 0);
    if ki < 0 {
        "KC_TRNS"@
    } else {
        let di = slot_def_index(layout, li, m, g.keys@[ki].matrix_position);
        if di < 0 {
            "KC_TRNS"@
        } else {
            emitted_code(layout, layout.layers@[li].keys@[di])
        }
    }
}

/// The text of the first `j` slots of one layer.
pub open spec fn spec_slots_text(
    layout: Layout,
    li: int,
    g: KeyboardGeometry,
    m: VisualLayoutMapping,
    j: int,
) -> Seq<char>
    decreases j,
{
    if j <= 0 {
        Seq::empty()
    } else {
        spec_slots_text(layout, li, g, m, j - 1) + "    "@ + spec_slot_code(layout, li, g, m, j - 1)
            + ",\n"@
    }
}

/// The text of one layer's keymap array.
pub open spec fn spec_layer_text(
    layout: Layout,
    li: int,
    g: KeyboardGeometry,
    m: VisualLayoutMapping,
) -> Seq<char> {
    "["@ + dec_string(li as nat) + "] = LAYOUT(\n"@ + spec_slots_text(
        layout,
        li,
        g,
        m,
        g.keys@.len() as int,
    ) + "),\n"@
}

/// The text of the first `li` layers.
pub open spec fn spec_layers_text(
    layout: Layout,
    g: KeyboardGeometry,
    m: VisualLayoutMapping,
    li: int,
) -> Seq<char>
    decreases li,
{
    if li <= 0 {
        Seq::empty()
    } else {
        spec_layers_text(layout, g, m, li - 1) + spec_layer_text(layout, li - 1, g, m)
    }
}

/// The whole firmware keymap fragment.
pub open spec fn spec_keymap_text(layout: Layout, g: KeyboardGeometry, m: VisualLayoutMapping) -> Seq<
    char,
> {
    "// Keymap for "@ + g.keyboard_name@ + " ["@ + g.layout_name@ + "]\n"@ + spec_layers_text(
        layout,
        g,
        m,
        layout.layers@.len() as int,
    )
}

/// One tap-dance macro line.
pub open spec fn spec_td_line(layout: Layout, i: int) -> Seq<char> {
    let td = layout.tap_dances@[i];
    "TD("@ + dec_string(i as nat) + ") "@ + td.name@ + " "@ + td.single_tap@ + (match td.double_tap {
        Some(c) => " "@ + c@,
        None => Seq::empty(),
    }) + (match td.hold {
        Some(c) => " "@ + c@,
        None => Seq::empty(),
    }) + "\n"@
}

/// The first `i` tap-dance macro lines.
pub open spec fn spec_tds_text(layout: Layout, i: int) -> Seq<char>
    decreases i,
{
    if i <= 0 {
        Seq::empty()
    } else {
        spec_tds_text(layout, i - 1) + spec_td_line(layout, i - 1)
    }
}

/// The six hexadecimal digits of a color.
pub open spec fn spec_color_hex(c: RgbColor) -> Seq<char> {
    hex_byte(c.r) + hex_byte(c.g) + hex_byte(c.b)
}

/// One category line.
pub open spec fn spec_cat_line(layout: Layout, i: int) -> Seq<char> {
    let c = layout.categories@[i];
    c.id@ + " "@ + c.name@ + " #"@ + spec_color_hex(c.color) + "\n"@
}

/// The first `i` category lines.
pub open spec fn spec_cats_text(layout: Layout, i: int) -> Seq<char>
    decreases i,
{
    if i <= 0 {
        Seq::empty()
    } else {
        spec_cats_text(layout, i - 1) + spec_cat_line(layout, i - 1)
    }
}

/// The color of LED `j` on one layer: the bound key definition's
/// resolved color, else the layer default.
pub open spec fn spec_led_color(
    layout: Layout,
    li: int,
    g: KeyboardGeometry,
    m: VisualLayoutMapping,
    j: int,
) -> RgbColor {
    let ki = lk_index_from(g.keys@, j, 0);
    if ki < 0 {
        layout.layers@[li].default_color
    } else {
        let di = slot_def_index(layout, li, m, g.keys@[ki].matrix_position);
        if di < 0 {
            layout.layers@[li].default_color
        } else {
            spec_resolve_color(layout, li, layout.layers@[li].keys@[di])
        }
    }
}

/// One LED color line.
pub open spec fn spec_led_line(
    layout: Layout,
    li: int,
    g: KeyboardGeometry,
    m: VisualLayoutMapping,
    j: int,
) -> Seq<char> {
    "led "@ + dec_string(j as nat) + " #"@ + spec_color_hex(spec_led_color(layout, li, g, m, j))
        + "\n"@
}

/// The first `j` LED color lines of one layer.
pub open spec fn spec_leds_text(
    layout: Layout,
    li: int,
    g: KeyboardGeometry,
    m: VisualLayoutMapping,
    j: int,
) -> Seq<char>
    decreases j,
{
    if j <= 0 {
        Seq::empty()
    } else {
        spec_leds_text(layout, li, g, m, j - 1) + spec_led_line(layout, li, g, m, j - 1)
    }
}

/// One layer's color block.
pub open spec fn spec_layer_colors_text(
    layout: Layout,
    li: int,
    g: KeyboardGeometry,
    m: VisualLayoutMapping,
) -> Seq<char> {
    "layer "@ + dec_string(li as nat) + "\n"@ + spec_leds_text(
        layout,
        li,
        g,
        m,
        g.keys@.len() as int,
    )
}

/// The first `li` layers' color blocks.
pub open spec fn spec_colors_text(
    layout: Layout,
    g: KeyboardGeometry,
    m: VisualLayoutMapping,
    li: int,
) -> Seq<char>
    decreases li,
{
    if li <= 0 {
        Seq::empty()
    } else {
        spec_colors_text(layout, g, m, li - 1) + spec_layer_colors_text(layout, li - 1, g, m)
    }
}

/// The whole RGB and macro description.
pub open spec fn spec_rgb_text(layout: Layout, g: KeyboardGeometry, m: VisualLayoutMapping) -> Seq<
    char,
> {
    "// RGB and macro description for "@ + g.keyboard_name@ + "\n[tap_dances]\n"@ + spec_tds_text(
        layout,
        layout.tap_dances@.len() as int,
    ) + "[categories]\n"@ + spec_cats_text(layout, layout.categories@.len() as int)
        + "[colors]\n"@ + spec_colors_text(layout, g, m, layout.layers@.len() as int)
}

/// Why a generation attempt failed: a validation failure rediscovered
/// at generation time, with the validator's location context.
#[derive(Clone, Debug)]
pub struct GenerationError {
    pub message: String,
    pub location: Option<ValidationLocation>,
}

/// Identical layout, geometry and mapping give identical artifacts:
/// any two outputs that meet the generator's contract are equal.
pub proof fn lemma_generation_deterministic(
    layout: Layout,
    g: KeyboardGeometry,
    m: VisualLayoutMapping,
    keymap1: Seq<char>,
    rgb1: Seq<char>,
    keymap2: Seq<char>,
    rgb2: Seq<char>,
)
    requires
        keymap1 == spec_keymap_text(layout, g, m),
        rgb1 == spec_rgb_text(layout, g, m),
        keymap2 == spec_keymap_text(layout, g, m),
        rgb2 == spec_rgb_text(layout, g, m),
    ensures
        keymap1 == keymap2,
        rgb1 == rgb2,
{
}

/// The first key with the given layout index, if any.
fn find_by_layout_index(g: &KeyboardGeometry, j: usize) -> (r: Option<usize>)
    ensures
        sk_index_from(g.keys@, j as int, 0) < 0 <==> r is None,
        r matches Some(i) ==> i == sk_index_from(g.keys@, j as int, 0) && i < g.keys@.len(),
{
    let n = g.keys.len();
    let mut i: usize = 0;
    while i < n
        invariant
            i <= n == g.keys@.len(),
            sk_index_from(g.keys@, j as int, 0) == sk_index_from(g.keys@, j as int, i as int),
        decreases n - i,
    {
        if g.keys[i].layout_index as usize == j {
            return Some(i);
        }
        i = i + 1;
    }
    None
}

/// The first key with the given LED index, if any.
fn find_by_led_index(g: &KeyboardGeometry, j: usize) -> (r: Option<usize>)
    ensures
        lk_index_from(g.keys@, j as int, 0) < 0 <==> r is None,
        r matches Some(i) ==> i == lk_index_from(g.keys@, j as int, 0) && i < g.keys@.len(),
{
    let n = g.keys.len();
    let mut i: usize = 0;
    while i < n
        invariant
            i <= n == g.keys@.len(),
            lk_index_from(g.keys@, j as int, 0) == lk_index_from(g.keys@, j as int, i as int),
        decreases n - i,
    {
        if g.keys[i].led_index as usize == j {
            return Some(i);
        }
        i = i + 1;
    }
    None
}

/// The first grid slot at a matrix position, if any.
#[verifier::loop_isolation(false)]
fn grid_find(m: &VisualLayoutMapping, matrix: (u8, u8)) -> (r: Option<(usize, usize)>)
    ensures
        row_search(m.rows@, matrix, 0).0 < 0 <==> r is None,
        r matches Some(rc) ==> rc.0 as int == row_search(m.rows@, matrix, 0).0 && rc.1 as int
            == row_search(m.rows@, matrix, 0).1 && rc.0 < m.rows@.len() && rc.1 < m.rows@[rc.0 as int]@.len(),
{
    let nr = m.rows.len();
    let mut r: usize = 0;
    while r < nr
        invariant
            r <= nr == m.rows@.len(),
            row_search(m.rows@, matrix, 0) == row_search(m.rows@, matrix, r as int),
        decreases nr - r,
    {
        let row = &m.rows[r];
        let nc = row.len();
        let mut c: usize = 0;
        while c < nc
            invariant
                c <= nc == row@.len(),
                col_search(row@, matrix, 0) == col_search(row@, matrix, c as int),
            decreases nc - c,
        {
            if row[c].matrix_position.0 == matrix.0 && row[c].matrix_position.1 == matrix.1 {
                return Some((r, c));
            }
            c = c + 1;
        }
        r = r + 1;
    }
    None
}

/// The first key definition at a logical position, if any.
fn find_def(layer: &Layer, row: u8, col: u8) -> (r: Option<usize>)
    ensures
        kd_index_from(layer.keys@, row, col, 0) < 0 <==> r is None,
        r matches Some(i) ==> i == kd_index_from(layer.keys@, row, col, 0) && i < layer.keys@.len(),
{
    let n = layer.keys.len();
    let mut i: usize = 0;
    while i < n
        invariant
            i <= n == layer.keys@.len(),
            kd_index_from(layer.keys@, row, col, 0) == kd_index_from(
                layer.keys@,
                row,
                col,
                i as int,
            ),
        decreases n - i,
    {
        if layer.keys[i].position.row == row && layer.keys[i].position.col == col {
            return Some(i);
        }
        i = i + 1;
    }
    None
}

/// The code a key definition emits.
fn emitted_code_exec(layout: &Layout, k: &KeyDefinition) -> (r: String)
    requires
        layout.tap_dances@.len() <= u32::MAX,
    ensures
        r@ == emitted_code(*layout, *k),
{
    match classify_code(k.keycode.as_str()) {
        CodeClass::TapDance(name) => {
            match layout.find_tap_dance(&name) {
                Some(i) => {
                    let mut out = String::from_str("TD(");
                    out.append(usize_to_string(i).as_str());
                    out.append(")");
                    out
                },
                None => k.keycode.clone(),
            }
        },
        _ => k.keycode.clone(),
    }
}

/// The code emitted into one keymap slot of one layer.
fn slot_code(
    layout: &Layout,
    li: usize,
    g: &KeyboardGeometry,
    m: &VisualLayoutMapping,
    j: usize,
) -> (r: String)
    requires
        li < layout.layers@.len(),
        layout.tap_dances@.len() <= u32::MAX,
        m.rows@.len() <= 256,
        forall|a: int| 0 <= a < m.rows@.len() ==> (#[trigger] m.rows@[a]@).len() <= 256,
    ensures
        r@ == spec_slot_code(*layout, li as int, *g, *m, j as int),
{
    let ki = match find_by_layout_index(g, j) {
        Some(ki) => ki,
        None => {
            return String::from_str("KC_TRNS");
        },
    };
    let matrix = g.keys[ki].matrix_position;
    let rc = match grid_find(m, matrix) {
        Some(rc) => rc,
        None => {
            return String::from_str("KC_TRNS");
        },
    };
    let di = match find_def(&layout.layers[li], rc.0 as u8, rc.1 as u8) {
        Some(di) => di,
        None => {
            return String::from_str("KC_TRNS");
        },
    };
    emitted_code_exec(layout, &layout.layers[li].keys[di])
}

/// The resolved color of one LED on one layer.
fn led_color(
    layout: &Layout,
    li: usize,
    g: &KeyboardGeometry,
    m: &VisualLayoutMapping,
    j: usize,
) -> (r: RgbColor)
    requires
        li < layout.layers@.len(),
        m.rows@.len() <= 256,
        forall|a: int| 0 <= a < m.rows@.len() ==> (#[trigger] m.rows@[a]@).len() <= 256,
    ensures
        r == spec_led_color(*layout, li as int, *g, *m, j as int),
{
    let ki = match find_by_led_index(g, j) {
        Some(ki) => ki,
        None => {
            return layout.layers[li].default_color;
        },
    };
    let matrix = g.keys[ki].matrix_position;
    let rc = match grid_find(m, matrix) {
        Some(rc) => rc,
        None => {
            return layout.layers[li].default_color;
        },
    };
    let di = match find_def(&layout.layers[li], rc.0 as u8, rc.1 as u8) {
        Some(di) => di,
        None => {
            return layout.layers[li].default_color;
        },
    };
    layout.resolve_key_color(li, &layout.layers[li].keys[di])
}

/// One keymap slot line.
fn slot_line(
    layout: &Layout,
    li: usize,
    g: &KeyboardGeometry,
    m: &VisualLayoutMapping,
    j: usize,
) -> (r: String)
    requires
        li < layout.layers@.len(),
        layout.tap_dances@.len() <= u32::MAX,
        m.rows@.len() <= 256,
        forall|a: int| 0 <= a < m.rows@.len() ==> (#[trigger] m.rows@[a]@).len() <= 256,
    ensures
        r@ == "    "@ + spec_slot_code(*layout, li as int, *g, *m, j as int) + ",\n"@,
{
    let mut out = String::from_str("    ");
    out.append(slot_code(layout, li, g, m, j).as_str());
    out.append(",\n");
    proof {
        assert(out@ =~= "    "@ + spec_slot_code(*layout, li as int, *g, *m, j as int) + ",\n"@);
    }
    out
}

/// One layer's keymap array text.
#[verifier::loop_isolation(false)]
fn build_layer_text(layout: &Layout, li: usize, g: &KeyboardGeometry, m: &VisualLayoutMapping) -> (r:
    String)
    requires
        li < layout.layers@.len(),
        li <= 256,
        layout.tap_dances@.len() <= u32::MAX,
        m.rows@.len() <= 256,
        forall|a: int| 0 <= a < m.rows@.len() ==> (#[trigger] m.rows@[a]@).len() <= 256,
    ensures
        r@ == spec_layer_text(*layout, li as int, *g, *m),
{
    let mut out = String::from_str("[");
    out.append(usize_to_string(li).as_str());
    out.append("] = LAYOUT(\n");
    let ghost head = "["@ + dec_string(li as nat) + "] = LAYOUT(\n"@;
    proof {
        assert(out@ =~= head);
    }
    let nslots = g.keys.len();
    let mut j: usize = 0;
    while j < nslots
        invariant
            j <= nslots == g.keys@.len(),
            out@ == head + spec_slots_text(*layout, li as int, *g, *m, j as int),
        decreases nslots - j,
    {
        let line = slot_line(layout, li, g, m, j);
        out.append(line.as_str());
        proof {
            assert(out@ =~= head + spec_slots_text(*layout, li as int, *g, *m, j + 1));
        }
        j = j + 1;
    }
    out.append("),\n");
    proof {
        assert(out@ =~= spec_layer_text(*layout, li as int, *g, *m));
    }
    out
}

/// Builds the keymap fragment.
#[verifier::loop_isolation(false)]
fn build_keymap_text(layout: &Layout, g: &KeyboardGeometry, m: &VisualLayoutMapping) -> (r: String)
    requires
        layout.layers@.len() <= 256,
        layout.tap_dances@.len() <= u32::MAX,
        m.rows@.len() <= 256,
        forall|a: int| 0 <= a < m.rows@.len() ==> (#[trigger] m.rows@[a]@).len() <= 256,
    ensures
        r@ == spec_keymap_text(*layout, *g, *m),
{
    let mut out = String::from_str("// Keymap for ");
    out.append(g.keyboard_name.as_str());
    out.append(" [");
    out.append(g.layout_name.as_str());
    out.append("]\n");
    let ghost head = "// Keymap for "@ + g.keyboard_name@ + " ["@ + g.layout_name@ + "]\n"@;
    proof {
        assert(out@ =~= head);
    }
    let nl = layout.layers.len();
    let mut li: usize = 0;
    while li < nl
        invariant
            li <= nl == layout.layers@.len(),
            out@ == head + spec_layers_text(*layout, *g, *m, li as int),
        decreases nl - li,
    {
        let block = build_layer_text(layout, li, g, m);
        out.append(block.as_str());
        proof {
            assert(out@ =~= head + spec_layers_text(*layout, *g, *m, li + 1));
        }
        li = li + 1;
    }
    out
}

/// One tap-dance macro line.
fn td_line(layout: &Layout, ti: usize) -> (r: String)
    requires
        ti < layout.tap_dances@.len(),
        layout.tap_dances@.len() <= u32::MAX,
    ensures
        r@ == spec_td_line(*layout, ti as int),
{
    let td = &layout.tap_dances[ti];
    let mut out = String::from_str("TD(");
    out.append(usize_to_string(ti).as_str());
    out.append(") ");
    out.append(td.name.as_str());
    out.append(" ");
    out.append(td.single_tap.as_str());
    if let Some(c) = &td.double_tap {
        out.append(" ");
        out.append(c.as_str());
    }
    if let Some(c) = &td.hold {
        out.append(" ");
        out.append(c.as_str());
    }
    out.append("\n");
    proof {
        assert(out@ =~= spec_td_line(*layout, ti as int));
    }
    out
}

/// One category line.
fn cat_line(layout: &Layout, ci: usize) -> (r: String)
    requires
        ci < layout.categories@.len(),
    ensures
        r@ == spec_cat_line(*layout, ci as int),
{
    let cat = &layout.categories[ci];
    let mut out = String::new();
    out.append(cat.id.as_str());
    out.append(" ");
    out.append(cat.name.as_str());
    out.append(" #");
    out.append(u8_to_hex(cat.color.r).as_str());
    out.append(u8_to_hex(cat.color.g).as_str());
    out.append(u8_to_hex(cat.color.b).as_str());
    out.append("\n");
    proof {
        assert(out@ =~= spec_cat_line(*layout, ci as int));
    }
    out
}

/// One LED color line.
fn led_line(
    layout: &Layout,
    li: usize,
    g: &KeyboardGeometry,
    m: &VisualLayoutMapping,
    j: usize,
) -> (r: String)
    requires
        li < layout.layers@.len(),
        j <= 256,
        m.rows@.len() <= 256,
        forall|a: int| 0 <= a < m.rows@.len() ==> (#[trigger] m.rows@[a]@).len() <= 256,
    ensures
        r@ == spec_led_line(*layout, li as int, *g, *m, j as int),
{
    let c = led_color(layout, li, g, m, j);
    let mut out = String::from_str("led ");
    out.append(usize_to_string(j).as_str());
    out.append(" #");
    out.append(u8_to_hex(c.r).as_str());
    out.append(u8_to_hex(c.g).as_str());
    out.append(u8_to_hex(c.b).as_str());
    out.append("\n");
    proof {
        assert(out@ =~= spec_led_line(*layout, li as int, *g, *m, j as int));
    }
    out
}

/// One layer's color block.
#[verifier::loop_isolation(false)]
fn build_layer_colors(layout: &Layout, li: usize, g: &KeyboardGeometry, m: &VisualLayoutMapping) -> (r:
    String)
    requires
        li < layout.layers@.len(),
        li <= 256,
        g.keys@.len() <= 256,
        m.rows@.len() <= 256,
        forall|a: int| 0 <= a < m.rows@.len() ==> (#[trigger] m.rows@[a]@).len() <= 256,
    ensures
        r@ == spec_layer_colors_text(*layout, li as int, *g, *m),
{
    let mut out = String::from_str("layer ");
    out.append(usize_to_string(li).as_str());
    out.append("\n");
    let ghost head = "layer "@ + dec_string(li as nat) + "\n"@;
    proof {
        assert(out@ =~= head);
    }
    let nslots = g.keys.len();
    let mut j: usize = 0;
    while j < nslots
        invariant
            j <= nslots == g.keys@.len(),
            out@ == head + spec_leds_text(*layout, li as int, *g, *m, j as int),
        decreases nslots - j,
    {
        let line = led_line(layout, li, g, m, j);
        out.append(line.as_str());
        proof {
            assert(out@ =~= head + spec_leds_text(*layout, li as int, *g, *m, j + 1));
        }
        j = j + 1;
    }
    out
}

/// Builds the RGB and macro description.
#[verifier::loop_isolation(false)]
fn build_rgb_text(layout: &Layout, g: &KeyboardGeometry, m: &VisualLayoutMapping) -> (r: String)
    requires
        layout.layers@.len() <= 256,
        layout.tap_dances@.len() <= u32::MAX,
        g.keys@.len() <= 256,
        m.rows@.len() <= 256,
        forall|a: int| 0 <= a < m.rows@.len() ==> (#[trigger] m.rows@[a]@).len() <= 256,
    ensures
        r@ == spec_rgb_text(*layout, *g, *m),
{
    let mut out = String::from_str("// RGB and macro description for ");
    out.append(g.keyboard_name.as_str());
    out.append("\n[tap_dances]\n");
    let ghost head = "// RGB and macro description for "@ + g.keyboard_name@
        + "\n[tap_dances]\n"@;
    proof {
        assert(out@ =~= head);
    }
    let nt = layout.tap_dances.len();
    let mut ti: usize = 0;
    while ti < nt
        invariant
            ti <= nt == layout.tap_dances@.len(),
            out@ == head + spec_tds_text(*layout, ti as int),
        decreases nt - ti,
    {
        let line = td_line(layout, ti);
        out.append(line.as_str());
        proof {
            assert(out@ =~= head + spec_tds_text(*layout, ti + 1));
        }
        ti = ti + 1;
    }
    out.append("[categories]\n");
    let ghost head2 = out@;
    let nc = layout.categories.len();
    let mut ci: usize = 0;
    while ci < nc
        invariant
            ci <= nc == layout.categories@.len(),
            out@ == head2 + spec_cats_text(*layout, ci as int),
        decreases nc - ci,
    {
        let line = cat_line(layout, ci);
        out.append(line.as_str());
        proof {
            assert(out@ =~= head2 + spec_cats_text(*layout, ci + 1));
        }
        ci = ci + 1;
    }
    out.append("[colors]\n");
    let ghost head3 = out@;
    let nl = layout.layers.len();
    let mut li: usize = 0;
    while li < nl
        invariant
            li <= nl == layout.layers@.len(),
            out@ == head3 + spec_colors_text(*layout, *g, *m, li as int),
        decreases nl - li,
    {
        let block = build_layer_colors(layout, li, g, m);
        out.append(block.as_str());
        proof {
            assert(out@ =~= head3 + spec_colors_text(*layout, *g, *m, li + 1));
        }
        li = li + 1;
    }
    proof {
        assert(head2 =~= head + spec_tds_text(*layout, nt as int) + "[categories]\n"@);
        assert(head3 =~= head2 + spec_cats_text(*layout, nc as int) + "[colors]\n"@);
        assert(out@ =~= spec_rgb_text(*layout, *g, *m));
    }
    out
}

/// Generates the two firmware artifacts from a validated layout.
///
/// The layout is re-validated first; generation proceeds exactly when
/// validation finds no error, and otherwise fails with the first
/// error and its location. On success the artifacts are exact
/// functions of layout, geometry and mapping, so regeneration from
/// unchanged inputs is byte-identical; tap-dance macro indices follow
/// the order of the tap-dance collection.
#[verifier::loop_isolation(false)]
#[verifier::rlimit(60)]
#[verifier::spinoff_prover]
pub fn generate_firmware(
    layout: &Layout,
    g: &KeyboardGeometry,
    m: &VisualLayoutMapping,
    db: &KeycodeDb,
) -> (r: Result<(String, String), GenerationError>)
    requires
        layout.layers@.len() <= 256,
        layout.tap_dances@.len() <= u32::MAX,
        g.keys@.len() <= 256,
        m.rows@.len() <= 256,
        forall|a: int| 0 <= a < m.rows@.len() ==> (#[trigger] m.rows@[a]@).len() <= 256,
    ensures
        r is Ok <==> layout_ok(*db, *layout, *m),
        r matches Ok(t) ==> t.0@ == spec_keymap_text(*layout, *g, *m) && t.1@ == spec_rgb_text(
            *layout,
            *g,
            *m,
        ),
{
    let report = validate_layout(layout, g, m, db);
    if !report.is_valid() {
        // Report the first blocking error with its location context.
        let n = report.messages.len();
        let mut i: usize = 0;
        while i < n
            invariant
                i <= n == report.messages@.len(),
                forall|a: int| 0 <= a < i ==> !is_error(#[trigger] report.messages@[a]),
            decreases n - i,
        {
            proof {
                reveal_strlit("error");
            }
            if crate::text::str_eq(report.messages[i].severity.as_str(), "error") {
                return Err(
                    GenerationError {
                        message: report.messages[i].message.clone(),
                        location: report.messages[i].location,
                    },
                );
            }
            i = i + 1;
        }
        proof {
            assert(false);
        }
        return Err(GenerationError { message: String::new(), location: None });
    }
    let keymap = build_keymap_text(layout, g, m);
    let rgb = build_rgb_text(layout, g, m);
    Ok((keymap, rgb))
}

} // verus!
