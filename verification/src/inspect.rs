//! The inspect command: the computing part, handed a loaded layout
//! and returning the requested section as text or JSON.

use vstd::prelude::*;
use crate::cli_common::CliError;
use crate::keycodes_cmd::{json_string, json_string_exec};
use crate::layout::Layout;
use crate::numfmt::{dec_string, hex_byte, u8_to_hex, u8_to_string, u32_to_string, usize_to_string};
use crate::rgb::RgbColor;
use crate::tap_dance::{spec_kind, TapDanceAction, TapDanceKind};

verus! {

/// The section names the inspect command accepts.
pub open spec fn valid_section(s: Seq<char>) -> bool {
    s == "metadata"@ || s == "layers"@ || s == "categories"@ || s == "tap-dances"@ || s
        == "settings"@
}

/// The display text of a boolean.
pub open spec fn spec_bool_text(b: bool) -> Seq<char> {
    if b {
        "true"@
    } else {
        "false"@
    }
}

/// The display text of a tap dance's derived kind.
pub open spec fn spec_kind_text(k: TapDanceKind) -> Seq<char> {
    match k {
        TapDanceKind::Single => "single"@,
        TapDanceKind::TwoWay => "two_way"@,
        TapDanceKind::ThreeWay => "three_way"@,
    }
}

/// A color as a hexadecimal `#RRGGBB` tag.
pub open spec fn spec_hex_color(c: RgbColor) -> Seq<char> {
    "#"@ + hex_byte(c.r) + hex_byte(c.g) + hex_byte(c.b)
}

/// The tags joined with commas.
pub open spec fn spec_joined_tags(tags: Seq<String>, i: int) -> Seq<char>
    decreases i,
{
    if i <= 0 {
        Seq::empty()
    } else if i == 1 {
        tags[0]@
    } else {
        spec_joined_tags(tags, i - 1) + ", "@ + tags[i - 1]@
    }
}

/// An optional line of the metadata section.
pub open spec fn spec_opt_line(label: Seq<char>, v: Option<String>) -> Seq<char> {
    match v {
        Some(t) => label + t@ + "\n"@,
        None => Seq::empty(),
    }
}

/// The metadata section, as plain text.
pub open spec fn spec_metadata_text(layout: Layout) -> Seq<char> {
    let md = layout.metadata;
    "Metadata:\n  Name: "@ + md.name@ + "\n"@ + (if md.author@.len() > 0 {
        "  Author: "@ + md.author@ + "\n"@
    } else {
        Seq::empty()
    }) + spec_opt_line("  Keyboard: "@, md.keyboard) + spec_opt_line(
        "  Layout Variant: "@,
        md.layout_variant,
    ) + spec_opt_line("  Keymap Name: "@, md.keymap_name) + "  Created: "@ + md.created@ + "\n"@
        + "  Modified: "@ + md.modified@ + "\n"@ + (if md.tags@.len() > 0 {
        "  Tags: "@ + spec_joined_tags(md.tags@, md.tags@.len() as int) + "\n"@
    } else {
        Seq::empty()
    })
}

/// One line of the layers section.
pub open spec fn spec_layer_line(layout: Layout, i: int) -> Seq<char> {
    "  ["@ + dec_string(i as nat) + "] "@ + layout.layers@[i].name@ + " ("@ + dec_string(
        layout.layers@[i].keys@.len() as nat,
    ) + " keys)\n"@
}

/// The first `i` layer lines.
pub open spec fn spec_layer_lines(layout: Layout, i: int) -> Seq<char>
    decreases i,
{
    if i <= 0 {
        Seq::empty()
    } else {
        spec_layer_lines(layout, i - 1) + spec_layer_line(layout, i - 1)
    }
}

/// The layers section, as plain text.
pub open spec fn spec_layers_section(layout: Layout) -> Seq<char> {
    "Layers ("@ + dec_string(layout.layers@.len() as nat) + " total):\n"@ + spec_layer_lines(
        layout,
        layout.layers@.len() as int,
    )
}

/// One line of the categories section.
pub open spec fn spec_category_line(layout: Layout, i: int) -> Seq<char> {
    let c = layout.categories@[i];
    "  "@ + c.id@ + " - "@ + c.name@ + " ("@ + spec_hex_color(c.color) + ")\n"@
}

/// The first `i` category lines.
pub open spec fn spec_category_lines(layout: Layout, i: int) -> Seq<char>
    decreases i,
{
    if i <= 0 {
        Seq::empty()
    } else {
        spec_category_lines(layout, i - 1) + spec_category_line(layout, i - 1)
    }
}

/// The categories section, as plain text.
pub open spec fn spec_categories_section(layout: Layout) -> Seq<char> {
    "Categories ("@ + dec_string(layout.categories@.len() as nat) + " total):\n"@
        + spec_category_lines(layout, layout.categories@.len() as int)
}

/// One block of the tap-dances section.
pub open spec fn spec_td_entry(td: TapDanceAction) -> Seq<char> {
    "  "@ + td.name@ + " ("@ + spec_kind_text(spec_kind(td)) + "):\n    Single: "@ + td.single_tap@
        + "\n"@ + (match td.double_tap {
        Some(c) => "    Double: "@ + c@ + "\n"@,
        None => Seq::empty(),
    }) + (match td.hold {
        Some(c) => "    Hold: "@ + c@ + "\n"@,
        None => Seq::empty(),
    })
}

/// The first `i` tap-dance blocks.
pub open spec fn spec_td_entries(layout: Layout, i: int) -> Seq<char>
    decreases i,
{
    if i <= 0 {
        Seq::empty()
    } else {
        spec_td_entries(layout, i - 1) + spec_td_entry(layout.tap_dances@[i - 1])
    }
}

/// The tap-dances section, as plain text.
pub open spec fn spec_tap_dances_section(layout: Layout) -> Seq<char> {
    "Tap Dances ("@ + dec_string(layout.tap_dances@.len() as nat) + " total):\n"@
        + spec_td_entries(layout, layout.tap_dances@.len() as int)
}

/// The display text of the idle-effect mode.
pub open spec fn spec_mode_text(m: crate::layout::IdleEffectMode) -> Seq<char> {
    match m {
        crate::layout::IdleEffectMode::Breathing => "Breathing"@,
        crate::layout::IdleEffectMode::Rainbow => "Rainbow"@,
        crate::layout::IdleEffectMode::Solid => "Solid"@,
    }
}

/// The settings section, as plain text.
pub open spec fn spec_settings_section(layout: Layout) -> Seq<char> {
    "RGB Settings:\n  Enabled: "@ + spec_bool_text(layout.rgb_enabled) + "\n  Brightness: "@
        + dec_string(layout.rgb_brightness as nat) + "%\n  Timeout: "@ + dec_string(
        layout.rgb_timeout_ms as nat,
    ) + "ms\n\nIdle Effect Settings:\n  Enabled: "@ + spec_bool_text(
        layout.idle_effect_settings.enabled,
    ) + "\n  Timeout: "@ + dec_string(layout.idle_effect_settings.idle_timeout_ms as nat)
        + "ms\n  Duration: "@ + dec_string(
        layout.idle_effect_settings.idle_effect_duration_ms as nat,
    ) + "ms\n  Mode: "@ + spec_mode_text(layout.idle_effect_settings.idle_effect_mode) + "\n"@
}

/// The settings section, as JSON.
pub open spec fn spec_settings_json(layout: Layout) -> Seq<char> {
    "{\"rgb_enabled\": "@ + spec_bool_text(layout.rgb_enabled) + ", \"rgb_brightness\": "@
        + dec_string(layout.rgb_brightness as nat) + ", \"rgb_timeout_ms\": "@ + dec_string(
        layout.rgb_timeout_ms as nat,
    ) + ", \"idle_effect_enabled\": "@ + spec_bool_text(layout.idle_effect_settings.enabled)
        + ", \"idle_effect_timeout_ms\": "@ + dec_string(
        layout.idle_effect_settings.idle_timeout_ms as nat,
    ) + ", \"idle_effect_duration_ms\": "@ + dec_string(
        layout.idle_effect_settings.idle_effect_duration_ms as nat,
    ) + ", \"idle_effect_mode\": "@ + json_string(
        spec_mode_text(layout.idle_effect_settings.idle_effect_mode),
    ) + "}\n"@
}

/// Arguments of the inspect command.
#[derive(Clone, Debug)]
pub struct InspectArgs {
    /// The path of the layout file, kept for the caller that loads it.
    pub layout: String,
    /// The section to inspect.
    pub section: String,
    /// Emit JSON instead of plain text.
    pub json: bool,
}

/// The display text of a boolean, executably.
fn bool_text(b: bool) -> (r: &'static str)
    ensures
        r@ == spec_bool_text(b),
{
    if b {
        "true"
    } else {
        "false"
    }
}

/// The metadata section, executably.
#[verifier::loop_isolation(false)]
#[verifier::rlimit(100)]
#[verifier::spinoff_prover]
fn metadata_text(layout: &Layout) -> (r: String)
    requires
        layout.metadata.tags@.len() <= u32::MAX,
    ensures
        r@ == spec_metadata_text(*layout),
{
    let md = &layout.metadata;
    let mut out = String::from_str("Metadata:\n  Name: ");
    out.append(md.name.as_str());
    out.append("\n");
    let ghost mut g: Seq<char> = "Metadata:\n  Name: "@ + md.name@ + "\n"@;
    proof {
        assert(out@ =~= g);
    }
    if md.author.as_str().unicode_len() > 0 {
        out.append("  Author: ");
        out.append(md.author.as_str());
        out.append("\n");
    }
    proof {
        g = g + (if md.author@.len() > 0 {
            "  Author: "@ + md.author@ + "\n"@
        } else {
            Seq::empty()
        });
        assert(out@ =~= g);
    }
    if let Some(t) = &md.keyboard {
        out.append("  Keyboard: ");
        out.append(t.as_str());
        out.append("\n");
    }
    proof {
        g = g + spec_opt_line("  Keyboard: "@, md.keyboard);
        assert(out@ =~= g);
    }
    if let Some(t) = &md.layout_variant {
        out.append("  Layout Variant: ");
        out.append(t.as_str());
        out.append("\n");
    }
    proof {
        g = g + spec_opt_line("  Layout Variant: "@, md.layout_variant);
        assert(out@ =~= g);
    }
    if let Some(t) = &md.keymap_name {
        out.append("  Keymap Name: ");
        out.append(t.as_str());
        out.append("\n");
    }
    proof {
        g = g + spec_opt_line("  Keymap Name: "@, md.keymap_name);
        assert(out@ =~= g);
    }
    out.append("  Created: ");
    out.append(md.created.as_str());
    out.append("\n");
    out.append("  Modified: ");
    out.append(md.modified.as_str());
    out.append("\n");
    proof {
        g = g + "  Created: "@ + md.created@ + "\n"@ + "  Modified: "@ + md.modified@ + "\n"@;
        assert(out@ =~= g);
    }
    let ntags = md.tags.len();
    if ntags > 0 {
        out.append("  Tags: ");
        let ghost head = out@;
        let mut i: usize = 0;
        while i < ntags
            invariant
                i <= ntags == md.tags@.len(),
                i > 0 ==> out@ == head + spec_joined_tags(md.tags@, i as int),
                i == 0 ==> out@ == head,
            decreases ntags - i,
        {
            if i > 0 {
                out.append(", ");
            }
            out.append(md.tags[i].as_str());
            i = i + 1;
        }
        out.append("\n");
    }
    proof {
        g = g + (if md.tags@.len() > 0 {
            "  Tags: "@ + spec_joined_tags(md.tags@, md.tags@.len() as int) + "\n"@
        } else {
            Seq::empty()
        });
        assert(out@ =~= g);
        assert(g =~= spec_metadata_text(*layout));
    }
    out
}

/// The layers section, executably.
#[verifier::loop_isolation(false)]
#[verifier::spinoff_prover]
fn layers_text(layout: &Layout) -> (r: String)
    requires
        layout.layers@.len() <= 256,
        forall|a: int|
            0 <= a < layout.layers@.len() ==> (#[trigger] layout.layers@[a]).keys@.len()
                <= u32::MAX,
    ensures
        r@ == spec_layers_section(*layout),
{
    let mut out = String::from_str("Layers (");
    out.append(usize_to_string(layout.layers.len()).as_str());
    out.append(" total):\n");
    let ghost head = "Layers ("@ + dec_string(layout.layers@.len() as nat) + " total):\n"@;
    proof {
        assert(out@ =~= head);
    }
    let nl = layout.layers.len();
    let mut i: usize = 0;
    while i < nl
        invariant
            i <= nl == layout.layers@.len(),
            out@ == head + spec_layer_lines(*layout, i as int),
        decreases nl - i,
    {
        let mut line = String::from_str("  [");
        line.append(usize_to_string(i).as_str());
        line.append("] ");
        line.append(layout.layers[i].name.as_str());
        line.append(" (");
        line.append(usize_to_string(layout.layers[i].keys.len()).as_str());
        line.append(" keys)\n");
        proof {
            assert(line@ =~= spec_layer_line(*layout, i as int));
        }
        out.append(line.as_str());
        i = i + 1;
    }
    proof {
        assert(out@ =~= spec_layers_section(*layout));
    }
    out
}

/// The categories section, executably.
#[verifier::loop_isolation(false)]
#[verifier::spinoff_prover]
fn categories_text(layout: &Layout) -> (r: String)
    requires
        layout.categories@.len() <= u32::MAX,
    ensures
        r@ == spec_categories_section(*layout),
{
    let mut out = String::from_str("Categories (");
    out.append(usize_to_string(layout.categories.len()).as_str());
    out.append(" total):\n");
    let ghost head = "Categories ("@ + dec_string(layout.categories@.len() as nat)
        + " total):\n"@;
    proof {
        assert(out@ =~= head);
    }
    let nc = layout.categories.len();
    let mut i: usize = 0;
    while i < nc
        invariant
            i <= nc == layout.categories@.len(),
            out@ == head + spec_category_lines(*layout, i as int),
        decreases nc - i,
    {
        let c = &layout.categories[i];
        let mut line = String::from_str("  ");
        line.append(c.id.as_str());
        line.append(" - ");
        line.append(c.name.as_str());
        line.append(" (");
        line.append("#");
        line.append(u8_to_hex(c.color.r).as_str());
        line.append(u8_to_hex(c.color.g).as_str());
        line.append(u8_to_hex(c.color.b).as_str());
        line.append(")\n");
        proof {
            assert(line@ =~= spec_category_line(*layout, i as int));
        }
        out.append(line.as_str());
        i = i + 1;
    }
    proof {
        assert(out@ =~= spec_categories_section(*layout));
    }
    out
}

/// The tap-dances section, executably.
#[verifier::loop_isolation(false)]
#[verifier::spinoff_prover]
fn tap_dances_text(layout: &Layout) -> (r: String)
    requires
        layout.tap_dances@.len() <= u32::MAX,
    ensures
        r@ == spec_tap_dances_section(*layout),
{
    let mut out = String::from_str("Tap Dances (");
    out.append(usize_to_string(layout.tap_dances.len()).as_str());
    out.append(" total):\n");
    let ghost head = "Tap Dances ("@ + dec_string(layout.tap_dances@.len() as nat)
        + " total):\n"@;
    proof {
        assert(out@ =~= head);
    }
    let nt = layout.tap_dances.len();
    let mut i: usize = 0;
    while i < nt
        invariant
            i <= nt == layout.tap_dances@.len(),
            out@ == head + spec_td_entries(*layout, i as int),
        decreases nt - i,
    {
        let td = &layout.tap_dances[i];
        let mut entry = String::from_str("  ");
        entry.append(td.name.as_str());
        entry.append(" (");
        entry.append(
            match td.kind() {
                TapDanceKind::Single => "single",
                TapDanceKind::TwoWay => "two_way",
                TapDanceKind::ThreeWay => "three_way",
            },
        );
        entry.append("):\n    Single: ");
        entry.append(td.single_tap.as_str());
        entry.append("\n");
        if let Some(c) = &td.double_tap {
            entry.append("    Double: ");
            entry.append(c.as_str());
            entry.append("\n");
        }
        if let Some(c) = &td.hold {
            entry.append("    Hold: ");
            entry.append(c.as_str());
            entry.append("\n");
        }
        proof {
            assert(entry@ =~= spec_td_entry(layout.tap_dances@[i as int]));
        }
        out.append(entry.as_str());
        i = i + 1;
    }
    proof {
        assert(out@ =~= spec_tap_dances_section(*layout));
    }
    out
}

/// The settings section, executably.
#[verifier::spinoff_prover]
fn settings_text(layout: &Layout, json: bool) -> (r: String)
    ensures
        json ==> r@ == spec_settings_json(*layout),
        !json ==> r@ == spec_settings_section(*layout),
{
    let mode_str = match layout.idle_effect_settings.idle_effect_mode {
        crate::layout::IdleEffectMode::Breathing => "Breathing",
        crate::layout::IdleEffectMode::Rainbow => "Rainbow",
        crate::layout::IdleEffectMode::Solid => "Solid",
    };
    if json {
        let mut out = String::from_str("{\"rgb_enabled\": ");
        out.append(bool_text(layout.rgb_enabled));
        out.append(", \"rgb_brightness\": ");
        out.append(u8_to_string(layout.rgb_brightness).as_str());
        out.append(", \"rgb_timeout_ms\": ");
        out.append(u32_to_string(layout.rgb_timeout_ms).as_str());
        out.append(", \"idle_effect_enabled\": ");
        out.append(bool_text(layout.idle_effect_settings.enabled));
        out.append(", \"idle_effect_timeout_ms\": ");
        out.append(u32_to_string(layout.idle_effect_settings.idle_timeout_ms).as_str());
        out.append(", \"idle_effect_duration_ms\": ");
        out.append(u32_to_string(layout.idle_effect_settings.idle_effect_duration_ms).as_str());
        out.append(", \"idle_effect_mode\": ");
        out.append(json_string_exec(mode_str).as_str());
        out.append("}\n");
        proof {
            assert(out@ =~= spec_settings_json(*layout));
        }
        out
    } else {
        let mut out = String::from_str("RGB Settings:\n  Enabled: ");
        out.append(bool_text(layout.rgb_enabled));
        out.append("\n  Brightness: ");
        out.append(u8_to_string(layout.rgb_brightness).as_str());
        out.append("%\n  Timeout: ");
        out.append(u32_to_string(layout.rgb_timeout_ms).as_str());
        out.append("ms\n\nIdle Effect Settings:\n  Enabled: ");
        out.append(bool_text(layout.idle_effect_settings.enabled));
        out.append("\n  Timeout: ");
        out.append(u32_to_string(layout.idle_effect_settings.idle_timeout_ms).as_str());
        out.append("ms\n  Duration: ");
        out.append(u32_to_string(layout.idle_effect_settings.idle_effect_duration_ms).as_str());
        out.append("ms\n  Mode: ");
        out.append(mode_str);
        out.append("\n");
        proof {
            assert(out@ =~= spec_settings_section(*layout));
        }
        out
    }
}

impl InspectArgs {
    /// Reads one section of a layout: fails exactly when the section
    /// name is not one of `metadata`, `layers`, `categories`,
    /// `tap-dances` or `settings`.
    ///
    /// The JSON form is emitted for the settings section; the other
    /// sections are plain text in both modes.
    pub fn execute(&self, layout: &Layout) -> (r: Result<String, CliError>)
        requires
            layout.layers@.len() <= 256,
            forall|a: int|
                0 <= a < layout.layers@.len() ==> (#[trigger] layout.layers@[a]).keys@.len()
                    <= u32::MAX,
            layout.categories@.len() <= u32::MAX,
            layout.tap_dances@.len() <= u32::MAX,
            layout.metadata.tags@.len() <= u32::MAX,
        ensures
            r is Err <==> !valid_section(self.section@),
            r matches Ok(t) ==> t@ == (if self.section@ == "metadata"@ {
                spec_metadata_text(*layout)
            } else if self.section@ == "layers"@ {
                spec_layers_section(*layout)
            } else if self.section@ == "categories"@ {
                spec_categories_section(*layout)
            } else if self.section@ == "tap-dances"@ {
                spec_tap_dances_section(*layout)
            } else if self.json {
                spec_settings_json(*layout)
            } else {
                spec_settings_section(*layout)
            }),
    {
        let sec = self.section.as_str();
        if crate::text::str_eq(sec, "metadata") {
            return Ok(metadata_text(layout));
        }
        if crate::text::str_eq(sec, "layers") {
            return Ok(layers_text(layout));
        }
        if crate::text::str_eq(sec, "categories") {
            return Ok(categories_text(layout));
        }
        if crate::text::str_eq(sec, "tap-dances") {
            return Ok(tap_dances_text(layout));
        }
        if crate::text::str_eq(sec, "settings") {
            return Ok(settings_text(layout, self.json));
        }
        Err(
            CliError::validation(
                String::from_str(
                    "Invalid section. Must be one of: metadata, layers, categories, tap-dances, settings",
                ),
            ),
        )
    }
}

} // verus!
