//! Markdown documentation for a layout's tap-dance actions.

use vstd::prelude::*;
use crate::keycode::is_td_ref;
use crate::keycode_db::{db_has, db_index_from, KeycodeDb};
use crate::layout::Layout;
use crate::numfmt::{dec_string, u8_to_string, usize_to_string};

verus! {

/// How a keycode is displayed: with its reference name when the
/// reference knows it, bare otherwise.
pub open spec fn spec_format_keycode(db: KeycodeDb, code: Seq<char>) -> Seq<char> {
    if db_has(db, code) {
        code + " ("@ + db.keycodes@[db_index_from(db.keycodes@, code, 0)].name@ + ")"@
    } else {
        code
    }
}

/// One tap dance's documentation block.
pub open spec fn spec_td_block(layout: Layout, db: KeycodeDb, i: int) -> Seq<char> {
    let td = layout.tap_dances@[i];
    "### TD("@ + dec_string(i as nat) + "): "@ + td.name@ + "\n"@ + "- **Single Tap:** "@
        + spec_format_keycode(db, td.single_tap@) + "\n"@ + (match td.double_tap {
        Some(c) => "- **Double Tap:** "@ + spec_format_keycode(db, c@) + "\n"@,
        None => Seq::empty(),
    }) + (match td.hold {
        Some(c) => "- **Hold:** "@ + spec_format_keycode(db, c@) + "\n"@,
        None => Seq::empty(),
    }) + "\n"@
}

/// The first `i` tap-dance blocks.
pub open spec fn spec_td_blocks(layout: Layout, db: KeycodeDb, i: int) -> Seq<char>
    decreases i,
{
    if i <= 0 {
        Seq::empty()
    } else {
        spec_td_blocks(layout, db, i - 1) + spec_td_block(layout, db, i - 1)
    }
}

/// One key-reference line.
pub open spec fn spec_ref_line(layout: Layout, li: int, kj: int) -> Seq<char> {
    let layer = layout.layers@[li];
    let key = layer.keys@[kj];
    "- Layer "@ + dec_string(layer.number as nat) + ", Position ("@ + dec_string(
        key.position.row as nat,
    ) + ","@ + dec_string(key.position.col as nat) + "): "@ + key.keycode@ + "\n"@
}

/// The reference lines of the first `kj` keys of one layer.
pub open spec fn spec_layer_refs(layout: Layout, li: int, kj: int) -> Seq<char>
    decreases kj,
{
    if kj <= 0 {
        Seq::empty()
    } else {
        spec_layer_refs(layout, li, kj - 1) + (if is_td_ref(
            layout.layers@[li].keys@[kj - 1].keycode@,
        ) {
            spec_ref_line(layout, li, kj - 1)
        } else {
            Seq::empty()
        })
    }
}

/// The reference lines of the first `li` layers.
pub open spec fn spec_all_refs(layout: Layout, li: int) -> Seq<char>
    decreases li,
{
    if li <= 0 {
        Seq::empty()
    } else {
        spec_all_refs(layout, li - 1) + spec_layer_refs(
            layout,
            li - 1,
            layout.layers@[li - 1].keys@.len() as int,
        )
    }
}

/// Whether any key of any layer references a tap dance.
pub open spec fn any_td_ref(layout: Layout) -> bool {
    exists|li: int, kj: int|
        0 <= li < layout.layers@.len() && 0 <= kj < layout.layers@[li].keys@.len() && is_td_ref(
            (#[trigger] layout.layers@[li].keys@[kj]).keycode@,
        )
}

/// The whole documentation section: empty without tap dances; else
/// every action's block, and the key references when any exist.
pub open spec fn spec_tap_dance_docs(layout: Layout, db: KeycodeDb) -> Seq<char> {
    if layout.tap_dances@.len() == 0 {
        Seq::empty()
    } else {
        "## Tap Dance Actions\n\n"@ + spec_td_blocks(layout, db, layout.tap_dances@.len() as int)
            + (if any_td_ref(layout) {
            "**Keys Using Tap Dance:**\n"@ + spec_all_refs(layout, layout.layers@.len() as int)
        } else {
            Seq::empty()
        })
    }
}

/// Formats a keycode with its display name: `CODE (Name)` when the
/// reference knows the code, the bare code otherwise.
pub fn format_keycode(keycode: &str, keycode_db: &KeycodeDb) -> (r: String)
    ensures
        r@ == spec_format_keycode(*keycode_db, keycode@),
{
    match keycode_db.get(keycode) {
        Some(def) => {
            let mut out = String::from_str(keycode);
            out.append(" (");
            out.append(def.name.as_str());
            out.append(")");
            proof {
                assert(out@ =~= spec_format_keycode(*keycode_db, keycode@));
            }
            out
        },
        None => String::from_str(keycode),
    }
}

/// Generates the tap-dance documentation for a layout: each action
/// with its name and codes, and the list of keys using a tap dance.
/// Returns the empty string when the layout has no tap dances.
#[verifier::loop_isolation(false)]
#[verifier::rlimit(60)]
#[verifier::spinoff_prover]
pub fn generate_tap_dance_docs(layout: &Layout, keycode_db: &KeycodeDb) -> (r: String)
    requires
        layout.tap_dances@.len() <= u32::MAX,
    ensures
        r@ == spec_tap_dance_docs(*layout, *keycode_db),
{
    let nt = layout.tap_dances.len();
    if nt == 0 {
        return String::new();
    }
    let mut out = String::from_str("## Tap Dance Actions\n\n");
    let ghost head = "## Tap Dance Actions\n\n"@;
    proof {
        assert(out@ =~= head);
    }
    let mut i: usize = 0;
    while i < nt
        invariant
            i <= nt == layout.tap_dances@.len(),
            out@ == head + spec_td_blocks(*layout, *keycode_db, i as int),
        decreases nt - i,
    {
        let td = &layout.tap_dances[i];
        let mut block = String::from_str("### TD(");
        block.append(usize_to_string(i).as_str());
        block.append("): ");
        block.append(td.name.as_str());
        block.append("\n");
        block.append("- **Single Tap:** ");
        block.append(format_keycode(td.single_tap.as_str(), keycode_db).as_str());
        block.append("\n");
        if let Some(c) = &td.double_tap {
            block.append("- **Double Tap:** ");
            block.append(format_keycode(c.as_str(), keycode_db).as_str());
            block.append("\n");
        }
        if let Some(c) = &td.hold {
            block.append("- **Hold:** ");
            block.append(format_keycode(c.as_str(), keycode_db).as_str());
            block.append("\n");
        }
        block.append("\n");
        proof {
            assert(block@ =~= spec_td_block(*layout, *keycode_db, i as int));
        }
        out.append(block.as_str());
        i = i + 1;
    }
    // Key references.
    let nl = layout.layers.len();
    let mut found = false;
    let mut li: usize = 0;
    while li < nl
        invariant
            li <= nl == layout.layers@.len(),
            found ==> any_td_ref(*layout),
            !found ==> forall|a: int, b: int|
                0 <= a < li && 0 <= b < layout.layers@[a].keys@.len() ==> !is_td_ref(
                    (#[trigger] layout.layers@[a].keys@[b]).keycode@,
                ),
        decreases nl - li,
    {
        let layer = &layout.layers[li];
        let nk = layer.keys.len();
        let mut kj: usize = 0;
        while kj < nk
            invariant
                kj <= nk == layout.layers@[li as int].keys@.len(),
                li < nl,
                found ==> any_td_ref(*layout),
                !found ==> forall|a: int, b: int|
                    0 <= a < li && 0 <= b < layout.layers@[a].keys@.len() ==> !is_td_ref(
                        (#[trigger] layout.layers@[a].keys@[b]).keycode@,
                    ),
                !found ==> forall|b: int|
                    0 <= b < kj ==> !is_td_ref(
                        (#[trigger] layout.layers@[li as int].keys@[b]).keycode@,
                    ),
            decreases nk - kj,
        {
            let code = layer.keys[kj].keycode.as_str();
            let n = code.unicode_len();
            if n >= 4 {
                let c0 = code.get_char(0);
                let c1 = code.get_char(1);
                let c2 = code.get_char(2);
                let cl = code.get_char(n - 1);
                if c0 == 'T' && c1 == 'D' && c2 == '(' && cl == ')' {
                    found = true;
                }
            }
            kj = kj + 1;
        }
        li = li + 1;
    }
    if found {
        out.append("**Keys Using Tap Dance:**\n");
        let ghost head2 = out@;
        let mut li: usize = 0;
        while li < nl
            invariant
                li <= nl == layout.layers@.len(),
                out@ == head2 + spec_all_refs(*layout, li as int),
            decreases nl - li,
        {
            let layer = &layout.layers[li];
            let nk = layer.keys.len();
            let mut kj: usize = 0;
            while kj < nk
                invariant
                    kj <= nk == layout.layers@[li as int].keys@.len(),
                    li < nl,
                    out@ == head2 + spec_all_refs(*layout, li as int) + spec_layer_refs(
                        *layout,
                        li as int,
                        kj as int,
                    ),
                decreases nk - kj,
            {
                let key = &layer.keys[kj];
                let code = key.keycode.as_str();
                let n = code.unicode_len();
                let mut matches_ref = false;
                if n >= 4 {
                    let c0 = code.get_char(0);
                    let c1 = code.get_char(1);
                    let c2 = code.get_char(2);
                    let cl = code.get_char(n - 1);
                    if c0 == 'T' && c1 == 'D' && c2 == '(' && cl == ')' {
                        matches_ref = true;
                    }
                }
                if matches_ref {
                    let mut line = String::from_str("- Layer ");
                    line.append(u8_to_string(layer.number).as_str());
                    line.append(", Position (");
                    line.append(u8_to_string(key.position.row).as_str());
                    line.append(",");
                    line.append(u8_to_string(key.position.col).as_str());
                    line.append("): ");
                    line.append(key.keycode.as_str());
                    line.append("\n");
                    proof {
                        assert(line@ =~= spec_ref_line(*layout, li as int, kj as int));
                    }
                    out.append(line.as_str());
                }
                kj = kj + 1;
            }
            li = li + 1;
        }
        proof {
            assert(out@ =~= spec_tap_dance_docs(*layout, *keycode_db));
        }
    } else {
        proof {
            if any_td_ref(*layout) {
                let (a, b) = choose|a: int, b: int|
                    0 <= a < layout.layers@.len() && 0 <= b < layout.layers@[a].keys@.len()
                        && is_td_ref((#[trigger] layout.layers@[a].keys@[b]).keycode@);
                assert(false);
            }
        }
    }
    out
}

} // verus!
