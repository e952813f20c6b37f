//! Validation of a layout against geometry, mapping and the keycode
//! reference.
//!
//! The validator never mutates the layout; it collects every finding
//! into an ordered report, and the report is valid exactly when it
//! holds no error-severity finding.

use vstd::prelude::*;
use crate::cli_common::{ValidationLocation, ValidationMessage, ValidationPosition};
use crate::geometry::KeyboardGeometry;
use crate::keycode::{
    classify_code, is_layer_ref, is_lt_ref, is_simple_layer_ref, is_td_ref, layer_target, lt_inner,
    td_name, CodeClass,
};
use crate::keycode_db::{db_has, KeycodeDb};
use crate::layout::{td_index_from, Layout};
use crate::tap_dance::TapDanceAction;
use crate::visual_mapping::{spec_resolve, VisualLayoutMapping};

verus! {

/// Whether a keycode string passes the keycode check: a known plain
/// code, a tap-dance reference to an existing action, or a
/// layer-switch reference whose target layer exists and whose embedded
/// code, if any, passes the same check. A tap-dance reference embedded
/// in a layer-switch code is unsupported.
pub open spec fn code_ok(db: KeycodeDb, layout: Layout, code: Seq<char>) -> bool
    decreases code.len(),
{
    if is_td_ref(code) {
        td_index_from(layout.tap_dances@, td_name(code), 0) >= 0
    } else if is_lt_ref(code) {
        &&& layer_target(code) < layout.layers@.len()
        &&& !is_td_ref(lt_inner(code))
        &&& (if lt_inner(code).len() < code.len() {
            code_ok(db, layout, lt_inner(code))
        } else {
            false
        })
    } else if is_simple_layer_ref(code) {
        layer_target(code) < layout.layers@.len()
    } else {
        db_has(db, code)
    }
}

/// Whether one key passes both the keycode check and the position
/// check.
pub open spec fn key_fully_ok(
    db: KeycodeDb,
    layout: Layout,
    m: VisualLayoutMapping,
    k: crate::layer::KeyDefinition,
) -> bool {
    &&& code_ok(db, layout, k.keycode@)
    &&& spec_resolve(m, k.position) is Some
}

/// Whether every key of every layer passes.
pub open spec fn all_keys_ok(db: KeycodeDb, layout: Layout, m: VisualLayoutMapping) -> bool {
    forall|li: int, kj: int|
        0 <= li < layout.layers@.len() && 0 <= kj < layout.layers@[li].keys@.len()
            ==> key_fully_ok(db, layout, m, #[trigger] layout.layers@[li].keys@[kj])
}

/// Whether a tap dance passes: a non-empty single-tap code that is not
/// itself a tap-dance reference and passes the keycode check, and
/// passing double-tap and hold codes where present.
pub open spec fn td_ok(db: KeycodeDb, layout: Layout, td: TapDanceAction) -> bool {
    &&& td.single_tap@.len() > 0
    &&& !is_td_ref(td.single_tap@)
    &&& code_ok(db, layout, td.single_tap@)
    &&& match td.double_tap {
        Some(c) => code_ok(db, layout, c@),
        None => true,
    }
    &&& match td.hold {
        Some(c) => code_ok(db, layout, c@),
        None => true,
    }
}

/// Whether every tap dance passes.
pub open spec fn all_tds_ok(db: KeycodeDb, layout: Layout) -> bool {
    forall|ti: int|
        0 <= ti < layout.tap_dances@.len() ==> td_ok(db, layout, #[trigger] layout.tap_dances@[ti])
}

/// Whether the lighting settings pass: brightness representable as a
/// percentage.
pub open spec fn settings_ok(layout: Layout) -> bool {
    layout.rgb_brightness <= 100
}

/// Whether the whole layout passes validation with no errors.
pub open spec fn layout_ok(db: KeycodeDb, layout: Layout, m: VisualLayoutMapping) -> bool {
    &&& all_keys_ok(db, layout, m)
    &&& all_tds_ok(db, layout)
    &&& settings_ok(layout)
}

/// Whether a finding is an error.
pub open spec fn is_error(m: ValidationMessage) -> bool {
    m.severity@ == "error"@
}

/// Whether the findings hold an error.
pub open spec fn has_error(msgs: Seq<ValidationMessage>) -> bool {
    exists|i: int| 0 <= i < msgs.len() && is_error(#[trigger] msgs[i])
}

/// Whether the findings hold an error at one key's location.
pub open spec fn has_error_at(msgs: Seq<ValidationMessage>, li: int, row: u8, col: u8) -> bool {
    exists|i: int|
        0 <= i < msgs.len() && is_error(#[trigger] msgs[i]) && (msgs[i].location matches Some(l)
            && l.layer == li && l.position.row == row && l.position.col == col)
}

/// Whether the findings hold an error carrying no location.
pub open spec fn has_unlocated_error(msgs: Seq<ValidationMessage>) -> bool {
    exists|i: int| 0 <= i < msgs.len() && is_error(#[trigger] msgs[i]) && msgs[i].location is None
}

/// Whether the findings hold a warning.
pub open spec fn has_warning(msgs: Seq<ValidationMessage>) -> bool {
    exists|i: int|
        0 <= i < msgs.len() && (#[trigger] msgs[i]).severity@ == "warning"@
}

/// The concatenation of the findings' texts, one line each.
pub open spec fn joined_messages(msgs: Seq<ValidationMessage>) -> Seq<char>
    decreases msgs.len(),
{
    if msgs.len() == 0 {
        Seq::empty()
    } else {
        joined_messages(msgs.drop_last()) + msgs.last().message@ + "\n"@
    }
}

/// Findings only accumulate: anything present in a prefix of the
/// report is present in the whole.
proof fn lemma_msgs_monotone(a: Seq<ValidationMessage>, b: Seq<ValidationMessage>)
    requires
        a.len() <= b.len(),
        forall|i: int| 0 <= i < a.len() ==> #[trigger] b[i] == a[i],
    ensures
        forall|li: int, row: u8, col: u8|
            #[trigger] has_error_at(a, li, row, col) ==> has_error_at(b, li, row, col),
        has_unlocated_error(a) ==> has_unlocated_error(b),
        has_warning(a) ==> has_warning(b),
        has_error(a) ==> has_error(b),
{
    assert forall|li: int, row: u8, col: u8| #[trigger] has_error_at(a, li, row, col) implies
        has_error_at(b, li, row, col) by {
        let i = choose|i: int|
            0 <= i < a.len() && is_error(#[trigger] a[i]) && (a[i].location matches Some(l)
                && l.layer == li && l.position.row == row && l.position.col == col);
        assert(b[i] == a[i]);
    }
    if has_unlocated_error(a) {
        let i = choose|i: int|
            0 <= i < a.len() && is_error(#[trigger] a[i]) && a[i].location is None;
        assert(b[i] == a[i]);
    }
    if has_warning(a) {
        let i = choose|i: int| 0 <= i < a.len() && (#[trigger] a[i]).severity@ == "warning"@;
        assert(b[i] == a[i]);
    }
    if has_error(a) {
        let i = choose|i: int| 0 <= i < a.len() && is_error(#[trigger] a[i]);
        assert(b[i] == a[i]);
    }
}

/// An ordered validation report.
pub struct ValidationReport {
    pub messages: Vec<ValidationMessage>,
}

impl ValidationReport {
    /// Whether the report blocks generation: valid exactly when it
    /// holds no error-severity finding; warnings do not block.
    pub fn is_valid(&self) -> (r: bool)
        ensures
            r == !has_error(self.messages@),
    {
        let n = self.messages.len();
        let mut i: usize = 0;
        proof {
            reveal_strlit("error");
        }
        while i < n
            invariant
                i <= n == self.messages@.len(),
                forall|j: int| 0 <= j < i ==> !is_error(#[trigger] self.messages@[j]),
            decreases n - i,
        {
            if crate::text::str_eq(self.messages[i].severity.as_str(), "error") {
                return false;
            }
            i = i + 1;
        }
        true
    }

    /// The findings' texts, one line each.
    pub fn format_message(&self) -> (r: String)
        ensures
            r@ == joined_messages(self.messages@),
    {
        let n = self.messages.len();
        let mut out = String::new();
        let mut i: usize = 0;
        while i < n
            invariant
                i <= n == self.messages@.len(),
                out@ == joined_messages(self.messages@.subrange(0, i as int)),
            decreases n - i,
        {
            proof {
                assert(self.messages@.subrange(0, i + 1).drop_last() =~= self.messages@.subrange(
                    0,
                    i as int,
                ));
                assert(self.messages@.subrange(0, i + 1).last() == self.messages@[i as int]);
            }
            out.append(self.messages[i].message.as_str());
            out.append("\n");
            i = i + 1;
        }
        proof {
            assert(self.messages@.subrange(0, n as int) =~= self.messages@);
        }
        out
    }
}

/// Whether a keycode string passes the keycode check, executably.
pub fn check_code(db: &KeycodeDb, layout: &Layout, code: &str) -> (r: bool)
    ensures
        r == code_ok(*db, *layout, code@),
    decreases code@.len(),
{
    match classify_code(code) {
        CodeClass::TapDance(name) => layout.find_tap_dance(&name).is_some(),
        CodeClass::LayerSwitch(target, inner) => {
            if (target as usize) >= layout.layers.len() {
                return false;
            }
            match inner {
                Some(ic) => {
                    let sub = ic.as_str();
                    match classify_code(sub) {
                        CodeClass::TapDance(_) => false,
                        _ => check_code(db, layout, sub),
                    }
                },
                None => true,
            }
        },
        CodeClass::Plain => db.get(code).is_some(),
    }
}

/// A finding with a key location.
fn located_message(severity: &str, message: String, li: usize, row: u8, col: u8) -> (m:
    ValidationMessage)
    ensures
        m.severity@ == severity@,
        m.message@ == message@,
        m.location matches Some(l) && l.layer == li && l.position.row == row && l.position.col
            == col,
{
    ValidationMessage {
        severity: String::from_str(severity),
        message,
        location: Some(
            ValidationLocation { layer: li, position: ValidationPosition { row, col } },
        ),
    }
}

/// A finding with no location.
fn global_message(severity: &str, message: String) -> (m: ValidationMessage)
    ensures
        m.severity@ == severity@,
        m.message@ == message@,
        m.location is None,
{
    ValidationMessage { severity: String::from_str(severity), message, location: None }
}

/// Validates a layout against geometry, mapping and the keycode
/// reference.
///
/// Every check runs exhaustively; nothing short-circuits. The report
/// holds an error exactly when some check fails: every key with an
/// unknown or malformed code, a layer-switch reference to a missing
/// layer, or a position off the selected hardware gets an error at its
/// layer and position; every malformed tap dance and an
/// out-of-range brightness get an unlocated error; an idle-effect
/// duration above the idle timeout gets a warning only.
#[verifier::loop_isolation(false)]
#[verifier::rlimit(60)]
#[verifier::spinoff_prover]
pub fn validate_layout(
    layout: &Layout,
    geometry: &KeyboardGeometry,
    mapping: &VisualLayoutMapping,
    db: &KeycodeDb,
) -> (r: ValidationReport)
    ensures
        has_error(r.messages@) <==> !layout_ok(*db, *layout, *mapping),
        forall|li: int, kj: int|
            0 <= li < layout.layers@.len() && 0 <= kj < layout.layers@[li].keys@.len()
                && !key_fully_ok(*db, *layout, *mapping, #[trigger] layout.layers@[li].keys@[kj])
                ==> has_error_at(
                r.messages@,
                li,
                layout.layers@[li].keys@[kj].position.row,
                layout.layers@[li].keys@[kj].position.col,
            ),
        forall|li: int, kj: int|
            0 <= li < layout.layers@.len() && 0 <= kj < layout.layers@[li].keys@.len()
                && is_layer_ref((#[trigger] layout.layers@[li].keys@[kj]).keycode@) && layer_target(
                layout.layers@[li].keys@[kj].keycode@,
            ) >= layout.layers@.len() ==> has_error_at(
                r.messages@,
                li,
                layout.layers@[li].keys@[kj].position.row,
                layout.layers@[li].keys@[kj].position.col,
            ),
        forall|ti: int|
            0 <= ti < layout.tap_dances@.len() && !td_ok(*db, *layout, #[trigger] layout.tap_dances@[ti])
                ==> has_unlocated_error(r.messages@),
        !settings_ok(*layout) ==> has_unlocated_error(r.messages@),
        layout.idle_effect_settings.idle_effect_duration_ms
            > layout.idle_effect_settings.idle_timeout_ms ==> has_warning(r.messages@),
{
    let mut msgs: Vec<ValidationMessage> = Vec::new();
    proof {
        reveal_strlit("error");
        reveal_strlit("warning");
    }
    let nl = layout.layers.len();
    let mut li: usize = 0;
    while li < nl
        invariant
            li <= nl == layout.layers@.len(),
            has_error(msgs@) ==> !layout_ok(*db, *layout, *mapping),
            forall|a: int, kj: int|
                0 <= a < li && 0 <= kj < layout.layers@[a].keys@.len() && !key_fully_ok(
                    *db,
                    *layout,
                    *mapping,
                    #[trigger] layout.layers@[a].keys@[kj],
                ) ==> has_error_at(
                    msgs@,
                    a,
                    layout.layers@[a].keys@[kj].position.row,
                    layout.layers@[a].keys@[kj].position.col,
                ),
        decreases nl - li,
    {
        let layer = &layout.layers[li];
        let nk = layer.keys.len();
        let mut kj: usize = 0;
        while kj < nk
            invariant
                kj <= nk == layout.layers@[li as int].keys@.len(),
                li < layout.layers@.len(),
                has_error(msgs@) ==> !layout_ok(*db, *layout, *mapping),
                forall|a: int, b: int|
                    0 <= a < li && 0 <= b < layout.layers@[a].keys@.len() && !key_fully_ok(
                        *db,
                        *layout,
                        *mapping,
                        #[trigger] layout.layers@[a].keys@[b],
                    ) ==> has_error_at(
                        msgs@,
                        a,
                        layout.layers@[a].keys@[b].position.row,
                        layout.layers@[a].keys@[b].position.col,
                    ),
                forall|b: int|
                    0 <= b < kj && !key_fully_ok(
                        *db,
                        *layout,
                        *mapping,
                        #[trigger] layout.layers@[li as int].keys@[b],
                    ) ==> has_error_at(
                        msgs@,
                        li as int,
                        layout.layers@[li as int].keys@[b].position.row,
                        layout.layers@[li as int].keys@[b].position.col,
                    ),
            decreases nk - kj,
        {
            let ghost msgs_at_key = msgs@;
            let key = &layer.keys[kj];
            let code_passes = check_code(db, layout, key.keycode.as_str());
            let pos_passes = mapping.is_valid_position(key.position);
            if !code_passes {
                let mut text = String::from_str("Unknown or invalid keycode: ");
                text.append(key.keycode.as_str());
                let ghost ei = msgs@.len();
                msgs.push(
                    located_message("error", text, li, key.position.row, key.position.col),
                );
                proof {
                    assert(is_error(msgs@[ei as int]));
                    assert(has_error_at(msgs@, li as int, key.position.row, key.position.col));
                }
            }
            let ghost msgs_mid = msgs@;
            if !pos_passes {
                let text = String::from_str(
                    "Position does not correspond to a physical key on this hardware",
                );
                let ghost ei = msgs@.len();
                msgs.push(
                    located_message("error", text, li, key.position.row, key.position.col),
                );
                proof {
                    assert(is_error(msgs@[ei as int]));
                    assert(has_error_at(msgs@, li as int, key.position.row, key.position.col));
                    lemma_msgs_monotone(msgs_mid, msgs@);
                }
            }
            proof {
                lemma_msgs_monotone(msgs_at_key, msgs@);
            }
            kj = kj + 1;
        }
        li = li + 1;
    }
    let ghost msgs_after_keys = msgs@;
    // Tap-dance check.
    let nt = layout.tap_dances.len();
    let mut ti: usize = 0;
    while ti < nt
        invariant
            ti <= nt == layout.tap_dances@.len(),
            has_error(msgs@) ==> !layout_ok(*db, *layout, *mapping),
            msgs_after_keys.len() <= msgs@.len(),
            forall|i: int| 0 <= i < msgs_after_keys.len() ==> #[trigger] msgs@[i] == msgs_after_keys[i],
            forall|a: int|
                0 <= a < ti && !td_ok(*db, *layout, #[trigger] layout.tap_dances@[a])
                    ==> has_unlocated_error(msgs@),
        decreases nt - ti,
    {
        let ghost msgs_at_td = msgs@;
        let td = &layout.tap_dances[ti];
        let single_empty = td.single_tap.as_str().unicode_len() == 0;
        let single_is_td = match classify_code(td.single_tap.as_str()) {
            CodeClass::TapDance(_) => true,
            _ => false,
        };
        let single_passes = check_code(db, layout, td.single_tap.as_str());
        let double_passes = match &td.double_tap {
            Some(c) => check_code(db, layout, c.as_str()),
            None => true,
        };
        let hold_passes = match &td.hold {
            Some(c) => check_code(db, layout, c.as_str()),
            None => true,
        };
        if single_empty || single_is_td || !single_passes || !double_passes || !hold_passes {
            let mut text = String::from_str("Invalid tap dance: ");
            text.append(td.name.as_str());
            let ghost gi = msgs@.len();
            msgs.push(global_message("error", text));
            proof {
                assert(is_error(msgs@[gi as int]) && msgs@[gi as int].location is None);
                assert(has_unlocated_error(msgs@));
            }
        }
        proof {
            lemma_msgs_monotone(msgs_at_td, msgs@);
        }
        ti = ti + 1;
    }
    let ghost msgs_after_tds = msgs@;
    // Settings check.
    if layout.rgb_brightness > 100 {
        let ghost bi = msgs@.len();
        msgs.push(
            global_message(
                "error",
                String::from_str("RGB brightness must be between 0 and 100 percent"),
            ),
        );
        proof {
            assert(is_error(msgs@[bi as int]) && msgs@[bi as int].location is None);
            assert(has_unlocated_error(msgs@));
        }
    }
    let ghost msgs_before_warning = msgs@;
    if layout.idle_effect_settings.idle_effect_duration_ms
        > layout.idle_effect_settings.idle_timeout_ms {
        let ghost wi = msgs@.len();
        msgs.push(
            global_message(
                "warning",
                String::from_str("Idle effect duration exceeds the idle timeout"),
            ),
        );
        proof {
            assert((msgs@[wi as int]).severity@ == "warning"@);
            assert(has_warning(msgs@));
            lemma_msgs_monotone(msgs_before_warning, msgs@);
        }
    }
    proof {
        lemma_msgs_monotone(msgs_after_keys, msgs@);
        lemma_msgs_monotone(msgs_after_tds, msgs@);
        if !layout_ok(*db, *layout, *mapping) {
            if !all_keys_ok(*db, *layout, *mapping) {
                let (a, b) = choose|a: int, b: int|
                    0 <= a < layout.layers@.len() && 0 <= b < layout.layers@[a].keys@.len()
                        && !key_fully_ok(
                        *db,
                        *layout,
                        *mapping,
                        #[trigger] layout.layers@[a].keys@[b],
                    );
                assert(has_error_at(
                    msgs@,
                    a,
                    layout.layers@[a].keys@[b].position.row,
                    layout.layers@[a].keys@[b].position.col,
                ));
                let i = choose|i: int|
                    0 <= i < msgs@.len() && is_error(#[trigger] msgs@[i]) && (msgs@[i].location
                        matches Some(l) && l.layer == a && l.position.row
                        == layout.layers@[a].keys@[b].position.row && l.position.col
                        == layout.layers@[a].keys@[b].position.col);
                assert(has_error(msgs@));
            } else if !all_tds_ok(*db, *layout) {
                let a = choose|a: int|
                    0 <= a < layout.tap_dances@.len() && !td_ok(
                        *db,
                        *layout,
                        #[trigger] layout.tap_dances@[a],
                    );
                assert(has_unlocated_error(msgs@));
                let i = choose|i: int|
                    0 <= i < msgs@.len() && is_error(#[trigger] msgs@[i]) && msgs@[i].location is None;
                assert(has_error(msgs@));
            } else {
                assert(!settings_ok(*layout));
                let i = choose|i: int|
                    0 <= i < msgs@.len() && is_error(#[trigger] msgs@[i]) && msgs@[i].location is None;
                assert(has_error(msgs@));
            }
        }
    }
    ValidationReport { messages: msgs }
}

} // verus!
