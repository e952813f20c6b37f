//! Copy, cut and paste of key definitions, with a single-level undo
//! snapshot and the coordinate transform for multi-key paste.

use vstd::prelude::*;
use crate::layer::{KeyDefinition, Layer};
use crate::layout::Layout;
use crate::position::Position;
use crate::rgb::RgbColor;
use crate::visual_mapping::{spec_resolve, VisualLayoutMapping};

verus! {

/// What one copied key carries.
#[derive(Clone, Debug)]
pub struct ClipboardContent {
    pub keycode: String,
    pub color_override: Option<RgbColor>,
    pub category_id: Option<String>,
}

impl ClipboardContent {
    /// An exact copy.
    pub fn duplicate(&self) -> (r: ClipboardContent)
        ensures
            r == *self,
    {
        ClipboardContent {
            keycode: self.keycode.clone(),
            color_override: self.color_override,
            category_id: match &self.category_id {
                Some(c) => Some(c.clone()),
                None => None,
            },
        }
    }
}

/// A multi-key clipboard block: keys captured relative to an anchor.
#[derive(Clone, Debug)]
pub struct MultiClipboard {
    pub anchor: Position,
    pub keys: Vec<(Position, ClipboardContent)>,
}

/// A single-level undo snapshot: the keys a paste overwrote.
#[derive(Clone, Debug)]
pub struct UndoInfo {
    pub layer_index: usize,
    pub original_keys: Vec<(Position, ClipboardContent)>,
    pub description: String,
}

/// The rebased row of a source position: shifted by the offset from
/// the anchor to the paste target.
pub open spec fn rebased_row(anchor: Position, target: Position, pos: Position) -> int {
    pos.row as int - anchor.row as int + target.row as int
}

/// The rebased column of a source position.
pub open spec fn rebased_col(anchor: Position, target: Position, pos: Position) -> int {
    pos.col as int - anchor.col as int + target.col as int
}

/// Whether a rebased source position lands on the grid: non-negative,
/// within one byte, and a valid logical position.
pub open spec fn rebased_ok(
    m: VisualLayoutMapping,
    anchor: Position,
    target: Position,
    pos: Position,
) -> bool {
    &&& 0 <= rebased_row(anchor, target, pos) <= 255
    &&& 0 <= rebased_col(anchor, target, pos) <= 255
    &&& spec_resolve(
        m,
        Position {
            row: rebased_row(anchor, target, pos) as u8,
            col: rebased_col(anchor, target, pos) as u8,
        },
    ) is Some
}

/// The paste set: every source key whose rebased position lands on the
/// grid, rebased, in source order.
pub open spec fn spec_paste_targets(
    m: VisualLayoutMapping,
    anchor: Position,
    target: Position,
    keys: Seq<(Position, ClipboardContent)>,
) -> Seq<(Position, ClipboardContent)>
    decreases keys.len(),
{
    if keys.len() == 0 {
        keys
    } else {
        let rest = spec_paste_targets(m, anchor, target, keys.drop_last());
        let (pos, content) = keys.last();
        if rebased_ok(m, anchor, target, pos) {
            rest.push(
                (
                    Position {
                        row: rebased_row(anchor, target, pos) as u8,
                        col: rebased_col(anchor, target, pos) as u8,
                    },
                    content,
                ),
            )
        } else {
            rest
        }
    }
}

/// Computes the paste set for a multi-key block onto a target
/// position: every source key is re-based by the offset from the
/// anchor to the target, and kept exactly when the re-based position
/// is non-negative and valid on the current hardware.
pub fn compute_paste_targets(
    multi: &MultiClipboard,
    target: Position,
    mapping: &VisualLayoutMapping,
) -> (r: Vec<(Position, ClipboardContent)>)
    ensures
        r@ == spec_paste_targets(*mapping, multi.anchor, target, multi.keys@),
{
    let mut out: Vec<(Position, ClipboardContent)> = Vec::new();
    let n = multi.keys.len();
    let mut i: usize = 0;
    while i < n
        invariant
            i <= n == multi.keys@.len(),
            out@ == spec_paste_targets(*mapping, multi.anchor, target, multi.keys@.subrange(
                0,
                i as int,
            )),
        decreases n - i,
    {
        proof {
            assert(multi.keys@.subrange(0, i + 1).drop_last() =~= multi.keys@.subrange(
                0,
                i as int,
            ));
            assert(multi.keys@.subrange(0, i + 1).last() == multi.keys@[i as int]);
        }
        let pos = multi.keys[i].0;
        let tr = pos.row as i32 - multi.anchor.row as i32 + target.row as i32;
        let tc = pos.col as i32 - multi.anchor.col as i32 + target.col as i32;
        if tr >= 0 && tr <= 255 && tc >= 0 && tc <= 255 {
            let p = Position { row: tr as u8, col: tc as u8 };
            if mapping.is_valid_position(p) {
                out.push((p, multi.keys[i].1.duplicate()));
            }
        }
        i = i + 1;
    }
    proof {
        assert(multi.keys@.subrange(0, n as int) =~= multi.keys@);
    }
    out
}

/// The last paste-set index whose position matches, or -1: a later
/// entry overrides an earlier one at the same position.
pub open spec fn last_target_index(targets: Seq<(Position, ClipboardContent)>, pos: Position) -> int
    decreases targets.len(),
{
    if targets.len() == 0 {
        -1
    } else if targets.last().0 == pos {
        targets.len() - 1
    } else {
        last_target_index(targets.drop_last(), pos)
    }
}

/// The first key-definition index at a position, or -1; only the first
/// definition at a position is ever written.
pub open spec fn first_def_index(keys: Seq<KeyDefinition>, pos: Position, i: int) -> int
    decreases keys.len() - i,
{
    if i < 0 || i >= keys.len() {
        -1
    } else if keys[i].position == pos {
        i
    } else {
        first_def_index(keys, pos, i + 1)
    }
}

/// How one key definition looks after a paste: overwritten from the
/// matching paste entry when it is the first definition at a pasted
/// position, untouched otherwise.
pub open spec fn key_pasted(
    targets: Seq<(Position, ClipboardContent)>,
    keys: Seq<KeyDefinition>,
    d: int,
    k_new: KeyDefinition,
) -> bool {
    let k_old = keys[d];
    let ti = last_target_index(targets, k_old.position);
    if ti >= 0 && first_def_index(keys, k_old.position, 0) == d {
        &&& k_new.position == k_old.position
        &&& k_new.keycode == targets[ti].1.keycode
        &&& k_new.color_override == targets[ti].1.color_override
        &&& k_new.category_id == targets[ti].1.category_id
    } else {
        k_new == k_old
    }
}

/// The last paste-set index at a position, executably.
fn find_last_target(targets: &Vec<(Position, ClipboardContent)>, pos: Position) -> (r: Option<usize>)
    ensures
        last_target_index(targets@, pos) < 0 <==> r is None,
        r matches Some(i) ==> i == last_target_index(targets@, pos) && i < targets@.len(),
{
    let n = targets.len();
    let mut i: usize = n;
    proof {
        assert(targets@.subrange(0, n as int) =~= targets@);
    }
    while i > 0
        invariant
            i <= n == targets@.len(),
            last_target_index(targets@, pos) == last_target_index(targets@.subrange(0, i as int), pos),
        decreases i,
    {
        proof {
            assert(targets@.subrange(0, i as int).drop_last() =~= targets@.subrange(0, i - 1));
            assert(targets@.subrange(0, i as int).last() == targets@[i - 1]);
        }
        if targets[i - 1].0.row == pos.row && targets[i - 1].0.col == pos.col {
            return Some(i - 1);
        }
        i = i - 1;
    }
    None
}

/// How a whole layer looks after a paste: each key definition pasted
/// or untouched, and the layer's own fields kept.
pub open spec fn layer_pasted(
    targets: Seq<(Position, ClipboardContent)>,
    lo: crate::layer::Layer,
    lf: crate::layer::Layer,
) -> bool {
    &&& lf.keys@.len() == lo.keys@.len()
    &&& forall|d: int|
        0 <= d < lo.keys@.len() ==> key_pasted(targets, lo.keys@, d, #[trigger] lf.keys@[d])
    &&& lf.number == lo.number
    &&& lf.name == lo.name
    &&& lf.default_color == lo.default_color
    &&& lf.category_id == lo.category_id
}

/// How a whole layout looks after a paste onto one layer: that
/// layer's keys pasted, everything else kept.
pub open spec fn layout_pasted(
    o: Layout,
    m: Layout,
    targets: Seq<(Position, ClipboardContent)>,
    li: int,
) -> bool {
    &&& m.layers@.len() == o.layers@.len()
    &&& forall|a: int|
        0 <= a < o.layers@.len() && a != li ==> m.layers@[a] == #[trigger] o.layers@[a]
    &&& layer_pasted(targets, o.layers@[li], m.layers@[li])
    &&& m.metadata == o.metadata
    &&& m.categories == o.categories
    &&& m.tap_dances == o.tap_dances
    &&& m.rgb_enabled == o.rgb_enabled
    &&& m.rgb_brightness == o.rgb_brightness
    &&& m.rgb_timeout_ms == o.rgb_timeout_ms
    &&& m.idle_effect_settings == o.idle_effect_settings
}

/// Applies a computed paste set to one layer: the first key definition
/// at each pasted position takes the pasted keycode, color and
/// category; every other definition, and everything else in the
/// layout, is untouched.
#[verifier::loop_isolation(false)]
pub fn apply_paste(
    layout: &mut Layout,
    layer_index: usize,
    targets: &Vec<(Position, ClipboardContent)>,
)
    requires
        layer_index < old(layout).layers@.len(),
    ensures
        final(layout).layers@.len() == old(layout).layers@.len(),
        forall|a: int|
            0 <= a < old(layout).layers@.len() && a != layer_index ==> final(layout).layers@[a]
                == #[trigger] old(layout).layers@[a],
        layer_pasted(
            targets@,
            old(layout).layers@[layer_index as int],
            final(layout).layers@[layer_index as int],
        ),
        final(layout).metadata == old(layout).metadata,
        final(layout).categories == old(layout).categories,
        final(layout).tap_dances == old(layout).tap_dances,
        final(layout).rgb_enabled == old(layout).rgb_enabled,
        final(layout).rgb_brightness == old(layout).rgb_brightness,
        final(layout).rgb_timeout_ms == old(layout).rgb_timeout_ms,
        final(layout).idle_effect_settings == old(layout).idle_effect_settings,
        layout_pasted(*old(layout), *final(layout), targets@, layer_index as int),
{
    let layer = &layout.layers[layer_index];
    let mut new_keys: Vec<KeyDefinition> = Vec::new();
    let nk = layer.keys.len();
    let mut d: usize = 0;
    while d < nk
        invariant
            d <= nk == layer.keys@.len(),
            layer_index < layout.layers@.len(),
            new_keys@.len() == d,
            forall|b: int|
                0 <= b < d ==> key_pasted(targets@, layer.keys@, b, #[trigger] new_keys@[b]),
        decreases nk - d,
    {
        let k = &layer.keys[d];
        let is_first = match find_first_def(&layer.keys, k.position) {
            Some(f) => f == d,
            None => false,
        };
        let tmatch = find_last_target(targets, k.position);
        let new_k = match tmatch {
            Some(ti) if is_first => KeyDefinition {
                position: k.position,
                keycode: targets[ti].1.keycode.clone(),
                color_override: targets[ti].1.color_override,
                category_id: match &targets[ti].1.category_id {
                    Some(c) => Some(c.clone()),
                    None => None,
                },
            },
            _ => k.duplicate(),
        };
        new_keys.push(new_k);
        d = d + 1;
    }
    let new_layer = crate::layer::Layer {
        number: layer.number,
        name: layer.name.clone(),
        default_color: layer.default_color,
        category_id: match &layer.category_id {
            Some(c) => Some(c.clone()),
            None => None,
        },
        keys: new_keys,
    };
    layout.layers.set(layer_index, new_layer);
}

/// The first key-definition index at a position, executably.
fn find_first_def(keys: &Vec<KeyDefinition>, pos: Position) -> (r: Option<usize>)
    ensures
        first_def_index(keys@, pos, 0) < 0 <==> r is None,
        r matches Some(i) ==> i == first_def_index(keys@, pos, 0) && i < keys@.len(),
{
    let n = keys.len();
    let mut i: usize = 0;
    while i < n
        invariant
            i <= n == keys@.len(),
            first_def_index(keys@, pos, 0) == first_def_index(keys@, pos, i as int),
        decreases n - i,
    {
        if keys[i].position.row == pos.row && keys[i].position.col == pos.col {
            return Some(i);
        }
        i = i + 1;
    }
    None
}

/// How a cleared key looks: the position kept, the keycode fallen
/// back to the transparent marker, overrides dropped.
pub open spec fn cleared_key(k_old: KeyDefinition, k_new: KeyDefinition) -> bool {
    &&& k_new.position == k_old.position
    &&& k_new.keycode@ == "KC_TRNS"@
    &&& k_new.color_override is None
    &&& k_new.category_id is None
}

/// Whether one of the first `upto` cut sources clears key `d` of
/// layer `a`: the source names that layer, and `d` is the first
/// definition at the source position.
pub open spec fn src_hits(
    srcs: Seq<(usize, Position)>,
    upto: int,
    a: int,
    keys: Seq<KeyDefinition>,
    d: int,
) -> bool {
    exists|j: int|
        0 <= j < upto && (#[trigger] srcs[j]).0 == a && first_def_index(keys, srcs[j].1, 0) == d
}

/// How a whole layout looks after the cut sources are swept: the
/// first definition at each source position cleared, everything else
/// kept.
pub open spec fn layout_swept_sources(
    m: Layout,
    f: Layout,
    srcs: Seq<(usize, Position)>,
) -> bool {
    &&& f.layers@.len() == m.layers@.len()
    &&& forall|a: int|
        0 <= a < m.layers@.len() ==> {
            let lm = m.layers@[a];
            let lf = #[trigger] f.layers@[a];
            &&& lf.keys@.len() == lm.keys@.len()
            &&& lf.number == lm.number
            &&& lf.name == lm.name
            &&& lf.default_color == lm.default_color
            &&& lf.category_id == lm.category_id
        }
    &&& forall|a: int, d: int|
        0 <= a < m.layers@.len() && 0 <= d < m.layers@[a].keys@.len() ==> {
            if src_hits(srcs, srcs.len() as int, a, m.layers@[a].keys@, d) {
                cleared_key(m.layers@[a].keys@[d], #[trigger] f.layers@[a].keys@[d])
            } else {
                f.layers@[a].keys@[d] == m.layers@[a].keys@[d]
            }
        }
    &&& f.metadata == m.metadata
    &&& f.categories == m.categories
    &&& f.tap_dances == m.tap_dances
    &&& f.rgb_enabled == m.rgb_enabled
    &&& f.rgb_brightness == m.rgb_brightness
    &&& f.rgb_timeout_ms == m.rgb_timeout_ms
    &&& f.idle_effect_settings == m.idle_effect_settings
}

/// What the undo snapshot holds: for each paste target in order, the
/// content of the first definition at that position, where one
/// exists.
pub open spec fn spec_undo_snapshot(
    keys: Seq<KeyDefinition>,
    targets: Seq<(Position, ClipboardContent)>,
) -> Seq<(Position, ClipboardContent)>
    decreases targets.len(),
{
    if targets.len() == 0 {
        Seq::empty()
    } else {
        let rest = spec_undo_snapshot(keys, targets.drop_last());
        let f = first_def_index(keys, targets.last().0, 0);
        if f >= 0 {
            rest.push(
                (
                    targets.last().0,
                    ClipboardContent {
                        keycode: keys[f].keycode,
                        color_override: keys[f].color_override,
                        category_id: keys[f].category_id,
                    },
                ),
            )
        } else {
            rest
        }
    }
}

/// The clipboard: one single-key slot, one multi-key slot, the cut
/// sources awaiting their paste, and one level of undo.
#[derive(Clone, Debug)]
pub struct Clipboard {
    pub single: Option<ClipboardContent>,
    pub multi: Option<MultiClipboard>,
    pub cut_source: Option<(usize, Position)>,
    pub multi_cut_sources: Vec<(usize, Position)>,
    pub undo: Option<UndoInfo>,
}

impl Clipboard {
    /// An empty clipboard.
    pub fn new() -> (c: Clipboard)
        ensures
            c.single is None,
            c.multi is None,
            c.cut_source is None,
            c.multi_cut_sources@.len() == 0,
            c.undo is None,
    {
        Clipboard {
            single: None,
            multi: None,
            cut_source: None,
            multi_cut_sources: Vec::new(),
            undo: None,
        }
    }

    /// Whether anything is on the clipboard.
    pub fn has_content(&self) -> (r: bool)
        ensures
            r == (self.single is Some || self.multi is Some),
    {
        self.single.is_some() || self.multi.is_some()
    }

    /// Whether the clipboard holds a multi-key block.
    pub fn is_multi(&self) -> (r: bool)
        ensures
            r == (self.multi is Some),
    {
        self.multi.is_some()
    }

    /// Copies one key; any earlier content and cut marking is dropped.
    pub fn copy(&mut self, content: ClipboardContent)
        ensures
            final(self).single == Some(content),
            final(self).multi is None,
            final(self).cut_source is None,
            final(self).multi_cut_sources@.len() == 0,
            final(self).undo == old(self).undo,
    {
        self.single = Some(content);
        self.multi = None;
        self.cut_source = None;
        self.multi_cut_sources = Vec::new();
    }

    /// Cuts one key: as a copy, but remembering the source to clear on
    /// paste.
    pub fn cut(&mut self, content: ClipboardContent, layer_index: usize, source: Position)
        ensures
            final(self).single == Some(content),
            final(self).multi is None,
            final(self).cut_source == Some((layer_index, source)),
            final(self).multi_cut_sources@.len() == 0,
            final(self).undo == old(self).undo,
    {
        self.single = Some(content);
        self.multi = None;
        self.cut_source = Some((layer_index, source));
        self.multi_cut_sources = Vec::new();
    }

    /// Copies a block of keys relative to an anchor.
    pub fn copy_multi(&mut self, keys: Vec<(Position, ClipboardContent)>, anchor: Position)
        ensures
            final(self).multi matches Some(mc) && mc.anchor == anchor && mc.keys@ == keys@,
            final(self).single is None,
            final(self).cut_source is None,
            final(self).multi_cut_sources@.len() == 0,
            final(self).undo == old(self).undo,
    {
        self.multi = Some(MultiClipboard { anchor, keys });
        self.single = None;
        self.cut_source = None;
        self.multi_cut_sources = Vec::new();
    }

    /// Cuts a block of keys: as a multi-copy, but remembering every
    /// source to clear on paste.
    pub fn cut_multi(
        &mut self,
        keys: Vec<(Position, ClipboardContent)>,
        anchor: Position,
        layer_index: usize,
        sources: Vec<Position>,
    )
        ensures
            final(self).multi matches Some(mc) && mc.anchor == anchor && mc.keys@ == keys@,
            final(self).single is None,
            final(self).cut_source is None,
            final(self).multi_cut_sources@.len() == sources@.len(),
            forall|i: int|
                0 <= i < sources@.len() ==> #[trigger] final(self).multi_cut_sources@[i] == (
                layer_index,
                sources@[i],
            ),
            final(self).undo == old(self).undo,
    {
        self.multi = Some(MultiClipboard { anchor, keys });
        self.single = None;
        self.cut_source = None;
        let mut srcs: Vec<(usize, Position)> = Vec::new();
        let n = sources.len();
        let mut i: usize = 0;
        while i < n
            invariant
                i <= n == sources@.len(),
                srcs@.len() == i,
                forall|j: int|
                    0 <= j < i ==> #[trigger] srcs@[j] == (layer_index, sources@[j]),
            decreases n - i,
        {
            srcs.push((layer_index, sources[i]));
            i = i + 1;
        }
        self.multi_cut_sources = srcs;
    }

    /// Saves the single-level undo snapshot, replacing any earlier
    /// one.
    pub fn save_undo(
        &mut self,
        layer_index: usize,
        original_keys: Vec<(Position, ClipboardContent)>,
        description: String,
    )
        ensures
            final(self).undo matches Some(u) && u.layer_index == layer_index && u.original_keys@
                == original_keys@ && u.description@ == description@,
            final(self).single == old(self).single,
            final(self).multi == old(self).multi,
            final(self).cut_source == old(self).cut_source,
            final(self).multi_cut_sources == old(self).multi_cut_sources,
    {
        self.undo = Some(UndoInfo { layer_index, original_keys, description });
    }

    /// Takes the undo snapshot, leaving none.
    pub fn take_undo(&mut self) -> (r: Option<UndoInfo>)
        ensures
            r == old(self).undo,
            final(self).undo is None,
            final(self).single == old(self).single,
            final(self).multi == old(self).multi,
            final(self).cut_source == old(self).cut_source,
            final(self).multi_cut_sources == old(self).multi_cut_sources,
    {
        let mut u: Option<UndoInfo> = None;
        core::mem::swap(&mut u, &mut self.undo);
        u
    }

    /// Forgets the cut sources after the paste has cleared them.
    pub fn clear_cut_source(&mut self)
        ensures
            final(self).cut_source is None,
            final(self).multi_cut_sources@.len() == 0,
            final(self).single == old(self).single,
            final(self).multi == old(self).multi,
            final(self).undo == old(self).undo,
    {
        self.cut_source = None;
        self.multi_cut_sources = Vec::new();
    }
}


/// Two key lists with the same positions agree on first-definition
/// indices.
proof fn lemma_first_def_positions(
    keys1: Seq<KeyDefinition>,
    keys2: Seq<KeyDefinition>,
    pos: Position,
    i: int,
)
    requires
        keys1.len() == keys2.len(),
        forall|d: int| 0 <= d < keys1.len() ==> (#[trigger] keys1[d]).position == keys2[d].position,
        0 <= i,
    ensures
        first_def_index(keys1, pos, i) == first_def_index(keys2, pos, i),
    decreases keys1.len() - i,
{
    if i < keys1.len() && keys1[i].position != pos {
        lemma_first_def_positions(keys1, keys2, pos, i + 1);
    }
}

/// Captures, for each paste target in order, the key content the
/// paste is about to overwrite.
#[verifier::loop_isolation(false)]
fn snapshot_targets(layer: &Layer, targets: &Vec<(Position, ClipboardContent)>) -> (r: Vec<
    (Position, ClipboardContent),
>)
    ensures
        r@ == spec_undo_snapshot(layer.keys@, targets@),
{
    let mut out: Vec<(Position, ClipboardContent)> = Vec::new();
    let n = targets.len();
    let mut i: usize = 0;
    while i < n
        invariant
            i <= n == targets@.len(),
            out@ == spec_undo_snapshot(layer.keys@, targets@.subrange(0, i as int)),
        decreases n - i,
    {
        proof {
            assert(targets@.subrange(0, i + 1).drop_last() =~= targets@.subrange(0, i as int));
            assert(targets@.subrange(0, i + 1).last() == targets@[i as int]);
        }
        if let Some(f) = find_first_def(&layer.keys, targets[i].0) {
            out.push(
                (
                    targets[i].0,
                    ClipboardContent {
                        keycode: layer.keys[f].keycode.clone(),
                        color_override: layer.keys[f].color_override,
                        category_id: match &layer.keys[f].category_id {
                            Some(c) => Some(c.clone()),
                            None => None,
                        },
                    },
                ),
            );
        }
        i = i + 1;
    }
    proof {
        assert(targets@.subrange(0, n as int) =~= targets@);
    }
    out
}

/// Clears the first key definition at one position of one layer to
/// the transparent marker, leaving everything else untouched.
#[verifier::loop_isolation(false)]
fn clear_at(layout: &mut Layout, li: usize, pos: Position)
    requires
        li < old(layout).layers@.len(),
    ensures
        final(layout).layers@.len() == old(layout).layers@.len(),
        forall|a: int|
            0 <= a < old(layout).layers@.len() && a != li ==> final(layout).layers@[a]
                == #[trigger] old(layout).layers@[a],
        final(layout).layers@[li as int].keys@.len() == old(layout).layers@[li as int].keys@.len(),
        forall|d: int|
            0 <= d < old(layout).layers@[li as int].keys@.len() ==> {
                if d == first_def_index(old(layout).layers@[li as int].keys@, pos, 0) {
                    cleared_key(
                        old(layout).layers@[li as int].keys@[d],
                        #[trigger] final(layout).layers@[li as int].keys@[d],
                    )
                } else {
                    final(layout).layers@[li as int].keys@[d] == old(layout).layers@[li as int].keys@[d]
                }
            },
        ({
            let lo = old(layout).layers@[li as int];
            let lf = final(layout).layers@[li as int];
            lf.number == lo.number && lf.name == lo.name && lf.default_color == lo.default_color
                && lf.category_id == lo.category_id
        }),
        final(layout).metadata == old(layout).metadata,
        final(layout).categories == old(layout).categories,
        final(layout).tap_dances == old(layout).tap_dances,
        final(layout).rgb_enabled == old(layout).rgb_enabled,
        final(layout).rgb_brightness == old(layout).rgb_brightness,
        final(layout).rgb_timeout_ms == old(layout).rgb_timeout_ms,
        final(layout).idle_effect_settings == old(layout).idle_effect_settings,
{
    let layer = &layout.layers[li];
    let target = find_first_def(&layer.keys, pos);
    let mut new_keys: Vec<KeyDefinition> = Vec::new();
    let nk = layer.keys.len();
    let mut d: usize = 0;
    while d < nk
        invariant
            d <= nk == layer.keys@.len(),
            li < layout.layers@.len(),
            new_keys@.len() == d,
            forall|b: int|
                0 <= b < d ==> {
                    if b == first_def_index(layer.keys@, pos, 0) {
                        cleared_key(layer.keys@[b], #[trigger] new_keys@[b])
                    } else {
                        new_keys@[b] == layer.keys@[b]
                    }
                },
        decreases nk - d,
    {
        let k = &layer.keys[d];
        let hit = match target {
            Some(f) => f == d,
            None => false,
        };
        let new_k = if hit {
            KeyDefinition {
                position: k.position,
                keycode: String::from_str("KC_TRNS"),
                color_override: None,
                category_id: None,
            }
        } else {
            k.duplicate()
        };
        new_keys.push(new_k);
        d = d + 1;
    }
    let new_layer = Layer {
        number: layer.number,
        name: layer.name.clone(),
        default_color: layer.default_color,
        category_id: match &layer.category_id {
            Some(c) => Some(c.clone()),
            None => None,
        },
        keys: new_keys,
    };
    layout.layers.set(li, new_layer);
}

/// Pastes the clipboard's multi-key block onto one layer.
///
/// The paste set is computed first; when it is empty, nothing is
/// touched, so a fully invalid paste target leaves a cut source
/// intact. Otherwise the overwritten keys are snapshotted into the
/// single-level undo, the paste is applied, and only then are the cut
/// sources cleared to the transparent marker and forgotten.
#[verifier::loop_isolation(false)]
#[verifier::rlimit(60)]
#[verifier::spinoff_prover]
pub fn paste_multi_block(
    layout: &mut Layout,
    clipboard: &mut Clipboard,
    mapping: &VisualLayoutMapping,
    layer_index: usize,
    target: Position,
) -> (pasted: usize)
    requires
        layer_index < old(layout).layers@.len(),
        old(clipboard).multi matches Some(_mc),
    ensures
        old(clipboard).multi matches Some(mc) ==> pasted == spec_paste_targets(
            *mapping,
            mc.anchor,
            target,
            mc.keys@,
        ).len(),
        pasted == 0 ==> *final(layout) == *old(layout) && *final(clipboard) == *old(clipboard),
        pasted > 0 ==> (old(clipboard).multi matches Some(mc) && exists|mid: Layout|
            {
                &&& #[trigger] layout_pasted(
                    *old(layout),
                    mid,
                    spec_paste_targets(*mapping, mc.anchor, target, mc.keys@),
                    layer_index as int,
                )
                &&& layout_swept_sources(mid, *final(layout), old(clipboard).multi_cut_sources@)
            }),
        pasted > 0 ==> (old(clipboard).multi matches Some(mc) && (final(clipboard).undo matches Some(
            u,
        ) && u.layer_index == layer_index && u.original_keys@ == spec_undo_snapshot(
            old(layout).layers@[layer_index as int].keys@,
            spec_paste_targets(*mapping, mc.anchor, target, mc.keys@),
        ))),
        pasted > 0 ==> final(clipboard).cut_source is None && final(clipboard).multi_cut_sources@.len() == 0 && final(clipboard).multi == old(clipboard).multi && final(clipboard).single == old(clipboard).single,
{
    let targets = match &clipboard.multi {
        Some(mc) => compute_paste_targets(mc, target, mapping),
        None => Vec::new(),  // unreachable: a multi block is required
    };
    let n = targets.len();
    if n == 0 {
        return 0;
    }
    let snapshot = snapshot_targets(&layout.layers[layer_index], &targets);
    clipboard.save_undo(layer_index, snapshot, String::from_str("Pasted keys"));
    apply_paste(layout, layer_index, &targets);
    let ghost mid = *layout;
    // Clear the cut sources, now that the paste has landed.
    let srcs = &clipboard.multi_cut_sources;
    let ns = srcs.len();
    let mut i: usize = 0;
    while i < ns
        invariant
            i <= ns == clipboard.multi_cut_sources@.len(),
            layout.layers@.len() == mid.layers@.len(),
            forall|a: int|
                0 <= a < mid.layers@.len() ==> {
                    let lm = mid.layers@[a];
                    let lf = #[trigger] layout.layers@[a];
                    &&& lf.keys@.len() == lm.keys@.len()
                    &&& lf.number == lm.number
                    &&& lf.name == lm.name
                    &&& lf.default_color == lm.default_color
                    &&& lf.category_id == lm.category_id
                },
            forall|a: int, d: int|
                0 <= a < mid.layers@.len() && 0 <= d < mid.layers@[a].keys@.len() ==> {
                    if src_hits(
                        clipboard.multi_cut_sources@,
                        i as int,
                        a,
                        mid.layers@[a].keys@,
                        d,
                    ) {
                        cleared_key(mid.layers@[a].keys@[d], #[trigger] layout.layers@[a].keys@[d])
                    } else {
                        layout.layers@[a].keys@[d] == mid.layers@[a].keys@[d]
                    }
                },
            layout.metadata == mid.metadata,
            layout.categories == mid.categories,
            layout.tap_dances == mid.tap_dances,
            layout.rgb_enabled == mid.rgb_enabled,
            layout.rgb_brightness == mid.rgb_brightness,
            layout.rgb_timeout_ms == mid.rgb_timeout_ms,
            layout.idle_effect_settings == mid.idle_effect_settings,
        decreases ns - i,
    {
        let (li2, pos) = srcs[i];
        let ghost srcs_seq = clipboard.multi_cut_sources@;
        if li2 < layout.layers.len() {
            let ghost before = *layout;
            clear_at(layout, li2, pos);
            proof {
                // Positions are stable under paste and clears, so the
                // first definition at the source position is the same
                // key in the intermediate and current layouts.
                assert forall|d: int|
                    0 <= d < mid.layers@[li2 as int].keys@.len() implies (
                #[trigger] before.layers@[li2 as int].keys@[d]).position
                    == mid.layers@[li2 as int].keys@[d].position by {}
                lemma_first_def_positions(
                    before.layers@[li2 as int].keys@,
                    mid.layers@[li2 as int].keys@,
                    pos,
                    0,
                );
                assert forall|a: int| 0 <= a < mid.layers@.len() implies {
                    let lm = mid.layers@[a];
                    let lf = #[trigger] layout.layers@[a];
                    &&& lf.keys@.len() == lm.keys@.len()
                    &&& lf.number == lm.number
                    &&& lf.name == lm.name
                    &&& lf.default_color == lm.default_color
                    &&& lf.category_id == lm.category_id
                } by {
                    if a != li2 as int {
                        assert(layout.layers@[a] == before.layers@[a]);
                    }
                }
                assert forall|a: int, d: int|
                    0 <= a < mid.layers@.len() && 0 <= d < mid.layers@[a].keys@.len() implies {
                    if src_hits(srcs_seq, i + 1, a, mid.layers@[a].keys@, d) {
                        cleared_key(mid.layers@[a].keys@[d], #[trigger] layout.layers@[a].keys@[d])
                    } else {
                        layout.layers@[a].keys@[d] == mid.layers@[a].keys@[d]
                    }
                } by {
                    if src_hits(srcs_seq, i + 1, a, mid.layers@[a].keys@, d) {
                        let j = choose|j: int|
                            0 <= j < i + 1 && (#[trigger] srcs_seq[j]).0 == a && first_def_index(
                                mid.layers@[a].keys@,
                                srcs_seq[j].1,
                                0,
                            ) == d;
                        if j < i {
                            assert(src_hits(srcs_seq, i as int, a, mid.layers@[a].keys@, d));
                            assert(cleared_key(mid.layers@[a].keys@[d], before.layers@[a].keys@[d]));
                        } else {
                            assert(a == li2 as int && srcs_seq[j].1 == pos);
                        }
                    } else {
                        assert(!src_hits(srcs_seq, i as int, a, mid.layers@[a].keys@, d));
                        assert(before.layers@[a].keys@[d] == mid.layers@[a].keys@[d]);
                        if a == li2 as int && d == first_def_index(
                            before.layers@[a].keys@,
                            pos,
                            0,
                        ) {
                            assert(srcs_seq[i as int].0 == a && first_def_index(
                                mid.layers@[a].keys@,
                                srcs_seq[i as int].1,
                                0,
                            ) == d);
                            assert(src_hits(srcs_seq, i + 1, a, mid.layers@[a].keys@, d));
                            assert(false);
                        }
                    }
                }
            }
        } else {
            proof {
                assert forall|a: int, d: int|
                    0 <= a < mid.layers@.len() && 0 <= d < mid.layers@[a].keys@.len() && src_hits(
                        srcs_seq,
                        i + 1,
                        a,
                        mid.layers@[a].keys@,
                        d,
                    ) implies src_hits(srcs_seq, i as int, a, mid.layers@[a].keys@, d) by {
                    let j = choose|j: int|
                        0 <= j < i + 1 && (#[trigger] srcs_seq[j]).0 == a && first_def_index(
                            mid.layers@[a].keys@,
                            srcs_seq[j].1,
                            0,
                        ) == d;
                    assert(j < i);
                }
            }
        }
        i = i + 1;
    }
    clipboard.clear_cut_source();
    proof {
        assert(layout_swept_sources(mid, *layout, old(clipboard).multi_cut_sources@));
    }
    n
}

} // verus!
