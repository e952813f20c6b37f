//! The user's layout: layers, categories, tap dances and settings.

use vstd::prelude::*;
use crate::category::Category;
use crate::keycode::{is_td_ref, td_name, classify_code, CodeClass};
use crate::layer::{KeyDefinition, Layer};
use crate::rgb::RgbColor;
use crate::tap_dance::TapDanceAction;

verus! {

/// The idle lighting effect selected for a layout.
#[derive(Clone, Copy, Debug, PartialEq, Eq, Structural)]
pub enum IdleEffectMode {
    Breathing,
    Rainbow,
    Solid,
}

/// Settings of the idle lighting effect.
#[derive(Clone, Copy, Debug, PartialEq, Eq, Structural)]
pub struct IdleEffectSettings {
    pub enabled: bool,
    pub idle_timeout_ms: u32,
    pub idle_effect_duration_ms: u32,
    pub idle_effect_mode: IdleEffectMode,
}

/// Descriptive metadata of a layout.
#[derive(Clone, Debug)]
pub struct LayoutMetadata {
    pub name: String,
    pub author: String,
    pub keyboard: Option<String>,
    pub layout_variant: Option<String>,
    pub keymap_name: Option<String>,
    pub created: String,
    pub modified: String,
    pub tags: Vec<String>,
}

/// A layout under edit: metadata, layers, categories, tap dances, and
/// lighting settings.
#[derive(Clone, Debug)]
pub struct Layout {
    pub metadata: LayoutMetadata,
    pub layers: Vec<Layer>,
    pub categories: Vec<Category>,
    pub tap_dances: Vec<TapDanceAction>,
    pub rgb_enabled: bool,
    pub rgb_brightness: u8,
    pub rgb_timeout_ms: u32,
    pub idle_effect_settings: IdleEffectSettings,
}

/// The first index at or after `i` whose category has the given id, or
/// -1 when there is none.
pub open spec fn cat_index_from(s: Seq<Category>, id: Seq<char>, i: int) -> int
    decreases s.len() - i,
{
    if i < 0 || i >= s.len() {
        -1
    } else if s[i].id@ == id {
        i
    } else {
        cat_index_from(s, id, i + 1)
    }
}

/// The first index at or after `i` whose tap dance has the given name,
/// or -1 when there is none.
pub open spec fn td_index_from(s: Seq<TapDanceAction>, name: Seq<char>, i: int) -> int
    decreases s.len() - i,
{
    if i < 0 || i >= s.len() {
        -1
    } else if s[i].name@ == name {
        i
    } else {
        td_index_from(s, name, i + 1)
    }
}

/// The categories left after removing every entry with the given id,
/// in their original order.
pub open spec fn spec_remove_category(s: Seq<Category>, id: Seq<char>) -> Seq<Category>
    decreases s.len(),
{
    if s.len() == 0 {
        s
    } else {
        let rest = spec_remove_category(s.drop_last(), id);
        if s.last().id@ == id {
            rest
        } else {
            rest.push(s.last())
        }
    }
}

/// How one key looks after a category sweep: the category reference is
/// cleared exactly when it named the deleted id; all else is kept.
pub open spec fn key_swept(old_k: KeyDefinition, new_k: KeyDefinition, id: Seq<char>) -> bool {
    &&& new_k.position == old_k.position
    &&& new_k.keycode == old_k.keycode
    &&& new_k.color_override == old_k.color_override
    &&& new_k.category_id == (if old_k.category_id matches Some(c) && c@ == id {
        None::<String>
    } else {
        old_k.category_id
    })
}

/// How one layer looks after a category sweep.
pub open spec fn layer_swept(old_l: Layer, new_l: Layer, id: Seq<char>) -> bool {
    &&& new_l.number == old_l.number
    &&& new_l.name == old_l.name
    &&& new_l.default_color == old_l.default_color
    &&& new_l.category_id == (if old_l.category_id matches Some(c) && c@ == id {
        None::<String>
    } else {
        old_l.category_id
    })
    &&& new_l.keys@.len() == old_l.keys@.len()
    &&& forall|i: int|
        0 <= i < old_l.keys@.len() ==> key_swept(old_l.keys@[i], #[trigger] new_l.keys@[i], id)
}

/// How one key looks after a tap-dance sweep: a keycode that is a
/// tap-dance reference to the deleted name falls back to the
/// transparent marker; all else is kept.
pub open spec fn key_td_swept(old_k: KeyDefinition, new_k: KeyDefinition, name: Seq<char>) -> bool {
    &&& new_k.position == old_k.position
    &&& new_k.color_override == old_k.color_override
    &&& new_k.category_id == old_k.category_id
    &&& if is_td_ref(old_k.keycode@) && td_name(old_k.keycode@) == name {
        new_k.keycode@ == "KC_TRNS"@
    } else {
        new_k.keycode == old_k.keycode
    }
}

/// The color a key takes: its explicit override, else its category's
/// color, else the layer's default color.
pub open spec fn spec_resolve_color(layout: Layout, layer_index: int, key: KeyDefinition) -> RgbColor {
    match key.color_override {
        Some(c) => c,
        None => match key.category_id {
            Some(id) => if cat_index_from(layout.categories@, id@, 0) >= 0 {
                layout.categories@[cat_index_from(layout.categories@, id@, 0)].color
            } else {
                layout.layers@[layer_index].default_color
            },
            None => layout.layers@[layer_index].default_color,
        },
    }
}

impl Layout {
    /// Creates an empty layout; an empty name is rejected.
    pub fn new(name: &str) -> (r: Result<Layout, ()>)
        ensures
            name@.len() == 0 <==> r is Err,
            r matches Ok(l) ==> l.metadata.name@ == name@ && l.layers@.len() == 0
                && l.categories@.len() == 0 && l.tap_dances@.len() == 0,
    {
        if name.unicode_len() == 0 {
            Err(())
        } else {
            Ok(
                Layout {
                    metadata: LayoutMetadata {
                        name: String::from_str(name),
                        author: String::new(),
                        keyboard: None,
                        layout_variant: None,
                        keymap_name: None,
                        created: String::new(),
                        modified: String::new(),
                        tags: Vec::new(),
                    },
                    layers: Vec::new(),
                    categories: Vec::new(),
                    tap_dances: Vec::new(),
                    rgb_enabled: false,
                    rgb_brightness: 100,
                    rgb_timeout_ms: 0,
                    idle_effect_settings: IdleEffectSettings {
                        enabled: false,
                        idle_timeout_ms: 0,
                        idle_effect_duration_ms: 0,
                        idle_effect_mode: IdleEffectMode::Breathing,
                    },
                },
            )
        }
    }

    /// Appends a layer; its number must continue the contiguous
    /// numbering from zero.
    pub fn add_layer(&mut self, layer: Layer) -> (r: Result<(), ()>)
        ensures
            (layer.number == old(self).layers@.len() && old(self).layers@.len() < 256) <==> r is Ok,
            r is Ok ==> final(self).layers@ == old(self).layers@.push(layer),
            r is Err ==> *final(self) == *old(self),
            final(self).metadata == old(self).metadata,
            final(self).categories == old(self).categories,
            final(self).tap_dances == old(self).tap_dances,
    {
        if self.layers.len() < 256 && layer.number as usize == self.layers.len() {
            self.layers.push(layer);
            Ok(())
        } else {
            Err(())
        }
    }

    /// The first category index with the given id, if any.
    pub fn find_category(&self, id: &String) -> (r: Option<usize>)
        ensures
            cat_index_from(self.categories@, id@, 0) < 0 <==> r is None,
            r matches Some(i) ==> i == cat_index_from(self.categories@, id@, 0)
                && i < self.categories@.len() && self.categories@[i as int].id@ == id@,
    {
        let n = self.categories.len();
        let mut i: usize = 0;
        while i < n
            invariant
                i <= n == self.categories@.len(),
                cat_index_from(self.categories@, id@, 0) == cat_index_from(
                    self.categories@,
                    id@,
                    i as int,
                ),
            decreases n - i,
        {
            if self.categories[i].id == *id {
                return Some(i);
            }
            i = i + 1;
        }
        None
    }

    /// The first tap-dance index with the given name, if any.
    pub fn find_tap_dance(&self, name: &String) -> (r: Option<usize>)
        ensures
            td_index_from(self.tap_dances@, name@, 0) < 0 <==> r is None,
            r matches Some(i) ==> i == td_index_from(self.tap_dances@, name@, 0)
                && i < self.tap_dances@.len() && self.tap_dances@[i as int].name@ == name@,
    {
        let n = self.tap_dances.len();
        let mut i: usize = 0;
        while i < n
            invariant
                i <= n == self.tap_dances@.len(),
                td_index_from(self.tap_dances@, name@, 0) == td_index_from(
                    self.tap_dances@,
                    name@,
                    i as int,
                ),
            decreases n - i,
        {
            if self.tap_dances[i].name == *name {
                return Some(i);
            }
            i = i + 1;
        }
        None
    }

    /// Appends a category; the id must be non-empty and unused.
    pub fn add_category(&mut self, category: Category) -> (r: Result<(), ()>)
        ensures
            (category.id@.len() > 0 && cat_index_from(old(self).categories@, category.id@, 0) < 0)
                <==> r is Ok,
            r is Ok ==> final(self).categories@ == old(self).categories@.push(category),
            r is Err ==> *final(self) == *old(self),
            final(self).metadata == old(self).metadata,
            final(self).layers == old(self).layers,
            final(self).tap_dances == old(self).tap_dances,
    {
        if category.id.as_str().unicode_len() == 0 {
            return Err(());
        }
        if self.find_category(&category.id).is_some() {
            return Err(());
        }
        self.categories.push(category);
        Ok(())
    }

    /// Appends a tap dance; the name must be unused and the action well
    /// formed.
    pub fn add_tap_dance(&mut self, td: TapDanceAction) -> (r: Result<(), ()>)
        ensures
            (td.name@.len() > 0 && td.single_tap@.len() > 0 && td_index_from(
                old(self).tap_dances@,
                td.name@,
                0,
            ) < 0) <==> r is Ok,
            r is Ok ==> final(self).tap_dances@ == old(self).tap_dances@.push(td),
            r is Err ==> *final(self) == *old(self),
            final(self).metadata == old(self).metadata,
            final(self).layers == old(self).layers,
            final(self).categories == old(self).categories,
    {
        if !td.validate() {
            return Err(());
        }
        if self.find_tap_dance(&td.name).is_some() {
            return Err(());
        }
        self.tap_dances.push(td);
        Ok(())
    }

    /// Deletes a category and sweeps every reference to it: the
    /// category is removed from the collection, and every layer or key
    /// that referenced it has the reference cleared; everything else is
    /// untouched.
    pub fn delete_category(&mut self, id: &String)
        ensures
            final(self).categories@ == spec_remove_category(old(self).categories@, id@),
            final(self).layers@.len() == old(self).layers@.len(),
            forall|i: int|
                0 <= i < old(self).layers@.len() ==> layer_swept(
                    old(self).layers@[i],
                    #[trigger] final(self).layers@[i],
                    id@,
                ),
            final(self).metadata == old(self).metadata,
            final(self).tap_dances == old(self).tap_dances,
            final(self).rgb_enabled == old(self).rgb_enabled,
            final(self).rgb_brightness == old(self).rgb_brightness,
            final(self).rgb_timeout_ms == old(self).rgb_timeout_ms,
            final(self).idle_effect_settings == old(self).idle_effect_settings,
    {
        let ghost old_cats = self.categories@;
        let mut kept: Vec<Category> = Vec::new();
        let n = self.categories.len();
        let mut i: usize = 0;
        while i < n
            invariant
                i <= n == self.categories@.len(),
                self.categories@ == old_cats,
                kept@ == spec_remove_category(old_cats.subrange(0, i as int), id@),
            decreases n - i,
        {
            proof {
                assert(old_cats.subrange(0, i + 1).drop_last() =~= old_cats.subrange(0, i as int));
                assert(old_cats.subrange(0, i + 1).last() == old_cats[i as int]);
            }
            if !(self.categories[i].id == *id) {
                kept.push(self.categories[i].duplicate());
            }
            i = i + 1;
        }
        proof {
            assert(old_cats.subrange(0, n as int) =~= old_cats);
        }
        self.categories = kept;

        let ghost old_layers = self.layers@;
        let mut new_layers: Vec<Layer> = Vec::new();
        let ln = self.layers.len();
        let mut li: usize = 0;
        while li < ln
            invariant
                li <= ln == self.layers@.len(),
                self.layers@ == old_layers,
                new_layers@.len() == li,
                forall|j: int|
                    0 <= j < li ==> layer_swept(old_layers[j], #[trigger] new_layers@[j], id@),
            decreases ln - li,
        {
            let layer = &self.layers[li];
            let cleared_cat: Option<String> = match &layer.category_id {
                Some(c) => if *c == *id {
                    None
                } else {
                    Some(c.clone())
                },
                None => None,
            };
            let mut new_keys: Vec<KeyDefinition> = Vec::new();
            let kn = layer.keys.len();
            let mut ki: usize = 0;
            while ki < kn
                invariant
                    ki <= kn == layer.keys@.len(),
                    new_keys@.len() == ki,
                    forall|j: int|
                        0 <= j < ki ==> key_swept(layer.keys@[j], #[trigger] new_keys@[j], id@),
                decreases kn - ki,
            {
                let k = &layer.keys[ki];
                let new_cat: Option<String> = match &k.category_id {
                    Some(c) => if *c == *id {
                        None
                    } else {
                        Some(c.clone())
                    },
                    None => None,
                };
                new_keys.push(
                    KeyDefinition {
                        position: k.position,
                        keycode: k.keycode.clone(),
                        color_override: k.color_override,
                        category_id: new_cat,
                    },
                );
                ki = ki + 1;
            }
            new_layers.push(
                Layer {
                    number: layer.number,
                    name: layer.name.clone(),
                    default_color: layer.default_color,
                    category_id: cleared_cat,
                    keys: new_keys,
                },
            );
            li = li + 1;
        }
        self.layers = new_layers;
    }

    /// Deletes a tap dance by name and sweeps every key that referenced
    /// it, replacing the reference with the transparent marker.
    pub fn delete_tap_dance(&mut self, name: &String)
        ensures
            final(self).tap_dances@.len() <= old(self).tap_dances@.len(),
            forall|i: int|
                0 <= i < final(self).tap_dances@.len() ==> (#[trigger] final(self).tap_dances@[i]).name@
                    != name@,
            final(self).layers@.len() == old(self).layers@.len(),
            forall|i: int, j: int|
                0 <= i < old(self).layers@.len() && 0 <= j < old(self).layers@[i].keys@.len()
                    ==> key_td_swept(
                    old(self).layers@[i].keys@[j],
                    #[trigger] final(self).layers@[i].keys@[j],
                    name@,
                ),
            forall|i: int|
                0 <= i < old(self).layers@.len() ==> {
                    let lo = old(self).layers@[i];
                    let lf = #[trigger] final(self).layers@[i];
                    lf.number == lo.number && lf.name == lo.name && lf.default_color
                        == lo.default_color && lf.category_id == lo.category_id && lf.keys@.len()
                        == lo.keys@.len()
                },
            final(self).metadata == old(self).metadata,
            final(self).categories == old(self).categories,
    {
        let mut kept: Vec<TapDanceAction> = Vec::new();
        let n = self.tap_dances.len();
        let mut i: usize = 0;
        while i < n
            invariant
                i <= n == self.tap_dances@.len(),
                kept@.len() <= i,
                forall|j: int|
                    0 <= j < kept@.len() ==> (#[trigger] kept@[j]).name@ != name@,
            decreases n - i,
        {
            if !(self.tap_dances[i].name == *name) {
                kept.push(self.tap_dances[i].duplicate());
            }
            i = i + 1;
        }
        self.tap_dances = kept;

        let ghost old_layers = self.layers@;
        let mut new_layers: Vec<Layer> = Vec::new();
        let ln = self.layers.len();
        let mut li: usize = 0;
        while li < ln
            invariant
                li <= ln == self.layers@.len(),
                self.layers@ == old_layers,
                new_layers@.len() == li,
                forall|j: int, k: int|
                    0 <= j < li && 0 <= k < old_layers[j].keys@.len() ==> key_td_swept(
                        old_layers[j].keys@[k],
                        #[trigger] new_layers@[j].keys@[k],
                        name@,
                    ),
                forall|j: int|
                    0 <= j < li ==> {
                        let lo = old_layers[j];
                        let lf = #[trigger] new_layers@[j];
                        lf.number == lo.number && lf.name == lo.name && lf.default_color
                            == lo.default_color && lf.category_id == lo.category_id
                            && lf.keys@.len() == lo.keys@.len()
                    },
            decreases ln - li,
        {
            let layer = &self.layers[li];
            let mut new_keys: Vec<KeyDefinition> = Vec::new();
            let kn = layer.keys.len();
            let mut ki: usize = 0;
            while ki < kn
                invariant
                    ki <= kn == layer.keys@.len(),
                    new_keys@.len() == ki,
                    forall|j: int|
                        0 <= j < ki ==> key_td_swept(layer.keys@[j], #[trigger] new_keys@[j], name@),
                decreases kn - ki,
            {
                let k = &layer.keys[ki];
                let is_ref = match classify_code(k.keycode.as_str()) {
                    CodeClass::TapDance(td) => td == *name,
                    _ => false,
                };
                let new_code = if is_ref {
                    String::from_str("KC_TRNS")
                } else {
                    k.keycode.clone()
                };
                new_keys.push(
                    KeyDefinition {
                        position: k.position,
                        keycode: new_code,
                        color_override: k.color_override,
                        category_id: match &k.category_id {
                            Some(c) => Some(c.clone()),
                            None => None,
                        },
                    },
                );
                ki = ki + 1;
            }
            new_layers.push(
                Layer {
                    number: layer.number,
                    name: layer.name.clone(),
                    default_color: layer.default_color,
                    category_id: match &layer.category_id {
                        Some(c) => Some(c.clone()),
                        None => None,
                    },
                    keys: new_keys,
                },
            );
            li = li + 1;
        }
        self.layers = new_layers;
    }

    /// Resolves the display color of a key on a layer.
    pub fn resolve_key_color(&self, layer_index: usize, key: &KeyDefinition) -> (c: RgbColor)
        requires
            layer_index < self.layers@.len(),
        ensures
            c == spec_resolve_color(*self, layer_index as int, *key),
    {
        if let Some(c) = key.color_override {
            return c;
        }
        if let Some(id) = &key.category_id {
            if let Some(i) = self.find_category(id) {
                return self.categories[i].color;
            }
        }
        self.layers[layer_index].default_color
    }
}

} // verus!
