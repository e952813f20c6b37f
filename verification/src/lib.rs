//! Core library for a mechanical-keyboard layout editor.
//!
//! The library covers the layout compilation pipeline: deriving a physical
//! key geometry from a hardware description, building a bidirectional
//! mapping between the physical geometry and the logical editing grid,
//! validating a layout against geometry and a keycode reference, and
//! generating deterministic firmware artifacts from a validated layout.

mod category;
mod cli_common;
mod clipboard;
mod editor;
mod generator;
mod geometry;
mod geometry_builder;
mod inspect;
mod keycode;
mod keycode_db;
mod keycodes_cmd;
mod layer;
mod layout;
mod normalize;
mod numfmt;
mod position;
mod rgb;
mod tap_dance;
mod text;
mod tap_dance_docs;
mod validator;
mod visual_mapping;

pub use category::Category;
pub use clipboard::{
    apply_paste, compute_paste_targets, paste_multi_block, Clipboard, ClipboardContent,
    MultiClipboard, UndoInfo,
};
pub use cli_common::{
    CliError, ExitCode, ValidationChecks, ValidationLocation, ValidationMessage,
    ValidationPosition, ValidationResponse,
};
pub use editor::{
    CategoryPickerContext, ColorPickerContext, EditField, EditorMode, InputKey, PopupType,
    TapDanceEditor, TapDanceEditorEvent,
};
pub use generator::{
    generate_firmware, lemma_generation_deterministic, spec_keymap_text, spec_rgb_text,
    GenerationError,
};
pub use geometry::{KeyGeometry, KeyboardGeometry};
pub use geometry_builder::{
    build_keyboard_geometry, GeometryError, HardwareDescription, HardwareKey, HardwareVariant,
    LedPosition,
};
pub use inspect::InspectArgs;
pub use keycode::{classify_code, CodeClass};
pub use keycode_db::{KeycodeDb, KeycodeDefinition};
pub use keycodes_cmd::KeycodesArgs;
pub use layer::{KeyDefinition, Layer};
pub use layout::{IdleEffectMode, IdleEffectSettings, Layout, LayoutMetadata};
pub use normalize::{normalize_firmware_output, normalize_output};
pub use position::Position;
pub use rgb::RgbColor;
pub use tap_dance::{TapDanceAction, TapDanceKind};
pub use tap_dance_docs::{format_keycode, generate_tap_dance_docs};
pub use validator::{check_code, validate_layout, ValidationReport};
pub use visual_mapping::{build_visual_mapping, lemma_mapping_round_trip, VisualLayoutMapping};
