//! Tests of validation, generation, category deletion, the clipboard
//! transform and the editor state machine.

use lazyqmk::apply_paste;
use lazyqmk::build_keyboard_geometry;
use lazyqmk::build_visual_mapping;
use lazyqmk::classify_code;
use lazyqmk::compute_paste_targets;
use lazyqmk::generate_firmware;
use lazyqmk::validate_layout;
use lazyqmk::Category;
use lazyqmk::Clipboard;
use lazyqmk::ClipboardContent;
use lazyqmk::CodeClass;
use lazyqmk::EditorMode;
use lazyqmk::ExitCode;
use lazyqmk::HardwareDescription;
use lazyqmk::HardwareKey;
use lazyqmk::HardwareVariant;
use lazyqmk::InputKey;
use lazyqmk::InspectArgs;
use lazyqmk::KeyDefinition;
use lazyqmk::KeyboardGeometry;
use lazyqmk::KeycodeDb;
use lazyqmk::KeycodesArgs;
use lazyqmk::Layer;
use lazyqmk::Layout;
use lazyqmk::MultiClipboard;
use lazyqmk::Position;
use lazyqmk::RgbColor;
use lazyqmk::TapDanceAction;
use lazyqmk::TapDanceEditor;
use lazyqmk::TapDanceEditorEvent;
use lazyqmk::TapDanceKind;
use lazyqmk::ValidationChecks;
use lazyqmk::VisualLayoutMapping;

fn two_by_two() -> HardwareDescription {
    HardwareDescription {
        keyboard: "testboard".to_string(),
        matrix_rows: 2,
        matrix_cols: 2,
        variants: vec![HardwareVariant {
            name: "LAYOUT_2x2".to_string(),
            keys: vec![
                HardwareKey { row: 0, col: 0, x: 0, y: 0, w: 100, h: 100 },
                HardwareKey { row: 0, col: 1, x: 100, y: 0, w: 100, h: 100 },
                HardwareKey { row: 1, col: 0, x: 0, y: 100, w: 100, h: 100 },
                HardwareKey { row: 1, col: 1, x: 100, y: 100, w: 100, h: 100 },
            ],
        }],
        leds: None,
        encoder_count: 0,
    }
}

fn setup() -> (KeyboardGeometry, VisualLayoutMapping, KeycodeDb) {
    let desc = two_by_two();
    let geom = build_keyboard_geometry(&desc, "LAYOUT_2x2").unwrap();
    let mapping = build_visual_mapping(&geom);
    let db = KeycodeDb::load().unwrap();
    (geom, mapping, db)
}

fn base_layout() -> Layout {
    let mut layout = Layout::new("Test").unwrap();
    let mut layer = Layer::new(0, "Base", RgbColor::new(255, 255, 255)).unwrap();
    layer.add_key(KeyDefinition::new(Position::new(0, 0), "KC_A"));
    layer.add_key(KeyDefinition::new(Position::new(0, 1), "KC_B"));
    layer.add_key(KeyDefinition::new(Position::new(1, 0), "KC_C"));
    layer.add_key(KeyDefinition::new(Position::new(1, 1), "KC_D"));
    layout.add_layer(layer).unwrap();
    layout
}

#[test]
fn test_classify_code_forms() {
    assert!(matches!(classify_code("KC_A"), CodeClass::Plain));
    match classify_code("TD(dance)") {
        CodeClass::TapDance(name) => assert_eq!(name, "dance"),
        _ => panic!("expected a tap-dance reference"),
    }
    match classify_code("TO(2)") {
        CodeClass::LayerSwitch(t, inner) => {
            assert_eq!(t, 2);
            assert!(inner.is_none());
        }
        _ => panic!("expected a layer switch"),
    }
    match classify_code("LT(1,KC_A)") {
        CodeClass::LayerSwitch(t, inner) => {
            assert_eq!(t, 1);
            assert_eq!(inner.unwrap(), "KC_A");
        }
        _ => panic!("expected a layer tap"),
    }
    assert!(matches!(classify_code("TO(abc)"), CodeClass::Plain));
    assert!(matches!(classify_code("OSL(3)"), CodeClass::LayerSwitch(3, None)));
}

#[test]
fn test_validator_accepts_valid_layout() {
    let (geom, mapping, db) = setup();
    let layout = base_layout();
    let report = validate_layout(&layout, &geom, &mapping, &db);
    assert!(report.is_valid());
}

#[test]
fn test_validator_rejects_unknown_keycode() {
    let (geom, mapping, db) = setup();
    let mut layout = base_layout();
    layout.layers[0].keys[0].keycode = "KC_BOGUS".to_string();
    let report = validate_layout(&layout, &geom, &mapping, &db);
    assert!(!report.is_valid());
    let msg = report
        .messages
        .iter()
        .find(|m| m.severity == "error")
        .expect("an error finding");
    let loc = msg.location.expect("a location");
    assert_eq!(loc.layer, 0);
    assert_eq!(loc.position.row, 0);
    assert_eq!(loc.position.col, 0);
}

#[test]
fn test_validator_rejects_bad_layer_reference() {
    // A layer-switch code naming a missing layer yields an error at
    // that key's layer and position.
    let (geom, mapping, db) = setup();
    let mut layout = base_layout();
    layout.layers[0].keys[2].keycode = "MO(7)".to_string();
    let report = validate_layout(&layout, &geom, &mapping, &db);
    assert!(!report.is_valid());
    let located = report.messages.iter().any(|m| {
        m.severity == "error"
            && m.location
                .map(|l| l.layer == 0 && l.position.row == 1 && l.position.col == 0)
                .unwrap_or(false)
    });
    assert!(located);
}

#[test]
fn test_validator_rejects_invalid_position() {
    let (geom, mapping, db) = setup();
    let mut layout = base_layout();
    layout.layers[0].keys[3].position = Position::new(5, 5);
    let report = validate_layout(&layout, &geom, &mapping, &db);
    assert!(!report.is_valid());
}

#[test]
fn test_validator_rejects_bad_tap_dance() {
    let (geom, mapping, db) = setup();
    let mut layout = base_layout();
    layout
        .tap_dances
        .push(TapDanceAction::new("broken", "KC_BOGUS"));
    let report = validate_layout(&layout, &geom, &mapping, &db);
    assert!(!report.is_valid());
    assert!(report
        .messages
        .iter()
        .any(|m| m.severity == "error" && m.location.is_none()));
}

#[test]
fn test_validator_brightness_and_idle_warning() {
    let (geom, mapping, db) = setup();
    let mut layout = base_layout();
    layout.rgb_brightness = 150;
    let report = validate_layout(&layout, &geom, &mapping, &db);
    assert!(!report.is_valid());

    let mut layout2 = base_layout();
    layout2.idle_effect_settings.idle_timeout_ms = 10;
    layout2.idle_effect_settings.idle_effect_duration_ms = 20;
    let report2 = validate_layout(&layout2, &geom, &mapping, &db);
    // Only a warning: generation is not blocked.
    assert!(report2.is_valid());
    assert!(report2.messages.iter().any(|m| m.severity == "warning"));
}

#[test]
fn test_generation_is_deterministic() {
    let (geom, mapping, db) = setup();
    let layout = base_layout();
    let (k1, r1) = generate_firmware(&layout, &geom, &mapping, &db).unwrap();
    let (k2, r2) = generate_firmware(&layout, &geom, &mapping, &db).unwrap();
    assert_eq!(k1, k2);
    assert_eq!(r1, r2);
}

#[test]
fn test_generation_blocked_by_invalid_layout() {
    let (geom, mapping, db) = setup();
    let mut layout = base_layout();
    layout.layers[0].keys[0].keycode = "KC_BOGUS".to_string();
    let err = generate_firmware(&layout, &geom, &mapping, &db).unwrap_err();
    assert!(err.message.contains("KC_BOGUS"));
    assert!(err.location.is_some());
}

#[test]
fn test_generation_emits_layout_order_and_transparent() {
    let (geom, mapping, db) = setup();
    let mut layout = Layout::new("Test").unwrap();
    let mut layer = Layer::new(0, "Base", RgbColor::new(0, 0, 0)).unwrap();
    // Only two of the four physical keys are bound.
    layer.add_key(KeyDefinition::new(Position::new(0, 0), "KC_A"));
    layer.add_key(KeyDefinition::new(Position::new(1, 1), "KC_D"));
    layout.add_layer(layer).unwrap();
    let (keymap, _) = generate_firmware(&layout, &geom, &mapping, &db).unwrap();
    let expected = "[0] = LAYOUT(\n    KC_A,\n    KC_TRNS,\n    KC_TRNS,\n    KC_D,\n),\n";
    assert!(keymap.contains(expected), "keymap was: {keymap}");
}

#[test]
fn test_tap_dance_scenario() {
    // A tap dance named "dance" with single tap "A" and double tap
    // "B"; the key at Position(0,0) set to TD(dance): the validator
    // reports no errors and the generator emits macro index 0.
    let desc = two_by_two();
    let geom = build_keyboard_geometry(&desc, "LAYOUT_2x2").unwrap();
    let mapping = build_visual_mapping(&geom);
    let db = KeycodeDb {
        keycodes: vec![
            lazyqmk::KeycodeDefinition {
                code: "A".to_string(),
                name: "A".to_string(),
                category: "basic".to_string(),
                description: None,
            },
            lazyqmk::KeycodeDefinition {
                code: "B".to_string(),
                name: "B".to_string(),
                category: "basic".to_string(),
                description: None,
            },
            lazyqmk::KeycodeDefinition {
                code: "KC_TRNS".to_string(),
                name: "Transparent".to_string(),
                category: "special".to_string(),
                description: None,
            },
        ],
    };
    let mut layout = Layout::new("Test").unwrap();
    layout
        .add_tap_dance(TapDanceAction::new("dance", "A").with_double_tap("B"))
        .unwrap();
    let mut layer = Layer::new(0, "Base", RgbColor::new(0, 0, 0)).unwrap();
    layer.add_key(KeyDefinition::new(Position::new(0, 0), "TD(dance)"));
    layout.add_layer(layer).unwrap();

    let report = validate_layout(&layout, &geom, &mapping, &db);
    assert!(report.is_valid());

    let (keymap, rgb) = generate_firmware(&layout, &geom, &mapping, &db).unwrap();
    assert!(keymap.contains("    TD(0),\n"), "keymap was: {keymap}");
    assert!(rgb.contains("TD(0) dance A B\n"), "rgb was: {rgb}");
}

#[test]
fn test_delete_category_sweeps_references() {
    // Deleting a category used by two keys and one layer clears all
    // three references and touches nothing else.
    let mut layout = base_layout();
    layout
        .add_category(Category::new(
            "nav".to_string(),
            "Navigation".to_string(),
            RgbColor::new(0, 0, 255),
        ))
        .unwrap();
    layout
        .add_category(Category::new(
            "sym".to_string(),
            "Symbols".to_string(),
            RgbColor::new(255, 0, 0),
        ))
        .unwrap();
    layout.layers[0].keys[0].category_id = Some("nav".to_string());
    layout.layers[0].keys[1].category_id = Some("nav".to_string());
    layout.layers[0].keys[2].category_id = Some("sym".to_string());
    layout.layers[0].category_id = Some("nav".to_string());

    layout.delete_category(&"nav".to_string());

    assert_eq!(layout.categories.len(), 1);
    assert_eq!(layout.categories[0].id, "sym");
    assert_eq!(layout.layers[0].keys[0].category_id, None);
    assert_eq!(layout.layers[0].keys[1].category_id, None);
    assert_eq!(
        layout.layers[0].keys[2].category_id,
        Some("sym".to_string())
    );
    assert_eq!(layout.layers[0].category_id, None);
    assert_eq!(layout.layers[0].keys[0].keycode, "KC_A");
}

#[test]
fn test_delete_tap_dance_sweeps_references() {
    let mut layout = base_layout();
    layout
        .add_tap_dance(TapDanceAction::new("dance", "KC_A"))
        .unwrap();
    layout.layers[0].keys[1].keycode = "TD(dance)".to_string();
    layout.delete_tap_dance(&"dance".to_string());
    assert!(layout.tap_dances.is_empty());
    assert_eq!(layout.layers[0].keys[1].keycode, "KC_TRNS");
    assert_eq!(layout.layers[0].keys[0].keycode, "KC_A");
}

#[test]
fn test_paste_scenario() {
    // A two-key block copied with anchor Position(0,0) and a second
    // key at (0,1), pasted onto target Position(1,1): the touched
    // positions are (1,1) and (1,2); (1,2) is off this hardware, so
    // only (1,1) is written.
    let (_, mapping, _) = setup();
    let multi = MultiClipboard {
        anchor: Position::new(0, 0),
        keys: vec![
            (
                Position::new(0, 0),
                ClipboardContent {
                    keycode: "KC_X".to_string(),
                    color_override: None,
                    category_id: None,
                },
            ),
            (
                Position::new(0, 1),
                ClipboardContent {
                    keycode: "KC_Y".to_string(),
                    color_override: None,
                    category_id: None,
                },
            ),
        ],
    };
    let targets = compute_paste_targets(&multi, Position::new(1, 1), &mapping);
    assert_eq!(targets.len(), 1);
    assert_eq!(targets[0].0, Position::new(1, 1));
    assert_eq!(targets[0].1.keycode, "KC_X");

    let mut layout = base_layout();
    apply_paste(&mut layout, 0, &targets);
    assert_eq!(layout.layers[0].keys[3].keycode, "KC_X");
    assert_eq!(layout.layers[0].keys[0].keycode, "KC_A");
}

#[test]
fn test_clipboard_cut_and_undo_slot() {
    let mut clip = Clipboard::new();
    assert!(!clip.has_content());
    clip.cut(
        ClipboardContent {
            keycode: "KC_A".to_string(),
            color_override: None,
            category_id: None,
        },
        0,
        Position::new(0, 0),
    );
    assert!(clip.has_content());
    assert!(!clip.is_multi());
    assert_eq!(clip.cut_source, Some((0, Position::new(0, 0))));
    clip.save_undo(0, Vec::new(), "Pasted 1 keys".to_string());
    let undo = clip.take_undo().unwrap();
    assert_eq!(undo.layer_index, 0);
    assert!(clip.take_undo().is_none());
    clip.clear_cut_source();
    assert_eq!(clip.cut_source, None);
}

#[test]
fn test_tap_dance_editor_flow() {
    let mut layout = base_layout();
    layout
        .add_tap_dance(TapDanceAction::new("first", "KC_A"))
        .unwrap();
    let mut editor = TapDanceEditor::new(&layout);
    assert_eq!(editor.mode, EditorMode::Select);

    // Enter selects the highlighted tap dance.
    let ev = editor.handle_input(InputKey::Enter);
    assert_eq!(ev, Some(TapDanceEditorEvent::Selected("first".to_string())));

    // 'n' starts a new action; typing and Enter walk the fields. A
    // stray character is taken back with backspace.
    assert!(editor.handle_input(InputKey::Char('n')).is_none());
    assert_eq!(editor.mode, EditorMode::Edit);
    editor.handle_input(InputKey::Char('x'));
    editor.handle_input(InputKey::Backspace);
    for c in "dance2".chars() {
        editor.handle_input(InputKey::Char(c));
    }
    editor.handle_input(InputKey::Enter);
    for c in "KC_B".chars() {
        editor.handle_input(InputKey::Char(c));
    }
    editor.handle_input(InputKey::Enter);
    editor.handle_input(InputKey::Enter); // skip double tap
    editor.handle_input(InputKey::Enter); // finish on hold
    assert_eq!(editor.mode, EditorMode::Select);
    assert_eq!(editor.tap_dances.len(), 2);
    assert_eq!(editor.tap_dances[1].name, "dance2");
    assert_eq!(editor.tap_dances[1].single_tap, "KC_B");
    assert_eq!(editor.tap_dances[1].kind(), TapDanceKind::Single);

    // Escape cancels from select mode.
    let ev = editor.handle_input(InputKey::Esc);
    assert_eq!(ev, Some(TapDanceEditorEvent::Cancelled));
}

#[test]
fn test_exit_codes_and_cli_errors() {
    assert_eq!(ExitCode::Success.as_i32(), 0);
    assert_eq!(ExitCode::ValidationError.as_i32(), 1);
    assert_eq!(ExitCode::IoError.as_i32(), 2);
    let e = lazyqmk::CliError::validation("bad".to_string());
    assert_eq!(e.exit_code, ExitCode::ValidationError);
    assert_eq!(e.message, "bad");
    let e = lazyqmk::CliError::io("disk".to_string());
    assert_eq!(e.exit_code, ExitCode::IoError);
    let checks = ValidationChecks::all_passed();
    assert_eq!(checks.keycodes, "passed");
    assert_eq!(checks.tap_dances, "passed");
}

#[test]
fn test_keycodes_command() {
    let db = KeycodeDb::load().unwrap();
    let args = KeycodesArgs { category: None, json: false };
    let out = args.execute(&db).unwrap();
    assert!(out.contains("KC_A  A  basic"));
    assert!(out.contains("Total: "));

    let args = KeycodesArgs { category: Some("missing".to_string()), json: false };
    assert!(args.execute(&db).is_err());

    let args = KeycodesArgs { category: Some("modifiers".to_string()), json: true };
    let out = args.execute(&db).unwrap();
    assert!(out.contains("\"code\": \"KC_LSFT\""));
}

#[test]
fn test_inspect_command() {
    let mut layout = base_layout();
    layout.metadata.author = "someone".to_string();
    let args = InspectArgs {
        layout: "layout.md".to_string(),
        section: "layers".to_string(),
        json: false,
    };
    let out = args.execute(&layout).unwrap();
    assert!(out.contains("Layers (1 total):"));
    assert!(out.contains("[0] Base (4 keys)"));

    let args = InspectArgs {
        layout: "layout.md".to_string(),
        section: "bogus".to_string(),
        json: false,
    };
    assert!(args.execute(&layout).is_err());

    let args = InspectArgs {
        layout: "layout.md".to_string(),
        section: "settings".to_string(),
        json: false,
    };
    let out = args.execute(&layout).unwrap();
    assert!(out.contains("Brightness: 100%"));
}

#[test]
fn test_paste_block_clears_cut_sources_after_paste() {
    // Cut two keys, paste at a target where only one lands: the
    // paste is applied, the undo snapshot holds the overwritten key,
    // and the cut sources fall back to the transparent marker.
    let (_, mapping, _) = setup();
    let mut layout = base_layout();
    let mut clip = Clipboard::new();
    clip.cut_multi(
        vec![
            (
                Position::new(0, 0),
                ClipboardContent {
                    keycode: "KC_A".to_string(),
                    color_override: None,
                    category_id: None,
                },
            ),
            (
                Position::new(0, 1),
                ClipboardContent {
                    keycode: "KC_B".to_string(),
                    color_override: None,
                    category_id: None,
                },
            ),
        ],
        Position::new(0, 0),
        0,
        vec![Position::new(0, 0), Position::new(0, 1)],
    );
    let pasted = lazyqmk::paste_multi_block(&mut layout, &mut clip, &mapping, 0, Position::new(1, 1));
    assert_eq!(pasted, 1);
    assert_eq!(layout.layers[0].keys[3].keycode, "KC_A");
    // The cut sources are cleared only after the paste landed.
    assert_eq!(layout.layers[0].keys[0].keycode, "KC_TRNS");
    assert_eq!(layout.layers[0].keys[1].keycode, "KC_TRNS");
    let undo = clip.take_undo().unwrap();
    assert_eq!(undo.original_keys.len(), 1);
    assert_eq!(undo.original_keys[0].0, Position::new(1, 1));
    assert_eq!(undo.original_keys[0].1.keycode, "KC_D");
    assert!(clip.multi_cut_sources.is_empty());
}

#[test]
fn test_paste_block_fully_invalid_leaves_cut_untouched() {
    // When every rebased position is off the hardware, nothing is
    // pasted and the cut source keys keep their codes.
    let (_, mapping, _) = setup();
    let mut layout = base_layout();
    let mut clip = Clipboard::new();
    clip.cut_multi(
        vec![(
            Position::new(0, 1),
            ClipboardContent {
                keycode: "KC_B".to_string(),
                color_override: None,
                category_id: None,
            },
        )],
        Position::new(0, 0),
        0,
        vec![Position::new(0, 1)],
    );
    let pasted = lazyqmk::paste_multi_block(&mut layout, &mut clip, &mapping, 0, Position::new(1, 1));
    assert_eq!(pasted, 0);
    assert_eq!(layout.layers[0].keys[1].keycode, "KC_B");
    assert!(!clip.multi_cut_sources.is_empty());
}

#[test]
fn test_rgb_description_colors_and_categories() {
    let (geom, mapping, db) = setup();
    let mut layout = base_layout();
    layout
        .add_category(Category::new(
            "nav".to_string(),
            "Navigation".to_string(),
            RgbColor::new(0, 0, 255),
        ))
        .unwrap();
    layout.layers[0].keys[0].category_id = Some("nav".to_string());
    layout.layers[0].keys[1].color_override = Some(RgbColor::new(255, 0, 0));
    layout.layers[0].default_color = RgbColor::new(16, 32, 48);
    let (_, rgb) = generate_firmware(&layout, &geom, &mapping, &db).unwrap();
    assert!(rgb.contains("nav Navigation #0000FF\n"), "rgb was: {rgb}");
    // Key 0 takes its category color, key 1 its override, the rest
    // the layer default.
    assert!(rgb.contains("led 0 #0000FF\n"), "rgb was: {rgb}");
    assert!(rgb.contains("led 1 #FF0000\n"), "rgb was: {rgb}");
    assert!(rgb.contains("led 2 #102030\n"), "rgb was: {rgb}");
}
