//! Tests of key geometry, the geometry builder and the visual
//! mapping. Visual coordinates are in hundredths of a keyboard unit.

use lazyqmk::build_keyboard_geometry;
use lazyqmk::build_visual_mapping;
use lazyqmk::GeometryError;
use lazyqmk::HardwareDescription;
use lazyqmk::HardwareKey;
use lazyqmk::HardwareVariant;
use lazyqmk::KeyGeometry;
use lazyqmk::KeyboardGeometry;
use lazyqmk::LedPosition;
use lazyqmk::Position;

#[test]
fn test_key_geometry_new() {
    let key = KeyGeometry::new((0, 0), 0, 0, 0);
    assert_eq!(key.matrix_position, (0, 0));
    assert_eq!(key.led_index, 0);
    assert_eq!(key.visual_x, 0);
    assert_eq!(key.visual_y, 0);
    assert_eq!(key.width, 100);
    assert_eq!(key.height, 100);
    assert_eq!(key.rotation, 0);
}

#[test]
fn test_key_geometry_builder() {
    let key = KeyGeometry::new((0, 0), 0, 0, 0)
        .with_width(150)
        .with_height(200)
        .with_rotation(1500);

    assert_eq!(key.width, 150);
    assert_eq!(key.height, 200);
    assert_eq!(key.rotation, 1500);
}

#[test]
fn test_key_geometry_terminal_conversion() {
    let key = KeyGeometry::new((0, 0), 0, 200, 100);
    assert_eq!(key.terminal_x(), 14); // 2 units * 7 cells
    assert_eq!(key.terminal_y(), 2); // 1 unit * 2.5 lines, truncated

    assert_eq!(key.terminal_width(), 7); // 1 unit * 7 cells
    assert_eq!(key.terminal_height(), 3); // 1 unit * 2.5 lines, min 3
}

#[test]
fn test_keyboard_geometry_new() {
    let geom = KeyboardGeometry::new("crkbd", "LAYOUT_split_3x6_3", 8, 7);
    assert_eq!(geom.keyboard_name, "crkbd");
    assert_eq!(geom.layout_name, "LAYOUT_split_3x6_3");
    assert_eq!(geom.matrix_rows, 8);
    assert_eq!(geom.matrix_cols, 7);
    assert_eq!(geom.key_count(), 0);
}

#[test]
fn test_keyboard_geometry_add_key() {
    let mut geom = KeyboardGeometry::new("test", "LAYOUT", 4, 12);
    geom.add_key(KeyGeometry::new((0, 0), 0, 0, 0));
    geom.add_key(KeyGeometry::new((0, 1), 1, 100, 0));

    assert_eq!(geom.key_count(), 2);
    assert!(geom.get_key_by_led(0).is_some());
    assert!(geom.get_key_by_led(1).is_some());
    assert!(geom.get_key_by_matrix((0, 0)).is_some());
    assert!(geom.get_key_by_matrix((0, 1)).is_some());
}

fn two_by_two() -> HardwareDescription {
    HardwareDescription {
        keyboard: "testboard".to_string(),
        matrix_rows: 2,
        matrix_cols: 2,
        variants: vec![HardwareVariant {
            name: "LAYOUT_2x2".to_string(),
            keys: vec![
                HardwareKey { row: 0, col: 0, x: 0, y: 0, w: 100, h: 100 },
                HardwareKey { row: 0, col: 1, x: 100, y: 0, w: 100, h: 100 },
                HardwareKey { row: 1, col: 0, x: 0, y: 100, w: 100, h: 100 },
                HardwareKey { row: 1, col: 1, x: 100, y: 100, w: 100, h: 100 },
            ],
        }],
        leds: None,
        encoder_count: 0,
    }
}

#[test]
fn test_build_geometry_ok() {
    let desc = two_by_two();
    let geom = build_keyboard_geometry(&desc, "LAYOUT_2x2").unwrap();
    assert_eq!(geom.keyboard_name, "testboard");
    assert_eq!(geom.layout_name, "LAYOUT_2x2");
    assert_eq!(geom.key_count(), 4);
    assert_eq!(geom.keys[0].matrix_position, (0, 0));
    assert_eq!(geom.keys[1].layout_index, 1);
    assert_eq!(geom.keys[3].led_index, 3);
}

#[test]
fn test_build_geometry_variant_not_found() {
    let desc = two_by_two();
    let err = build_keyboard_geometry(&desc, "LAYOUT_missing").unwrap_err();
    assert_eq!(err, GeometryError::VariantNotFound);
}

#[test]
fn test_build_geometry_key_count_mismatch() {
    let mut desc = two_by_two();
    desc.matrix_rows = 1;
    desc.matrix_cols = 2;
    let err = build_keyboard_geometry(&desc, "LAYOUT_2x2").unwrap_err();
    assert_eq!(err, GeometryError::KeyCountMismatch);
}

#[test]
fn test_build_geometry_position_out_of_bounds() {
    let mut desc = two_by_two();
    desc.matrix_rows = 4;
    desc.variants[0].keys[3].row = 3;
    desc.variants[0].keys[3].col = 2;
    let err = build_keyboard_geometry(&desc, "LAYOUT_2x2").unwrap_err();
    assert_eq!(err, GeometryError::PositionOutOfBounds);
}

#[test]
fn test_build_geometry_duplicate_position() {
    let mut desc = two_by_two();
    desc.variants[0].keys[3].row = 0;
    desc.variants[0].keys[3].col = 0;
    let err = build_keyboard_geometry(&desc, "LAYOUT_2x2").unwrap_err();
    assert_eq!(err, GeometryError::DuplicatePosition);
}

#[test]
fn test_build_geometry_led_mismatch() {
    let mut desc = two_by_two();
    desc.leds = Some(vec![
        LedPosition { row: 0, col: 0 },
        LedPosition { row: 0, col: 1 },
        LedPosition { row: 1, col: 0 },
    ]);
    let err = build_keyboard_geometry(&desc, "LAYOUT_2x2").unwrap_err();
    assert_eq!(err, GeometryError::LedMismatch);
}

#[test]
fn test_build_geometry_led_order() {
    let mut desc = two_by_two();
    // LED order runs bottom row first.
    desc.leds = Some(vec![
        LedPosition { row: 1, col: 0 },
        LedPosition { row: 1, col: 1 },
        LedPosition { row: 0, col: 0 },
        LedPosition { row: 0, col: 1 },
    ]);
    let geom = build_keyboard_geometry(&desc, "LAYOUT_2x2").unwrap();
    assert_eq!(geom.keys[0].led_index, 2); // key (0,0) is third in LED order
    assert_eq!(geom.keys[2].led_index, 0); // key (1,0) is first
}

#[test]
fn test_visual_mapping_two_by_two() {
    // A 2x2 matrix with keys at units (0,0),(1,0),(0,1),(1,1) maps
    // Position(0,0) to the leftmost top key and so on.
    let desc = two_by_two();
    let geom = build_keyboard_geometry(&desc, "LAYOUT_2x2").unwrap();
    let mapping = build_visual_mapping(&geom);

    let k00 = mapping.resolve(Position::new(0, 0)).unwrap();
    assert_eq!(k00.visual_x, 0);
    assert_eq!(k00.visual_y, 0);
    let k01 = mapping.resolve(Position::new(0, 1)).unwrap();
    assert_eq!(k01.visual_x, 100);
    assert_eq!(k01.visual_y, 0);
    let k10 = mapping.resolve(Position::new(1, 0)).unwrap();
    assert_eq!(k10.visual_x, 0);
    assert_eq!(k10.visual_y, 100);
    let k11 = mapping.resolve(Position::new(1, 1)).unwrap();
    assert_eq!(k11.visual_x, 100);
    assert_eq!(k11.visual_y, 100);

    assert!(mapping.is_valid_position(Position::new(1, 1)));
    assert!(!mapping.is_valid_position(Position::new(1, 2)));
    assert!(!mapping.is_valid_position(Position::new(2, 0)));
}

#[test]
fn test_visual_mapping_round_trip() {
    let desc = two_by_two();
    let geom = build_keyboard_geometry(&desc, "LAYOUT_2x2").unwrap();
    let mapping = build_visual_mapping(&geom);
    for key in &geom.keys {
        let pos = mapping.position_for(key);
        let back = mapping.resolve(pos).unwrap();
        assert_eq!(back, *key);
    }
}

#[test]
fn test_visual_mapping_split_rows_cluster() {
    // Two halves of a split keyboard with slightly different heights
    // on the same nominal row cluster together.
    let desc = HardwareDescription {
        keyboard: "split".to_string(),
        matrix_rows: 2,
        matrix_cols: 2,
        variants: vec![HardwareVariant {
            name: "LAYOUT".to_string(),
            keys: vec![
                HardwareKey { row: 0, col: 0, x: 0, y: 0, w: 100, h: 100 },
                HardwareKey { row: 0, col: 1, x: 300, y: 25, w: 100, h: 100 },
            ],
        }],
        leds: None,
        encoder_count: 0,
    };
    let geom = build_keyboard_geometry(&desc, "LAYOUT").unwrap();
    let mapping = build_visual_mapping(&geom);
    // Both keys share visual row 0 despite the height offset.
    assert!(mapping.is_valid_position(Position::new(0, 1)));
    assert!(!mapping.is_valid_position(Position::new(1, 0)));
}
