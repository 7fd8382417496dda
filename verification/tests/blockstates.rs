//! Blockstate definitions: selectors, conditions, weights and the models that they
//! choose.

use cubic_render::blockstate::{
    add_weight, load_blockstate, parse_condition, parse_model_references, parse_selector,
    select_groups, selector_matches, ModelReference,
};
use cubic_render::direction::{
    dot_axis, opposite_direction, parse_direction, rotate_blockstate_direction,
    rotate_blockstate_vector, uvlock_inverse_coefficients, uvlock_quarter_turns, Direction,
};
use cubic_render::error::BlockResourceError;
use cubic_render::identifiers::{
    banner_pattern_texture, identifier_path, is_valid_identifier, normalize_special_texture,
    parse_identifier, resource_path, strip_prefix, strip_suffix,
};
use cubic_render::json::{Json, JsonNumber};

const ALL: [Direction; 6] = [
    Direction::Down,
    Direction::Up,
    Direction::North,
    Direction::South,
    Direction::West,
    Direction::East,
];

fn tree(value: &serde_json::Value) -> Json {
    match value {
        serde_json::Value::Null => Json::Null,
        serde_json::Value::Bool(value) => Json::Bool(*value),
        serde_json::Value::Number(value) => Json::Number(JsonNumber {
            unsigned: value.as_u64(),
            signed: value.as_i64(),
            bits: value.as_f64().map(f64::to_bits),
        }),
        serde_json::Value::String(value) => Json::Text(value.clone()),
        serde_json::Value::Array(items) => Json::Array(items.iter().map(tree).collect()),
        serde_json::Value::Object(members) => Json::Object(
            members
                .iter()
                .map(|(name, value)| (name.clone(), tree(value)))
                .collect(),
        ),
    }
}

fn json(text: &str) -> Json {
    tree(&serde_json::from_str::<serde_json::Value>(text).unwrap())
}

fn properties(pairs: &[(&str, &str)]) -> Vec<(String, String)> {
    pairs
        .iter()
        .map(|(name, value)| ((*name).to_owned(), (*value).to_owned()))
        .collect()
}

fn reason(error: &BlockResourceError) -> &str {
    match error {
        BlockResourceError::Malformed { reason, .. } => reason,
        _ => panic!("not malformed: {error:?}"),
    }
}

#[test]
fn identifiers_default_namespace_and_build_safe_paths() {
    assert_eq!(
        parse_identifier("block/cube").unwrap(),
        "minecraft:block/cube"
    );
    assert_eq!(
        resource_path("minecraft:stone", "blockstates", "json").unwrap(),
        "assets/minecraft/blockstates/stone.json"
    );
    assert!(parse_identifier("../escape").is_err());
}

#[test]
fn identifiers_keep_a_namespace_and_refuse_what_is_no_identifier() {
    assert_eq!(parse_identifier("cubic:missing").unwrap(), "cubic:missing");
    assert!(is_valid_identifier("minecraft:block/oak_log"));
    assert!(!is_valid_identifier("minecraft:Block"));
    assert!(!is_valid_identifier("minecraft:"));
    let error = parse_identifier("minecraft:no spaces").unwrap_err();
    assert!(matches!(error, BlockResourceError::Identifier { .. }));
    assert_eq!(
        error.message(),
        "invalid block resource identifier `minecraft:no spaces`"
    );
}

#[test]
fn identifier_parts_are_cut_off_once() {
    assert_eq!(identifier_path("minecraft:item/stick"), "item/stick");
    assert_eq!(identifier_path("stick"), "stick");
    assert_eq!(strip_prefix("textures/a", "textures/"), "a");
    assert_eq!(strip_prefix("a", "textures/"), "a");
    assert_eq!(strip_suffix("a.png", ".png"), "a");
    assert_eq!(strip_suffix("a", ".png"), "a");
    assert_eq!(
        normalize_special_texture("minecraft:textures/entity/copper_golem/copper_golem.png"),
        "minecraft:entity/copper_golem/copper_golem"
    );
    assert_eq!(
        banner_pattern_texture("minecraft:rhombus"),
        "minecraft:entity/banner/rhombus"
    );
}

#[test]
fn variants_select_exact_properties_and_reject_malformed_selectors() {
    let properties = properties(&[("facing", "north"), ("half", "bottom")]);
    assert!(selector_matches("facing=north,half=bottom", &properties));
    assert!(!selector_matches("facing=south", &properties));
    assert!(parse_selector("").is_ok());
    assert!(parse_selector("facing").is_err());
}

#[test]
fn weighted_model_references_preserve_rotation_uvlock_and_weights() {
    let references = parse_model_references(&json(
        r#"[
            {"model":"block/a", "weight":3, "x":90, "y":270, "uvlock":true},
            {"model":"block/b", "weight":1}
        ]"#,
    ))
    .unwrap();
    assert_eq!(references.len(), 2);
    assert_eq!(references[0].weight, 3);
    assert_eq!((references[0].x, references[0].y), (90, 270));
    assert!(references[0].uvlock);
}

#[test]
fn model_references_default_to_one_unrotated_model() {
    let references = parse_model_references(&json(r#"{"model":"block/a"}"#)).unwrap();
    assert_eq!(references.len(), 1);
    assert_eq!(references[0].model, "minecraft:block/a");
    assert_eq!(
        (references[0].x, references[0].y, references[0].uvlock, references[0].weight),
        (0, 0, false, 1)
    );
}

#[test]
fn malformed_model_references_are_refused() {
    for text in [
        r#"[]"#,
        r#"{"x":90}"#,
        r#"{"model":"block/a","x":45}"#,
        r#"{"model":"block/a","weight":0}"#,
        r#"{"model":"../a"}"#,
    ] {
        assert!(parse_model_references(&json(text)).is_err(), "{text}");
    }
}

#[test]
fn weights_add_up_until_they_no_longer_fit() {
    let reference = |weight: u32| ModelReference {
        model: "minecraft:block/a".to_owned(),
        x: 0,
        y: 0,
        uvlock: false,
        weight,
    };
    assert_eq!(add_weight(2, &reference(3)).unwrap(), 5);
    assert!(add_weight(u32::MAX, &reference(1)).is_err());
}

#[test]
fn multipart_and_or_conditions_match_deterministically() {
    let properties = properties(&[("north", "true"), ("shape", "left")]);
    let condition = parse_condition(&json(
        r#"{
            "AND": [
                {"north": "true"},
                {"OR": [{"shape": "left|right"}, {"shape": "straight"}]}
            ]
        }"#,
    ))
    .unwrap();
    assert!(condition.matches(&properties));
}

#[test]
fn conditions_fail_where_a_property_is_missing_or_another() {
    let condition = parse_condition(&json(r#"{"shape":"left|right"}"#)).unwrap();
    assert!(condition.matches(&properties(&[("shape", "right")])));
    assert!(!condition.matches(&properties(&[("shape", "straight")])));
    assert!(!condition.matches(&properties(&[])));
    assert!(parse_condition(&json(r#""shape""#)).is_err());
}

#[test]
fn default_and_exact_variants_choose_their_models() {
    let definition = load_blockstate(
        Some(br#"{"variants":{"":{"model":"block/default"},"facing=north":{"model":"block/north","x":90,"y":180}}}"#.as_slice()),
        "minecraft:test",
    )
    .unwrap();
    let default = select_groups(&definition, &properties(&[]));
    assert_eq!(default.len(), 1);
    assert_eq!(default[0][0].model, "minecraft:block/default");
    assert_eq!((default[0][0].x, default[0][0].y), (0, 0));
    let north = select_groups(&definition, &properties(&[("facing", "north")]));
    assert_eq!(north.len(), 1);
    assert_eq!(north[0][0].model, "minecraft:block/north");
    assert_eq!((north[0][0].x, north[0][0].y), (90, 180));
}

#[test]
fn every_multipart_entry_that_holds_is_chosen() {
    let definition = load_blockstate(
        Some(br#"{"multipart":[{"when":{"north":"true"},"apply":{"model":"block/part"}},{"when":{"east":"true"},"apply":{"model":"block/part","y":90}}]}"#.as_slice()),
        "minecraft:test",
    )
    .unwrap();
    let both = select_groups(
        &definition,
        &properties(&[("north", "true"), ("east", "true")]),
    );
    assert_eq!(both.len(), 2);
    assert_eq!((both[0][0].y, both[1][0].y), (0, 90));
    let one = select_groups(&definition, &properties(&[("east", "true")]));
    assert_eq!(one.len(), 1);
    assert_eq!(one[0][0].y, 90);
}

#[test]
fn malformed_blockstate_json_returns_a_structured_error() {
    assert!(matches!(
        load_blockstate(Some(b"{".as_slice()), "minecraft:test"),
        Err(BlockResourceError::Malformed {
            kind: "blockstate",
            ..
        })
    ));
}

#[test]
fn malformed_blockstates_name_what_is_wrong() {
    for (text, expected) in [
        ("[]", "root is not an object"),
        (r#"{"variants":[]}"#, "variants is not an object"),
        (r#"{"multipart":{}}"#, "multipart is not an array"),
        (r#"{"multipart":[1]}"#, "multipart entry is not an object"),
        (r#"{"multipart":[{}]}"#, "multipart apply is missing"),
    ] {
        let error = load_blockstate(Some(text.as_bytes()), "minecraft:test").unwrap_err();
        assert_eq!(reason(&error), expected);
        assert_eq!(
            error.message(),
            format!("malformed blockstate `minecraft:test`: {expected}")
        );
    }
    let error = load_blockstate(None, "minecraft:test").unwrap_err();
    assert_eq!(reason(&error), "resource is missing");
    let empty = load_blockstate(Some(b"{}".as_slice()), "minecraft:test").unwrap();
    assert!(select_groups(&empty, &properties(&[])).is_empty());
}

#[test]
fn representative_official_stair_states_keep_their_model_transforms() {
    let cases = [
        ("minecraft:block/oak_stairs", 0, 0, false),
        ("minecraft:block/oak_stairs", 0, 270, true),
        ("minecraft:block/oak_stairs_inner", 0, 90, true),
        ("minecraft:block/oak_stairs_outer", 0, 90, true),
        ("minecraft:block/oak_stairs_inner", 180, 0, true),
        ("minecraft:block/oak_stairs_outer", 180, 0, true),
        ("minecraft:block/oak_stairs", 180, 90, true),
        ("minecraft:block/oak_stairs_inner", 180, 270, true),
    ];
    for (model, x, y, uvlock) in cases {
        let reference = parse_model_references(&json(&format!(
            r#"{{"model":"{model}","x":{x},"y":{y},"uvlock":{uvlock}}}"#
        )))
        .unwrap()
        .remove(0);
        assert_eq!(reference.model.as_str(), model);
        assert_eq!((reference.x, reference.y, reference.uvlock), (x, y, uvlock));
    }
}

#[test]
fn uvlock_uses_direction_specific_face_bases_for_stair_rotations() {
    let y90 = [
        (Direction::Down, 1),
        (Direction::Up, 3),
        (Direction::North, 0),
        (Direction::South, 0),
        (Direction::West, 0),
        (Direction::East, 0),
    ];
    for (direction, expected) in y90 {
        assert_eq!(uvlock_quarter_turns(direction, 0, 90), expected);
    }

    let x180 = [
        (Direction::Down, 0),
        (Direction::Up, 0),
        (Direction::North, 2),
        (Direction::South, 2),
        (Direction::West, 2),
        (Direction::East, 2),
    ];
    for (direction, expected) in x180 {
        assert_eq!(uvlock_quarter_turns(direction, 180, 0), expected);
    }

    for x in [0, 180] {
        for y in [0, 90, 180, 270] {
            for direction in ALL {
                assert!(uvlock_quarter_turns(direction, x, y) < 4);
            }
        }
    }
}

#[test]
fn locked_textures_of_top_half_stairs_turn_back() {
    // The faces of top half stairs to the south and to the north, seen from above.
    assert_eq!(
        rotate_blockstate_direction(Direction::Down, 180, 90),
        Direction::Up
    );
    let unturned = uvlock_inverse_coefficients(Direction::Up, 0, 0);
    assert_eq!(unturned, [1, 0, 0, 1]);
    let [a, b, c, d] = uvlock_inverse_coefficients(Direction::Down, 180, 90);
    assert_eq!(i32::from(a) * i32::from(d) - i32::from(b) * i32::from(c), 1);
}

#[test]
fn blockstate_rotations_turn_directions_and_vectors_alike() {
    assert_eq!(
        rotate_blockstate_direction(Direction::Up, 90, 0),
        Direction::North
    );
    assert_eq!(
        rotate_blockstate_direction(Direction::North, 0, 90),
        Direction::East
    );
    for x in [0, 90, 180, 270] {
        for y in [0, 90, 180, 270] {
            for direction in ALL {
                let step = direction.offset().map(|axis| axis as i8);
                let turned = rotate_blockstate_direction(direction, x, y);
                assert_eq!(
                    rotate_blockstate_vector(step, x, y),
                    turned.offset().map(|axis| axis as i8)
                );
                assert_eq!(
                    rotate_blockstate_direction(direction.reverse(), x, y),
                    turned.reverse()
                );
            }
        }
    }
    assert_eq!(dot_axis([1, 2, 3], [4, -5, 6]), 12);
}

#[test]
fn direction_names_are_read_and_turned_round() {
    for (name, direction, other) in [
        ("down", Direction::Down, "up"),
        ("up", Direction::Up, "down"),
        ("north", Direction::North, "south"),
        ("south", Direction::South, "north"),
        ("west", Direction::West, "east"),
        ("east", Direction::East, "west"),
    ] {
        assert_eq!(parse_direction(name), Some(direction));
        assert_eq!(opposite_direction(name), other);
    }
    assert_eq!(parse_direction("sideways"), None);
}
