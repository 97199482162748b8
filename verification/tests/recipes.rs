use pumpkin::datapack::json::{Json, JsonNumber, parse_json_resource, parse_metadata_value, parse_tag_entry, parse_tag_value};
use pumpkin::datapack::recipes::{
    CookingKind, CraftingRecipe, DynamicRecipe, Nbt, RecipeCategory, RecipeIngredient, RecipeLoad, RecipeResult,
    classify_recipe_load, json_value_to_nbt, parse_ingredient, parse_recipe_value,
};
use pumpkin::datapack::tags::{TagSnapshot, TagValue, VanillaElements};
use pumpkin::datapack::DataPackError;
use pumpkin::datapack::resources::structure_size_problem;
use pumpkin::keyed::KeyedFiles;
use pumpkin::recipe::{RecipeRuntime, built_in_recipe_ids, recipe_id};
use serde_json::Value;

fn convert(value: &Value) -> Json {
    match value {
        Value::Null => Json::Null,
        Value::Bool(b) => Json::Bool(*b),
        Value::Number(n) => Json::Number(JsonNumber { text: n.to_string(), as_i64: n.as_i64(), as_u64: n.as_u64() }),
        Value::String(s) => Json::Text(s.clone()),
        Value::Array(items) => Json::Array(items.iter().map(convert).collect()),
        Value::Object(map) => Json::Object(map.iter().map(|(k, v)| (k.clone(), convert(v))).collect()),
    }
}

fn json(text: &str) -> Json {
    convert(&serde_json::from_str::<Value>(text).expect("test JSON"))
}

fn vanilla() -> VanillaElements {
    VanillaElements {
        items: vec!["oak_planks".to_owned(), "stick".to_owned(), "stone".to_owned(), "iron_ingot".to_owned()],
        blocks: vec!["stone".to_owned()],
        fluids: vec![],
    }
}

fn recipe_message(result: Result<DynamicRecipe, DataPackError>) -> String {
    match result {
        Err(DataPackError::InvalidRecipe { path, message }) => {
            assert_eq!(path, "data/example/recipes/r.json");
            message
        }
        other => panic!("expected a refused recipe, got {other:?}"),
    }
}

fn parse(text: &str) -> Result<DynamicRecipe, DataPackError> {
    parse_recipe_value("data/example/recipes/r.json", &json(text), "example:r", &vanilla())
}

#[test]
fn shaped_recipe_reads_pattern_key_and_result() {
    let recipe = parse(
        r##"{"type":"minecraft:crafting_shaped","pattern":["#"],"key":{"#":{"item":"minecraft:oak_planks"}},"result":{"id":"minecraft:stick"}}"##,
    )
    .expect("recipe");
    let DynamicRecipe::Crafting(CraftingRecipe::Shaped { recipe_id, category, group, show_notification, key, pattern, result }) =
        recipe
    else {
        panic!("expected a shaped recipe");
    };
    assert_eq!(recipe_id, "example:r");
    assert_eq!(category, RecipeCategory::Misc);
    assert_eq!(group, None);
    assert!(show_notification);
    assert_eq!(pattern, vec!["#".to_owned()]);
    assert_eq!(key.len(), 1);
    assert_eq!(key[0].0, '#');
    assert!(matches!(&key[0].1, RecipeIngredient::Simple(id) if id == "minecraft:oak_planks"));
    assert_eq!(result.item_id, "minecraft:stick");
    assert_eq!(result.count, 1);
    assert!(result.components.is_none());
}

#[test]
fn shaped_recipe_with_an_empty_key_is_refused() {
    let message = recipe_message(parse(r##"{"type":"minecraft:crafting_shaped","pattern":["#"],"key":{}}"##));
    assert_eq!(message, "pattern references unknown key '#'");
    assert_eq!(
        recipe_message(parse(r#"{"type":"minecraft:crafting_shaped","pattern":["abcd"],"key":{}}"#)),
        "crafting_shaped pattern must be 1..=3 by 1..=3"
    );
    assert_eq!(
        recipe_message(parse(r##"{"type":"minecraft:crafting_shaped","pattern":["#",1],"key":{}}"##)),
        "crafting_shaped.pattern rows must be strings"
    );
    assert_eq!(
        recipe_message(parse(r##"{"type":"minecraft:crafting_shaped","pattern":["#"],"key":{"ab":{"item":"stone"}}}"##)),
        "crafting key entries must be one non-space character"
    );
    assert_eq!(
        recipe_message(parse(r##"{"type":"minecraft:crafting_shaped","pattern":["#"],"key":{"#":{"item":"stone"}}}"##)),
        "result must be an object"
    );
}

#[test]
fn result_components_are_kept_as_nbt() {
    let recipe = parse(
        r#"{"type":"minecraft:crafting_shapeless","ingredients":[{"item":"minecraft:oak_planks"}],"result":{"id":"minecraft:stick","components":{"minecraft:custom_data":{"source":"test","count":2}}}}"#,
    )
    .expect("recipe");
    let DynamicRecipe::Crafting(CraftingRecipe::Shapeless { result, ingredients, .. }) = recipe else {
        panic!("expected a shapeless recipe");
    };
    assert_eq!(ingredients.len(), 1);
    let components = result.components.expect("components");
    assert_eq!(components.len(), 1);
    assert_eq!(components[0].0, "minecraft:custom_data");
    let Nbt::Compound(custom) = &components[0].1 else {
        panic!("expected a compound");
    };
    assert_eq!(custom.len(), 2);
    assert_eq!(custom[0].0, "count");
    assert!(matches!(custom[0].1, Nbt::Int(2)));
    assert_eq!(custom[1].0, "source");
    assert!(matches!(&custom[1].1, Nbt::Text(t) if t == "test"));
}

#[test]
fn nbt_conversion_chooses_the_narrowest_number_and_refuses_null() {
    assert!(matches!(json_value_to_nbt(&json("true")), Ok(Nbt::Byte(1))));
    assert!(matches!(json_value_to_nbt(&json("5000000000")), Ok(Nbt::Long(5000000000))));
    assert!(matches!(json_value_to_nbt(&json("1.5")), Ok(Nbt::Double(t)) if t == "1.5"));
    assert!(matches!(json_value_to_nbt(&json("[1,[2]]")), Ok(Nbt::List(l)) if l.len() == 2));
    assert_eq!(
        json_value_to_nbt(&json(r#"{"a":[null]}"#)).unwrap_err(),
        "null is not a valid NBT component value"
    );
    assert_eq!(
        recipe_message(parse(
            r#"{"type":"minecraft:crafting_shapeless","ingredients":[{"item":"stone"}],"result":{"id":"stick","components":[1]}}"#,
        )),
        "invalid result components: components must be an object"
    );
}

#[test]
fn ingredients_flatten_alternatives_and_refuse_unknown_items_and_tags_in_lists() {
    let path = "data/example/recipes/r.json";
    let flat = parse_ingredient(path, &json(r#"[{"item":"stone"},[{"item":"stick"},{"item":"oak_planks"}]]"#), &vanilla())
        .expect("alternatives");
    let RecipeIngredient::OneOf(ids) = flat else {
        panic!("expected alternatives");
    };
    assert_eq!(ids, vec!["minecraft:stone", "minecraft:stick", "minecraft:oak_planks"]);
    assert!(matches!(
        parse_ingredient(path, &json(r#"{"tag":"planks"}"#), &vanilla()),
        Ok(RecipeIngredient::Tagged(t)) if t == "minecraft:planks"
    ));
    let refused = |text: &str| match parse_ingredient(path, &json(text), &vanilla()) {
        Err(DataPackError::InvalidRecipe { message, .. }) => message,
        other => panic!("expected a refusal, got {other:?}"),
    };
    assert_eq!(refused("[]"), "ingredient alternatives cannot be empty");
    assert_eq!(refused(r#"[{"tag":"planks"}]"#), "tag alternatives are not representable in OneOf");
    assert_eq!(refused(r#"{"item":"diamond"}"#), "unknown item minecraft:diamond");
    assert_eq!(refused(r#"{"count":1}"#), "ingredient requires item or tag");
    assert_eq!(refused("3"), "ingredient must be an object or array");
}

#[test]
fn cooking_recipes_default_their_time_and_check_it() {
    let recipe = parse(
        r#"{"type":"minecraft:blasting","ingredient":{"item":"stone"},"experience":0.7,"result":{"id":"iron_ingot","count":2},"category":"blocks","group":"ores"}"#,
    )
    .expect("recipe");
    let DynamicRecipe::Cooking(kind, cooking) = recipe else {
        panic!("expected a cooking recipe");
    };
    assert_eq!(kind, CookingKind::Blasting);
    assert_eq!(cooking.cooking_time, 200);
    assert_eq!(cooking.experience.as_deref(), Some("0.7"));
    assert_eq!(cooking.category, RecipeCategory::Blocks);
    assert_eq!(cooking.group.as_deref(), Some("ores"));
    assert_eq!(cooking.result.count, 2);
    assert_eq!(
        recipe_message(parse(r#"{"type":"minecraft:smelting","cookingtime":0,"ingredient":{"item":"stone"}}"#)),
        "invalid cooking time or experience"
    );
    assert_eq!(
        recipe_message(parse(r#"{"type":"minecraft:smoking","cooking_time":50}"#)),
        "missing ingredient"
    );
    assert_eq!(
        recipe_message(parse(
            r#"{"type":"minecraft:smelting","ingredient":{"item":"stone"},"result":{"id":"stick","count":300}}"#,
        )),
        "result count must be in 1..=255"
    );
}

#[test]
fn unsupported_recipe_types_are_skipped_and_others_refuse_the_reload() {
    let unsupported = parse(r#"{"type":"minecraft:stonecutting"}"#);
    assert!(matches!(
        classify_recipe_load(unsupported),
        RecipeLoad::Unsupported { message, .. } if message == "unsupported recipe type minecraft:stonecutting"
    ));
    assert!(matches!(classify_recipe_load(parse("{}")), RecipeLoad::Refused(_)));
    assert_eq!(recipe_message(parse("[]")), "missing string type");
    let loaded = parse(r#"{"type":"minecraft:crafting_shapeless","ingredients":[{"item":"stone"}],"result":{"item":"stick"}}"#);
    assert!(matches!(classify_recipe_load(loaded), RecipeLoad::Loaded(_)));
}

#[test]
fn tag_files_read_string_and_object_entries() {
    let definition = parse_tag_value(
        "data/example/tags/items/t.json",
        &json(r##"{"replace":true,"values":["stone",{"id":"#example:items/other","required":false}]}"##),
    )
    .expect("tag");
    assert!(definition.replace);
    assert_eq!(
        definition.values,
        vec![
            TagValue::Element { id: "minecraft:stone".to_owned(), required: true },
            TagValue::Tag { id: "example:items/other".to_owned(), required: false },
        ]
    );
    let message = |text: &str| match parse_tag_value("t.json", &json(text)) {
        Err(DataPackError::InvalidTag { message, .. }) => message,
        other => panic!("expected a refusal, got {other:?}"),
    };
    assert_eq!(message("[]"), "tag must be an object");
    assert_eq!(message(r#"{"values":{}}"#), "tag.values must be an array");
    assert_eq!(message(r#"{"values":[1]}"#), "tag values must be strings or objects");
    assert_eq!(message(r#"{"values":[{"required":true}]}"#), "tag value object requires string id");
    assert_eq!(message(r##"{"values":["#"]}"##), "tag value id cannot be empty");
    assert!(matches!(parse_tag_entry("t.json", &json(r#""a:b""#)), Ok(TagValue::Element { .. })));
}

#[test]
fn pack_metadata_needs_a_positive_integer_format() {
    let pack = parse_metadata_value("p", "p/pack.mcmeta", &json(r#"{"pack":{"pack_format":71}}"#)).expect("pack");
    assert_eq!(pack.pack_format, 71);
    assert_eq!(pack.name, "p");
    let message = |text: &str| match parse_metadata_value("p", "p/pack.mcmeta", &json(text)) {
        Err(DataPackError::InvalidMetadata { message, .. }) => message,
        other => panic!("expected a refusal, got {other:?}"),
    };
    assert_eq!(message("{}"), "missing pack object");
    assert_eq!(message(r#"{"pack":{"pack_format":"x"}}"#), "pack.pack_format must be an integer");
    assert_eq!(message(r#"{"pack":{"pack_format":0}}"#), "pack.pack_format must be positive");
}

#[test]
fn raw_resources_are_checked_by_kind() {
    assert!(parse_json_resource("a.json", "loot_tables", json(r#"{"pools":[]}"#)).is_ok());
    let message = |kind: &str, text: &str| match parse_json_resource("a.json", kind, json(text)) {
        Err(DataPackError::InvalidResource { message, .. }) => message,
        other => panic!("expected a refusal, got {other:?}"),
    };
    assert_eq!(message("loot_tables", r#"{"pools":{}}"#), "pools must be an array");
    assert_eq!(message("advancements", "{}"), "criteria is required");
    assert_eq!(message("predicates", "[]"), "resource root must be an object");
}

fn shapeless(id: &str) -> DynamicRecipe {
    DynamicRecipe::Crafting(CraftingRecipe::Shapeless {
        recipe_id: id.to_owned(),
        category: RecipeCategory::Misc,
        group: None,
        ingredients: vec![RecipeIngredient::Simple("minecraft:oak_planks".to_owned())],
        result: RecipeResult { item_id: "minecraft:stick".to_owned(), count: 4, components: None },
    })
}

#[test]
fn crafting_recipe_keys_are_not_derived_from_output_items() {
    let mut manager = RecipeRuntime::new(());
    manager.add_recipe(shapeless("example:first"));
    manager.add_recipe(shapeless("example:second"));

    let recipes = &manager.dynamic_recipes;
    assert_eq!(recipes.len(), 2);
    assert_eq!(recipe_id(&recipes[0]), "example:first");
    assert_eq!(recipe_id(&recipes[1]), "example:second");
}

#[test]
fn adding_a_recipe_with_a_known_key_replaces_it() {
    let mut manager = RecipeRuntime::new(());
    manager.add_recipe(shapeless("first"));
    manager.add_recipe(shapeless("example:second"));
    manager.add_recipe(shapeless("minecraft:first"));
    assert_eq!(manager.dynamic_recipes.len(), 2);
    assert_eq!(recipe_id(&manager.dynamic_recipes[0]), "minecraft:first");
    assert_eq!(manager.datapack_generation(), 3);
}

#[test]
fn built_in_display_ids_resolve_to_stable_recipe_keys() {
    let manager = RecipeRuntime::new(());
    let crafting = vec!["acacia_boat".to_owned(), "acacia_button".to_owned()];
    let cooking = vec!["baked_potato".to_owned()];
    let first = crafting[0].clone();
    assert_eq!(manager.recipe_id_from_display_id(0, &crafting, &cooking), Some(first));
    assert_eq!(manager.recipe_id_from_display_id(2, &crafting, &cooking), Some("baked_potato".to_owned()));
    assert_eq!(manager.recipe_id_from_display_id(3, &crafting, &cooking), None);
    assert_eq!(manager.recipe_id_from_display_id(-1, &crafting, &cooking), None);
    let mut manager = manager;
    manager.add_recipe(shapeless("custom"));
    assert_eq!(manager.recipe_id_from_display_id(3, &crafting, &cooking), Some("minecraft:custom".to_owned()));
}

#[test]
fn valid_recipe_snapshot_contains_vanilla_and_dynamic_keys() {
    let vanilla = vec!["stick".to_owned(), "torch".to_owned(), "minecraft:stick".to_owned()];
    let mut manager = RecipeRuntime::new(());
    assert!(manager.valid_recipe_ids(&vanilla).contains(&"minecraft:stick".to_owned()));
    manager.add_recipe(shapeless("example:custom"));
    let ids = manager.valid_recipe_ids(&vanilla);
    assert!(ids.contains(&"example:custom".to_owned()));
    assert_eq!(ids, vec!["example:custom", "minecraft:stick", "minecraft:torch"]);
    assert_eq!(built_in_recipe_ids(&vanilla), vec!["minecraft:stick", "minecraft:torch"]);
}

#[test]
fn datapack_resources_publish_atomically_with_the_recipe_generation() {
    let mut manager: RecipeRuntime<Vec<(String, String)>> = RecipeRuntime::new(Vec::new());
    let resources = vec![
        ("example:test".to_owned(), "{\"pools\": []}".to_owned()),
        ("example:check".to_owned(), "{\"condition\": \"minecraft:location_check\"}".to_owned()),
    ];
    let tags = TagSnapshot::default();
    manager.replace_datapack_snapshot(Vec::new(), KeyedFiles::new(), tags.vanilla, KeyedFiles::new(), resources.clone());

    assert_eq!(manager.datapack_generation(), 1);
    assert_eq!(manager.datapack_resources(), &resources);

    manager.replace_dynamic_recipes(Vec::new());
    assert_eq!(manager.datapack_resources(), &resources);
    assert_eq!(manager.datapack_generation(), 2);
}

#[test]
fn malformed_advancement_and_empty_structure_are_refused() {
    match parse_json_resource("broken.json", "advancements", json(r#"{"criteria":[]}"#)) {
        Err(DataPackError::InvalidResource { kind, path, message }) => {
            assert_eq!(kind, "advancements");
            assert_eq!(path, "broken.json");
            assert_eq!(message, "criteria must be an object");
        }
        other => panic!("unexpected {other:?}"),
    }
    assert!(parse_json_resource("ok.json", "advancements", json(r#"{"criteria":{}}"#)).is_ok());
    match structure_size_problem("broken.nbt", 0) {
        Err(DataPackError::InvalidResource { kind, .. }) => assert_eq!(kind, "structures"),
        other => panic!("unexpected {other:?}"),
    }
    assert!(structure_size_problem("ok.nbt", 7).is_ok());
    assert!(structure_size_problem("big.nbt", 16777217).is_err());
}
