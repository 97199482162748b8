use pumpkin::datapack::files::{
    ArchiveJson, archive_entry, metadata_from_text, recipe_from_text, resource_from_text, tag_from_text,
};
use pumpkin::datapack::json::Json;
use pumpkin::datapack::recipes::{CraftingRecipe, DynamicRecipe};
use pumpkin::datapack::resources::ArchiveEntry;
use pumpkin::datapack::tags::{TagValue, VanillaElements};
use pumpkin::datapack::DataPackError;
use pumpkin::keyed::KeyedFiles;

fn vanilla() -> VanillaElements {
    VanillaElements {
        items: vec!["oak_planks".to_owned(), "stick".to_owned(), "stone".to_owned()],
        blocks: vec![],
        fluids: vec![],
    }
}

const SHAPELESS: &str = r#"{"type":"minecraft:crafting_shapeless","ingredients":[{"item":"minecraft:oak_planks"}],"result":{"id":"minecraft:stick"}}"#;

fn components(path: &str) -> Vec<String> {
    path.split('/').map(str::to_owned).collect()
}

#[test]
fn metadata_text_is_decoded_then_read() {
    let pack = metadata_from_text("test", "p/pack.mcmeta", r#"{"pack":{"pack_format":71,"description":"test"}}"#)
        .expect("metadata");
    assert_eq!(pack.name, "test");
    assert_eq!(pack.path, "p/pack.mcmeta");
    assert_eq!(pack.pack_format, 71);
    match metadata_from_text("test", "p/pack.mcmeta", "{not json") {
        Err(DataPackError::InvalidMetadata { path, .. }) => assert_eq!(path, "p/pack.mcmeta"),
        other => panic!("unexpected {other:?}"),
    }
    match metadata_from_text("test", "p/pack.mcmeta", r#"{"pack":{"pack_format":0}}"#) {
        Err(DataPackError::InvalidMetadata { message, .. }) => assert_eq!(message, "pack.pack_format must be positive"),
        other => panic!("unexpected {other:?}"),
    }
}

#[test]
fn tag_and_resource_texts_are_decoded_then_read() {
    let definition = tag_from_text("t.json", r#"{"replace":true,"values":["minecraft:stone"]}"#).expect("tag");
    assert!(definition.replace);
    assert_eq!(definition.values, vec![TagValue::Element { id: "minecraft:stone".to_owned(), required: true }]);
    match tag_from_text("t.json", "[1,") {
        Err(DataPackError::InvalidTag { path, .. }) => assert_eq!(path, "t.json"),
        other => panic!("unexpected {other:?}"),
    }
    let value = resource_from_text("l.json", "loot_tables", r#"{"pools":[]}"#).expect("loot table");
    assert!(matches!(value, Json::Object(entries) if entries.len() == 1 && entries[0].0 == "pools"));
    match resource_from_text("l.json", "loot_tables", "nope") {
        Err(DataPackError::InvalidResource { kind, path, .. }) => {
            assert_eq!(kind, "loot_tables");
            assert_eq!(path, "l.json");
        }
        other => panic!("unexpected {other:?}"),
    }
}

#[test]
fn recipe_text_is_decoded_before_its_id_is_taken() {
    let (id, outcome) =
        recipe_from_text("x.json", &components("datapacks/p/data/example/recipes/tool.json"), SHAPELESS, &vanilla())
            .expect("recipe file");
    assert_eq!(id, "example:tool");
    assert!(matches!(outcome, Ok(DynamicRecipe::Crafting(CraftingRecipe::Shapeless { .. }))));
    match recipe_from_text("x.json", &components("datapacks/p/data/example/other/tool.json"), "{", &vanilla()) {
        Err(DataPackError::InvalidRecipe { path, message }) => {
            assert_eq!(path, "x.json");
            assert_ne!(message, "recipe is outside a namespace recipes directory");
        }
        other => panic!("unexpected {other:?}"),
    }
    assert!(recipe_from_text("x.json", &components("datapacks/p/data/example/other/tool.json"), SHAPELESS, &vanilla())
        .is_err());
}

#[test]
fn archive_json_entries_are_decoded_and_read_by_kind() {
    let entry = archive_entry(
        "pack.zip",
        "data/example/recipes/nested/tool.json",
        "pack.zip/data/example/recipes/nested/tool.json",
        ArchiveEntry::Recipe,
        SHAPELESS.as_bytes(),
        &vanilla(),
    )
    .expect("recipe entry");
    match entry {
        ArchiveJson::Recipe { id, outcome } => {
            assert_eq!(id, "example:nested/tool");
            assert!(outcome.is_ok());
        }
        _ => panic!("expected a recipe"),
    }
    let entry = archive_entry(
        "pack.zip",
        "data/example/tags/items/wood.json",
        "shown",
        ArchiveEntry::Tag,
        br#"{"values":["minecraft:oak_planks"]}"#,
        &vanilla(),
    )
    .expect("tag entry");
    assert!(matches!(entry, ArchiveJson::Tag { id, .. } if id == "example:items/wood"));
    let entry = archive_entry(
        "pack.zip",
        "data/example/loot_tables/zip.json",
        "shown",
        ArchiveEntry::JsonResource,
        br#"{"pools":[]}"#,
        &vanilla(),
    )
    .expect("resource entry");
    assert!(matches!(entry, ArchiveJson::Resource { kind, id, .. } if kind == "loot_tables" && id == "example:zip"));
    match archive_entry("pack.zip", "data/example/tags/items/bad.json", "shown", ArchiveEntry::Tag, b"\xff{", &vanilla()) {
        Err(DataPackError::InvalidArchive { path, message }) => {
            assert_eq!(path, "pack.zip");
            assert!(message.starts_with("invalid JSON in data/example/tags/items/bad.json: "));
        }
        other => panic!("unexpected {other:?}"),
    }
}

#[test]
fn filing_an_id_again_replaces_its_entry() {
    let mut files = KeyedFiles::new();
    files.file("example:b".to_owned(), 1);
    files.file("example:a".to_owned(), 2);
    files.file("example:b".to_owned(), 3);
    assert_eq!(files.len(), 2);
    assert_eq!(files.into_pairs(), vec![("example:a".to_owned(), 2), ("example:b".to_owned(), 3)]);
}

#[test]
fn later_pack_recipe_replaces_the_earlier_one() {
    let first = r##"{"type":"minecraft:crafting_shaped","pattern":["#"],"key":{"#":{"item":"minecraft:oak_planks"}},"result":{"id":"minecraft:stick"}}"##;
    let second = r##"{"type":"minecraft:crafting_shaped","pattern":["#"],"key":{"#":{"item":"minecraft:stone"}},"result":{"id":"minecraft:stick","count":4}}"##;
    let mut recipes = KeyedFiles::new();
    for (pack, text) in [("first", first), ("second", second)] {
        let path = format!("datapacks/{pack}/data/example/recipes/tool.json");
        let (id, outcome) = recipe_from_text(&path, &components(&path), text, &vanilla()).expect("recipe");
        recipes.file(id, outcome.expect("valid recipe"));
    }
    let pairs = recipes.into_pairs();
    assert_eq!(pairs.len(), 1);
    assert_eq!(pairs[0].0, "example:tool");
    let DynamicRecipe::Crafting(CraftingRecipe::Shaped { result, .. }) = &pairs[0].1 else {
        panic!("expected a shaped recipe");
    };
    assert_eq!(result.count, 4);
}
