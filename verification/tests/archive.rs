use std::io::{Cursor, Write};

use pumpkin::datapack::archive::load_zip_pack;
use pumpkin::datapack::candidate::PackCandidate;
use pumpkin::datapack::tags::{TagSnapshot, VanillaElements};
use pumpkin::datapack::DataPackError;
use pumpkin::recipe::recipe_id;

fn vanilla() -> VanillaElements {
    VanillaElements { items: vec!["oak_planks".to_owned(), "stick".to_owned()], blocks: vec![], fluids: vec![] }
}

fn archive(entries: &[(&str, &[u8])]) -> Vec<u8> {
    let mut writer = zip::ZipWriter::new(Cursor::new(Vec::new()));
    let options = zip::write::SimpleFileOptions::default();
    for (name, bytes) in entries {
        writer.start_file(*name, options).expect("entry");
        writer.write_all(bytes).expect("entry bytes");
    }
    writer.finish().expect("finish zip").into_inner()
}

const METADATA: &[u8] = br#"{"pack":{"pack_format":71,"description":"test"}}"#;

#[test]
fn loads_recipe_from_zip_datapack_without_extracting_it() {
    let bytes = archive(&[
        ("pack.mcmeta", METADATA),
        (
            "data/example/recipes/nested/tool.json",
            br#"{"type":"minecraft:crafting_shapeless","ingredients":[{"item":"minecraft:oak_planks"}],"result":{"id":"minecraft:stick"}}"#,
        ),
        ("data/example/tags/items/wood.json", br#"{"values":["minecraft:oak_planks"]}"#),
        ("data/example/function/start.mcfunction", b"# comment\n  say hello  \n\n"),
        ("data/example/loot_tables/zip.json", br#"{"pools":[],"type":"minecraft:chest"}"#),
        ("data/example/predicates/zip.json", br#"{"condition":"minecraft:location_check"}"#),
        ("data/example/advancements/zip.json", br#"{"criteria":{}}"#),
        ("data/example/structures/zip.nbt", b"\x0a\x00\x00\x00"),
        ("README.txt", b"not part of the pack"),
    ]);
    let mut candidate = PackCandidate::new();
    let pack = load_zip_pack("packed.zip", "datapacks/packed.zip", &bytes, &vanilla(), &mut candidate).expect("load zip");
    assert_eq!(pack.name, "packed.zip");
    assert_eq!(pack.path, "datapacks/packed.zip");
    assert_eq!(pack.pack_format, 71);
    let recipes = candidate.recipes.into_pairs();
    assert_eq!(recipes.len(), 1);
    assert_eq!(recipes[0].0, "example:nested/tool");
    assert_eq!(recipe_id(&recipes[0].1), "example:nested/tool");
    let snapshot = TagSnapshot { tags: candidate.tags.as_pairs().clone(), vanilla: vanilla() };
    assert!(snapshot.contains("example:items/wood", "minecraft:oak_planks"));
    assert_eq!(candidate.functions.get_entry("example:start"), Some(&vec!["say hello".to_owned()]));
    assert!(candidate.loot_tables.get_entry("example:zip").is_some());
    assert!(candidate.predicates.get_entry("example:zip").is_some());
    assert!(candidate.advancements.get_entry("example:zip").is_some());
    assert!(candidate.structures.get_entry("example:zip").is_some());
}

#[test]
fn broken_archives_and_entries_are_refused() {
    let mut candidate = PackCandidate::new();
    match load_zip_pack("p", "p.zip", b"not a zip", &vanilla(), &mut candidate) {
        Err(DataPackError::InvalidArchive { path, .. }) => assert_eq!(path, "p.zip"),
        other => panic!("unexpected {other:?}"),
    }
    let no_metadata = archive(&[("data/example/tags/items/a.json", br#"{"values":[]}"#)]);
    match load_zip_pack("p", "p.zip", &no_metadata, &vanilla(), &mut candidate) {
        Err(DataPackError::InvalidArchive { message, .. }) => assert!(message.starts_with("missing pack.mcmeta: ")),
        other => panic!("unexpected {other:?}"),
    }
    let bad_json = archive(&[("pack.mcmeta", METADATA), ("data/example/tags/items/a.json", b"{")]);
    match load_zip_pack("p", "p.zip", &bad_json, &vanilla(), &mut candidate) {
        Err(DataPackError::InvalidArchive { message, .. }) => {
            assert!(message.starts_with("invalid JSON in data/example/tags/items/a.json: "))
        }
        other => panic!("unexpected {other:?}"),
    }
    let bad_function = archive(&[("pack.mcmeta", METADATA), ("data/example/function/f.mcfunction", b"say \xff")]);
    match load_zip_pack("p", "p.zip", &bad_function, &vanilla(), &mut candidate) {
        Err(DataPackError::InvalidFunction { path, message }) => {
            assert_eq!(path, "p.zip/data/example/function/f.mcfunction");
            assert!(message.starts_with("function is not valid UTF-8: "));
        }
        other => panic!("unexpected {other:?}"),
    }
    assert_eq!(candidate.functions.len(), 0);
}

#[test]
fn a_later_archive_replaces_an_earlier_function() {
    let first = archive(&[("pack.mcmeta", METADATA), ("data/example/function/start.mcfunction", b"say first\n")]);
    let second = archive(&[("pack.mcmeta", METADATA), ("data/example/function/start.mcfunction", b"say second\n")]);
    let mut candidate = PackCandidate::new();
    load_zip_pack("first.zip", "first.zip", &first, &vanilla(), &mut candidate).expect("first");
    load_zip_pack("second.zip", "second.zip", &second, &vanilla(), &mut candidate).expect("second");
    assert_eq!(candidate.functions.into_pairs(), vec![("example:start".to_owned(), vec!["say second".to_owned()])]);
}
