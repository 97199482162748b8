use pumpkin::datapack::resources::{
    function_id_from_resource_path, is_safe_archive_path, parse_function_text,
    recipe_id_from_resource_path, resource_id_from_resource_path, tag_id_from_resource_path,
};
use pumpkin::datapack::tags::{
    TagDefinition, TagSnapshot, TagValue, VanillaElements, merge_tag, tag_keys_sorted,
    validate_function_tag_references,
    validate_tag_snapshot,
};
use pumpkin::datapack::{DataPackError, DataPackLoader};
use pumpkin::function_scheduler::{FunctionScheduler, ScheduledFunctionData};
use pumpkin::recipe::{canonicalize_recipe_id, is_recipe_allowed};

#[test]
fn replace_append_clear_and_due_follow_timer_queue_rules() {
    let mut queue = FunctionScheduler::new();
    assert!(queue.schedule("example:a".to_owned(), 20, false, true));
    assert!(queue.schedule("example:a".to_owned(), 10, false, false));
    assert!(!queue.schedule("example:a".to_owned(), 10, false, false));
    assert!(queue.schedule("example:b".to_owned(), 10, false, true));
    assert_eq!(
        queue.due(10).into_iter().map(|e| e.id).collect::<Vec<_>>(),
        ["example:a", "example:b"]
    );
    assert_eq!(queue.clear("example:a", None), 1);
    assert!(queue.ids().is_empty());
}

#[test]
fn tag_ids_are_distinct_from_function_ids_for_clear_and_listing() {
    let mut queue = FunctionScheduler::new();
    queue.schedule("example:tick".to_owned(), 5, true, true);
    queue.schedule("example:tick".to_owned(), 6, false, true);
    assert_eq!(queue.ids(), vec!["#example:tick", "example:tick"]);
    assert_eq!(queue.clear("example:tick", Some(true)), 1);
    assert_eq!(queue.ids(), vec!["example:tick"]);
}

#[test]
fn scheduler_replace_keeps_a_single_event_for_an_id() {
    let mut queue = FunctionScheduler::new();
    assert!(queue.schedule("example:a".to_owned(), 30, false, true));
    assert!(queue.schedule("example:a".to_owned(), 5, false, true));
    assert_eq!(queue.ids(), vec!["example:a"]);
    assert!(queue.due(4).is_empty());
    let due = queue.due(5);
    assert_eq!(due.len(), 1);
    assert_eq!(due[0].trigger_time, 5);
    assert!(queue.ids().is_empty());
}

#[test]
fn scheduler_due_runs_in_time_then_insertion_order() {
    let mut queue = FunctionScheduler::new();
    queue.schedule("example:late".to_owned(), 9, false, false);
    queue.schedule("example:first".to_owned(), 3, false, false);
    queue.schedule("example:second".to_owned(), 3, true, false);
    let due = queue.due(100);
    let ids: Vec<String> = due.into_iter().map(|e| e.id).collect();
    assert_eq!(ids, ["example:first", "example:second", "example:late"]);
}

#[test]
fn recipe_ids_are_namespaced_for_vanilla_nbt() {
    assert_eq!(canonicalize_recipe_id("stick"), "minecraft:stick");
    assert_eq!(canonicalize_recipe_id("minecraft:stick"), "minecraft:stick");
    assert_eq!(canonicalize_recipe_id("example:stick"), "example:stick");
}

#[test]
fn limited_crafting_requires_the_canonical_known_recipe_key() {
    let known = vec!["minecraft:stick".to_owned()];
    assert!(is_recipe_allowed(true, &known, "stick"));
    assert!(is_recipe_allowed(false, &[], "unknown:recipe"));
    assert!(!is_recipe_allowed(true, &known, "minecraft:torch"));
}

#[test]
fn empty_tag_snapshot_has_no_membership() {
    let snapshot = TagSnapshot::default();
    assert!(!snapshot.contains("minecraft:items/planks", "minecraft:oak_planks"));
}

fn element(id: &str, required: bool) -> TagValue {
    TagValue::Element { id: id.to_owned(), required }
}

fn tag_ref(id: &str, required: bool) -> TagValue {
    TagValue::Tag { id: id.to_owned(), required }
}

fn snapshot_of(tags: Vec<(&str, Vec<TagValue>)>) -> TagSnapshot {
    let mut snapshot = TagSnapshot::default();
    for (id, values) in tags {
        snapshot.tags.push((id.to_owned(), TagDefinition { values, replace: false }));
    }
    snapshot
}

#[test]
fn tag_members_follow_references_in_order_without_duplicates() {
    let snapshot = snapshot_of(vec![
        (
            "example:items/all",
            vec![element("example:b", true), tag_ref("example:items/some", true), element("example:a", true)],
        ),
        ("example:items/some", vec![element("example:c", true), element("example:b", true)]),
    ]);
    assert_eq!(
        snapshot.ordered_members("example:items/all"),
        vec!["example:b", "example:c", "example:a"]
    );
    assert_eq!(
        snapshot.members("example:items/all"),
        vec!["example:a", "example:b", "example:c"]
    );
    assert!(snapshot.contains("example:items/all", "example:c"));
    assert!(!snapshot.contains("example:items/some", "example:a"));
}

#[test]
fn tag_validation_rejects_cycles_and_missing_required_tags() {
    let cyclic = snapshot_of(vec![
        ("example:items/a", vec![tag_ref("example:items/b", true)]),
        ("example:items/b", vec![tag_ref("example:items/a", true)]),
    ]);
    match validate_tag_snapshot(&cyclic) {
        Err(DataPackError::InvalidTag { message, .. }) => assert_eq!(message, "cyclic tag reference"),
        other => panic!("unexpected {other:?}"),
    }
    let missing = snapshot_of(vec![("example:items/a", vec![tag_ref("example:items/none", true)])]);
    match validate_tag_snapshot(&missing) {
        Err(DataPackError::InvalidTag { path, message }) => {
            assert_eq!(path, "example:items/a");
            assert_eq!(message, "required tag example:items/none does not exist");
        }
        other => panic!("unexpected {other:?}"),
    }
    let optional = snapshot_of(vec![("example:items/a", vec![tag_ref("example:items/none", false)])]);
    assert!(validate_tag_snapshot(&optional).is_ok());
    let cross = snapshot_of(vec![
        ("example:blocks/b", vec![]),
        ("example:items/a", vec![tag_ref("example:blocks/b", true)]),
    ]);
    match validate_tag_snapshot(&cross) {
        Err(DataPackError::InvalidTag { message, .. }) => {
            assert_eq!(message, "tag reference example:blocks/b uses a different registry")
        }
        other => panic!("unexpected {other:?}"),
    }
}

#[test]
fn function_text_is_trimmed_and_comments_are_skipped() {
    let commands = parse_function_text("f.mcfunction", "\u{feff}# comment\n  say hi  \r\n\n  tp @s ~ ~ ~\n").unwrap();
    assert_eq!(commands, vec!["say hi", "tp @s ~ ~ ~"]);
    match parse_function_text("f.mcfunction", "say \0") {
        Err(DataPackError::InvalidFunction { path, message }) => {
            assert_eq!(path, "f.mcfunction");
            assert_eq!(message, "command contains a NUL byte");
        }
        other => panic!("unexpected {other:?}"),
    }
    let long = "a".repeat(32768);
    match parse_function_text("f.mcfunction", &long) {
        Err(DataPackError::InvalidFunction { message, .. }) => {
            assert_eq!(message, "command exceeds 32767 bytes")
        }
        other => panic!("unexpected {other:?}"),
    }
    assert_eq!(parse_function_text("f", &"a".repeat(32767)).unwrap().len(), 1);
}

#[test]
fn archive_paths_must_stay_inside_the_archive() {
    assert!(is_safe_archive_path("data/example/function/a.mcfunction"));
    assert!(!is_safe_archive_path("/data/x"));
    assert!(!is_safe_archive_path("data/../x"));
    assert!(!is_safe_archive_path("data/./x"));
    assert!(!is_safe_archive_path("data//x"));
    assert!(!is_safe_archive_path(""));
}

#[test]
fn resource_paths_name_namespaced_ids() {
    assert_eq!(
        function_id_from_resource_path("data/example/function/sub/tick.mcfunction", "p").unwrap(),
        "example:sub/tick"
    );
    assert_eq!(
        recipe_id_from_resource_path("data/example/recipes/stick.json", "p").unwrap(),
        "example:stick"
    );
    assert_eq!(
        tag_id_from_resource_path("data/minecraft/tags/items/planks.json", "p").unwrap(),
        "minecraft:items/planks"
    );
    assert_eq!(
        resource_id_from_resource_path("data/example/structures/house.nbt", "p").unwrap(),
        ("structures".to_owned(), "example:house".to_owned())
    );
    match function_id_from_resource_path("data/example/functions/a.mcfunction", "p") {
        Err(DataPackError::InvalidFunction { message, .. }) => {
            assert_eq!(message, "function is outside a data namespace function directory")
        }
        other => panic!("unexpected {other:?}"),
    }
    match recipe_id_from_resource_path("data/Example/recipes/a.json", "p") {
        Err(DataPackError::InvalidRecipe { message, .. }) => assert_eq!(message, "invalid namespace Example"),
        other => panic!("unexpected {other:?}"),
    }
    match resource_id_from_resource_path("data/example/loot_tables/a.txt", "p") {
        Err(DataPackError::InvalidResource { kind, message, .. }) => {
            assert_eq!(kind, "loot_tables");
            assert_eq!(message, "invalid resource extension");
        }
        other => panic!("unexpected {other:?}"),
    }
}

#[test]
fn enabled_packs_resolve_by_name() {
    let available = vec!["mypack".to_owned(), "other.zip".to_owned()];
    assert_eq!(DataPackLoader::pack_to_load(&"vanilla".to_owned(), &available).unwrap(), None);
    assert_eq!(
        DataPackLoader::pack_to_load(&"file/mypack".to_owned(), &available).unwrap(),
        Some("mypack".to_owned())
    );
    match DataPackLoader::pack_to_load(&"file/missing".to_owned(), &available) {
        Err(DataPackError::MissingEnabledPack(name)) => assert_eq!(name, "file/missing"),
        other => panic!("unexpected {other:?}"),
    }
    assert!(DataPackLoader::check_without_datapacks_directory(&["vanilla".to_owned()]).is_ok());
    match DataPackLoader::check_without_datapacks_directory(&["vanilla".to_owned(), "file/x".to_owned()]) {
        Err(DataPackError::MissingEnabledPack(name)) => assert_eq!(name, "file/x"),
        other => panic!("unexpected {other:?}"),
    }
}

#[test]
fn missing_datapack_directory_does_not_clear_an_explicit_pack() {
    assert!(DataPackLoader::check_without_datapacks_directory(&["vanilla".to_owned()]).is_ok());
    match DataPackLoader::check_without_datapacks_directory(&["file/missing".to_owned()]) {
        Err(DataPackError::MissingEnabledPack(name)) => assert_eq!(name, "file/missing"),
        other => panic!("an enabled file pack must be reported as missing: {other:?}"),
    }
}

#[test]
fn tags_follow_pack_priority_replace_and_optional_entries() {
    let mut tags: Vec<(String, TagDefinition)> = Vec::new();
    merge_tag(
        &mut tags,
        "example:items/planks".to_owned(),
        TagDefinition { values: vec![element("minecraft:oak_planks", true)], replace: false },
    );
    merge_tag(
        &mut tags,
        "example:items/planks".to_owned(),
        TagDefinition {
            values: vec![element("minecraft:stone", true), element("minecraft:not_an_item", false)],
            replace: true,
        },
    );
    let snapshot = TagSnapshot {
        tags,
        vanilla: VanillaElements {
            items: vec!["oak_planks".to_owned(), "stone".to_owned()],
            blocks: vec![],
            fluids: vec![],
        },
    };
    assert_eq!(snapshot.members("example:items/planks"), vec!["minecraft:stone"]);
}

#[test]
fn merging_without_replace_appends_only_new_entries() {
    let mut tags: Vec<(String, TagDefinition)> = Vec::new();
    merge_tag(
        &mut tags,
        "example:items/b".to_owned(),
        TagDefinition { values: vec![element("example:x", true)], replace: false },
    );
    merge_tag(
        &mut tags,
        "example:items/a".to_owned(),
        TagDefinition { values: vec![element("example:y", true)], replace: false },
    );
    merge_tag(
        &mut tags,
        "example:items/b".to_owned(),
        TagDefinition { values: vec![element("example:x", true), element("example:z", true)], replace: false },
    );
    assert_eq!(tags.len(), 2);
    assert_eq!(tags[0].0, "example:items/a");
    assert_eq!(tags[1].0, "example:items/b");
    assert_eq!(tags[1].1.values, vec![element("example:x", true), element("example:z", true)]);
    assert!(!tags[1].1.replace);
}

#[test]
fn function_tags_preserve_order_and_require_existing_functions() {
    let functions = vec![
        ("example:first".to_owned(), vec!["say first".to_owned()]),
        ("example:second".to_owned(), vec!["say second".to_owned()]),
    ];
    let snapshot = snapshot_of(vec![(
        "example:function/tick",
        vec![element("example:second", true), element("example:first", true), element("example:second", true)],
    )]);
    assert!(validate_function_tag_references(&snapshot, &functions).is_ok());
    assert_eq!(
        snapshot.ordered_members("example:function/tick"),
        vec!["example:second", "example:first"]
    );

    let broken = snapshot_of(vec![("example:function/broken", vec![element("example:missing", true)])]);
    assert!(validate_function_tag_references(&broken, &functions).is_err());

    let optional = snapshot_of(vec![("example:function/broken", vec![element("example:missing", false)])]);
    assert!(validate_function_tag_references(&optional, &functions).is_ok());
    assert_eq!(optional.ordered_members("example:function/broken"), vec!["example:missing"]);
}

#[test]
fn merged_tag_ids_stay_unique_and_in_order() {
    let mut tags: Vec<(String, TagDefinition)> = Vec::new();
    assert!(tag_keys_sorted(&tags));
    for id in ["example:items/c", "example:items/a", "example:items/c", "example:items/b"] {
        merge_tag(&mut tags, id.to_owned(), TagDefinition { values: vec![], replace: false });
        assert!(tag_keys_sorted(&tags));
    }
    assert_eq!(tags.len(), 3);
    tags.swap(0, 1);
    assert!(!tag_keys_sorted(&tags));
}

#[test]
fn a_default_scheduler_has_nothing_pending() {
    let mut scheduler = FunctionScheduler::default();
    assert!(scheduler.ids().is_empty());
    assert!(scheduler.snapshot().is_empty());
    assert!(scheduler.due(i64::MAX).is_empty());
}

fn event(trigger_time: i64, id: &str, tag: bool) -> ScheduledFunctionData {
    ScheduledFunctionData { trigger_time, id: id.to_owned(), tag }
}

#[test]
fn a_snapshot_is_the_stable_time_order_and_reloads_unchanged() {
    let mut scheduler = FunctionScheduler::new();
    scheduler.load(vec![event(30, "example:c", false), event(10, "example:a", false), event(30, "example:b", true), event(10, "example:d", false)]);
    let snapshot = scheduler.snapshot();
    assert_eq!(
        snapshot,
        vec![event(10, "example:a", false), event(10, "example:d", false), event(30, "example:c", false), event(30, "example:b", true)]
    );
    let mut reloaded = FunctionScheduler::new();
    reloaded.load(snapshot.clone());
    assert_eq!(reloaded.snapshot(), snapshot);
}

#[test]
fn tag_members_follow_references_through_cycles() {
    let snapshot = snapshot_of(vec![
        ("example:items/a", vec![element("example:x", true), tag_ref("example:items/b", true)]),
        ("example:items/b", vec![tag_ref("example:items/a", true), element("example:y", true), tag_ref("example:items/none", false)]),
    ]);
    assert_eq!(snapshot.members("example:items/a"), vec!["example:x", "example:y"]);
    assert_eq!(snapshot.members("example:items/b"), vec!["example:x", "example:y"]);
    assert!(validate_tag_snapshot(&snapshot).is_err());
}
