use mince_raft::json::{block_lists_from_json, entity_ids_from_json, DataFileError};
use mince_raft::generators::{
    block_entries, get_blocks_map, get_blocks_string, get_entities_string, parse_i32, table_from,
};

fn chars(s: &str) -> Vec<char> {
    s.chars().collect()
}

#[test]
fn parses_like_str_parse() {
    for s in ["0", "123", "-5", "+7", "2147483647", "-2147483648", "007", "-0"] {
        assert_eq!(parse_i32(&chars(s)), s.parse::<i32>().ok(), "{}", s);
    }
    for s in ["", "-", "+", "12a", " 1", "2147483648", "-2147483649", "99999999999999999999", "1-"] {
        assert_eq!(parse_i32(&chars(s)), None, "{}", s);
    }
}

#[test]
fn table_keeps_last_name_in_id_order() {
    let entries = vec![(5, chars("b")), (1, chars("a")), (5, chars("c")), (3, chars("d"))];
    let table = table_from(&entries);
    assert_eq!(table, vec![(1, chars("a")), (3, chars("d")), (5, chars("c"))]);
}

#[test]
fn block_table_source() {
    let blocks = vec![
        (String::from("minecraft:stone"), vec![String::from("1")]),
        (String::from("minecraft:air"), vec![String::from("0")]),
        (
            String::from("minecraft:grass_block"),
            vec![String::from("9"), String::from("8"), String::from("x"), String::from("-1")],
        ),
    ];
    let entries = block_entries(&blocks);
    assert_eq!(entries.len(), 4);
    let map = get_blocks_map(&blocks);
    let ids: Vec<i32> = map.iter().map(|b| b.state_id).collect();
    assert_eq!(ids, vec![0, 1, 8, 9]);
    assert_eq!(map[2].name, "Grass Block");
    let text = get_blocks_string(&blocks);
    let expected = String::from(
        "\n    #[derive(Debug)]\npub struct BlockState {\n    pub state_id: i32,\n    pub name: &'static str,\n}\n\npub const BLOCKS: [BlockState; 4] = [\n",
    ) + "\tBlockState{ state_id: 0, name: \"Air\" }, \n"
        + "\tBlockState{ state_id: 1, name: \"Stone\" }, \n"
        + "\tBlockState{ state_id: 8, name: \"Grass Block\" }, \n"
        + "\tBlockState{ state_id: 9, name: \"Grass Block\" }, \n"
        + "];";
    assert_eq!(text, expected);
}

#[test]
fn entity_table_source() {
    let entities = vec![
        (String::from("minecraft:pig"), 5i64),
        (String::from("minecraft:zombie_villager"), -3i64),
        (String::from("minecraft:cow"), 5i64),
    ];
    let text = get_entities_string(&entities);
    let expected = String::from(
        "\nuse phf::phf_map;\n\n#[derive(Debug)]\npub struct EntityType {\n    pub id: i32,\n    pub name: &'static str,\n}\n\npub static ENTITIES: phf::Map<i32, EntityType> = phf_map! {\n",
    ) + "\t-3i32 => EntityType{ id: -3, name: \"Zombie Villager\" },\n"
        + "\t5i32 => EntityType{ id: 5, name: \"Cow\" },\n"
        + "};";
    assert_eq!(text, expected);
    // Ids are taken as 32-bit integers.
    let wide = get_entities_string(&vec![(String::from("a"), 4294967297i64)]);
    assert!(wide.contains("\t1i32 => EntityType{ id: 1, name: \"A\" },\n"));
}

#[test]
fn block_lists_come_from_the_json_text() {
    let text = r#"{"minecraft:stone": {"states": {"1": {}, "2": {"default": true}}},
        "minecraft:air": {"states": {"0": {}}},
        "minecraft:odd": {"states": [1, 2]},
        "minecraft:bare": {}}"#;
    let blocks = block_lists_from_json(text).unwrap().unwrap();
    // In key order; blocks whose states are not an object are left out.
    assert_eq!(
        blocks,
        vec![
            (String::from("minecraft:air"), vec![String::from("0")]),
            (String::from("minecraft:stone"), vec![String::from("1"), String::from("2")]),
        ]
    );
    assert_eq!(get_blocks_map(&blocks).len(), 3);
    assert_eq!(block_lists_from_json("[1, 2]"), Ok(None));
    assert_eq!(block_lists_from_json("{not json"), Err(DataFileError::NotJson));
}

#[test]
fn entity_ids_come_from_the_json_text() {
    let text = r#"{"minecraft:pig": {"id": 5}, "minecraft:cow": {"id": 2},
        "minecraft:thing": {"id": "x"}, "minecraft:none": {}}"#;
    let entities = entity_ids_from_json(text).unwrap().unwrap();
    assert_eq!(
        entities,
        vec![(String::from("minecraft:cow"), 2), (String::from("minecraft:pig"), 5)]
    );
    assert_eq!(entity_ids_from_json("\"text\""), Ok(None));
    assert_eq!(entity_ids_from_json(""), Err(DataFileError::NotJson));
    assert_eq!(
        entity_ids_from_json(r#"{"minecraft:a": {"id": 1.5}}"#),
        Err(DataFileError::NonIntegerId)
    );
}
