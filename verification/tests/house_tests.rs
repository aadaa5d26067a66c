use onlinerpg_estate::house::{
    construction_message, find_usable_item, foundation_inside_estate, foundation_cells, holds_item_instance,
    house_scroll_index, is_foundation, is_owned_by, owner_id_text, prepare_template,
    scroll_template_in_bag, BagItem, HousePlan, HouseRoom,
};
use onlinerpg_estate::text::{push_decimal, push_hex, push_signed_decimal, same_text};

fn room(floor_level: i32, is_stairwell: bool, x: i32, z: i32, sx: u8, sz: u8) -> HouseRoom {
    HouseRoom {
        floor_level,
        is_stairwell,
        local_x: x,
        local_z: z,
        size_x: sx,
        size_z: sz,
        wall_north: vec![true, false],
        wall_south: vec![false],
        wall_east: vec![true],
        wall_west: vec![],
    }
}

fn plan(rooms: Vec<HouseRoom>) -> HousePlan {
    HousePlan { id: "h-1".to_string(), owner_id: "42".to_string(), rooms }
}

fn bag_item(instance_id: u64, item: &str, quantity: u32) -> BagItem {
    BagItem { instance_id, item_def_id: item.to_string(), quantity }
}

#[test]
fn foundation_covers_ground_floor_rooms_once() {
    let house = plan(vec![
        room(0, false, 0, 0, 2, 2),
        room(0, false, 1, 1, 2, 1),
        room(1, false, 5, 5, 1, 1),
        room(0, true, 8, 8, 1, 1),
    ]);
    assert_eq!(foundation_cells(&house), vec![(0, 0), (1, 0), (0, 1), (1, 1), (2, 1)]);
}

#[test]
fn rooms_of_no_size_have_no_foundation() {
    let house = plan(vec![room(0, false, 0, 0, 0, 3), room(0, false, 4, 4, 2, 0)]);
    assert!(foundation_cells(&house).is_empty());
}

#[test]
fn only_ground_floor_non_stairwells_are_foundation() {
    assert!(is_foundation(&room(0, false, 0, 0, 1, 1)));
    assert!(!is_foundation(&room(0, true, 0, 0, 1, 1)));
    assert!(!is_foundation(&room(-1, false, 0, 0, 1, 1)));
    assert!(!is_foundation(&room(2, false, 0, 0, 1, 1)));
}

#[test]
fn house_scrolls_are_known_by_item_id() {
    assert_eq!(house_scroll_index("scroll_of_rica_house"), Some(0));
    assert_eq!(house_scroll_index("scroll_of_karl_house"), Some(1));
    assert_eq!(house_scroll_index("scroll_of_aldwin_house"), Some(2));
    assert_eq!(house_scroll_index("scroll_of_inn"), Some(3));
    assert_eq!(house_scroll_index("scroll_of_rowan_house"), Some(4));
    assert_eq!(house_scroll_index("scroll_of_karl"), None);
    assert_eq!(house_scroll_index("horse_reins"), None);
    assert_eq!(house_scroll_index(""), None);
}

#[test]
fn owner_ids_are_character_ids_in_decimal() {
    assert_eq!(owner_id_text(42), "42");
    assert_eq!(owner_id_text(0), "0");
    assert_eq!(owner_id_text(-7), "-7");
    assert_eq!(owner_id_text(i64::MAX), i64::MAX.to_string());
    assert_eq!(owner_id_text(i64::MIN), i64::MIN.to_string());
    let house = plan(vec![]);
    assert!(is_owned_by(&house, 42));
    assert!(!is_owned_by(&house, 4));
    assert!(!is_owned_by(&house, 420));
}

#[test]
fn template_preview_is_anonymous_and_closed() {
    let mut house = plan(vec![room(0, false, 1, 2, 3, 4), room(1, true, 0, 0, 1, 1)]);
    prepare_template(&mut house);
    assert_eq!(house.id, "house-placement-preview");
    assert_eq!(house.owner_id, "");
    assert_eq!(house.rooms.len(), 2);
    let r = &house.rooms[0];
    assert_eq!((r.floor_level, r.is_stairwell, r.local_x, r.local_z, r.size_x, r.size_z), (0, false, 1, 2, 3, 4));
    for r in &house.rooms {
        assert_eq!(r.wall_north, vec![false, false]);
        assert_eq!(r.wall_south, vec![false]);
        assert_eq!(r.wall_east, vec![false]);
        assert!(r.wall_west.is_empty());
    }
}

#[test]
fn construction_message_drops_the_scroll_suffix() {
    assert_eq!(
        construction_message("Karl's House Scroll"),
        "Construction complete: Karl's House."
    );
    assert_eq!(construction_message("Inn Scroll Scroll"), "Construction complete: Inn.");
    assert_eq!(construction_message("Scroll"), "Construction complete: Scroll.");
    assert_eq!(construction_message(" Scroll"), "Construction complete: .");
    assert_eq!(construction_message("Rowan's Hütte"), "Construction complete: Rowan's Hütte.");
    assert_eq!(
        construction_message("House Scroll"),
        format!("Construction complete: {}.", "House Scroll".trim_end_matches(" Scroll"))
    );
}

#[test]
fn usable_items_are_found_by_instance() {
    let bag = vec![
        bag_item(1, "scroll_of_inn", 0),
        bag_item(2, "apple", 3),
        bag_item(1, "scroll_of_karl_house", 1),
    ];
    assert_eq!(find_usable_item(&bag, 1), Some(2));
    assert_eq!(find_usable_item(&bag, 2), Some(1));
    assert_eq!(find_usable_item(&bag, 3), None);
    assert!(holds_item_instance(&bag, 1, "scroll_of_karl_house"));
    assert!(!holds_item_instance(&bag, 1, "scroll_of_inn"));
    assert!(!holds_item_instance(&bag, 2, "scroll_of_inn"));
}

#[test]
fn placement_starts_only_from_a_house_scroll_in_the_bag() {
    let bag = vec![bag_item(1, "scroll_of_inn", 1), bag_item(2, "apple", 3)];
    assert_eq!(scroll_template_in_bag(&bag, 1), Some(3));
    assert_eq!(scroll_template_in_bag(&bag, 2), None);
    assert_eq!(scroll_template_in_bag(&bag, 9), None);
    let used_up = vec![bag_item(1, "scroll_of_inn", 0)];
    assert_eq!(scroll_template_in_bag(&used_up, 1), None);
}

#[test]
fn numbers_are_written_in_decimal_and_hex() {
    let mut s = String::from("n=");
    push_decimal(&mut s, 0);
    push_decimal(&mut s, 1234567890);
    assert_eq!(s, "n=01234567890");
    let mut s = String::new();
    push_decimal(&mut s, u64::MAX);
    assert_eq!(s, u64::MAX.to_string());
    let mut s = String::new();
    push_signed_decimal(&mut s, -305);
    assert_eq!(s, "-305");
    let mut s = String::new();
    push_hex(&mut s, 0x1f, 8);
    assert_eq!(s, "0000001f");
    let mut s = String::new();
    push_hex(&mut s, 0x12345, 2);
    assert_eq!(s, "45");
}

#[test]
fn texts_compare_by_characters() {
    assert!(same_text("abc", "abc"));
    assert!(!same_text("abc", "abd"));
    assert!(!same_text("abc", "ab"));
    assert!(same_text("", ""));
    assert!(same_text("Hütte", "Hütte"));
}

#[test]
fn a_foundation_lies_in_the_estate_only_when_every_cell_is_owned() {
    let house = plan(vec![room(0, false, 0, 0, 2, 2)]);
    let cells = foundation_cells(&house);
    // an estate of one plot covering x and z in 0..4
    let plot = |(x, z): (i32, i32)| (0..4).contains(&x) && (0..4).contains(&z);
    assert!(foundation_inside_estate(&cells, plot));
    let moved: Vec<(i32, i32)> = cells.iter().map(|&(x, z)| (x + 30, z)).collect();
    assert!(!foundation_inside_estate(&moved, plot));
    let straddling: Vec<(i32, i32)> = cells.iter().map(|&(x, z)| (x + 3, z)).collect();
    assert!(!foundation_inside_estate(&straddling, plot));
    assert!(!foundation_inside_estate(&[], |_c: (i32, i32)| true));
}
