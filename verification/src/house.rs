//! Houses as the placement logic sees them: rooms on floors, their
//! foundation cells, the scrolls that carry a house template, and the texts
//! that name a house's owner and report a finished construction.
use crate::cells::{
    covers, distinct_cells, first_occurrences, lemma_distinct_cells, ranges_cells, CellRange,
};
use crate::text::{push_signed_decimal, same_text, signed_decimal_text};
use vstd::prelude::*;

verus! {

/// One room of a house, placed on the cell grid relative to the house's
/// origin. Each wall is a list of segments, given by whether the segment is
/// open (a doorway) or closed.
pub struct HouseRoom {
    pub floor_level: i32,
    pub is_stairwell: bool,
    pub local_x: i32,
    pub local_z: i32,
    pub size_x: u8,
    pub size_z: u8,
    pub wall_north: Vec<bool>,
    pub wall_south: Vec<bool>,
    pub wall_east: Vec<bool>,
    pub wall_west: Vec<bool>,
}

/// A house without its position in the world: its id, its owner's id and
/// its rooms.
pub struct HousePlan {
    pub id: String,
    pub owner_id: String,
    pub rooms: Vec<HouseRoom>,
}

/// Whether a room stands on the ground: on the ground floor and not a
/// stairwell.
pub open spec fn is_foundation_room(room: HouseRoom) -> bool {
    room.floor_level == 0 && !room.is_stairwell
}

/// The cells of a room, as an inclusive range (for a room of positive size).
pub open spec fn room_range(room: HouseRoom) -> CellRange {
    CellRange {
        min_x: room.local_x,
        min_z: room.local_z,
        max_x: (room.local_x + room.size_x - 1) as i32,
        max_z: (room.local_z + room.size_z - 1) as i32,
    }
}

/// The cell ranges of the foundation rooms of positive size, in room order.
pub open spec fn foundation_ranges(rooms: Seq<HouseRoom>) -> Seq<CellRange>
    decreases rooms.len(),
{
    if rooms.len() == 0 {
        Seq::empty()
    } else {
        let last = rooms.last();
        let rest = foundation_ranges(rooms.drop_last());
        if is_foundation_room(last) && last.size_x > 0 && last.size_z > 0 {
            rest.push(room_range(last))
        } else {
            rest
        }
    }
}

/// Whether every foundation room's extent stays on the `i32` grid.
pub open spec fn rooms_fit_grid(rooms: Seq<HouseRoom>) -> bool {
    forall|i: int|
        0 <= i < rooms.len() && is_foundation_room(#[trigger] rooms[i]) ==> rooms[i].local_x
            + rooms[i].size_x <= i32::MAX && rooms[i].local_z + rooms[i].size_z <= i32::MAX
}

/// Whether a foundation room of `rooms` covers cell (`x`, `z`).
pub open spec fn in_foundation(rooms: Seq<HouseRoom>, x: int, z: int) -> bool {
    exists|i: int|
        0 <= i < rooms.len() && is_foundation_room(#[trigger] rooms[i]) && rooms[i].local_x <= x
            < rooms[i].local_x + rooms[i].size_x && rooms[i].local_z <= z < rooms[i].local_z
            + rooms[i].size_z
}

/// Whether `room` stands on the ground.
pub fn is_foundation(room: &HouseRoom) -> (b: bool)
    ensures
        b == is_foundation_room(*room),
{
    room.floor_level == 0 && !room.is_stairwell
}

/// A foundation range covers a cell exactly when a foundation room does.
pub proof fn lemma_foundation_ranges(rooms: Seq<HouseRoom>)
    requires
        rooms_fit_grid(rooms),
    ensures
        forall|x: int, z: int|
            (exists|k: int|
                0 <= k < foundation_ranges(rooms).len() && #[trigger] covers(
                    foundation_ranges(rooms)[k],
                    x,
                    z,
                )) <==> in_foundation(rooms, x, z),
    decreases rooms.len(),
{
    if rooms.len() > 0 {
        let t = rooms.drop_last();
        assert(rooms_fit_grid(t)) by {
            assert forall|i: int| 0 <= i < t.len() && is_foundation_room(#[trigger] t[i]) implies t[i].local_x + t[i].size_x
                <= i32::MAX && t[i].local_z + t[i].size_z <= i32::MAX by {
                assert(t[i] == rooms[i]);
            }
        }
        lemma_foundation_ranges(t);
        let last = rooms.last();
        let n = rooms.len() - 1;
        assert(rooms[n] == last);
        let rest = foundation_ranges(t);
        let fr = foundation_ranges(rooms);
        assert forall|x: int, z: int|
            (exists|k: int| 0 <= k < fr.len() && #[trigger] covers(fr[k], x, z)) <==> in_foundation(
                rooms,
                x,
                z,
            ) by {
            if exists|k: int| 0 <= k < fr.len() && #[trigger] covers(fr[k], x, z) {
                let k = choose|k: int| 0 <= k < fr.len() && #[trigger] covers(fr[k], x, z);
                if k < rest.len() {
                    assert(fr[k] == rest[k]);
                    assert(covers(rest[k], x, z));
                    assert(in_foundation(t, x, z));
                    let i = choose|i: int|
                        0 <= i < t.len() && is_foundation_room(#[trigger] t[i]) && t[i].local_x
                            <= x < t[i].local_x + t[i].size_x && t[i].local_z <= z < t[i].local_z
                            + t[i].size_z;
                    assert(rooms[i] == t[i]);
                } else {
                    assert(fr[k] == room_range(last));
                }
            }
            if in_foundation(rooms, x, z) {
                let i = choose|i: int|
                    0 <= i < rooms.len() && is_foundation_room(#[trigger] rooms[i])
                        && rooms[i].local_x <= x < rooms[i].local_x + rooms[i].size_x
                        && rooms[i].local_z <= z < rooms[i].local_z + rooms[i].size_z;
                if i < n {
                    assert(t[i] == rooms[i]);
                    assert(in_foundation(t, x, z));
                    let k = choose|k: int| 0 <= k < rest.len() && #[trigger] covers(rest[k], x, z);
                    assert(fr[k] == rest[k]);
                    assert(covers(fr[k], x, z));
                } else {
                    assert(fr[rest.len() as int] == room_range(last));
                    assert(covers(fr[rest.len() as int], x, z));
                }
            }
        }
    }
}

/// The ground cells of a house, relative to its origin: each cell of a
/// foundation room once, walking the rooms in order, each row by row.
pub fn foundation_cells(house: &HousePlan) -> (cells: Vec<(i32, i32)>)
    requires
        rooms_fit_grid(house.rooms@),
    ensures
        cells@ == first_occurrences(ranges_cells(foundation_ranges(house.rooms@))),
        cells@.no_duplicates(),
        forall|x: i32, z: i32|
            cells@.contains((x, z)) <==> in_foundation(house.rooms@, x as int, z as int),
{
    let mut ranges: Vec<CellRange> = Vec::new();
    let mut i: usize = 0;
    while i < house.rooms.len()
        invariant
            i <= house.rooms@.len(),
            rooms_fit_grid(house.rooms@),
            ranges@ == foundation_ranges(house.rooms@.take(i as int)),
        decreases house.rooms.len() - i,
    {
        let room = &house.rooms[i];
        assert(house.rooms@.take(i + 1).drop_last() =~= house.rooms@.take(i as int));
        assert(house.rooms@.take(i + 1).last() == house.rooms@[i as int]);
        assert(is_foundation_room(house.rooms@[i as int]) ==> house.rooms@[i as int].local_x
            + house.rooms@[i as int].size_x <= i32::MAX);
        if is_foundation(room) && room.size_x > 0 && room.size_z > 0 {
            ranges.push(
                CellRange {
                    min_x: room.local_x,
                    min_z: room.local_z,
                    max_x: room.local_x + (room.size_x as i32) - 1,
                    max_z: room.local_z + (room.size_z as i32) - 1,
                },
            );
        }
        i = i + 1;
    }
    assert(house.rooms@.take(house.rooms@.len() as int) =~= house.rooms@);
    let cells = distinct_cells(ranges.as_slice());
    proof {
        lemma_distinct_cells(ranges@);
        lemma_foundation_ranges(house.rooms@);
        assert forall|x: i32, z: i32|
            cells@.contains((x, z)) <==> in_foundation(house.rooms@, x as int, z as int) by {
            assert(cells@.contains((x, z)) <==> exists|k: int|
                0 <= k < ranges@.len() && #[trigger] covers(ranges@[k], x as int, z as int));
        }
    }
    cells
}

/// Whether a house's foundation lies inside its owner's estate: it has at
/// least one cell and `owns` accepts every cell, asked in order until one is
/// refused.
pub fn foundation_inside_estate<F: Fn((i32, i32)) -> bool>(cells: &[(i32, i32)], owns: F) -> (inside: bool)
    requires
        forall|c: (i32, i32)| owns.requires((c,)),
    ensures
        inside ==> cells@.len() > 0 && forall|i: int|
            0 <= i < cells@.len() ==> owns.ensures((#[trigger] cells@[i],), true),
        !inside ==> cells@.len() == 0 || exists|i: int|
            0 <= i < cells@.len() && owns.ensures((#[trigger] cells@[i],), false),
{
    if cells.len() == 0 {
        return false;
    }
    let mut i: usize = 0;
    while i < cells.len()
        invariant
            i <= cells@.len(),
            forall|c: (i32, i32)| owns.requires((c,)),
            forall|k: int| 0 <= k < i ==> owns.ensures((#[trigger] cells@[k],), true),
        decreases cells.len() - i,
    {
        let owned = owns(cells[i]);
        if !owned {
            assert(owns.ensures((cells@[i as int],), false));
            return false;
        }
        i = i + 1;
    }
    true
}

/// The item ids of the scrolls that carry a house template, in the order
/// their templates are listed.
pub open spec fn house_scroll_ids() -> Seq<Seq<char>> {
    seq![
        "scroll_of_rica_house"@,
        "scroll_of_karl_house"@,
        "scroll_of_aldwin_house"@,
        "scroll_of_inn"@,
        "scroll_of_rowan_house"@,
    ]
}

/// The position of `item_id` among the house scrolls, if it is one.
pub open spec fn house_scroll_position(item_id: Seq<char>) -> Option<usize> {
    if item_id == house_scroll_ids()[0] {
        Some(0)
    } else if item_id == house_scroll_ids()[1] {
        Some(1)
    } else if item_id == house_scroll_ids()[2] {
        Some(2)
    } else if item_id == house_scroll_ids()[3] {
        Some(3)
    } else if item_id == house_scroll_ids()[4] {
        Some(4)
    } else {
        None
    }
}

/// Which house template the item `item_id` carries: the position of its
/// scroll in `house_scroll_ids`, or `None` for an item that is no house scroll.
pub fn house_scroll_index(item_id: &str) -> (r: Option<usize>)
    ensures
        r == house_scroll_position(item_id@),
        r matches Some(i) ==> i < 5 && house_scroll_ids()[i as int] == item_id@,
        r is None ==> !house_scroll_ids().contains(item_id@),
{
    let r = if same_text(item_id, "scroll_of_rica_house") {
        Some(0)
    } else if same_text(item_id, "scroll_of_karl_house") {
        Some(1)
    } else if same_text(item_id, "scroll_of_aldwin_house") {
        Some(2)
    } else if same_text(item_id, "scroll_of_inn") {
        Some(3)
    } else if same_text(item_id, "scroll_of_rowan_house") {
        Some(4)
    } else {
        None
    };
    proof {
        if r is None {
            assert forall|k: int| 0 <= k < house_scroll_ids().len() implies house_scroll_ids()[k]
                != item_id@ by {}
        }
    }
    r
}

/// The id under which a house is owned by character `character_id`: the id
/// in decimal.
pub fn owner_id_text(character_id: i64) -> (s: String)
    ensures
        s@ == signed_decimal_text(character_id as int),
{
    let mut s = String::new();
    push_signed_decimal(&mut s, character_id);
    assert(s@ =~= signed_decimal_text(character_id as int));
    s
}

/// Whether `house` belongs to character `character_id`.
pub fn is_owned_by(house: &HousePlan, character_id: i64) -> (b: bool)
    ensures
        b == (house.owner_id@ == signed_decimal_text(character_id as int)),
{
    let owner = owner_id_text(character_id);
    same_text(house.owner_id.as_str(), owner.as_str())
}

/// A wall of `n` closed segments.
fn closed_wall(n: usize) -> (w: Vec<bool>)
    ensures
        w@.len() == n,
        forall|k: int| 0 <= k < n ==> !w@[k],
{
    let mut w: Vec<bool> = Vec::new();
    let mut k: usize = 0;
    while k < n
        invariant
            k <= n,
            w@.len() == k,
            forall|j: int| 0 <= j < k ==> !w@[j],
        decreases n - k,
    {
        w.push(false);
        k = k + 1;
    }
    w
}

/// Whether `w` has `n` segments, all closed.
pub open spec fn all_closed(w: Seq<bool>, n: nat) -> bool {
    w.len() == n && forall|k: int| 0 <= k < n ==> !w[k]
}

/// Whether `new` is `old` with every wall segment closed.
pub open spec fn closed_version(old: HouseRoom, new: HouseRoom) -> bool {
    &&& new.floor_level == old.floor_level
    &&& new.is_stairwell == old.is_stairwell
    &&& new.local_x == old.local_x
    &&& new.local_z == old.local_z
    &&& new.size_x == old.size_x
    &&& new.size_z == old.size_z
    &&& all_closed(new.wall_north@, old.wall_north@.len())
    &&& all_closed(new.wall_south@, old.wall_south@.len())
    &&& all_closed(new.wall_east@, old.wall_east@.len())
    &&& all_closed(new.wall_west@, old.wall_west@.len())
}

/// Turns a house read from a scroll's template into the preview shown while
/// placing it: the preview id, no owner, and every wall segment closed.
pub fn prepare_template(house: &mut HousePlan)
    ensures
        final(house).id@ == "house-placement-preview"@,
        final(house).owner_id@ == Seq::<char>::empty(),
        final(house).rooms@.len() == old(house).rooms@.len(),
        forall|i: int|
            0 <= i < old(house).rooms@.len() ==> closed_version(
                #[trigger] old(house).rooms@[i],
                final(house).rooms@[i],
            ),
{
    house.id = String::from_str("house-placement-preview");
    house.owner_id = String::new();
    let ghost rooms0 = house.rooms@;
    let mut i: usize = 0;
    while i < house.rooms.len()
        invariant
            house.id@ == "house-placement-preview"@,
            house.owner_id@ == Seq::<char>::empty(),
            house.rooms@.len() == rooms0.len(),
            i <= rooms0.len(),
            forall|j: int| 0 <= j < i ==> closed_version(#[trigger] rooms0[j], house.rooms@[j]),
            forall|j: int| i <= j < rooms0.len() ==> #[trigger] house.rooms@[j] == rooms0[j],
        decreases rooms0.len() - i,
    {
        let room = &house.rooms[i];
        let closed = HouseRoom {
            floor_level: room.floor_level,
            is_stairwell: room.is_stairwell,
            local_x: room.local_x,
            local_z: room.local_z,
            size_x: room.size_x,
            size_z: room.size_z,
            wall_north: closed_wall(room.wall_north.len()),
            wall_south: closed_wall(room.wall_south.len()),
            wall_east: closed_wall(room.wall_east.len()),
            wall_west: closed_wall(room.wall_west.len()),
        };
        house.rooms[i] = closed;
        i = i + 1;
    }
}

/// The item name with every trailing " Scroll" taken off, as
/// `str::trim_end_matches` does.
pub open spec fn without_scroll_suffix(name: Seq<char>) -> Seq<char>
    decreases name.len(),
{
    if name.len() >= 7 && name.subrange(name.len() - 7, name.len() as int) == seq![
        ' ',
        'S',
        'c',
        'r',
        'o',
        'l',
        'l',
    ] {
        without_scroll_suffix(name.subrange(0, name.len() - 7))
    } else {
        name
    }
}

/// Whether the first `n` characters of `name` end in " Scroll".
fn ends_with_scroll(name: &str, n: usize) -> (b: bool)
    requires
        n <= name@.len(),
    ensures
        b == (n >= 7 && name@.subrange(n - 7, n as int) == seq![
            ' ',
            'S',
            'c',
            'r',
            'o',
            'l',
            'l',
        ]),
{
    if n < 7 {
        return false;
    }
    let b = name.get_char(n - 7) == ' ' && name.get_char(n - 6) == 'S' && name.get_char(n - 5)
        == 'c' && name.get_char(n - 4) == 'r' && name.get_char(n - 3) == 'o' && name.get_char(n - 2)
        == 'l' && name.get_char(n - 1) == 'l';
    let ghost tail = name@.subrange(n - 7, n as int);
    let ghost word = seq![' ', 'S', 'c', 'r', 'o', 'l', 'l'];
    assert(b ==> tail =~= word);
    assert(tail == word ==> b) by {
        if tail == word {
            assert(tail[0] == name@[n - 7]);
            assert(tail[1] == name@[n - 6]);
            assert(tail[2] == name@[n - 5]);
            assert(tail[3] == name@[n - 4]);
            assert(tail[4] == name@[n - 3]);
            assert(tail[5] == name@[n - 2]);
            assert(tail[6] == name@[n - 1]);
        }
    }
    b
}

/// The text that announces a finished house built from the item named
/// `item_name`: "Construction complete: " and the name without its trailing
/// " Scroll", then a full stop.
pub fn construction_message(item_name: &str) -> (m: String)
    ensures
        m@ == "Construction complete: "@ + without_scroll_suffix(item_name@) + "."@,
{
    let mut n = item_name.unicode_len();
    assert(item_name@.subrange(0, n as int) =~= item_name@);
    while ends_with_scroll(item_name, n)
        invariant
            n <= item_name@.len(),
            without_scroll_suffix(item_name@.subrange(0, n as int)) == without_scroll_suffix(
                item_name@,
            ),
        decreases n,
    {
        proof {
            let s = item_name@.subrange(0, n as int);
            assert(s.subrange(s.len() - 7, s.len() as int) =~= item_name@.subrange(
                n - 7,
                n as int,
            ));
            assert(s.subrange(0, s.len() - 7) =~= item_name@.subrange(0, n - 7));
        }
        n = n - 7;
    }
    proof {
        let s = item_name@.subrange(0, n as int);
        if s.len() >= 7 {
            assert(s.subrange(s.len() - 7, s.len() as int) =~= item_name@.subrange(
                n - 7,
                n as int,
            ));
        }
        assert(without_scroll_suffix(s) == s);
        assert(item_name@.subrange(0, item_name@.len() as int) =~= item_name@);
    }
    let mut m = String::from_str("Construction complete: ");
    m.append(item_name.substring_char(0, n));
    m.append(".");
    m
}

/// One stack in a player's bag, as far as placing a house reads it.
pub struct BagItem {
    pub instance_id: u64,
    pub item_def_id: String,
    pub quantity: u32,
}

/// Whether bag entry `item` is the instance `instance_id` and not used up.
pub open spec fn usable_instance(item: BagItem, instance_id: u64) -> bool {
    item.instance_id == instance_id && item.quantity > 0
}

/// The first entry of `bag` that is the instance `instance_id` and not used up.
pub fn find_usable_item(bag: &[BagItem], instance_id: u64) -> (r: Option<usize>)
    ensures
        r matches Some(i) ==> i < bag@.len() && usable_instance(bag@[i as int], instance_id)
            && forall|k: int| 0 <= k < i ==> !usable_instance(#[trigger] bag@[k], instance_id),
        r is None ==> forall|k: int|
            0 <= k < bag@.len() ==> !usable_instance(#[trigger] bag@[k], instance_id),
{
    let mut i: usize = 0;
    while i < bag.len()
        invariant
            i <= bag@.len(),
            forall|k: int| 0 <= k < i ==> !usable_instance(#[trigger] bag@[k], instance_id),
        decreases bag.len() - i,
    {
        if bag[i].instance_id == instance_id && bag[i].quantity > 0 {
            return Some(i);
        }
        i = i + 1;
    }
    None
}

/// Whether `bag` still holds the instance `instance_id` of item `item_id`,
/// not used up.
pub fn holds_item_instance(bag: &[BagItem], instance_id: u64, item_id: &str) -> (b: bool)
    ensures
        b == exists|k: int|
            0 <= k < bag@.len() && usable_instance(#[trigger] bag@[k], instance_id)
                && bag@[k].item_def_id@ == item_id@,
{
    let mut i: usize = 0;
    while i < bag.len()
        invariant
            i <= bag@.len(),
            forall|k: int|
                0 <= k < i ==> !(usable_instance(#[trigger] bag@[k], instance_id)
                    && bag@[k].item_def_id@ == item_id@),
        decreases bag.len() - i,
    {
        if bag[i].instance_id == instance_id && bag[i].quantity > 0 && same_text(
            bag[i].item_def_id.as_str(),
            item_id,
        ) {
            return true;
        }
        i = i + 1;
    }
    false
}

/// Which house template the instance `instance_id` in `bag` carries: the
/// template of the first usable entry with that instance id, or `None` when
/// there is no such entry or it is not a house scroll (placement then does
/// not start).
pub fn scroll_template_in_bag(bag: &[BagItem], instance_id: u64) -> (r: Option<usize>)
    ensures
        r is Some ==> exists|i: int|
            0 <= i < bag@.len() && usable_instance(#[trigger] bag@[i], instance_id) && (forall|
                k: int,
            | 0 <= k < i ==> !usable_instance(#[trigger] bag@[k], instance_id))
                && house_scroll_position(bag@[i].item_def_id@) == r,
        r is None ==> forall|i: int|
            0 <= i < bag@.len() && usable_instance(#[trigger] bag@[i], instance_id) && (forall|
                k: int,
            | 0 <= k < i ==> !usable_instance(#[trigger] bag@[k], instance_id))
                ==> house_scroll_position(bag@[i].item_def_id@) is None,
{
    match find_usable_item(bag, instance_id) {
        Some(i) => {
            let r = house_scroll_index(bag[i].item_def_id.as_str());
            proof {
                if r is None {
                    assert forall|j: int|
                        0 <= j < bag@.len() && usable_instance(#[trigger] bag@[j], instance_id)
                            && (forall|k: int|
                            0 <= k < j ==> !usable_instance(#[trigger] bag@[k], instance_id))
                            implies house_scroll_position(bag@[j].item_def_id@) is None by {
                        if j < i {
                        } else if j > i {
                            assert(!usable_instance(bag@[i as int], instance_id));
                        }
                    }
                }
            }
            r
        },
        None => None,
    }
}

/// A kind of terrain tile that clients cache and must reload after a house
/// changes the ground under it.
#[derive(Clone, Copy, Debug, PartialEq, Eq, Structural)]
pub enum TileLayer {
    Height,
    Tree,
    Grass,
}

/// The layers to invalidate after a house change, in the order height,
/// trees, grass, each only when some of its tiles changed.
pub open spec fn invalidated_layers(height_changed: bool, tree_changed: bool, grass_changed: bool) -> Seq<
    TileLayer,
> {
    (if height_changed {
        seq![TileLayer::Height]
    } else {
        Seq::empty()
    }) + (if tree_changed {
        seq![TileLayer::Tree]
    } else {
        Seq::empty()
    }) + (if grass_changed {
        seq![TileLayer::Grass]
    } else {
        Seq::empty()
    })
}

/// The place of a layer in the order height, trees, grass.
pub open spec fn layer_rank(l: TileLayer) -> int {
    match l {
        TileLayer::Height => 0,
        TileLayer::Tree => 1,
        TileLayer::Grass => 2,
    }
}

/// Each layer is invalidated exactly when its own tiles changed, whatever
/// changed in the others, and the layers come in the order height, trees,
/// grass, each at most once.
pub proof fn lemma_invalidated_layers(height_changed: bool, tree_changed: bool, grass_changed: bool)
    ensures
        invalidated_layers(height_changed, tree_changed, grass_changed).contains(TileLayer::Height)
            <==> height_changed,
        invalidated_layers(height_changed, tree_changed, grass_changed).contains(TileLayer::Tree)
            <==> tree_changed,
        invalidated_layers(height_changed, tree_changed, grass_changed).contains(TileLayer::Grass)
            <==> grass_changed,
        forall|i: int, j: int|
            0 <= i < j < invalidated_layers(height_changed, tree_changed, grass_changed).len()
                ==> layer_rank(
                #[trigger] invalidated_layers(height_changed, tree_changed, grass_changed)[i],
            ) < layer_rank(
                #[trigger] invalidated_layers(height_changed, tree_changed, grass_changed)[j],
            ),
{
    let s = invalidated_layers(height_changed, tree_changed, grass_changed);
    let a: Seq<TileLayer> = if height_changed {
        seq![TileLayer::Height]
    } else {
        Seq::empty()
    };
    let b: Seq<TileLayer> = if tree_changed {
        seq![TileLayer::Tree]
    } else {
        Seq::empty()
    };
    let c: Seq<TileLayer> = if grass_changed {
        seq![TileLayer::Grass]
    } else {
        Seq::empty()
    };
    assert(s == a + b + c);
    crate::cells::lemma_concat_contains(a, b);
    crate::cells::lemma_concat_contains(a + b, c);
    if height_changed {
        assert(a[0] == TileLayer::Height);
    }
    if tree_changed {
        assert(b[0] == TileLayer::Tree);
    }
    if grass_changed {
        assert(c[0] == TileLayer::Grass);
    }
    assert forall|i: int, j: int| 0 <= i < j < s.len() implies layer_rank(#[trigger] s[i])
        < layer_rank(#[trigger] s[j]) by {
        assert forall|k: int| 0 <= k < s.len() implies layer_rank(#[trigger] s[k]) == (if k
            < a.len() {
            0int
        } else if k < a.len() + b.len() {
            1int
        } else {
            2int
        }) by {
            if k < a.len() {
                assert(s[k] == a[k]);
            } else if k < a.len() + b.len() {
                assert(s[k] == b[k - a.len()]);
            } else {
                assert(s[k] == c[k - a.len() - b.len()]);
            }
        }
        assert(layer_rank(s[i]) == (if i < a.len() {
            0int
        } else if i < a.len() + b.len() {
            1int
        } else {
            2int
        }));
        assert(layer_rank(s[j]) == (if j < a.len() {
            0int
        } else if j < a.len() + b.len() {
            1int
        } else {
            2int
        }));
        assert(a.len() <= 1 && b.len() <= 1 && c.len() <= 1);
    }
}

/// Which tile layers to invalidate after a house change, given the tiles
/// changed in each layer.
pub fn tile_invalidations(
    changed_height_tiles: &[(i32, i32)],
    changed_tree_tiles: &[(i32, i32)],
    changed_grass_tiles: &[(i32, i32)],
) -> (layers: Vec<TileLayer>)
    ensures
        layers@ == invalidated_layers(
            changed_height_tiles@.len() > 0,
            changed_tree_tiles@.len() > 0,
            changed_grass_tiles@.len() > 0,
        ),
        layers@.contains(TileLayer::Height) <==> changed_height_tiles@.len() > 0,
        layers@.contains(TileLayer::Tree) <==> changed_tree_tiles@.len() > 0,
        layers@.contains(TileLayer::Grass) <==> changed_grass_tiles@.len() > 0,
        forall|i: int, j: int|
            0 <= i < j < layers@.len() ==> layer_rank(#[trigger] layers@[i]) < layer_rank(
                #[trigger] layers@[j],
            ),
{
    proof {
        lemma_invalidated_layers(
            changed_height_tiles@.len() > 0,
            changed_tree_tiles@.len() > 0,
            changed_grass_tiles@.len() > 0,
        );
    }
    let mut layers: Vec<TileLayer> = Vec::new();
    if changed_height_tiles.len() > 0 {
        layers.push(TileLayer::Height);
    }
    if changed_tree_tiles.len() > 0 {
        layers.push(TileLayer::Tree);
    }
    if changed_grass_tiles.len() > 0 {
        layers.push(TileLayer::Grass);
    }
    assert(layers@ =~= invalidated_layers(
        changed_height_tiles@.len() > 0,
        changed_tree_tiles@.len() > 0,
        changed_grass_tiles@.len() > 0,
    ));
    layers
}

} // verus!
