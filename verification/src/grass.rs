//! The grass v3 tile format, and removing the grass that lies under an
//! exclusion such as a house foundation.
//!
//! A grass v3 tile is a 16-byte header followed by instances of 6 bytes:
//! the header holds the magic number and, for each of the three grass
//! types, how many instances of that type follow (all little-endian
//! `u32`). The instances are stored type by type; each starts with the
//! instance's position inside its tile as two little-endian `u16`
//! (x, then z), followed by two bytes that this module carries through
//! unchanged.
use crate::le_bytes::{lemma_u32_le_at_concat, u16_le_at, u32_le_at, u32_le_bytes};
use crate::text::{decimal_text, hex_text, push_decimal, push_hex};
use vstd::prelude::*;

verus! {

/// The first four bytes of every grass v3 tile.
pub const GRASS_V3_MAGIC: u32 = 0x3353_5247;

/// Length of the header: magic and three instance counts.
pub const GRASS_V3_HEADER_BYTES: usize = 16;

/// Length of one stored grass instance.
pub const GRASS_V3_BYTES_PER_INSTANCE: usize = 6;

/// Why a buffer is not a grass v3 tile.
#[derive(Clone, Copy, Debug, PartialEq, Eq, Structural)]
pub enum GrassDataError {
    /// The buffer ends inside the header.
    HeaderTruncated,
    /// The buffer starts with another magic number.
    UnsupportedMagic { magic: u32 },
    /// The buffer's length is not what its header announces.
    LengthMismatch { expected: u64, actual: usize },
}

/// Where one grass instance stands: its tile and its position inside it.
#[derive(Clone, Copy, Debug, PartialEq, Eq, Structural)]
pub struct GrassSpot {
    pub tile_x: i32,
    pub tile_z: i32,
    pub local_x: u16,
    pub local_z: u16,
}

/// The text that reports `e`, as the terrain service words it.
pub open spec fn grass_error_text(e: GrassDataError) -> Seq<char> {
    match e {
        GrassDataError::HeaderTruncated => "grass data header is truncated"@,
        GrassDataError::UnsupportedMagic { magic } => "unsupported grass data magic 0x"@ + hex_text(
            magic as nat,
            8,
        ),
        GrassDataError::LengthMismatch { expected, actual } => "grass data length mismatch: expected "@
            + decimal_text(expected as nat) + ", got "@ + decimal_text(actual as nat),
    }
}

impl GrassDataError {
    /// The text that reports this error.
    pub fn message(&self) -> (m: String)
        ensures
            m@ == grass_error_text(*self),
    {
        match self {
            GrassDataError::HeaderTruncated => String::from_str("grass data header is truncated"),
            GrassDataError::UnsupportedMagic { magic } => {
                let mut m = String::from_str("unsupported grass data magic 0x");
                push_hex(&mut m, *magic as u64, 8);
                m
            },
            GrassDataError::LengthMismatch { expected, actual } => {
                let mut m = String::from_str("grass data length mismatch: expected ");
                push_decimal(&mut m, *expected);
                m.append(", got ");
                push_decimal(&mut m, *actual as u64);
                m
            },
        }
    }

    /// This error as the `InvalidData` I/O error that the terrain service
    /// reports, with the text of `message`. The text handed on is verified;
    /// the returned `std::io::Error` is opaque to Verus, so no clause speaks
    /// of its kind or text.
    pub fn into_io_error(self) -> std::io::Error {
        invalid_grass_data(self.message())
    }
}

#[verifier::external_type_specification]
#[verifier::external_body]
pub struct ExIoError(std::io::Error);

/// Makes an I/O error of kind `InvalidData` that carries `message`, by
/// `std::io::Error::new`. Nothing is stated of the result, which Verus sees
/// as an opaque value.
#[verifier::external_body]
pub fn invalid_grass_data(message: String) -> std::io::Error {
    std::io::Error::new(std::io::ErrorKind::InvalidData, message)
}

/// What removing grass under a set of exclusions changed.
#[derive(Debug)]
pub struct GrassRemovalStats {
    /// How many tiles were rewritten.
    pub tiles_changed: usize,
    /// How many grass instances were removed over all tiles.
    pub grass_removed: usize,
    /// The rewritten tiles, in the order they were rewritten.
    pub changed_tiles: Vec<(i32, i32)>,
}

impl GrassRemovalStats {
    /// The count of changed tiles is the length of their list.
    pub open spec fn wf(&self) -> bool {
        self.tiles_changed == self.changed_tiles@.len()
    }

    /// Statistics of a removal that changed nothing.
    pub fn new() -> (s: Self)
        ensures
            s.wf(),
            s.tiles_changed == 0,
            s.grass_removed == 0,
            s.changed_tiles@ == Seq::<(i32, i32)>::empty(),
    {
        GrassRemovalStats { tiles_changed: 0, grass_removed: 0, changed_tiles: Vec::new() }
    }

    /// Records that tile (`tile_x`, `tile_z`) was rewritten without `removed`
    /// of its instances.
    pub fn record_tile(&mut self, tile_x: i32, tile_z: i32, removed: usize)
        requires
            old(self).tiles_changed < usize::MAX,
            old(self).grass_removed + removed <= usize::MAX,
        ensures
            final(self).tiles_changed == old(self).tiles_changed + 1,
            final(self).grass_removed == old(self).grass_removed + removed,
            final(self).changed_tiles@ == old(self).changed_tiles@.push((tile_x, tile_z)),
            old(self).wf() ==> final(self).wf(),
    {
        self.tiles_changed = self.tiles_changed + 1;
        self.grass_removed = self.grass_removed + removed;
        self.changed_tiles.push((tile_x, tile_z));
    }
}

/// Number of instances of grass type `t` announced by the header.
pub open spec fn grass_count(data: Seq<u8>, t: int) -> int {
    u32_le_at(data, 4 + 4 * t)
}

/// Number of instances of all types announced by the header.
pub open spec fn grass_total(data: Seq<u8>) -> int {
    grass_count(data, 0) + grass_count(data, 1) + grass_count(data, 2)
}

/// Length of a tile whose header announces `total` instances.
pub open spec fn grass_expected_len(total: int) -> int {
    GRASS_V3_HEADER_BYTES + GRASS_V3_BYTES_PER_INSTANCE * total
}

/// What is wrong with `data` as a grass v3 tile, checked in this order:
/// the header's length, its magic number, then the total length.
pub open spec fn grass_v3_error(data: Seq<u8>) -> Option<GrassDataError> {
    if data.len() < GRASS_V3_HEADER_BYTES {
        Some(GrassDataError::HeaderTruncated)
    } else if u32_le_at(data, 0) != GRASS_V3_MAGIC {
        Some(GrassDataError::UnsupportedMagic { magic: u32_le_at(data, 0) as u32 })
    } else if data.len() != grass_expected_len(grass_total(data)) {
        Some(
            GrassDataError::LengthMismatch {
                expected: grass_expected_len(grass_total(data)) as u64,
                actual: data.len() as usize,
            },
        )
    } else {
        None
    }
}

/// Offset of instance `i` in a tile.
pub open spec fn instance_offset(i: int) -> int {
    GRASS_V3_HEADER_BYTES + GRASS_V3_BYTES_PER_INSTANCE * i
}

/// The stored bytes of instance `i`.
pub open spec fn instance_bytes(data: Seq<u8>, i: int) -> Seq<u8> {
    data.subrange(instance_offset(i), instance_offset(i) + GRASS_V3_BYTES_PER_INSTANCE)
}

/// Where instance `i` of tile (`tile_x`, `tile_z`) stands.
pub open spec fn grass_spot(tile_x: i32, tile_z: i32, data: Seq<u8>, i: int) -> GrassSpot {
    GrassSpot {
        tile_x,
        tile_z,
        local_x: u16_le_at(data, instance_offset(i)) as u16,
        local_z: u16_le_at(data, instance_offset(i) + 2) as u16,
    }
}

/// How many of the instances in `lo..hi` the decisions `d` keep
/// (`d[i]` is true when instance `i` is removed).
pub open spec fn kept_in(d: Seq<bool>, lo: int, hi: int) -> int
    decreases hi - lo,
{
    if hi <= lo {
        0
    } else {
        kept_in(d, lo, hi - 1) + if d[hi - 1] {
            0int
        } else {
            1int
        }
    }
}

/// The bytes of the kept instances among the first `n`, in order.
pub open spec fn kept_bytes(data: Seq<u8>, d: Seq<bool>, n: int) -> Seq<u8>
    decreases n,
{
    if n <= 0 {
        Seq::empty()
    } else if d[n - 1] {
        kept_bytes(data, d, n - 1)
    } else {
        kept_bytes(data, d, n - 1) + instance_bytes(data, n - 1)
    }
}

/// The tile that keeps the instances of `data` that `d` does not remove:
/// the header with the kept counts per type, then the kept instances in
/// their stored order.
pub open spec fn filtered_grass(data: Seq<u8>, d: Seq<bool>) -> Seq<u8> {
    let c0 = grass_count(data, 0);
    let c1 = grass_count(data, 1);
    let total = grass_total(data);
    u32_le_bytes(GRASS_V3_MAGIC) + u32_le_bytes(kept_in(d, 0, c0) as u32) + u32_le_bytes(
        kept_in(d, c0, c0 + c1) as u32,
    ) + u32_le_bytes(kept_in(d, c0 + c1, total) as u32) + kept_bytes(data, d, total)
}

/// How many instances `d` removes from `data`.
pub open spec fn removed_count(data: Seq<u8>, d: Seq<bool>) -> int {
    grass_total(data) - kept_in(d, 0, grass_total(data))
}

/// Whether `d` is a decision for every instance of `data` that `should_remove`
/// can give for that instance's spot.
pub open spec fn decided_by<F: Fn(GrassSpot) -> bool>(
    should_remove: F,
    tile_x: i32,
    tile_z: i32,
    data: Seq<u8>,
    d: Seq<bool>,
) -> bool {
    &&& d.len() == grass_total(data)
    &&& forall|i: int|
        0 <= i < d.len() ==> #[trigger] should_remove.ensures(
            (grass_spot(tile_x, tile_z, data, i),),
            d[i],
        )
}

/// Whether `r` is the filtering result for a valid tile `data` under the
/// decisions `d`: nothing when no instance is removed, else the filtered tile
/// and how many instances left it.
pub open spec fn filter_result_for(
    r: Result<Option<(Vec<u8>, usize)>, GrassDataError>,
    data: Seq<u8>,
    d: Seq<bool>,
) -> bool {
    if removed_count(data, d) == 0 {
        r == Ok::<Option<(Vec<u8>, usize)>, GrassDataError>(None)
    } else {
        &&& r is Ok
        &&& r->Ok_0 is Some
        &&& r->Ok_0->Some_0.0@ == filtered_grass(data, d)
        &&& r->Ok_0->Some_0.1 == removed_count(data, d)
    }
}

/// Reads the little-endian `u32` at `offset` of a tile's header.
pub fn read_u32_le(data: &[u8], offset: usize) -> (r: Result<u32, GrassDataError>)
    ensures
        match r {
            Ok(v) => offset + 4 <= data@.len() && v == u32_le_at(data@, offset as int),
            Err(e) => offset + 4 > data@.len() && e == GrassDataError::HeaderTruncated,
        },
{
    if offset > data.len() || data.len() - offset < 4 {
        return Err(GrassDataError::HeaderTruncated);
    }
    let b0 = data[offset] as u32;
    let b1 = data[offset + 1] as u32;
    let b2 = data[offset + 2] as u32;
    let b3 = data[offset + 3] as u32;
    Ok(b0 + 256 * b1 + 65536 * b2 + 16777216 * b3)
}


/// Extending the decisions does not change what is kept among the decided ones.
pub proof fn lemma_kept_in_push(d: Seq<bool>, x: bool, lo: int, hi: int)
    requires
        0 <= lo,
        hi <= d.len() || hi <= lo,
    ensures
        kept_in(d.push(x), lo, hi) == kept_in(d, lo, hi),
    decreases hi - lo,
{
    if hi > lo {
        assert(d.push(x)[hi - 1] == d[hi - 1]);
        lemma_kept_in_push(d, x, lo, hi - 1);
    }
}

/// Extending the decisions does not change the kept bytes of the decided ones.
pub proof fn lemma_kept_bytes_push(data: Seq<u8>, d: Seq<bool>, x: bool, n: int)
    requires
        n <= d.len(),
    ensures
        kept_bytes(data, d.push(x), n) == kept_bytes(data, d, n),
    decreases n,
{
    if n > 0 {
        lemma_kept_bytes_push(data, d, x, n - 1);
    }
}

/// Counting the kept instances of a range splits at any point inside it.
pub proof fn lemma_kept_in_split(d: Seq<bool>, lo: int, mid: int, hi: int)
    requires
        lo <= mid <= hi,
    ensures
        kept_in(d, lo, hi) == kept_in(d, lo, mid) + kept_in(d, mid, hi),
    decreases hi - mid,
{
    if hi > mid {
        lemma_kept_in_split(d, lo, mid, hi - 1);
    }
}

/// At most every instance of a range is kept.
pub proof fn lemma_kept_in_bounds(d: Seq<bool>, lo: int, hi: int)
    requires
        lo <= hi,
    ensures
        0 <= kept_in(d, lo, hi) <= hi - lo,
    decreases hi - lo,
{
    if hi > lo {
        lemma_kept_in_bounds(d, lo, hi - 1);
    }
}

/// The kept instances take six bytes each.
pub proof fn lemma_kept_bytes_len(data: Seq<u8>, d: Seq<bool>, n: int)
    requires
        0 <= n,
        instance_offset(n) <= data.len(),
    ensures
        kept_bytes(data, d, n).len() == GRASS_V3_BYTES_PER_INSTANCE * kept_in(d, 0, n),
    decreases n,
{
    if n > 0 {
        lemma_kept_bytes_len(data, d, n - 1);
    }
}

/// Filtering a valid tile gives a valid tile: its header carries the magic
/// number and, per type, the count of kept instances, and it is shorter than
/// the input by the bytes of the removed instances.
pub proof fn lemma_filtered_grass_is_valid(data: Seq<u8>, d: Seq<bool>)
    requires
        grass_v3_error(data) is None,
        d.len() == grass_total(data),
    ensures
        grass_v3_error(filtered_grass(data, d)) is None,
        grass_count(filtered_grass(data, d), 0) == kept_in(d, 0, grass_count(data, 0)),
        grass_count(filtered_grass(data, d), 1) == kept_in(
            d,
            grass_count(data, 0),
            grass_count(data, 0) + grass_count(data, 1),
        ),
        grass_count(filtered_grass(data, d), 2) == kept_in(
            d,
            grass_count(data, 0) + grass_count(data, 1),
            grass_total(data),
        ),
        grass_total(filtered_grass(data, d)) == grass_total(data) - removed_count(data, d),
        filtered_grass(data, d).len() == data.len() - GRASS_V3_BYTES_PER_INSTANCE
            * removed_count(data, d),
{
    let c0 = grass_count(data, 0);
    let c1 = grass_count(data, 1);
    let total = grass_total(data);
    let k0 = kept_in(d, 0, c0);
    let k1 = kept_in(d, c0, c0 + c1);
    let k2 = kept_in(d, c0 + c1, total);
    crate::le_bytes::lemma_u32_le_bounds(data, 4);
    crate::le_bytes::lemma_u32_le_bounds(data, 8);
    lemma_kept_in_bounds(d, 0, c0);
    lemma_kept_in_bounds(d, c0, c0 + c1);
    lemma_kept_in_bounds(d, c0 + c1, total);
    lemma_kept_in_split(d, 0, c0, c0 + c1);
    lemma_kept_in_split(d, 0, c0 + c1, total);
    lemma_kept_bytes_len(data, d, total);
    let m = u32_le_bytes(GRASS_V3_MAGIC);
    let b0 = u32_le_bytes(k0 as u32);
    let b1 = u32_le_bytes(k1 as u32);
    let b2 = u32_le_bytes(k2 as u32);
    let kb = kept_bytes(data, d, total);
    let f = filtered_grass(data, d);
    crate::le_bytes::lemma_u32_le_round_trip(GRASS_V3_MAGIC);
    crate::le_bytes::lemma_u32_le_round_trip(k0 as u32);
    crate::le_bytes::lemma_u32_le_round_trip(k1 as u32);
    crate::le_bytes::lemma_u32_le_round_trip(k2 as u32);
    assert(f == Seq::<u8>::empty() + m + (b0 + b1 + b2 + kb));
    lemma_u32_le_at_concat(Seq::<u8>::empty(), GRASS_V3_MAGIC, b0 + b1 + b2 + kb);
    assert(f == m + b0 + (b1 + b2 + kb));
    lemma_u32_le_at_concat(m, k0 as u32, b1 + b2 + kb);
    assert(f == m + b0 + b1 + (b2 + kb));
    lemma_u32_le_at_concat(m + b0, k1 as u32, b2 + kb);
    assert(f == m + b0 + b1 + b2 + kb);
    lemma_u32_le_at_concat(m + b0 + b1, k2 as u32, kb);
}

/// Each six-byte block of the kept bytes is a kept instance of the input.
proof fn lemma_kept_block(data: Seq<u8>, d: Seq<bool>, n: int, j: int)
    requires
        0 <= n,
        instance_offset(n) <= data.len(),
        0 <= j < kept_in(d, 0, n),
    ensures
        exists|i: int|
            0 <= i < n && !d[i] && #[trigger] instance_bytes(data, i) == kept_bytes(
                data,
                d,
                n,
            ).subrange(6 * j, 6 * j + 6),
    decreases n,
{
    lemma_kept_in_bounds(d, 0, n - 1);
    lemma_kept_bytes_len(data, d, n - 1);
    let prev = kept_bytes(data, d, n - 1);
    if d[n - 1] {
        lemma_kept_block(data, d, n - 1, j);
        let i = choose|i: int|
            0 <= i < n - 1 && !d[i] && #[trigger] instance_bytes(data, i) == prev.subrange(
                6 * j,
                6 * j + 6,
            );
        assert(instance_bytes(data, i) == kept_bytes(data, d, n).subrange(6 * j, 6 * j + 6));
    } else {
        let cur = kept_bytes(data, d, n);
        assert(cur == prev + instance_bytes(data, n - 1));
        if j < kept_in(d, 0, n - 1) {
            lemma_kept_block(data, d, n - 1, j);
            let i = choose|i: int|
                0 <= i < n - 1 && !d[i] && #[trigger] instance_bytes(data, i) == prev.subrange(
                    6 * j,
                    6 * j + 6,
                );
            assert(prev.subrange(6 * j, 6 * j + 6) =~= cur.subrange(6 * j, 6 * j + 6));
            assert(instance_bytes(data, i) == cur.subrange(6 * j, 6 * j + 6));
        } else {
            assert(j == kept_in(d, 0, n - 1));
            assert(instance_bytes(data, n - 1) =~= cur.subrange(6 * j, 6 * j + 6));
        }
    }
}

/// Filtering is settled by one pass: when the decisions come from a rule on
/// spots, no instance of the filtered tile is one that the rule removes, so
/// filtering the result again with the same rule removes nothing.
pub proof fn lemma_filter_again_removes_nothing(
    tile_x: i32,
    tile_z: i32,
    data: Seq<u8>,
    d: Seq<bool>,
    rule: spec_fn(GrassSpot) -> bool,
)
    requires
        grass_v3_error(data) is None,
        d.len() == grass_total(data),
        forall|i: int|
            0 <= i < d.len() ==> d[i] == rule(#[trigger] grass_spot(tile_x, tile_z, data, i)),
    ensures
        grass_v3_error(filtered_grass(data, d)) is None,
        forall|j: int|
            0 <= j < grass_total(filtered_grass(data, d)) ==> !rule(
                #[trigger] grass_spot(tile_x, tile_z, filtered_grass(data, d), j),
            ),
{
    lemma_filtered_grass_is_valid(data, d);
    let f = filtered_grass(data, d);
    let total = grass_total(data);
    let kb = kept_bytes(data, d, total);
    lemma_kept_bytes_len(data, d, total);
    lemma_kept_in_bounds(d, 0, total);
    assert forall|j: int| 0 <= j < grass_total(f) implies !rule(
        #[trigger] grass_spot(tile_x, tile_z, f, j),
    ) by {
        let c0 = grass_count(data, 0);
        let c1 = grass_count(data, 1);
        lemma_kept_in_split(d, 0, c0, c0 + c1);
        lemma_kept_in_split(d, 0, c0 + c1, total);
        assert(j < kept_in(d, 0, total));
        lemma_kept_block(data, d, total, j);
        let i = choose|i: int|
            0 <= i < total && !d[i] && #[trigger] instance_bytes(data, i) == kb.subrange(
                6 * j,
                6 * j + 6,
            );
        let head = u32_le_bytes(GRASS_V3_MAGIC) + u32_le_bytes(kept_in(d, 0, c0) as u32)
            + u32_le_bytes(kept_in(d, c0, c0 + c1) as u32) + u32_le_bytes(
            kept_in(d, c0 + c1, total) as u32,
        );
        assert(f == head + kb);
        assert(head.len() == 16);
        assert(f[16 + 6 * j + 0] == kb[6 * j + 0]);
        assert(kb.subrange(6 * j, 6 * j + 6)[0] == kb[6 * j + 0]);
        assert(instance_bytes(data, i)[0] == data[instance_offset(i) + 0]);
        assert(f[16 + 6 * j + 1] == kb[6 * j + 1]);
        assert(kb.subrange(6 * j, 6 * j + 6)[1] == kb[6 * j + 1]);
        assert(instance_bytes(data, i)[1] == data[instance_offset(i) + 1]);
        assert(f[16 + 6 * j + 2] == kb[6 * j + 2]);
        assert(kb.subrange(6 * j, 6 * j + 6)[2] == kb[6 * j + 2]);
        assert(instance_bytes(data, i)[2] == data[instance_offset(i) + 2]);
        assert(f[16 + 6 * j + 3] == kb[6 * j + 3]);
        assert(kb.subrange(6 * j, 6 * j + 6)[3] == kb[6 * j + 3]);
        assert(instance_bytes(data, i)[3] == data[instance_offset(i) + 3]);
        assert(grass_spot(tile_x, tile_z, f, j) == grass_spot(tile_x, tile_z, data, i));
    }
}

/// Each kept instance `i` among the first `n` sits in the kept bytes as the
/// block numbered by how many instances before it are kept.
proof fn lemma_kept_bytes_place(data: Seq<u8>, d: Seq<bool>, n: int, i: int)
    requires
        0 <= i < n,
        instance_offset(n) <= data.len(),
        !d[i],
    ensures
        kept_bytes(data, d, n).subrange(6 * kept_in(d, 0, i), 6 * kept_in(d, 0, i) + 6)
            == instance_bytes(data, i),
    decreases n,
{
    lemma_kept_bytes_len(data, d, n - 1);
    let prev = kept_bytes(data, d, n - 1);
    let cur = kept_bytes(data, d, n);
    let p = 6 * kept_in(d, 0, i);
    if i == n - 1 {
        assert(cur == prev + instance_bytes(data, i));
        assert(cur.subrange(p, p + 6) =~= instance_bytes(data, i));
    } else {
        lemma_kept_bytes_place(data, d, n - 1, i);
        lemma_kept_in_split(d, 0, i, n - 1);
        lemma_kept_in_bounds(d, i, n - 1);
        assert(kept_in(d, 0, i + 1) == kept_in(d, 0, i) + 1);
        lemma_kept_in_split(d, 0, i + 1, n - 1);
        lemma_kept_in_bounds(d, i + 1, n - 1);
        if d[n - 1] {
            assert(cur == prev);
        } else {
            assert(cur == prev + instance_bytes(data, n - 1));
            lemma_kept_in_bounds(d, 0, i);
            assert(kept_in(d, 0, i) + 1 <= kept_in(d, 0, n - 1));
            assert(prev.len() == 6 * kept_in(d, 0, n - 1));
            assert(p + 6 <= prev.len());
            assert forall|k: int| 0 <= k < 6 implies #[trigger] cur.subrange(p, p + 6)[k]
                == prev.subrange(p, p + 6)[k] by {
                assert(cur[p + k] == prev[p + k]);
            }
            assert(cur.subrange(p, p + 6) =~= prev.subrange(p, p + 6));
        }
    }
}

/// The filtered tile holds the kept instances in their stored order, each
/// unchanged and under its own grass type: kept instance `i` is instance
/// number "kept instances before `i`" of the filtered tile, and it falls in
/// the filtered tile's range for type `t` exactly when `i` falls in the
/// input's range for type `t`.
pub proof fn lemma_filtered_instances_keep_order_and_type(data: Seq<u8>, d: Seq<bool>)
    requires
        grass_v3_error(data) is None,
        d.len() == grass_total(data),
    ensures
        grass_total(filtered_grass(data, d)) == kept_in(d, 0, grass_total(data)),
        forall|i: int|
            0 <= i < grass_total(data) && !d[i] ==> #[trigger] instance_bytes(
                filtered_grass(data, d),
                kept_in(d, 0, i),
            ) == instance_bytes(data, i),
        forall|i: int|
            0 <= i < grass_total(data) && !d[i] ==> (i < grass_count(data, 0) <==> #[trigger] kept_in(
                d,
                0,
                i,
            ) < grass_count(filtered_grass(data, d), 0)),
        forall|i: int|
            0 <= i < grass_total(data) && !d[i] ==> (i < grass_count(data, 0) + grass_count(data, 1)
                <==> #[trigger] kept_in(d, 0, i) < grass_count(filtered_grass(data, d), 0)
                + grass_count(filtered_grass(data, d), 1)),
        forall|i: int, k: int|
            0 <= i < k < grass_total(data) && !d[i] && !d[k] ==> #[trigger] kept_in(d, 0, i)
                < #[trigger] kept_in(d, 0, k),
{
    lemma_filtered_grass_is_valid(data, d);
    let f = filtered_grass(data, d);
    let total = grass_total(data);
    let c0 = grass_count(data, 0);
    let c1 = grass_count(data, 1);
    let kb = kept_bytes(data, d, total);
    lemma_kept_in_split(d, 0, c0, c0 + c1);
    lemma_kept_in_split(d, 0, c0 + c1, total);
    let head = u32_le_bytes(GRASS_V3_MAGIC) + u32_le_bytes(kept_in(d, 0, c0) as u32)
        + u32_le_bytes(kept_in(d, c0, c0 + c1) as u32) + u32_le_bytes(
        kept_in(d, c0 + c1, total) as u32,
    );
    assert(f == head + kb);
    assert(head.len() == 16);
    lemma_kept_bytes_len(data, d, total);
    assert forall|i: int| 0 <= i < total && !d[i] implies #[trigger] instance_bytes(
        f,
        kept_in(d, 0, i),
    ) == instance_bytes(data, i) by {
        lemma_kept_bytes_place(data, d, total, i);
        lemma_kept_in_split(d, 0, i, total);
        lemma_kept_in_split(d, 0, i + 1, total);
        lemma_kept_in_bounds(d, i + 1, total);
        lemma_kept_in_bounds(d, 0, i);
        let p = kept_in(d, 0, i);
        assert(instance_bytes(f, p) =~= kb.subrange(6 * p, 6 * p + 6));
    }
    assert forall|i: int| 0 <= i < total && !d[i] implies (i < c0 <==> #[trigger] kept_in(
        d,
        0,
        i,
    ) < grass_count(f, 0)) by {
        lemma_kept_in_split(d, 0, i, i + 1);
        if i < c0 {
            lemma_kept_in_split(d, 0, i + 1, c0);
            lemma_kept_in_bounds(d, i + 1, c0);
        } else {
            lemma_kept_in_split(d, 0, c0, i);
            lemma_kept_in_bounds(d, c0, i);
        }
    }
    assert forall|i: int| 0 <= i < total && !d[i] implies (i < c0 + c1 <==> #[trigger] kept_in(
        d,
        0,
        i,
    ) < grass_count(f, 0) + grass_count(f, 1)) by {
        lemma_kept_in_split(d, 0, i, i + 1);
        if i < c0 + c1 {
            lemma_kept_in_split(d, 0, i + 1, c0 + c1);
            lemma_kept_in_bounds(d, i + 1, c0 + c1);
        } else {
            lemma_kept_in_split(d, 0, c0 + c1, i);
            lemma_kept_in_bounds(d, c0 + c1, i);
        }
    }
    assert forall|i: int, k: int|
        0 <= i < k < total && !d[i] && !d[k] implies #[trigger] kept_in(d, 0, i)
        < #[trigger] kept_in(d, 0, k) by {
        lemma_kept_in_split(d, 0, i, i + 1);
        lemma_kept_in_split(d, 0, i + 1, k);
        lemma_kept_in_bounds(d, i + 1, k);
    }
}

/// Appends the four little-endian bytes of `v`.
fn push_u32_le(out: &mut Vec<u8>, v: u32)
    ensures
        final(out)@ == old(out)@ + u32_le_bytes(v),
{
    out.push((v % 256) as u8);
    out.push(((v / 256) % 256) as u8);
    out.push(((v / 65536) % 256) as u8);
    out.push(((v / 16777216) % 256) as u8);
    assert(final(out)@ =~= old(out)@ + u32_le_bytes(v));
}

/// Removes from a grass v3 tile the instances that `should_remove` picks.
///
/// With no exclusion rectangle nothing is read and nothing is removed. Else
/// the tile is checked (see `grass_v3_error`), and each instance, in stored
/// order, is handed to `should_remove` by its spot. When none is removed the
/// result is `None`; else it is the filtered tile, whose header counts the
/// kept instances per type, and the number removed.
pub fn filter_grass_v3_bytes_in_rects<R, F: Fn(GrassSpot) -> bool>(
    tile_x: i32,
    tile_z: i32,
    data: &[u8],
    exclusion_rects: &[R],
    should_remove: F,
) -> (r: Result<Option<(Vec<u8>, usize)>, GrassDataError>)
    requires
        forall|s: GrassSpot| should_remove.requires((s,)),
    ensures
        exclusion_rects@.len() == 0 ==> r == Ok::<Option<(Vec<u8>, usize)>, GrassDataError>(
            None,
        ),
        exclusion_rects@.len() > 0 && grass_v3_error(data@) is Some ==> r == Err::<
            Option<(Vec<u8>, usize)>,
            GrassDataError,
        >(grass_v3_error(data@)->0),
        exclusion_rects@.len() > 0 && grass_v3_error(data@) is None ==> exists|d: Seq<bool>|
            #[trigger] decided_by(should_remove, tile_x, tile_z, data@, d) && filter_result_for(
                r,
                data@,
                d,
            ),
{
    if exclusion_rects.len() == 0 {
        return Ok(None);
    }
    if data.len() < GRASS_V3_HEADER_BYTES {
        return Err(GrassDataError::HeaderTruncated);
    }
    let magic = match read_u32_le(data, 0) {
        Ok(v) => v,
        Err(e) => return Err(e),
    };
    if magic != GRASS_V3_MAGIC {
        return Err(GrassDataError::UnsupportedMagic { magic });
    }
    let c0 = match read_u32_le(data, 4) {
        Ok(v) => v,
        Err(e) => return Err(e),
    };
    let c1 = match read_u32_le(data, 8) {
        Ok(v) => v,
        Err(e) => return Err(e),
    };
    let c2 = match read_u32_le(data, 12) {
        Ok(v) => v,
        Err(e) => return Err(e),
    };
    let total64: u64 = c0 as u64 + c1 as u64 + c2 as u64;
    let expected: u64 = 16 + 6 * total64;
    if data.len() as u64 != expected {
        return Err(GrassDataError::LengthMismatch { expected, actual: data.len() });
    }
    let total = total64 as usize;
    let b1 = c0 as usize;
    let b2 = b1 + c1 as usize;
    let ghost g = data@;
    assert(grass_v3_error(g) is None);

    let mut body: Vec<u8> = Vec::new();
    let mut k0: usize = 0;
    let mut k1: usize = 0;
    let mut k2: usize = 0;
    let mut removed: usize = 0;
    let ghost mut d: Seq<bool> = Seq::empty();
    let mut i: usize = 0;
    while i < total
        invariant
            g == data@,
            grass_v3_error(g) is None,
            total == grass_total(g),
            b1 == grass_count(g, 0),
            b2 == grass_count(g, 0) + grass_count(g, 1),
            b1 <= b2 <= total,
            g.len() == 16 + 6 * total,
            forall|s: GrassSpot| should_remove.requires((s,)),
            i <= total,
            d.len() == i,
            forall|j: int|
                0 <= j < i ==> #[trigger] should_remove.ensures(
                    (grass_spot(tile_x, tile_z, g, j),),
                    d[j],
                ),
            k0 == kept_in(d, 0, if i < b1 { i as int } else { b1 as int }),
            k1 == kept_in(
                d,
                b1 as int,
                if i < b1 { b1 as int } else if i < b2 { i as int } else { b2 as int },
            ),
            k2 == kept_in(d, b2 as int, if i < b2 { b2 as int } else { i as int }),
            removed == i - kept_in(d, 0, i as int),
            body@ == kept_bytes(g, d, i as int),
        decreases total - i,
    {
        assert(16 + 6 * i < data.len());
        let off = 16 + 6 * i;
        let local_x = data[off] as u16 + 256 * (data[off + 1] as u16);
        let local_z = data[off + 2] as u16 + 256 * (data[off + 3] as u16);
        let spot = GrassSpot { tile_x, tile_z, local_x, local_z };
        assert(spot == grass_spot(tile_x, tile_z, g, i as int));
        let remove = should_remove(spot);
        proof {
            let d0 = d;
            d = d.push(remove);
            lemma_kept_in_push(d0, remove, 0, if i < b1 { i as int } else { b1 as int });
            lemma_kept_in_push(
                d0,
                remove,
                b1 as int,
                if i < b1 { b1 as int } else if i < b2 { i as int } else { b2 as int },
            );
            lemma_kept_in_push(d0, remove, b2 as int, if i < b2 { b2 as int } else { i as int });
            lemma_kept_in_push(d0, remove, 0, i as int);
            lemma_kept_bytes_push(g, d0, remove, i as int);
            lemma_kept_in_bounds(d, 0, i as int);
            lemma_kept_in_bounds(d, 0, if i < b1 { i as int } else { b1 as int });
            lemma_kept_in_bounds(
                d,
                b1 as int,
                if i < b1 { b1 as int } else if i < b2 { i as int } else { b2 as int },
            );
            lemma_kept_in_bounds(d, b2 as int, if i < b2 { b2 as int } else { i as int });
            assert(d[i as int] == remove);
            assert forall|j: int| 0 <= j < i + 1 implies #[trigger] should_remove.ensures(
                (grass_spot(tile_x, tile_z, g, j),),
                d[j],
            ) by {
                if j < i {
                    assert(d[j] == d0[j]);
                }
            }
        }
        if remove {
            removed = removed + 1;
        } else {
            if i < b1 {
                k0 = k0 + 1;
            } else if i < b2 {
                k1 = k1 + 1;
            } else {
                k2 = k2 + 1;
            }
            let ghost before = body@;
            body.push(data[off]);
            body.push(data[off + 1]);
            body.push(data[off + 2]);
            body.push(data[off + 3]);
            body.push(data[off + 4]);
            body.push(data[off + 5]);
            assert(body@ =~= before + instance_bytes(g, i as int));
        }
        i = i + 1;
    }
    proof {
        lemma_kept_in_split(d, 0, b1 as int, b2 as int);
        lemma_kept_in_split(d, 0, b2 as int, total as int);
        lemma_kept_in_bounds(d, 0, b1 as int);
        lemma_kept_in_bounds(d, b1 as int, b2 as int);
        lemma_kept_in_bounds(d, b2 as int, total as int);
    }
    assert(decided_by(should_remove, tile_x, tile_z, g, d));
    if removed == 0 {
        assert(filter_result_for(Ok(None), g, d));
        return Ok(None);
    }
    let mut out: Vec<u8> = Vec::with_capacity(data.len());
    push_u32_le(&mut out, GRASS_V3_MAGIC);
    push_u32_le(&mut out, k0 as u32);
    push_u32_le(&mut out, k1 as u32);
    push_u32_le(&mut out, k2 as u32);
    out.append(&mut body);
    assert(out@ =~= filtered_grass(g, d));
    let r = Ok(Some((out, removed)));
    assert(filter_result_for(r, g, d));
    r
}

} // verus!
