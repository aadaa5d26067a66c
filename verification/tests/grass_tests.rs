use onlinerpg_estate::cells::{distinct_cells, CellRange};
use onlinerpg_estate::grass::{
    filter_grass_v3_bytes_in_rects, invalid_grass_data, read_u32_le, GrassDataError,
    GrassRemovalStats, GrassSpot, GRASS_V3_BYTES_PER_INSTANCE, GRASS_V3_HEADER_BYTES,
    GRASS_V3_MAGIC,
};
use std::cell::RefCell;

const TILE_DIM: f32 = 64.0;

type Rect = [f32; 4];

/// The terrain service's test for one instance: its world position inside
/// an exclusion rectangle.
fn inside_any(spot: GrassSpot, rects: &[Rect]) -> bool {
    let local_x = spot.local_x as f32 * TILE_DIM / 65535.0;
    let local_z = spot.local_z as f32 * TILE_DIM / 65535.0;
    let tile_offset = TILE_DIM * 0.5;
    let world_x = spot.tile_x as f32 * TILE_DIM - tile_offset + local_x;
    let world_z = spot.tile_z as f32 * TILE_DIM - tile_offset + local_z;
    rects.iter().any(|[min_x, min_z, max_x, max_z]| {
        world_x >= *min_x && world_x <= *max_x && world_z >= *min_z && world_z <= *max_z
    })
}

fn filter(
    tile_x: i32,
    tile_z: i32,
    data: &[u8],
    rects: &[Rect],
) -> Result<Option<(Vec<u8>, usize)>, GrassDataError> {
    filter_grass_v3_bytes_in_rects(tile_x, tile_z, data, rects, |spot| inside_any(spot, rects))
}

fn grass_data(types: &[&[(u16, u16)]]) -> Vec<u8> {
    let mut out = GRASS_V3_MAGIC.to_le_bytes().to_vec();
    for instances in types {
        out.extend_from_slice(&(instances.len() as u32).to_le_bytes());
    }
    for instances in types {
        for &(x, z) in *instances {
            out.extend_from_slice(&x.to_le_bytes());
            out.extend_from_slice(&z.to_le_bytes());
            out.extend_from_slice(&[0, 0]);
        }
    }
    out
}

#[test]
fn filters_all_grass_types_inside_world_rect() {
    let data = grass_data(&[
        &[(32768, 32768), (65535, 65535)],
        &[(32768, 32768)],
        &[(65535, 65535)],
    ]);
    let (filtered, removed) = filter(0, 0, &data, &[[-1.0, -1.0, 1.0, 1.0]])
        .unwrap()
        .unwrap();

    assert_eq!(removed, 2);
    assert_eq!(read_u32_le(&filtered, 4).unwrap(), 1);
    assert_eq!(read_u32_le(&filtered, 8).unwrap(), 0);
    assert_eq!(read_u32_le(&filtered, 12).unwrap(), 1);
}

#[test]
fn returns_none_when_no_instances_match() {
    let data = grass_data(&[&[(65535, 65535)], &[], &[]]);
    assert!(filter(0, 0, &data, &[[-1.0, -1.0, 1.0, 1.0]])
        .unwrap()
        .is_none());
}

#[test]
fn format_constants_describe_header_and_instances() {
    assert_eq!(GRASS_V3_HEADER_BYTES, 16);
    assert_eq!(GRASS_V3_BYTES_PER_INSTANCE, 6);
    assert_eq!(grass_data(&[&[], &[], &[]]).len(), GRASS_V3_HEADER_BYTES);
}

#[test]
fn no_exclusion_rect_reads_nothing_and_removes_nothing() {
    let garbage = [1u8, 2, 3];
    let rects: [Rect; 0] = [];
    assert_eq!(filter(0, 0, &garbage, &rects), Ok(None));
}

#[test]
fn truncated_header_is_rejected() {
    let data = grass_data(&[&[], &[], &[]]);
    assert_eq!(
        filter(0, 0, &data[..15], &[[0.0, 0.0, 1.0, 1.0]]),
        Err(GrassDataError::HeaderTruncated)
    );
}

#[test]
fn unknown_magic_is_rejected() {
    let mut data = grass_data(&[&[(1, 1)], &[], &[]]);
    data[0] = 0x41;
    let magic = u32::from_le_bytes([data[0], data[1], data[2], data[3]]);
    assert_eq!(
        filter(0, 0, &data, &[[0.0, 0.0, 1.0, 1.0]]),
        Err(GrassDataError::UnsupportedMagic { magic })
    );
}

#[test]
fn length_mismatch_is_rejected_with_both_lengths() {
    let mut data = grass_data(&[&[(1, 1)], &[(2, 2)], &[]]);
    data.push(0);
    assert_eq!(
        filter(0, 0, &data, &[[0.0, 0.0, 1.0, 1.0]]),
        Err(GrassDataError::LengthMismatch { expected: 28, actual: 29 })
    );
}

#[test]
fn announced_counts_beyond_the_data_are_a_length_mismatch() {
    let mut data = grass_data(&[&[], &[], &[]]);
    data[4] = 0xff;
    data[5] = 0xff;
    data[6] = 0xff;
    data[7] = 0xff;
    assert_eq!(
        filter(0, 0, &data, &[[0.0, 0.0, 1.0, 1.0]]),
        Err(GrassDataError::LengthMismatch { expected: 16 + 6 * 0xffff_ffff, actual: 16 })
    );
}

#[test]
fn kept_instances_keep_their_bytes_and_order() {
    let mut data = grass_data(&[&[(10, 20), (30, 40)], &[(50, 60)], &[(70, 80)]]);
    // mark the trailing bytes of every instance so that they can be traced
    for i in 0..4 {
        data[16 + 6 * i + 4] = i as u8 + 1;
        data[16 + 6 * i + 5] = 0xa0 + i as u8;
    }
    let rects = [[0.0f32, 0.0, 1.0, 1.0]];
    let (out, removed) = filter_grass_v3_bytes_in_rects(0, 0, &data, &rects, |s: GrassSpot| {
        s.local_x == 30 || s.local_x == 70
    })
    .unwrap()
    .unwrap();
    assert_eq!(removed, 2);
    let mut expected = GRASS_V3_MAGIC.to_le_bytes().to_vec();
    expected.extend_from_slice(&1u32.to_le_bytes());
    expected.extend_from_slice(&1u32.to_le_bytes());
    expected.extend_from_slice(&0u32.to_le_bytes());
    expected.extend_from_slice(&data[16..22]);
    expected.extend_from_slice(&data[28..34]);
    assert_eq!(out, expected);
    assert_eq!(out.len(), data.len() - 6 * removed);
}

#[test]
fn filtered_tile_is_itself_a_valid_tile() {
    let data = grass_data(&[&[(1, 2), (3, 4)], &[(5, 6)], &[(7, 8), (9, 10)]]);
    let rects = [[0.0f32, 0.0, 1.0, 1.0]];
    let (out, removed) =
        filter_grass_v3_bytes_in_rects(3, -2, &data, &rects, |s: GrassSpot| s.local_z > 5)
            .unwrap()
            .unwrap();
    assert_eq!(removed, 3);
    // removing nothing from the filtered tile accepts it and changes nothing
    assert_eq!(
        filter_grass_v3_bytes_in_rects(3, -2, &out, &rects, |_s: GrassSpot| false),
        Ok(None)
    );
    assert_eq!(read_u32_le(&out, 4), Ok(2));
    assert_eq!(read_u32_le(&out, 8), Ok(0));
    assert_eq!(read_u32_le(&out, 12), Ok(0));
}

#[test]
fn every_instance_is_asked_once_in_stored_order() {
    let data = grass_data(&[&[(1, 2)], &[(3, 4)], &[(5, 6)]]);
    let asked = RefCell::new(Vec::new());
    let rects = [[0.0f32, 0.0, 1.0, 1.0]];
    let result = filter_grass_v3_bytes_in_rects(7, 9, &data, &rects, |s: GrassSpot| {
        asked.borrow_mut().push(s);
        false
    });
    assert_eq!(result, Ok(None));
    let asked = asked.into_inner();
    assert_eq!(
        asked,
        vec![
            GrassSpot { tile_x: 7, tile_z: 9, local_x: 1, local_z: 2 },
            GrassSpot { tile_x: 7, tile_z: 9, local_x: 3, local_z: 4 },
            GrassSpot { tile_x: 7, tile_z: 9, local_x: 5, local_z: 6 },
        ]
    );
}

#[test]
fn removing_everything_leaves_an_empty_tile() {
    let data = grass_data(&[&[(1, 2)], &[(3, 4)], &[(5, 6)]]);
    let rects = [[0.0f32, 0.0, 1.0, 1.0]];
    let (out, removed) =
        filter_grass_v3_bytes_in_rects(0, 0, &data, &rects, |_s: GrassSpot| true)
            .unwrap()
            .unwrap();
    assert_eq!(removed, 3);
    assert_eq!(out, grass_data(&[&[], &[], &[]]));
}

#[test]
fn read_u32_le_reads_little_endian_and_reports_truncation() {
    let data = [0x78u8, 0x56, 0x34, 0x12, 0xff];
    assert_eq!(read_u32_le(&data, 0), Ok(0x1234_5678));
    assert_eq!(read_u32_le(&data, 1), Ok(0xff12_3456));
    assert_eq!(read_u32_le(&data, 2), Err(GrassDataError::HeaderTruncated));
    assert_eq!(read_u32_le(&data, usize::MAX), Err(GrassDataError::HeaderTruncated));
}

#[test]
fn error_messages_match_the_terrain_service() {
    assert_eq!(
        GrassDataError::HeaderTruncated.message(),
        "grass data header is truncated"
    );
    assert_eq!(
        GrassDataError::UnsupportedMagic { magic: 0xab }.message(),
        "unsupported grass data magic 0x000000ab"
    );
    assert_eq!(
        GrassDataError::UnsupportedMagic { magic: 0xdead_beef }.message(),
        format!("unsupported grass data magic 0x{:08x}", 0xdead_beefu32)
    );
    assert_eq!(
        GrassDataError::LengthMismatch { expected: 28, actual: 29 }.message(),
        "grass data length mismatch: expected 28, got 29"
    );
    assert_eq!(
        GrassDataError::LengthMismatch { expected: 16, actual: 0 }.message(),
        "grass data length mismatch: expected 16, got 0"
    );
}

#[test]
fn io_errors_are_invalid_data_with_the_message() {
    let e = GrassDataError::LengthMismatch { expected: 22, actual: 21 }.into_io_error();
    assert_eq!(e.kind(), std::io::ErrorKind::InvalidData);
    assert_eq!(e.to_string(), "grass data length mismatch: expected 22, got 21");
    let e = invalid_grass_data("grass instance is truncated".to_string());
    assert_eq!(e.kind(), std::io::ErrorKind::InvalidData);
    assert_eq!(e.to_string(), "grass instance is truncated");
}

#[test]
fn stats_count_tiles_and_removed_grass() {
    let mut stats = GrassRemovalStats::new();
    assert_eq!(stats.tiles_changed, 0);
    assert_eq!(stats.grass_removed, 0);
    assert!(stats.changed_tiles.is_empty());
    stats.record_tile(1, -1, 3);
    stats.record_tile(2, -1, 4);
    assert_eq!(stats.tiles_changed, 2);
    assert_eq!(stats.grass_removed, 7);
    assert_eq!(stats.changed_tiles, vec![(1, -1), (2, -1)]);
}

#[test]
fn exclusion_tiles_are_listed_once_row_by_row() {
    let ranges = [
        CellRange { min_x: 0, min_z: 0, max_x: 1, max_z: 1 },
        CellRange { min_x: 1, min_z: 1, max_x: 2, max_z: 1 },
    ];
    assert_eq!(distinct_cells(&ranges), vec![(0, 0), (1, 0), (0, 1), (1, 1), (2, 1)]);
}

#[test]
fn empty_ranges_give_no_tiles() {
    let ranges = [
        CellRange { min_x: 3, min_z: 0, max_x: 2, max_z: 5 },
        CellRange { min_x: 0, min_z: 1, max_x: 4, max_z: 0 },
    ];
    assert!(distinct_cells(&ranges).is_empty());
    assert!(distinct_cells(&[]).is_empty());
}

#[test]
fn tiles_at_the_edge_of_the_grid_are_reached() {
    let ranges = [CellRange { min_x: i32::MAX - 1, min_z: i32::MIN, max_x: i32::MAX, max_z: i32::MIN }];
    assert_eq!(
        distinct_cells(&ranges),
        vec![(i32::MAX - 1, i32::MIN), (i32::MAX, i32::MIN)]
    );
}

#[test]
fn filtering_again_with_the_same_rects_removes_nothing() {
    let data = grass_data(&[
        &[(32768, 32768), (65535, 65535), (0, 0)],
        &[(32768, 32760)],
        &[(100, 65535), (32770, 32770)],
    ]);
    let rects = [[-1.0f32, -1.0, 1.0, 1.0]];
    let (once, removed) = filter(0, 0, &data, &rects).unwrap().unwrap();
    assert_eq!(removed, 3);
    assert_eq!(filter(0, 0, &once, &rects), Ok(None));
}
