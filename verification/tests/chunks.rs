use terrain_chunks::terrain::chunk::fits_world;
use terrain_chunks::terrain::chunk::generate_chunk_data_with;
use terrain_chunks::terrain::chunk::CellPosition;
use terrain_chunks::terrain::chunk::CellSize;
use terrain_chunks::terrain::chunk::Chunk;
use terrain_chunks::terrain::chunk::ChunkData;
use terrain_chunks::terrain::chunk_map::ChunkMap;
use terrain_chunks::terrain::chunk::ChunkMeshData;
use terrain_chunks::terrain::chunk::ChunkPosition;
use terrain_chunks::terrain::chunk::ChunkSize;
use terrain_chunks::terrain::chunk::ChunkState;
use terrain_chunks::terrain::chunk::InstanceHandle;
use terrain_chunks::terrain::chunk::Noise;
use terrain_chunks::terrain::chunk::NoiseThreshold;
use terrain_chunks::terrain::chunk::SAMPLE_UNIT;
use terrain_chunks::terrain::ChunkInfo;
use terrain_chunks::terrain::ChunkLoadDistance;
use terrain_chunks::vec2::Vec2;

#[test]
fn defaults_are_the_documented_configuration() {
    let ci = ChunkInfo::default();
    assert_eq!(ci.chunk_size, ChunkSize(64, 64));
    assert_eq!(ci.cell_size, CellSize(8, 8));
    assert_eq!(ci.noise, Noise { scale_numerator: 7, scale_denominator: 1000 });
    assert_eq!(ci.threshold, NoiseThreshold(200_000));
    assert_eq!(ci.threshold.0 * 5, SAMPLE_UNIT);
    assert!(ci.is_valid());
    assert_eq!(ChunkLoadDistance::default().distance(), 1);
    assert_eq!(ChunkLoadDistance::new(3).distance(), 3);
    let mesh = ChunkMeshData::default();
    assert!(mesh.0.is_empty() && mesh.1.is_empty());
    let chunk = Chunk::default();
    assert_eq!(chunk.state(), ChunkState::DataReady);
}

#[test]
fn configuration_limits() {
    assert!(fits_world(ChunkSize(64, 64), CellSize(8, 8)));
    assert!(!fits_world(ChunkSize(0, 64), CellSize(8, 8)));
    assert!(!fits_world(ChunkSize(64, 64), CellSize(8, 0)));
    assert!(fits_world(ChunkSize(0x7fff_ffff, 1), CellSize(1, 0x7fff_ffff)));
    assert!(!fits_world(ChunkSize(0x4000_0000, 1), CellSize(2, 1)));

    let mut ci = ChunkInfo::default();
    ci.chunk_size = ChunkSize(357_913_941, 1);
    ci.cell_size = CellSize(1, 1);
    assert!(ci.is_valid());
    ci.chunk_size = ChunkSize(357_913_942, 1);
    assert!(!ci.is_valid());
    ci.chunk_size = ChunkSize(0, 1);
    assert!(!ci.is_valid());
}

#[test]
fn chunk_data_is_row_major_with_one_more_sample_than_cells() {
    let size = ChunkSize(3, 2);
    let mut data = ChunkData::new(size);
    assert_eq!(data.as_slice(), &[0; 12][..]);
    data.set_at(size, 3, 0, 5);
    data.set_at(size, 0, 1, 6);
    data.set_at(size, 3, 2, 7);
    assert_eq!(data.as_slice(), &[0, 0, 0, 5, 6, 0, 0, 0, 0, 0, 0, 7][..]);
    assert_eq!(data.get_at(size, 3, 0), 5);
    assert_eq!(data.get_at(size, 0, 1), 6);
    assert_eq!(data.get_at(size, 3, 2), 7);
    assert_eq!(data.get_at(size, 1, 1), 0);
}

#[test]
fn generation_samples_every_corner_at_its_world_position() {
    let size = ChunkSize(2, 2);
    let cell = CellSize(8, 4);
    let pos = ChunkPosition(1, -1);
    assert!(pos.samples_fit(size, cell));
    let mut data = ChunkData::new(size);
    // The chunk spans x from 16 to 32 and y from 0 down to -8.
    generate_chunk_data_with(&mut data, pos, size, cell, |x, y| x * 1000 + y);
    for cx in 0..3usize {
        for cy in 0..3usize {
            let wx = 16 + 8 * cx as i32;
            let wy = 0 - 4 * cy as i32;
            assert_eq!(data.get_at(size, cx, cy), wx * 1000 + wy);
        }
    }
    assert_eq!(data.get_at(size, 0, 0), 16_000);
    assert_eq!(data.get_at(size, 2, 2), 32_000 - 8);
}

#[test]
fn generation_visits_corners_column_by_column() {
    let size = ChunkSize(1, 2);
    let cell = CellSize(10, 10);
    let seen = std::cell::RefCell::new(Vec::new());
    let mut data = ChunkData::new(size);
    generate_chunk_data_with(&mut data, ChunkPosition(0, 0), size, cell, |x, y| {
        seen.borrow_mut().push((x, y));
        0
    });
    assert_eq!(
        seen.into_inner(),
        vec![(0, 20), (0, 10), (0, 0), (10, 20), (10, 10), (10, 0)]
    );
}

#[test]
fn generation_is_repeatable() {
    let size = ChunkSize(5, 4);
    let cell = CellSize(8, 8);
    let sample = |x: i32, y: i32| (x * 31 + y * 17) % 1000;
    let mut one = ChunkData::new(size);
    let mut other = ChunkData::new(size);
    generate_chunk_data_with(&mut one, ChunkPosition(-2, 3), size, cell, sample);
    generate_chunk_data_with(&mut other, ChunkPosition(-2, 3), size, cell, sample);
    assert_eq!(one, other);
}

#[test]
fn samples_must_fit_in_world_coordinates() {
    let size = ChunkSize(64, 64);
    let cell = CellSize(8, 8);
    assert!(ChunkPosition(0, 0).samples_fit(size, cell));
    // 4194303 * 512 is the last chunk whose right edge is within i32.
    assert!(ChunkPosition(4_194_302, 0).samples_fit(size, cell));
    assert!(!ChunkPosition(4_194_304, 0).samples_fit(size, cell));
    assert!(ChunkPosition(0, -4_194_304).samples_fit(size, cell));
    assert!(!ChunkPosition(0, -4_194_305).samples_fit(size, cell));
    assert!(!ChunkPosition(0, 0).samples_fit(ChunkSize(0, 1), cell));
}

#[test]
fn chunk_corner_is_top_left_and_centre_is_half_a_chunk_in() {
    let size = ChunkSize(64, 64);
    let cell = CellSize(8, 8);
    assert_eq!(ChunkPosition(0, 0).get_global_corner(size, cell), Vec2::new(0, 512));
    assert_eq!(ChunkPosition(1, 0).get_global_corner(size, cell), Vec2::new(512, 512));
    assert_eq!(ChunkPosition(-2, -1).get_global_corner(size, cell), Vec2::new(-1024, 0));
    assert_eq!(ChunkPosition(0, 0).get_global_center(size, cell), Vec2::new(256, 256));
    assert_eq!(ChunkPosition(-2, -1).get_global_center(size, cell), Vec2::new(-768, -256));
    // An odd chunk has its centre on a half unit.
    assert_eq!(
        ChunkPosition(1, 1).get_global_center(ChunkSize(3, 5), CellSize(1, 1)),
        Vec2::from_halves(9, 15)
    );
}

#[test]
fn global_position_finds_the_chunk_that_holds_it() {
    let size = ChunkSize(64, 64);
    let cell = CellSize(8, 8);
    let at = |x: i32, y: i32| ChunkPosition::from_global_position(2 * x as i64, 2 * y as i64, size, cell);
    assert_eq!(at(0, 0), ChunkPosition(0, 0));
    assert_eq!(at(511, 511), ChunkPosition(0, 0));
    assert_eq!(at(512, 0), ChunkPosition(1, 0));
    assert_eq!(at(-1, -1), ChunkPosition(-1, -1));
    assert_eq!(at(-512, -513), ChunkPosition(-1, -2));
    // Half a unit below a boundary.
    assert_eq!(
        ChunkPosition::from_global_position(1023, -1, size, cell),
        ChunkPosition(0, -1)
    );
    // Far out, the chunk number is limited to the range of i32.
    assert_eq!(
        ChunkPosition::from_global_position(i64::MAX, i64::MIN, ChunkSize(1, 1), CellSize(1, 1)),
        ChunkPosition(i32::MAX, i32::MIN)
    );
    assert_eq!(
        ChunkPosition::from_global_position(-1, 5, ChunkSize(usize::MAX, 1), CellSize(usize::MAX, 1)),
        ChunkPosition(-1, 2)
    );
}

#[test]
fn centre_of_a_chunk_lies_in_that_chunk() {
    let size = ChunkSize(7, 3);
    let cell = CellSize(5, 9);
    for x in -3..4 {
        for y in -3..4 {
            let p = ChunkPosition(x, y);
            let c = p.get_global_center(size, cell);
            assert_eq!(ChunkPosition::from_global_position(c.hx, c.hy, size, cell), p);
        }
    }
}

#[test]
fn cell_positions_scale_and_add() {
    assert_eq!(CellPosition(3, -2).to_world(CellSize(8, 4)), Vec2::new(24, -8));
    assert_eq!(CellPosition(1, 2) + CellPosition(3, 4), CellPosition(4, 6));
    assert_eq!(CellPosition(1, 2) + &CellPosition(-3, -4), CellPosition(-2, -2));
    assert_eq!(ChunkPosition(1, 2) + ChunkPosition(-1, 1), ChunkPosition(0, 3));
}

#[test]
fn position_keys_order_positions() {
    let mut positions = vec![
        ChunkPosition(0, 0),
        ChunkPosition(-1, 5),
        ChunkPosition(i32::MIN, i32::MIN),
        ChunkPosition(i32::MAX, i32::MAX),
        ChunkPosition(0, -1),
        ChunkPosition(3, i32::MIN),
    ];
    for p in positions.iter() {
        assert_eq!(ChunkPosition::from_key(p.key()), *p);
    }
    assert_eq!(ChunkPosition(i32::MIN, i32::MIN).key(), 0);
    assert_eq!(ChunkPosition(i32::MAX, i32::MAX).key(), u64::MAX);
    assert_eq!(ChunkPosition(0, 0).key(), 0x8000_0000_8000_0000);
    let mut by_key = positions.clone();
    by_key.sort_by_key(|p| p.key());
    positions.sort();
    assert_eq!(by_key, positions);
}

fn chunk_with(vertex: Vec2) -> Chunk {
    Chunk { entity: None, teardown: None, data: ChunkMeshData(vec![vertex], vec![0]) }
}

#[test]
fn chunk_map_files_chunks_by_position() {
    let mut map = ChunkMap::new();
    assert_eq!(map.len(), 0);
    assert!(map.positions().is_empty());
    assert_eq!(map.state(ChunkPosition(0, 0)), ChunkState::Unknown);
    assert!(map.get(ChunkPosition(0, 0)).is_none());

    assert!(map.insert(ChunkPosition(2, -3), chunk_with(Vec2::new(1, 1))).is_none());
    assert!(map.insert(ChunkPosition(-3, 2), chunk_with(Vec2::new(2, 2))).is_none());
    assert_eq!(map.len(), 2);
    assert!(map.contains_key(ChunkPosition(2, -3)));
    assert!(!map.contains_key(ChunkPosition(-3, -3)));
    assert_eq!(map.get(ChunkPosition(-3, 2)).unwrap().data.0, vec![Vec2::new(2, 2)]);
    let mut positions = map.positions();
    positions.sort();
    assert_eq!(positions, vec![ChunkPosition(-3, 2), ChunkPosition(2, -3)]);

    let before = map.insert(ChunkPosition(2, -3), chunk_with(Vec2::new(9, 9)));
    assert_eq!(before.unwrap().data.0, vec![Vec2::new(1, 1)]);
    assert_eq!(map.len(), 2);
    assert_eq!(ChunkMap::default().len(), 0);
}

#[test]
fn chunk_walks_through_its_life_cycle() {
    let pos = ChunkPosition(4, 4);
    let mut map = ChunkMap::new();
    // Nothing cached: no transition applies.
    assert!(!map.instantiate(pos, InstanceHandle(1)));
    assert_eq!(map.release(pos), None);
    assert!(!map.confirm_release(pos));
    assert_eq!(map.len(), 0);

    map.insert(pos, chunk_with(Vec2::new(3, 3)));
    assert_eq!(map.state(pos), ChunkState::DataReady);
    assert_eq!(map.release(pos), None);
    assert!(!map.confirm_release(pos));

    assert!(map.instantiate(pos, InstanceHandle(7)));
    assert_eq!(map.state(pos), ChunkState::Instantiated);
    assert_eq!(map.get(pos).unwrap().entity, Some(InstanceHandle(7)));
    // A second instance is not taken.
    assert!(!map.instantiate(pos, InstanceHandle(8)));
    assert_eq!(map.get(pos).unwrap().entity, Some(InstanceHandle(7)));
    assert!(!map.confirm_release(pos));

    assert_eq!(map.release(pos), Some(InstanceHandle(7)));
    assert_eq!(map.state(pos), ChunkState::PendingTeardown);
    assert_eq!(map.get(pos).unwrap().entity, None);
    assert_eq!(map.get(pos).unwrap().teardown, Some(InstanceHandle(7)));
    // While the release is awaited the chunk takes no instance.
    assert!(!map.instantiate(pos, InstanceHandle(9)));
    assert_eq!(map.release(pos), None);

    assert!(map.confirm_release(pos));
    assert_eq!(map.state(pos), ChunkState::DataReady);
    assert!(map.instantiate(pos, InstanceHandle(9)));
    assert_eq!(map.get(pos).unwrap().entity, Some(InstanceHandle(9)));
    // The mesh is the one that was filed.
    assert_eq!(map.get(pos).unwrap().data.0, vec![Vec2::new(3, 3)]);
    assert_eq!(map.len(), 1);
}
