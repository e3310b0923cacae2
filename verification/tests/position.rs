use terrain_chunks::position::CellPosition;
use terrain_chunks::position::ChunkPosition;
use terrain_chunks::size::CellSize;
use terrain_chunks::size::ChunkSize;
use terrain_chunks::vec2::Vec2;

#[test]
fn chunk_positions() {
    let coords: &[(i32, i32)] = &[
        (-1, 1),
        (0, 1),
        (1, 1),
        (1, 0),
        (1, -1),
        (0, -1),
        (-1, -1),
        (-1, 0),
    ];

    let expected: &[ChunkPosition] = &[
        (-1, 1).into(),
        (0, 1).into(),
        (1, 1).into(),
        (1, 0).into(),
        (1, -1).into(),
        (0, -1).into(),
        (-1, -1).into(),
        (-1, 0).into(),
    ];

    let chunk_size = ChunkSize::new(10usize, 10);
    let cell_size = CellSize::new(1usize, 1);

    for (&c, &e) in coords.iter().zip(expected.iter()) {
        assert_eq!(
            e,
            ChunkPosition::from_world(chunk_size, cell_size, Vec2::new(c.0 * 10, c.1 * 10))
        );
    }

    let cell_size = CellSize::new(8usize, 8);
    let world = Vec2::new(
        chunk_size.width as i32 * cell_size.width as i32 + 16,
        chunk_size.height as i32 * cell_size.height as i32 + 16,
    );

    assert_eq!(
        ChunkPosition::new(1, 1),
        ChunkPosition::from_world(chunk_size, cell_size, world)
    );
}

#[test]
fn chunk_position_far() {
    let chunk_size = ChunkSize::new(10usize, 10);
    let cell_size = CellSize::new(1usize, 1);

    let coords = Vec2::new(chunk_size.width as i32 * -5 + 4, chunk_size.height as i32 + 4);

    assert_eq!(
        ChunkPosition::new(-5, 1),
        ChunkPosition::from_world(chunk_size, cell_size, coords)
    );
}

#[test]
fn cell_positions_easy() {
    let chunk_size = ChunkSize::new(64usize, 64);
    let cell_size = CellSize::new(8usize, 8);

    let world = Vec2::new(8, 8);
    assert_eq!(
        CellPosition::new(1, 1),
        CellPosition::from_world(chunk_size, cell_size, world)
    );

    let world = Vec2::new(-8, 8);
    assert_eq!(
        CellPosition::new(-1, 1),
        CellPosition::from_world(chunk_size, cell_size, world)
    );

    let world = Vec2::new(16, 16);
    assert_eq!(
        CellPosition::new(2, 2),
        CellPosition::from_world(chunk_size, cell_size, world)
    );

    let world = Vec2::new(-16, -16);
    assert_eq!(
        CellPosition::new(-2, -2),
        CellPosition::from_world(chunk_size, cell_size, world)
    );

    let world = Vec2::new(0 + 64 * 8, 0 + 64 * 8);
    assert_eq!(
        CellPosition::new(0, 0),
        CellPosition::from_world(chunk_size, cell_size, world)
    );

    let world = Vec2::new(-16 + 64 * 8, -16 + 64 * 8);
    assert_eq!(
        CellPosition::new(-2, -2),
        CellPosition::from_world(chunk_size, cell_size, world)
    );
}

#[test]
fn cell_pos_round() {
    let chunk_size = ChunkSize::new(64usize, 64);
    let cell_size = CellSize::new(8usize, 8);

    // Simple case, directly on (1, 1)
    let world = Vec2::new(8, 8);
    assert_eq!(
        CellPosition::new(1, 1),
        CellPosition::from_world(chunk_size, cell_size, world)
    );

    // Just above (1, 1)
    let world = Vec2::new(9, 10);
    assert_eq!(
        CellPosition::new(1, 1),
        CellPosition::from_world(chunk_size, cell_size, world)
    );

    // Just below (1, 1)
    let world = Vec2::new(6, 7);
    assert_eq!(
        CellPosition::new(1, 1),
        CellPosition::from_world(chunk_size, cell_size, world)
    );

    // Too close to zero:
    let world = Vec2::new(3, 3);
    assert_eq!(
        CellPosition::new(0, 0),
        CellPosition::from_world(chunk_size, cell_size, world)
    );

    // Negative
    let world = Vec2::new(-3, -3);
    assert_eq!(
        CellPosition::new(0, 0),
        CellPosition::from_world(chunk_size, cell_size, world)
    );

    // Close to (-2, 1)
    let world = Vec2::new(-15, 9);
    assert_eq!(
        CellPosition::new(-2, 1),
        CellPosition::from_world(chunk_size, cell_size, world)
    );
}

#[test]
fn chunk_position_round_trips_through_its_centre() {
    let chunk_size = ChunkSize::new(10, 7);
    let cell_size = CellSize::new(3, 5);
    for x in -4..5 {
        for y in -4..5 {
            let p = ChunkPosition::new(x, y);
            let centre = p.to_world(chunk_size, cell_size);
            assert_eq!(centre, Vec2::new(x * 30, y * 35));
            assert!(ChunkPosition::world_in_reach(chunk_size, cell_size, centre));
            assert_eq!(p, ChunkPosition::from_world(chunk_size, cell_size, centre));
        }
    }
}

#[test]
fn chunk_boundary_goes_away_from_the_origin() {
    let chunk_size = ChunkSize::new(10, 10);
    let cell_size = CellSize::new(1, 1);
    // The boundary between chunk 0 and chunk 1 lies at 5.
    assert_eq!(
        ChunkPosition::new(1, -1),
        ChunkPosition::from_world(chunk_size, cell_size, Vec2::new(5, -5))
    );
    // Half a unit short of the boundary is still chunk 0.
    assert_eq!(
        ChunkPosition::new(0, 0),
        ChunkPosition::from_world(chunk_size, cell_size, Vec2::from_halves(9, -9))
    );
    assert_eq!(
        ChunkPosition::new(0, 0),
        ChunkPosition::from_world(chunk_size, cell_size, Vec2::new(0, 0))
    );
}

#[test]
fn cell_half_way_rounds_away_from_the_centre() {
    let chunk_size = ChunkSize::new(64, 64);
    let cell_size = CellSize::new(8, 8);
    assert_eq!(
        CellPosition::new(1, -1),
        CellPosition::from_world(chunk_size, cell_size, Vec2::new(4, -4))
    );
    assert_eq!(
        CellPosition::new(0, 0),
        CellPosition::from_world(chunk_size, cell_size, Vec2::from_halves(7, -7))
    );
    assert_eq!(
        CellPosition::new(2, -2),
        CellPosition::from_world(chunk_size, cell_size, Vec2::new(12, -12))
    );
}

#[test]
fn world_out_of_reach_is_detected() {
    let chunk_size = ChunkSize::new(1, 1);
    let cell_size = CellSize::new(1, 1);
    assert!(!ChunkPosition::world_in_reach(
        chunk_size,
        cell_size,
        Vec2::from_halves(i64::MAX, 0)
    ));
    assert!(ChunkPosition::world_in_reach(
        chunk_size,
        cell_size,
        Vec2::new(i32::MAX, i32::MIN)
    ));
    assert_eq!(
        ChunkPosition::new(i32::MAX, i32::MIN),
        ChunkPosition::from_world(chunk_size, cell_size, Vec2::new(i32::MAX, i32::MIN))
    );
}

#[test]
fn positions_add_and_subtract_by_coordinate() {
    let a = ChunkPosition::new(3, -4);
    let b = ChunkPosition::new(-1, 6);
    assert_eq!(a + b, ChunkPosition::new(2, 2));
    assert_eq!(a - b, ChunkPosition::new(4, -10));
    let mut c = a;
    c += b;
    assert_eq!(c, ChunkPosition::new(2, 2));
    c -= a;
    assert_eq!(c, b);

    let p = CellPosition::new(7, 8);
    let q = CellPosition::new(1, -2);
    assert_eq!(p + q, CellPosition::new(8, 6));
    assert_eq!(p - q, CellPosition::new(6, 10));
    let mut r = p;
    r += q;
    r -= p;
    assert_eq!(r, q);
}

#[test]
fn positions_convert_from_pairs_and_arrays() {
    assert_eq!(ChunkPosition::from((1, 2)), ChunkPosition::new(1, 2));
    assert_eq!(ChunkPosition::from([3, 4]), ChunkPosition::new(3, 4));
    assert_eq!(ChunkPosition::from(&[5, 6]), ChunkPosition::new(5, 6));
    assert_eq!(CellPosition::from((1, 2)), CellPosition::new(1, 2));
    assert_eq!(CellPosition::from([3, 4]), CellPosition::new(3, 4));
    assert_eq!(CellPosition::from(&[5, 6]), CellPosition::new(5, 6));
    assert_eq!(ChunkPosition::new(-7, 9).as_vec2(), Vec2::from_halves(-14, 18));
}

#[test]
fn sizes_convert_and_scale() {
    let chunk_size = ChunkSize::from((64usize, 32usize));
    assert_eq!(chunk_size, ChunkSize::new(64, 32));
    assert_eq!(ChunkSize::from([3usize, 5]), ChunkSize::new(3, 5));
    assert_eq!(ChunkSize::from(&[3usize, 5]), ChunkSize::new(3, 5));
    assert_eq!(CellSize::from((8usize, 4usize)), CellSize::new(8, 4));
    assert_eq!(CellSize::from([8usize, 4]), CellSize::new(8, 4));
    assert_eq!(CellSize::from(&[8usize, 4]), CellSize::new(8, 4));

    assert_eq!(chunk_size.as_vec2(), Vec2::new(64, 32));
    assert_eq!(CellSize::new(8, 4).as_vec2(), Vec2::new(8, 4));
    // Half of an odd size is exact.
    assert_eq!(ChunkSize::new(3, 5).center_offset(), Vec2::from_halves(3, 5));
    assert_eq!(chunk_size.center_offset(), Vec2::new(32, 16));
    assert_eq!(chunk_size.world_size(CellSize::new(8, 4)), Vec2::new(512, 128));

    assert!(chunk_size.fits_world(CellSize::new(8, 4)));
    assert!(!chunk_size.fits_world(CellSize::new(0, 4)));
    assert!(!ChunkSize::new(0x1_0000, 1).fits_world(CellSize::new(0x8000, 1)));
    assert!(ChunkSize::new(0x7fff_ffff, 1).fits_world(CellSize::new(1, 1)));
}

#[test]
fn vec2_counts_half_units() {
    let v = Vec2::new(3, -2);
    assert_eq!((v.hx, v.hy), (6, -4));
    assert!(v.is_whole());
    let h = Vec2::from_halves(5, -4);
    assert_eq!((h.hx, h.hy), (5, -4));
    assert!(!h.is_whole());
}
