use std::cell::Cell;
use terrain_chunks::terrain::chunk::generate_chunk_data_with;
use terrain_chunks::terrain::chunk::CellSize;
use terrain_chunks::terrain::chunk::ChunkData;
use terrain_chunks::terrain::chunk_map::ChunkMap;
use terrain_chunks::terrain::chunk::ChunkPosition;
use terrain_chunks::terrain::chunk::ChunkSize;
use terrain_chunks::terrain::chunk::ChunkState;
use terrain_chunks::terrain::chunk::InstanceHandle;
use terrain_chunks::terrain::chunk::Noise;
use terrain_chunks::terrain::chunk::NoiseThreshold;
use terrain_chunks::terrain::loader::despawn_marked_chunks;
use terrain_chunks::terrain::loader::in_view;
use terrain_chunks::terrain::loader::load_chunks;
use terrain_chunks::terrain::loader::new_chunk;
use terrain_chunks::terrain::loader::unload_chunks_for_despawn;
use terrain_chunks::terrain::loader::update_chunk_views;
use terrain_chunks::terrain::loader::view_fits;
use terrain_chunks::terrain::loader::view_in_world;
use terrain_chunks::terrain::loader::BodyHandle;
use terrain_chunks::terrain::loader::ChunkViewSet;
use terrain_chunks::terrain::loader::DespawnAction;
use terrain_chunks::terrain::loader::Despawning;
use terrain_chunks::terrain::loader::SpawnRequest;
use terrain_chunks::terrain::loader::Teardown;
use terrain_chunks::terrain::marching_squares::marching_squares;
use terrain_chunks::terrain::ChunkInfo;
use terrain_chunks::terrain::ChunkLoadDistance;
use terrain_chunks::vec2::Vec2;

fn small_info() -> ChunkInfo {
    ChunkInfo {
        chunk_size: ChunkSize(4, 3),
        cell_size: CellSize(8, 8),
        noise: Noise::default(),
        threshold: NoiseThreshold(500),
    }
}

/// A field of diagonal stripes, in sample units.
fn stripes(x: i32, y: i32) -> i32 {
    (x + 2 * y).rem_euclid(48) * 25
}

const IN_VIEW_ORDER: [(i32, i32); 9] =
    [(-1, 1), (0, 1), (1, 1), (-1, 0), (0, 0), (1, 0), (-1, -1), (0, -1), (1, -1)];

/// Instantiates every requested chunk, handing out handles from `next` on.
fn instantiate_all(map: &mut ChunkMap, requests: &[SpawnRequest], next: &mut u64) {
    for request in requests {
        assert!(map.instantiate(request.position, InstanceHandle(*next)));
        *next += 1;
    }
}

#[test]
fn new_chunk_samples_then_extracts() {
    let ci = small_info();
    let pos = ChunkPosition(2, -1);
    let mesh = new_chunk(pos, &ci, stripes);

    let mut data = ChunkData::new(ci.chunk_size);
    generate_chunk_data_with(&mut data, pos, ci.chunk_size, ci.cell_size, stripes);
    let (verts, idxs) = marching_squares(data, ci.chunk_size, ci.cell_size, ci.threshold.0);
    assert!(!verts.is_empty());
    assert_eq!(mesh.0, verts);
    assert_eq!(mesh.1, idxs);

    // Computing the same chunk again gives the same buffers.
    let again = new_chunk(pos, &ci, stripes);
    assert_eq!(mesh, again);
}

#[test]
fn first_load_requests_the_nine_chunks_in_view_in_order() {
    let ci = small_info();
    let mut map = ChunkMap::new();
    let cur = ChunkPosition(5, -7);
    assert!(view_in_world(cur, &ci));
    let requests = load_chunks(&mut map, &ci, &cur, stripes);
    assert_eq!(requests.len(), 9);
    for (request, delta) in requests.iter().zip(IN_VIEW_ORDER.iter()) {
        let pos = ChunkPosition(5 + delta.0, -7 + delta.1);
        assert_eq!(request.position, pos);
        assert_eq!(request.corner, Vec2::new(pos.0 * 32, (pos.1 + 1) * 24));
        assert!(request.generated);
        assert_eq!(map.state(pos), ChunkState::DataReady);
        assert_eq!(map.get(pos).unwrap().data, new_chunk(pos, &ci, stripes));
    }
    assert_eq!(map.len(), 9);
    assert_eq!(map.state(ChunkPosition(7, -7)), ChunkState::Unknown);
}

#[test]
fn each_chunk_is_generated_once_however_often_it_is_loaded() {
    let ci = small_info();
    let calls = Cell::new(0u32);
    let counted = |x: i32, y: i32| {
        calls.set(calls.get() + 1);
        stripes(x, y)
    };
    let mut map = ChunkMap::new();
    let cur = ChunkPosition(0, 0);
    let samples_per_chunk = 5 * 4;

    let first = load_chunks(&mut map, &ci, &cur, &counted);
    assert_eq!(first.len(), 9);
    assert_eq!(calls.get(), 9 * samples_per_chunk);
    let cached: Vec<_> =
        map.positions().iter().map(|p| (*p, map.get(*p).unwrap().data.clone())).collect();

    for _ in 0..4 {
        let again = load_chunks(&mut map, &ci, &cur, &counted);
        // Nothing was instantiated, so all nine are still wanted, from the cache.
        assert_eq!(again.len(), 9);
        assert!(again.iter().all(|r| !r.generated));
        assert_eq!(calls.get(), 9 * samples_per_chunk);
    }
    assert_eq!(map.len(), 9);
    for (pos, data) in cached {
        assert_eq!(map.get(pos).unwrap().data, data);
    }

    let mut next = 1;
    instantiate_all(&mut map, &first, &mut next);
    let settled = load_chunks(&mut map, &ci, &cur, &counted);
    assert!(settled.is_empty());
    assert_eq!(calls.get(), 9 * samples_per_chunk);
}

#[test]
fn moving_one_chunk_loads_a_column_and_reaps_a_column() {
    let ci = small_info();
    let calls = Cell::new(0u32);
    let counted = |x: i32, y: i32| {
        calls.set(calls.get() + 1);
        stripes(x, y)
    };
    let mut map = ChunkMap::new();
    let mut next = 1;

    let start = ChunkPosition(0, 0);
    let requests = load_chunks(&mut map, &ci, &start, &counted);
    instantiate_all(&mut map, &requests, &mut next);
    assert!(unload_chunks_for_despawn(&mut map, Some(start)).is_empty());
    let handles_before: Vec<_> = [0, 1]
        .iter()
        .flat_map(|x| [-1, 0, 1].map(|y| ChunkPosition(*x, y)))
        .map(|p| (p, map.get(p).unwrap().entity))
        .collect();
    let calls_before = calls.get();

    let moved = ChunkPosition(1, 0);
    let requests = load_chunks(&mut map, &ci, &moved, &counted);
    assert_eq!(
        requests.iter().map(|r| r.position).collect::<Vec<_>>(),
        vec![ChunkPosition(2, 1), ChunkPosition(2, 0), ChunkPosition(2, -1)]
    );
    assert!(requests.iter().all(|r| r.generated));
    assert_eq!(calls.get(), calls_before + 3 * 20);
    instantiate_all(&mut map, &requests, &mut next);
    let mut marked = unload_chunks_for_despawn(&mut map, Some(moved));
    marked.sort_by_key(|t| t.position);

    // The column left behind awaits teardown, with the handles it was given.
    assert_eq!(
        marked,
        vec![
            Teardown { entity: InstanceHandle(7), position: ChunkPosition(-1, -1) },
            Teardown { entity: InstanceHandle(4), position: ChunkPosition(-1, 0) },
            Teardown { entity: InstanceHandle(1), position: ChunkPosition(-1, 1) },
        ]
    );
    for y in [-1, 0, 1] {
        assert_eq!(map.state(ChunkPosition(-1, y)), ChunkState::PendingTeardown);
        assert_eq!(map.get(ChunkPosition(-1, y)).unwrap().entity, None);
        // The new column is live.
        assert_eq!(map.state(ChunkPosition(2, y)), ChunkState::Instantiated);
        // Nothing was ever known two columns to the left.
        assert_eq!(map.state(ChunkPosition(-2, y)), ChunkState::Unknown);
    }
    // The columns in both views kept their instances throughout.
    for (pos, handle) in handles_before {
        assert_eq!(map.state(pos), ChunkState::Instantiated);
        assert_eq!(map.get(pos).unwrap().entity, handle);
    }
    assert_eq!(map.len(), 12);
}

#[test]
fn chunk_awaiting_teardown_is_not_requested_until_release_is_confirmed() {
    let ci = small_info();
    let mut map = ChunkMap::new();
    let mut next = 10;
    let home = ChunkPosition(0, 0);
    let requests = load_chunks(&mut map, &ci, &home, stripes);
    instantiate_all(&mut map, &requests, &mut next);

    let away = ChunkPosition(3, 0);
    let marked = unload_chunks_for_despawn(&mut map, Some(away));
    assert_eq!(marked.len(), 9);
    let mesh_before = map.get(home).unwrap().data.clone();

    // Back home before the release is confirmed: nothing can be instantiated.
    assert!(load_chunks(&mut map, &ci, &home, stripes).is_empty());
    assert_eq!(map.state(home), ChunkState::PendingTeardown);

    // Only part of the release is confirmed, with and without a physics body.
    let released = vec![
        Despawning { entity: InstanceHandle(14), body: Some(BodyHandle(77)) },
        Despawning { entity: InstanceHandle(10), body: None },
        Despawning { entity: InstanceHandle(999), body: Some(BodyHandle(5)) },
    ];
    let actions = despawn_marked_chunks(&mut map, &released);
    assert_eq!(
        actions,
        vec![
            DespawnAction::RemoveBody(BodyHandle(77)),
            DespawnAction::Despawn(InstanceHandle(14)),
            DespawnAction::Despawn(InstanceHandle(10)),
            DespawnAction::RemoveBody(BodyHandle(5)),
            DespawnAction::Despawn(InstanceHandle(999)),
        ]
    );
    // Handle 14 went to the centre, handle 10 to the first chunk in view.
    assert_eq!(map.state(home), ChunkState::DataReady);
    assert_eq!(map.state(ChunkPosition(-1, 1)), ChunkState::DataReady);
    assert_eq!(map.state(ChunkPosition(1, 1)), ChunkState::PendingTeardown);
    assert_eq!(map.get(ChunkPosition(1, 1)).unwrap().teardown, Some(InstanceHandle(12)));

    let requests = load_chunks(&mut map, &ci, &home, stripes);
    assert_eq!(
        requests,
        vec![
            SpawnRequest { position: ChunkPosition(-1, 1), corner: Vec2::new(-32, 48), generated: false },
            SpawnRequest { position: home, corner: Vec2::new(0, 24), generated: false },
        ]
    );
    // The mesh was kept, not computed again.
    assert_eq!(map.get(home).unwrap().data, mesh_before);
}

#[test]
fn without_a_viewer_nothing_is_reaped() {
    let ci = small_info();
    let mut map = ChunkMap::new();
    let mut next = 1;
    let requests = load_chunks(&mut map, &ci, &ChunkPosition(0, 0), stripes);
    instantiate_all(&mut map, &requests, &mut next);
    assert!(unload_chunks_for_despawn(&mut map, None).is_empty());
    for delta in IN_VIEW_ORDER {
        assert_eq!(map.state(ChunkPosition(delta.0, delta.1)), ChunkState::Instantiated);
    }
}

#[test]
fn only_live_chunks_out_of_view_are_reaped() {
    let ci = small_info();
    let mut map = ChunkMap::new();
    let requests = load_chunks(&mut map, &ci, &ChunkPosition(0, 0), stripes);
    // Only the corner chunk (1, 1) and the centre get an instance.
    assert!(map.instantiate(ChunkPosition(1, 1), InstanceHandle(3)));
    assert!(map.instantiate(ChunkPosition(0, 0), InstanceHandle(5)));
    assert_eq!(requests.len(), 9);

    // From (2, 2) the chunk (1, 1) is in view and the centre is not.
    let marked = unload_chunks_for_despawn(&mut map, Some(ChunkPosition(2, 2)));
    assert_eq!(marked, vec![Teardown { entity: InstanceHandle(5), position: ChunkPosition(0, 0) }]);
    assert_eq!(map.state(ChunkPosition(1, 1)), ChunkState::Instantiated);
    assert_eq!(map.state(ChunkPosition(0, 0)), ChunkState::PendingTeardown);
    assert_eq!(map.state(ChunkPosition(-1, -1)), ChunkState::DataReady);
    // A second pass finds nothing more to reap.
    assert!(unload_chunks_for_despawn(&mut map, Some(ChunkPosition(2, 2))).is_empty());
}

#[test]
fn despawning_nothing_changes_nothing() {
    let mut map = ChunkMap::new();
    let requests = load_chunks(&mut map, &small_info(), &ChunkPosition(0, 0), stripes);
    let mut next = 1;
    instantiate_all(&mut map, &requests, &mut next);
    unload_chunks_for_despawn(&mut map, Some(ChunkPosition(9, 9)));
    assert!(despawn_marked_chunks(&mut map, &Vec::new()).is_empty());
    assert_eq!(map.state(ChunkPosition(0, 0)), ChunkState::PendingTeardown);
    // A live chunk is not touched by a despawn of its own handle.
    let requests = load_chunks(&mut map, &small_info(), &ChunkPosition(9, 9), stripes);
    instantiate_all(&mut map, &requests, &mut next);
    let live = map.get(ChunkPosition(9, 9)).unwrap().entity.unwrap();
    despawn_marked_chunks(&mut map, &vec![Despawning { entity: live, body: None }]);
    assert_eq!(map.state(ChunkPosition(9, 9)), ChunkState::Instantiated);
}

#[test]
fn view_is_the_chunk_and_its_eight_neighbours() {
    let cur = ChunkPosition(3, -3);
    for dx in -2..3 {
        for dy in -2..3 {
            let near = dx >= -1 && dx <= 1 && dy >= -1 && dy <= 1;
            assert_eq!(in_view(ChunkPosition(3 + dx, -3 + dy), cur), near);
        }
    }
    assert!(!in_view(ChunkPosition(i32::MAX, 0), ChunkPosition(i32::MIN, 0)));
    assert!(in_view(ChunkPosition(i32::MAX, i32::MIN), ChunkPosition(i32::MAX - 1, i32::MIN + 1)));
}

#[test]
fn loading_needs_the_whole_view_inside_the_world() {
    let ci = small_info();
    assert!(view_in_world(ChunkPosition(0, 0), &ci));
    assert!(!view_in_world(ChunkPosition(i32::MAX, 0), &ci));
    assert!(!view_in_world(ChunkPosition(0, i32::MIN), &ci));
    // Chunks are 32 wide: chunk 67108863 ends at 2^31, just out of reach.
    assert!(view_in_world(ChunkPosition(67_108_861, 0), &ci));
    assert!(!view_in_world(ChunkPosition(67_108_862, 0), &ci));
    let mut broken = ci;
    broken.cell_size = CellSize(0, 8);
    assert!(!view_in_world(ChunkPosition(0, 0), &broken));
}

#[test]
fn view_set_holds_the_positions_within_the_load_distance() {
    let mut view = ChunkViewSet::new();
    assert!(!view.contains(ChunkPosition(0, 0)));
    let pos = ChunkPosition(10, -10);

    update_chunk_views(&pos, &ChunkLoadDistance::default(), &mut view);
    for x in 7..14 {
        for y in -13..-6 {
            let inside = (9..11).contains(&x) && (-11..-9).contains(&y);
            assert_eq!(view.contains(ChunkPosition(x, y)), inside, "({}, {})", x, y);
        }
    }

    update_chunk_views(&pos, &ChunkLoadDistance::new(2), &mut view);
    for x in 7..14 {
        for y in -13..-6 {
            let inside = (8..12).contains(&x) && (-12..-8).contains(&y);
            assert_eq!(view.contains(ChunkPosition(x, y)), inside, "({}, {})", x, y);
        }
    }

    // What was in view before is forgotten.
    update_chunk_views(&ChunkPosition(100, 100), &ChunkLoadDistance::new(1), &mut view);
    assert!(!view.contains(pos));
    assert!(view.contains(ChunkPosition(99, 99)));
    assert!(view.contains(ChunkPosition(100, 100)));
    assert!(!view.contains(ChunkPosition(101, 100)));

    update_chunk_views(&pos, &ChunkLoadDistance::new(0), &mut view);
    assert!(!view.contains(pos));
    assert!(!view.contains(ChunkPosition(100, 100)));
}

#[test]
fn view_must_fit_the_chunk_grid() {
    assert!(view_fits(ChunkPosition(0, 0), ChunkLoadDistance::new(5)));
    assert!(view_fits(ChunkPosition(i32::MAX - 5, i32::MIN + 5), ChunkLoadDistance::new(5)));
    assert!(!view_fits(ChunkPosition(i32::MAX - 4, 0), ChunkLoadDistance::new(5)));
    assert!(!view_fits(ChunkPosition(0, i32::MIN + 4), ChunkLoadDistance::new(5)));
    assert!(!view_fits(ChunkPosition(0, 0), ChunkLoadDistance::new(usize::MAX)));
}
