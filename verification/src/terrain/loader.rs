//! Which chunks exist around a viewer: loading what comes into view, handing
//! back what leaves it, and confirming releases.

use crate::terrain::chunk::Chunk;
use crate::terrain::chunk::ChunkData;
use crate::terrain::chunk::ChunkMeshData;
use crate::terrain::chunk::ChunkPosition;
use crate::terrain::chunk::ChunkState;
use crate::terrain::chunk::generate_chunk_data_with;
use crate::terrain::chunk::InstanceHandle;
use crate::terrain::chunk::lemma_samples_deterministic;
use crate::terrain::chunk::spec_is_generated;
use crate::terrain::chunk::spec_sample_of;
use crate::terrain::chunk_map::ChunkMap;
use crate::terrain::chunk_map::lemma_key_order;
use crate::terrain::ChunkInfo;
use crate::terrain::ChunkLoadDistance;
use crate::terrain::marching_squares::lemma_vertices_upto_bound;
use crate::terrain::marching_squares::marching_squares;
use crate::terrain::marching_squares::spec_indices;
use crate::terrain::marching_squares::spec_vertices;
use crate::vec2::Vec2;
use std::collections::HashSet;
use vstd::prelude::*;

verus! {

/// The sampler accepts the world coordinates of every corner of the chunk at `pos`.
pub open spec fn spec_can_sample<F: Fn(i32, i32) -> i32>(
    f: F,
    pos: ChunkPosition,
    ci: ChunkInfo,
) -> bool {
    forall|cx: int, cy: int|
        0 <= cx <= ci.chunk_size.0 && 0 <= cy <= ci.chunk_size.1 ==> #[trigger] f.requires(
            (
                pos.spec_sample_x(ci.chunk_size, ci.cell_size, cx) as i32,
                pos.spec_sample_y(ci.chunk_size, ci.cell_size, cy) as i32,
            ),
        )
}

/// `mesh` is the contour mesh of the chunk at `pos`: there are samples that `f`
/// returns for the corners of that chunk, and `mesh` is what marching squares
/// extracts from them at the configured threshold.
pub open spec fn spec_is_chunk_mesh<F: Fn(i32, i32) -> i32>(
    mesh: ChunkMeshData,
    f: F,
    pos: ChunkPosition,
    ci: ChunkInfo,
) -> bool {
    exists|samples: Seq<i32>|
        {
            &&& samples.len() == ci.chunk_size.spec_sample_count()
            &&& spec_is_generated(samples, pos, ci.chunk_size, ci.cell_size, f)
            &&& mesh.0@ == #[trigger] spec_vertices(
                samples,
                ci.chunk_size,
                ci.cell_size,
                ci.threshold.0,
            )
            &&& mesh.1@ == spec_indices(mesh.0@.len())
        }
}

/// A valid configuration has room for every sample and every vertex of a chunk.
pub proof fn lemma_valid_info_bounds(ci: ChunkInfo, samples: Seq<i32>)
    requires
        ci.spec_is_valid(),
    ensures
        ci.chunk_size.spec_sample_count() <= u32::MAX,
        spec_vertices(samples, ci.chunk_size, ci.cell_size, ci.threshold.0).len() <= u32::MAX,
{
    let (w, h) = (ci.chunk_size.0 as int, ci.chunk_size.1 as int);
    assert((w + 1) * (h + 1) <= 4 * (w * h)) by (nonlinear_arith)
        requires
            0 < w,
            0 < h,
    ;
    assert(0 <= w * h) by (nonlinear_arith)
        requires
            0 < w,
            0 < h,
    ;
    lemma_vertices_upto_bound(
        samples,
        ci.chunk_size,
        ci.cell_size,
        ci.threshold.0,
        (w * h) as nat,
    );
}

/// What holds of a borrowed sampler holds of the sampler.
proof fn lemma_chunk_mesh_by_ref<F: Fn(i32, i32) -> i32>(
    mesh: ChunkMeshData,
    f: F,
    pos: ChunkPosition,
    ci: ChunkInfo,
)
    requires
        spec_is_chunk_mesh(mesh, &f, pos, ci),
    ensures
        spec_is_chunk_mesh(mesh, f, pos, ci),
{
    let samples = choose|samples: Seq<i32>|
        {
            &&& samples.len() == ci.chunk_size.spec_sample_count()
            &&& spec_is_generated(samples, pos, ci.chunk_size, ci.cell_size, &f)
            &&& mesh.0@ == #[trigger] spec_vertices(
                samples,
                ci.chunk_size,
                ci.cell_size,
                ci.threshold.0,
            )
            &&& mesh.1@ == spec_indices(mesh.0@.len())
        };
    assert forall|cx: int, cy: int|
        0 <= cx <= ci.chunk_size.0 && 0 <= cy <= ci.chunk_size.1 implies #[trigger] spec_sample_of(
        samples,
        pos,
        ci.chunk_size,
        ci.cell_size,
        f,
        cx,
        cy,
    ) by {
        assert(spec_sample_of(samples, pos, ci.chunk_size, ci.cell_size, &f, cx, cy));
    }
    assert(mesh.0@ == spec_vertices(samples, ci.chunk_size, ci.cell_size, ci.threshold.0));
}

/// Computes the mesh of the chunk at `pos`: samples the field at every corner
/// of the chunk and extracts the contour at the configured threshold.
pub fn new_chunk<F>(pos: ChunkPosition, ci: &ChunkInfo, f: F) -> (mesh: ChunkMeshData) where
    F: Fn(i32, i32) -> i32,

    requires
        ci.spec_is_valid(),
        pos.spec_samples_fit(ci.chunk_size, ci.cell_size),
        spec_can_sample(f, pos, *ci),
    ensures
        spec_is_chunk_mesh(mesh, f, pos, *ci),
{
    proof {
        lemma_valid_info_bounds(*ci, Seq::empty());
    }
    let mut chunk_data = ChunkData::new(ci.chunk_size);

    generate_chunk_data_with(&mut chunk_data, pos, ci.chunk_size, ci.cell_size, f);

    let ghost samples = chunk_data@;
    proof {
        lemma_valid_info_bounds(*ci, samples);
    }
    let (verts, idxs) = marching_squares(chunk_data, ci.chunk_size, ci.cell_size, ci.threshold.0);

    ChunkMeshData(verts, idxs)
}

/// The number of chunk positions in view of a tracked position: itself and
/// its eight neighbours.
pub const VIEW_COUNT: usize = 9;

/// The offsets of the positions in view, in the order in which they are
/// visited: row by row from the top, each row from left to right.
pub open spec fn spec_delta(i: int) -> ChunkPosition {
    if i == 0 {
        ChunkPosition(-1i32, 1)
    } else if i == 1 {
        ChunkPosition(0, 1)
    } else if i == 2 {
        ChunkPosition(1, 1)
    } else if i == 3 {
        ChunkPosition(-1i32, 0)
    } else if i == 4 {
        ChunkPosition(0, 0)
    } else if i == 5 {
        ChunkPosition(1, 0)
    } else if i == 6 {
        ChunkPosition(-1i32, -1i32)
    } else if i == 7 {
        ChunkPosition(0, -1i32)
    } else {
        ChunkPosition(1, -1i32)
    }
}

/// The `i`-th position in view of `cur`.
pub open spec fn spec_neighbour(cur: ChunkPosition, i: int) -> ChunkPosition {
    ChunkPosition((cur.0 + spec_delta(i).0) as i32, (cur.1 + spec_delta(i).1) as i32)
}

/// All eight neighbours of `cur` exist in the chunk grid.
pub open spec fn spec_has_neighbours(cur: ChunkPosition) -> bool {
    &&& i32::MIN < cur.0 < i32::MAX
    &&& i32::MIN < cur.1 < i32::MAX
}

/// `pos` is `cur` or one of its eight neighbours.
pub open spec fn spec_in_view(pos: ChunkPosition, cur: ChunkPosition) -> bool {
    &&& -1 <= pos.0 - cur.0 <= 1
    &&& -1 <= pos.1 - cur.1 <= 1
}

/// The positions in view are nine different positions, and they are exactly
/// the positions at most one chunk away along each axis.
pub proof fn lemma_neighbours(cur: ChunkPosition)
    requires
        spec_has_neighbours(cur),
    ensures
        forall|i: int, j: int|
            0 <= i < VIEW_COUNT && 0 <= j < VIEW_COUNT && i != j ==> #[trigger] spec_neighbour(
                cur,
                i,
            ) != #[trigger] spec_neighbour(cur, j),
        forall|p: ChunkPosition|
            spec_in_view(p, cur) <==> exists|i: int|
                0 <= i < VIEW_COUNT && #[trigger] spec_neighbour(cur, i) == p,
{
    assert forall|p: ChunkPosition| spec_in_view(p, cur) implies exists|i: int|
        0 <= i < VIEW_COUNT && #[trigger] spec_neighbour(cur, i) == p by {
        let i = (p.0 - cur.0 + 1) + 3 * (1 - (p.1 - cur.1));
        assert(spec_neighbour(cur, i) == p);
    }
}

/// The offsets of the positions in view, in visiting order.
fn deltas() -> (r: [ChunkPosition; 9])
    ensures
        forall|i: int| 0 <= i < VIEW_COUNT ==> r@[i] == spec_delta(i),
{
    [
        ChunkPosition(-1, 1),
        ChunkPosition(0, 1),
        ChunkPosition(1, 1),
        ChunkPosition(-1, 0),
        ChunkPosition(0, 0),
        ChunkPosition(1, 0),
        ChunkPosition(-1, -1),
        ChunkPosition(0, -1),
        ChunkPosition(1, -1),
    ]
}

/// Decides [`spec_in_view`].
#[verifier::when_used_as_spec(spec_in_view)]
pub fn in_view(pos: ChunkPosition, cur: ChunkPosition) -> (b: bool)
    ensures
        b == spec_in_view(pos, cur),
{
    let dx: i64 = pos.0 as i64 - cur.0 as i64;
    let dy: i64 = pos.1 as i64 - cur.1 as i64;
    -1 <= dx && dx <= 1 && -1 <= dy && dy <= 1
}

/// A chunk that is to be instantiated by the collaborator that draws and
/// collides it.
#[derive(Debug, Copy, Clone, Eq, PartialEq, Structural)]
pub struct SpawnRequest {
    /// The position of the chunk. Its mesh is cached under this position.
    pub position: ChunkPosition,
    /// The world position of the chunk's top-left corner, where the mesh goes.
    pub corner: Vec2,
    /// Whether the mesh was computed for this request, rather than found cached.
    pub generated: bool,
}

/// A position wants an instance when nothing is cached for it yet or its
/// cached chunk is `DataReady`. A live chunk has one, and a chunk whose
/// release is still awaited cannot take one.
pub open spec fn spec_wants_instance(cache: Map<ChunkPosition, Chunk>, pos: ChunkPosition) -> bool {
    !cache.contains_key(pos) || cache[pos].spec_state() == ChunkState::DataReady
}

/// The request for a position that wants an instance.
pub open spec fn spec_request(
    cache: Map<ChunkPosition, Chunk>,
    pos: ChunkPosition,
    ci: ChunkInfo,
) -> SpawnRequest {
    SpawnRequest {
        position: pos,
        corner: pos.spec_global_corner(ci.chunk_size, ci.cell_size),
        generated: !cache.contains_key(pos),
    }
}

/// The requests that the first `n` positions in view of `cur` give rise to, in
/// visiting order: one for each position that wants an instance.
pub open spec fn spec_requests_upto(
    cache: Map<ChunkPosition, Chunk>,
    cur: ChunkPosition,
    ci: ChunkInfo,
    n: nat,
) -> Seq<SpawnRequest>
    decreases n,
{
    if n == 0 {
        Seq::empty()
    } else {
        let pos = spec_neighbour(cur, n - 1);
        let before = spec_requests_upto(cache, cur, ci, (n - 1) as nat);
        if spec_wants_instance(cache, pos) {
            before.push(spec_request(cache, pos, ci))
        } else {
            before
        }
    }
}

/// The requests that the positions in view of `cur` give rise to.
pub open spec fn spec_requests(
    cache: Map<ChunkPosition, Chunk>,
    cur: ChunkPosition,
    ci: ChunkInfo,
) -> Seq<SpawnRequest> {
    spec_requests_upto(cache, cur, ci, VIEW_COUNT as nat)
}

/// How loading the view of `cur` changes the cache, from `before` to `after`.
///
/// The cache gains exactly the positions in view that it lacked. What was
/// cached stays as it was. Each gained chunk is `DataReady` and holds the mesh
/// of its position.
pub open spec fn spec_loaded<F: Fn(i32, i32) -> i32>(
    before: Map<ChunkPosition, Chunk>,
    after: Map<ChunkPosition, Chunk>,
    f: F,
    cur: ChunkPosition,
    ci: ChunkInfo,
) -> bool {
    &&& forall|p: ChunkPosition| #[trigger]
        after.contains_key(p) <==> before.contains_key(p) || spec_in_view(p, cur)
    &&& forall|p: ChunkPosition| #[trigger] before.contains_key(p) ==> after[p] == before[p]
    &&& forall|p: ChunkPosition| #[trigger]
        after.contains_key(p) && !before.contains_key(p) ==> {
            &&& after[p].spec_state() == ChunkState::DataReady
            &&& spec_is_chunk_mesh(after[p].data, f, p, ci)
        }
}

/// The configuration is valid, `cur` has all its neighbours, and the corners
/// of every chunk in view of `cur` have world coordinates within `i32`.
pub open spec fn spec_view_in_world(cur: ChunkPosition, ci: ChunkInfo) -> bool {
    &&& ci.spec_is_valid()
    &&& spec_has_neighbours(cur)
    &&& forall|i: int|
        0 <= i < VIEW_COUNT ==> (#[trigger] spec_neighbour(cur, i)).spec_samples_fit(
            ci.chunk_size,
            ci.cell_size,
        )
}

/// Decides [`spec_view_in_world`].
pub fn view_in_world(cur: ChunkPosition, ci: &ChunkInfo) -> (b: bool)
    ensures
        b == spec_view_in_world(cur, *ci),
{
    if !ci.is_valid() || cur.0 == i32::MIN || cur.0 == i32::MAX || cur.1 == i32::MIN || cur.1
        == i32::MAX {
        return false;
    }
    let offsets = deltas();
    let mut i: usize = 0;
    while i < VIEW_COUNT
        invariant
            i <= VIEW_COUNT,
            spec_has_neighbours(cur),
            forall|k: int| 0 <= k < VIEW_COUNT ==> offsets@[k] == spec_delta(k),
            forall|k: int|
                0 <= k < i ==> (#[trigger] spec_neighbour(cur, k)).spec_samples_fit(
                    ci.chunk_size,
                    ci.cell_size,
                ),
        decreases VIEW_COUNT - i,
    {
        let delta = offsets[i];
        assert(delta == spec_delta(i as int));
        let next_chunk = ChunkPosition(cur.0 + delta.0, cur.1 + delta.1);
        assert(next_chunk == spec_neighbour(cur, i as int));
        if !next_chunk.samples_fit(ci.chunk_size, ci.cell_size) {
            return false;
        }
        i = i + 1;
    }
    true
}

/// The view of `cur` lies in the world, and the sampler can be asked for
/// every chunk in it.
pub open spec fn spec_can_load<F: Fn(i32, i32) -> i32>(
    f: F,
    cur: ChunkPosition,
    ci: ChunkInfo,
) -> bool {
    &&& spec_view_in_world(cur, ci)
    &&& forall|i: int|
        0 <= i < VIEW_COUNT ==> spec_can_sample(f, #[trigger] spec_neighbour(cur, i), ci)
}

/// Makes sure that every chunk in view of `current_pos` has its mesh cached,
/// and asks for an instance of each that has none.
///
/// The nine positions in view are visited in a fixed order. A mesh is computed
/// only for a position for which nothing is cached; what is cached is never
/// computed again nor changed. The result lists, in visiting order, the chunks
/// to instantiate: those just computed and those that were `DataReady`. The
/// caller instantiates each and reports the handle with
/// [`ChunkMap::instantiate`].
pub fn load_chunks<F>(
    chunk_map: &mut ChunkMap,
    ci: &ChunkInfo,
    current_pos: &ChunkPosition,
    f: F,
) -> (requests: Vec<SpawnRequest>) where F: Fn(i32, i32) -> i32
    requires
        spec_can_load(f, *current_pos, *ci),
    ensures
        requests@ == spec_requests(old(chunk_map)@, *current_pos, *ci),
        spec_loaded(old(chunk_map)@, final(chunk_map)@, f, *current_pos, *ci),
{
    let offsets = deltas();
    let mut requests: Vec<SpawnRequest> = Vec::new();
    let cur = *current_pos;
    proof {
        lemma_neighbours(cur);
    }

    let mut i: usize = 0;
    while i < VIEW_COUNT
        invariant
            i <= VIEW_COUNT,
            cur == *current_pos,
            spec_can_load(f, cur, *ci),
            forall|k: int| 0 <= k < VIEW_COUNT ==> offsets@[k] == spec_delta(k),
            forall|a: int, b: int|
                0 <= a < VIEW_COUNT && 0 <= b < VIEW_COUNT && a != b ==> #[trigger] spec_neighbour(
                    cur,
                    a,
                ) != #[trigger] spec_neighbour(cur, b),
            requests@ == spec_requests_upto(old(chunk_map)@, cur, *ci, i as nat),
            forall|p: ChunkPosition|
                chunk_map@.contains_key(p) <==> old(chunk_map)@.contains_key(p) || exists|k: int|
                    0 <= k < i && #[trigger] spec_neighbour(cur, k) == p,
            forall|p: ChunkPosition|
                old(chunk_map)@.contains_key(p) ==> chunk_map@[p] == old(chunk_map)@[p],
            forall|p: ChunkPosition|
                chunk_map@.contains_key(p) && !old(chunk_map)@.contains_key(p) ==> {
                    &&& (#[trigger] chunk_map@[p]).spec_state() == ChunkState::DataReady
                    &&& spec_is_chunk_mesh(chunk_map@[p].data, f, p, *ci)
                },
        decreases VIEW_COUNT - i,
    {
        let delta = offsets[i];
        assert(delta == spec_delta(i as int));
        let next_chunk = ChunkPosition(cur.0 + delta.0, cur.1 + delta.1);
        assert(next_chunk == spec_neighbour(cur, i as int));
        let ghost before = chunk_map@;
        assert(before.contains_key(next_chunk) == old(chunk_map)@.contains_key(next_chunk)) by {
            if before.contains_key(next_chunk) && !old(chunk_map)@.contains_key(next_chunk) {
                let k = choose|k: int| 0 <= k < i && #[trigger] spec_neighbour(cur, k) == next_chunk;
                assert(spec_neighbour(cur, k) != spec_neighbour(cur, i as int));
            }
        }

        let state = chunk_map.state(next_chunk);
        match state {
            ChunkState::Instantiated | ChunkState::PendingTeardown => {},
            ChunkState::Unknown => {
                let data = new_chunk(next_chunk, ci, &f);
                proof {
                    lemma_chunk_mesh_by_ref(data, f, next_chunk, *ci);
                }
                chunk_map.insert(next_chunk, Chunk { entity: None, teardown: None, data });
                let corner = next_chunk.get_global_corner(ci.chunk_size, ci.cell_size);
                requests.push(SpawnRequest { position: next_chunk, corner, generated: true });
            },
            ChunkState::DataReady => {
                let corner = next_chunk.get_global_corner(ci.chunk_size, ci.cell_size);
                requests.push(SpawnRequest { position: next_chunk, corner, generated: false });
            },
        }
        proof {
            assert forall|p: ChunkPosition|
                chunk_map@.contains_key(p) <==> old(chunk_map)@.contains_key(p) || exists|k: int|
                    0 <= k < i + 1 && #[trigger] spec_neighbour(cur, k) == p by {
                if before.contains_key(p) && !old(chunk_map)@.contains_key(p) {
                    let k = choose|k: int| 0 <= k < i && #[trigger] spec_neighbour(cur, k) == p;
                    assert(0 <= k < i + 1 && spec_neighbour(cur, k) == p);
                }
                if p == next_chunk {
                    assert(spec_neighbour(cur, i as int) == p);
                }
                if exists|k: int| 0 <= k < i + 1 && #[trigger] spec_neighbour(cur, k) == p {
                    let k = choose|k: int| 0 <= k < i + 1 && #[trigger] spec_neighbour(cur, k) == p;
                    if k < i {
                        assert(before.contains_key(p));
                    }
                }
            }
        }
        i = i + 1;
    }
    proof {
        assert forall|p: ChunkPosition|
            chunk_map@.contains_key(p) <==> old(chunk_map)@.contains_key(p) || spec_in_view(
                p,
                cur,
            ) by {
            if spec_in_view(p, cur) {
                let k = choose|k: int| 0 <= k < VIEW_COUNT && #[trigger] spec_neighbour(cur, k) == p;
                assert(0 <= k < i && spec_neighbour(cur, k) == p);
            }
        }
    }
    requests
}

/// The notice that an instance is to be released: the handle that was issued
/// for it, and the position of the chunk it stood for.
#[derive(Debug, Copy, Clone, Eq, PartialEq, Structural)]
pub struct Teardown {
    pub entity: InstanceHandle,
    pub position: ChunkPosition,
}

/// A chunk is reaped when it is `Instantiated` and out of view of the tracked
/// position. Without a tracked position nothing is reaped.
pub open spec fn spec_is_reaped(
    cache: Map<ChunkPosition, Chunk>,
    pos: ChunkPosition,
    viewer: Option<ChunkPosition>,
) -> bool {
    &&& viewer is Some
    &&& cache.contains_key(pos)
    &&& cache[pos].spec_state() == ChunkState::Instantiated
    &&& !spec_in_view(pos, viewer->0)
}

/// Hands back every live chunk that is out of view of the tracked position.
///
/// Each `Instantiated` chunk that is neither at `current_pos` nor one of its
/// eight neighbours becomes `PendingTeardown`: it loses its live handle and
/// awaits the release of that handle, and keeps its mesh. The result holds one
/// notice for each such chunk. Chunks in view, and chunks in other states, stay
/// as they are. Without a tracked position the call changes nothing.
pub fn unload_chunks_for_despawn(
    chunk_map: &mut ChunkMap,
    current_pos: Option<ChunkPosition>,
) -> (marked: Vec<Teardown>)
    ensures
        final(chunk_map)@.dom() == old(chunk_map)@.dom(),
        forall|p: ChunkPosition| #[trigger]
            old(chunk_map)@.contains_key(p) ==> final(chunk_map)@[p] == (if spec_is_reaped(
                old(chunk_map)@,
                p,
                current_pos,
            ) {
                Chunk { entity: None, teardown: old(chunk_map)@[p].entity, data: old(chunk_map)@[p].data }
            } else {
                old(chunk_map)@[p]
            }),
        forall|k: int|
            0 <= k < marked@.len() ==> {
                &&& spec_is_reaped(old(chunk_map)@, (#[trigger] marked@[k]).position, current_pos)
                &&& old(chunk_map)@[marked@[k].position].entity == Some(marked@[k].entity)
            },
        forall|p: ChunkPosition|
            spec_is_reaped(old(chunk_map)@, p, current_pos) ==> exists|k: int|
                0 <= k < marked@.len() && (#[trigger] marked@[k]).position == p,
        forall|k: int, l: int|
            0 <= k < l < marked@.len() ==> (#[trigger] marked@[k]).position != (
            #[trigger] marked@[l]).position,
{
    let mut marked: Vec<Teardown> = Vec::new();
    let cur = match current_pos {
        Some(cur) => cur,
        None => {
            return marked;
        },
    };
    let positions = chunk_map.positions();

    let mut i: usize = 0;
    while i < positions.len()
        invariant
            i <= positions@.len(),
            current_pos == Some(cur),
            positions@.no_duplicates(),
            positions@.to_set() == old(chunk_map)@.dom(),
            chunk_map@.dom() == old(chunk_map)@.dom(),
            forall|j: int|
                0 <= j < i ==> chunk_map@[#[trigger] positions@[j]] == (if spec_is_reaped(
                    old(chunk_map)@,
                    positions@[j],
                    current_pos,
                ) {
                    Chunk {
                        entity: None,
                        teardown: old(chunk_map)@[positions@[j]].entity,
                        data: old(chunk_map)@[positions@[j]].data,
                    }
                } else {
                    old(chunk_map)@[positions@[j]]
                }),
            forall|j: int|
                i <= j < positions@.len() ==> chunk_map@[#[trigger] positions@[j]] == old(
                    chunk_map,
                )@[positions@[j]],
            forall|k: int|
                0 <= k < marked@.len() ==> {
                    &&& spec_is_reaped(
                        old(chunk_map)@,
                        (#[trigger] marked@[k]).position,
                        current_pos,
                    )
                    &&& old(chunk_map)@[marked@[k].position].entity == Some(marked@[k].entity)
                    &&& exists|j: int| 0 <= j < i && #[trigger] positions@[j] == marked@[k].position
                },
            forall|j: int|
                0 <= j < i && spec_is_reaped(old(chunk_map)@, #[trigger] positions@[j], current_pos)
                    ==> exists|k: int|
                    0 <= k < marked@.len() && (#[trigger] marked@[k]).position == positions@[j],
            forall|k: int, l: int|
                0 <= k < l < marked@.len() ==> (#[trigger] marked@[k]).position != (
                #[trigger] marked@[l]).position,
        decreases positions@.len() - i,
    {
        let pos = positions[i];
        let ghost before = chunk_map@;
        let ghost marked_before = marked@;
        assert(positions@.to_set().contains(pos));
        assert(old(chunk_map)@.contains_key(pos));
        if !in_view(pos, cur) {
            match chunk_map.release(pos) {
                Some(entity) => {
                    marked.push(Teardown { entity, position: pos });
                    proof {
                        assert(chunk_map@.dom() =~= old(chunk_map)@.dom());
                        assert forall|k: int, l: int| 0 <= k < l < marked@.len() implies (
                        #[trigger] marked@[k]).position != (#[trigger] marked@[l]).position by {
                            if l == marked_before.len() {
                                let j = choose|j: int|
                                    0 <= j < i && #[trigger] positions@[j]
                                        == marked_before[k].position;
                                assert(positions@[j] != positions@[i as int]);
                            }
                        }
                    }
                },
                None => {},
            }
        }
        proof {
            assert forall|j: int| 0 <= j < positions@.len() && j != i implies chunk_map@[positions@[j]]
                == before[positions@[j]] by {
                assert(positions@[j] != positions@[i as int]);
            }
            assert forall|k: int| 0 <= k < marked@.len() implies exists|j: int|
                0 <= j < i + 1 && #[trigger] positions@[j] == (#[trigger] marked@[k]).position by {
                if k < marked_before.len() {
                    let j = choose|j: int|
                        0 <= j < i && #[trigger] positions@[j] == marked_before[k].position;
                    assert(0 <= j < i + 1 && positions@[j] == marked@[k].position);
                } else {
                    assert(positions@[i as int] == marked@[k].position);
                }
            }
            assert forall|j: int|
                0 <= j < i + 1 && spec_is_reaped(
                    old(chunk_map)@,
                    #[trigger] positions@[j],
                    current_pos,
                ) implies exists|k: int|
                0 <= k < marked@.len() && (#[trigger] marked@[k]).position == positions@[j] by {
                if j < i {
                    let k = choose|k: int|
                        0 <= k < marked_before.len() && (#[trigger] marked_before[k]).position
                            == positions@[j];
                    assert(marked@[k].position == positions@[j]);
                } else {
                    assert(marked@[marked@.len() - 1].position == positions@[j]);
                }
            }
        }
        i = i + 1;
    }
    proof {
        assert forall|p: ChunkPosition| #[trigger]
            old(chunk_map)@.contains_key(p) implies chunk_map@[p] == (if spec_is_reaped(
            old(chunk_map)@,
            p,
            current_pos,
        ) {
            Chunk { entity: None, teardown: old(chunk_map)@[p].entity, data: old(chunk_map)@[p].data }
        } else {
            old(chunk_map)@[p]
        }) by {
            assert(positions@.to_set().contains(p));
            let j = choose|j: int| 0 <= j < positions@.len() && positions@[j] == p;
            assert(chunk_map@[positions@[j]] == chunk_map@[p]);
        }
        assert forall|p: ChunkPosition|
            spec_is_reaped(old(chunk_map)@, p, current_pos) implies exists|k: int|
            0 <= k < marked@.len() && (#[trigger] marked@[k]).position == p by {
            assert(positions@.to_set().contains(p));
            let j = choose|j: int| 0 <= j < positions@.len() && positions@[j] == p;
            assert(spec_is_reaped(old(chunk_map)@, positions@[j], current_pos));
        }
    }
    marked
}

/// A token for the physics body of an instance, issued by the physics collaborator.
#[derive(Debug, Copy, Clone, Ord, PartialOrd, Eq, PartialEq, Structural, Hash)]
pub struct BodyHandle(pub u64);

/// An instance that is marked for release, with its physics body if it has one.
#[derive(Debug, Copy, Clone, Eq, PartialEq, Structural)]
pub struct Despawning {
    pub entity: InstanceHandle,
    pub body: Option<BodyHandle>,
}

/// One step of releasing instances, for the collaborators to carry out.
#[derive(Debug, Copy, Clone, Eq, PartialEq, Structural)]
pub enum DespawnAction {
    /// Remove this body, with its colliders and joints, from the physics world.
    RemoveBody(BodyHandle),
    /// Remove this instance and everything attached to it.
    Despawn(InstanceHandle),
}

/// The steps that release the first `n` of the marked instances, in order: for
/// each instance its body is removed first, if it has one, and then the
/// instance itself.
pub open spec fn spec_despawn_actions(marked: Seq<Despawning>, n: nat) -> Seq<DespawnAction>
    decreases n,
{
    if n == 0 {
        Seq::empty()
    } else {
        let before = spec_despawn_actions(marked, (n - 1) as nat);
        let m = marked[n - 1];
        match m.body {
            Some(body) => before.push(DespawnAction::RemoveBody(body)).push(
                DespawnAction::Despawn(m.entity),
            ),
            None => before.push(DespawnAction::Despawn(m.entity)),
        }
    }
}

/// `entity` is one of the marked instances.
pub open spec fn spec_is_marked(marked: Seq<Despawning>, entity: InstanceHandle) -> bool {
    exists|i: int| 0 <= i < marked.len() && (#[trigger] marked[i]).entity == entity
}

/// The release of the chunk is awaited and the awaited instance is one of the
/// marked instances.
pub open spec fn spec_is_released(chunk: Chunk, marked: Seq<Despawning>) -> bool {
    &&& chunk.spec_state() == ChunkState::PendingTeardown
    &&& spec_is_marked(marked, chunk.teardown->0)
}

/// Whether `entity` is one of the marked instances.
fn is_marked(to_despawn: &Vec<Despawning>, entity: InstanceHandle) -> (b: bool)
    ensures
        b == spec_is_marked(to_despawn@, entity),
{
    let mut i: usize = 0;
    while i < to_despawn.len()
        invariant
            i <= to_despawn@.len(),
            forall|j: int| 0 <= j < i ==> (#[trigger] to_despawn@[j]).entity != entity,
        decreases to_despawn@.len() - i,
    {
        if to_despawn[i].entity == entity {
            return true;
        }
        i = i + 1;
    }
    false
}

/// Releases the instances that are marked for release.
///
/// The result lists what the collaborators have to do, instance by instance in
/// the order given. With that the release of those instances counts as
/// confirmed: every chunk that is `PendingTeardown` and awaits one of them
/// becomes `DataReady`, keeps its mesh, and can be instantiated again. All
/// other chunks stay as they are.
pub fn despawn_marked_chunks(chunk_map: &mut ChunkMap, to_despawn: &Vec<Despawning>) -> (actions:
    Vec<DespawnAction>)
    ensures
        actions@ == spec_despawn_actions(to_despawn@, to_despawn@.len()),
        final(chunk_map)@.dom() == old(chunk_map)@.dom(),
        forall|p: ChunkPosition| #[trigger]
            old(chunk_map)@.contains_key(p) ==> final(chunk_map)@[p] == (if spec_is_released(
                old(chunk_map)@[p],
                to_despawn@,
            ) {
                Chunk { entity: None, teardown: None, data: old(chunk_map)@[p].data }
            } else {
                old(chunk_map)@[p]
            }),
{
    let mut actions: Vec<DespawnAction> = Vec::new();
    let mut n: usize = 0;
    while n < to_despawn.len()
        invariant
            n <= to_despawn@.len(),
            actions@ == spec_despawn_actions(to_despawn@, n as nat),
        decreases to_despawn@.len() - n,
    {
        let Despawning { entity, body } = to_despawn[n];
        if let Some(rigid_handle) = body {
            actions.push(DespawnAction::RemoveBody(rigid_handle));
        }
        actions.push(DespawnAction::Despawn(entity));
        n = n + 1;
    }

    let positions = chunk_map.positions();
    let mut i: usize = 0;
    while i < positions.len()
        invariant
            i <= positions@.len(),
            positions@.no_duplicates(),
            positions@.to_set() == old(chunk_map)@.dom(),
            chunk_map@.dom() == old(chunk_map)@.dom(),
            forall|j: int|
                0 <= j < i ==> chunk_map@[#[trigger] positions@[j]] == (if spec_is_released(
                    old(chunk_map)@[positions@[j]],
                    to_despawn@,
                ) {
                    Chunk {
                        entity: None,
                        teardown: None,
                        data: old(chunk_map)@[positions@[j]].data,
                    }
                } else {
                    old(chunk_map)@[positions@[j]]
                }),
            forall|j: int|
                i <= j < positions@.len() ==> chunk_map@[#[trigger] positions@[j]] == old(
                    chunk_map,
                )@[positions@[j]],
        decreases positions@.len() - i,
    {
        let pos = positions[i];
        let ghost before = chunk_map@;
        assert(positions@.to_set().contains(pos));
        assert(old(chunk_map)@.contains_key(pos));
        let awaited = match chunk_map.get(pos) {
            Some(chunk) => if chunk.entity.is_none() {
                chunk.teardown
            } else {
                None
            },
            None => None,
        };
        if let Some(entity) = awaited {
            if is_marked(to_despawn, entity) {
                chunk_map.confirm_release(pos);
                assert(chunk_map@.dom() =~= old(chunk_map)@.dom());
            }
        }
        proof {
            assert forall|j: int| 0 <= j < positions@.len() && j != i implies chunk_map@[positions@[j]]
                == before[positions@[j]] by {
                assert(positions@[j] != positions@[i as int]);
            }
        }
        i = i + 1;
    }
    proof {
        assert forall|p: ChunkPosition| #[trigger]
            old(chunk_map)@.contains_key(p) implies chunk_map@[p] == (if spec_is_released(
            old(chunk_map)@[p],
            to_despawn@,
        ) {
            Chunk { entity: None, teardown: None, data: old(chunk_map)@[p].data }
        } else {
            old(chunk_map)@[p]
        }) by {
            assert(positions@.to_set().contains(p));
            let j = choose|j: int| 0 <= j < positions@.len() && positions@[j] == p;
            assert(chunk_map@[positions@[j]] == chunk_map@[p]);
        }
    }
    actions
}

/// The chunk positions that a viewer has in view.
#[derive(Debug)]
pub struct ChunkViewSet(HashSet<u64>);

impl View for ChunkViewSet {
    type V = Set<ChunkPosition>;

    closed spec fn view(&self) -> Set<ChunkPosition> {
        Set::new(|p: ChunkPosition| self.0@.contains(p.spec_key()))
    }
}

/// `pos` is within `dist` chunks of `center`: at most `dist` chunks to the left
/// of or below it, and fewer than `dist` chunks to the right of or above it.
pub open spec fn spec_in_range(pos: ChunkPosition, center: ChunkPosition, dist: int) -> bool {
    &&& center.0 - dist <= pos.0 < center.0 + dist
    &&& center.1 - dist <= pos.1 < center.1 + dist
}

impl ChunkViewSet {
    /// The empty view.
    pub fn new() -> (r: Self)
        ensures
            r@ == Set::<ChunkPosition>::empty(),
    {
        let r = ChunkViewSet(HashSet::new());
        assert(r@ =~= Set::<ChunkPosition>::empty());
        r
    }

    /// Whether `pos` is in view.
    pub fn contains(&self, pos: ChunkPosition) -> (b: bool)
        ensures
            b == self@.contains(pos),
    {
        self.0.contains(&pos.key())
    }

    /// Empties the view.
    fn clear(&mut self)
        ensures
            final(self)@ == Set::<ChunkPosition>::empty(),
    {
        self.0.clear();
        assert(self@ =~= Set::<ChunkPosition>::empty());
    }

    /// Adds `pos` to the view.
    fn insert(&mut self, pos: ChunkPosition)
        ensures
            final(self)@ == old(self)@.insert(pos),
    {
        self.0.insert(pos.key());
        proof {
            assert forall|p: ChunkPosition| p != pos implies p.spec_key() != pos.spec_key() by {
                lemma_key_order(p, pos);
            }
            assert(self@ =~= old(self)@.insert(pos));
        }
    }
}

/// The region around `pos` for a load distance can be walked in `i32`.
pub open spec fn spec_view_fits(pos: ChunkPosition, dist: ChunkLoadDistance) -> bool {
    &&& dist.spec_distance() <= i32::MAX
    &&& i32::MIN <= pos.0 - dist.spec_distance()
    &&& pos.0 + dist.spec_distance() <= i32::MAX
    &&& i32::MIN <= pos.1 - dist.spec_distance()
    &&& pos.1 + dist.spec_distance() <= i32::MAX
}

/// Decides [`spec_view_fits`].
#[verifier::when_used_as_spec(spec_view_fits)]
pub fn view_fits(pos: ChunkPosition, dist: ChunkLoadDistance) -> (b: bool)
    ensures
        b == spec_view_fits(pos, dist),
{
    let d = dist.distance();
    if d > 0x7fff_ffff {
        return false;
    }
    let d: i64 = d as i64;
    let (x, y) = (pos.0 as i64, pos.1 as i64);
    -0x8000_0000 <= x - d && x + d <= 0x7fff_ffff && -0x8000_0000 <= y - d && y + d <= 0x7fff_ffff
}

/// Recomputes what a viewer at `pos` has in view: afterwards `view_set` holds
/// exactly the positions within `dist` chunks of `pos`, whatever it held before.
pub fn update_chunk_views(pos: &ChunkPosition, dist: &ChunkLoadDistance, view_set: &mut ChunkViewSet)
    requires
        spec_view_fits(*pos, *dist),
    ensures
        final(view_set)@ == Set::new(
            |p: ChunkPosition| spec_in_range(p, *pos, dist.spec_distance() as int),
        ),
{
    let dist: i32 = dist.distance() as i32;
    let (x, y) = (pos.0, pos.1);

    view_set.clear();

    let mut xp: i32 = x - dist;
    while xp < x + dist
        invariant
            0 <= dist,
            i32::MIN <= x - dist,
            x + dist <= i32::MAX,
            i32::MIN <= y - dist,
            y + dist <= i32::MAX,
            x - dist <= xp <= x + dist,
            view_set@ == Set::new(
                |p: ChunkPosition| x - dist <= p.0 < xp && y - dist <= p.1 < y + dist,
            ),
        decreases x + dist - xp,
    {
        let mut yp: i32 = y - dist;
        while yp < y + dist
            invariant
                0 <= dist,
                i32::MIN <= x - dist,
                x + dist <= i32::MAX,
                i32::MIN <= y - dist,
                y + dist <= i32::MAX,
                x - dist <= xp < x + dist,
                y - dist <= yp <= y + dist,
                view_set@ == Set::new(
                    |p: ChunkPosition|
                        (x - dist <= p.0 < xp && y - dist <= p.1 < y + dist) || (p.0 == xp && y
                            - dist <= p.1 < yp),
                ),
            decreases y + dist - yp,
        {
            let chunk = ChunkPosition(xp, yp);
            view_set.insert(chunk);
            assert(view_set@ =~= Set::new(
                |p: ChunkPosition|
                    (x - dist <= p.0 < xp && y - dist <= p.1 < y + dist) || (p.0 == xp && y - dist
                        <= p.1 < yp + 1),
            ));
            yp = yp + 1;
        }
        assert(view_set@ =~= Set::new(
            |p: ChunkPosition| x - dist <= p.0 < xp + 1 && y - dist <= p.1 < y + dist,
        ));
        xp = xp + 1;
    }
    assert(view_set@ =~= Set::new(|p: ChunkPosition| spec_in_range(p, *pos, dist as int)));
}

/// Every request among those of the first `n` positions in view is the request
/// of one of those positions, and that position wants an instance.
pub proof fn lemma_requests_content(
    cache: Map<ChunkPosition, Chunk>,
    cur: ChunkPosition,
    ci: ChunkInfo,
    n: nat,
)
    ensures
        forall|k: int|
            0 <= k < spec_requests_upto(cache, cur, ci, n).len() ==> {
                let r = #[trigger] spec_requests_upto(cache, cur, ci, n)[k];
                &&& r == spec_request(cache, r.position, ci)
                &&& spec_wants_instance(cache, r.position)
                &&& exists|i: int| 0 <= i < n && #[trigger] spec_neighbour(cur, i) == r.position
            },
    decreases n,
{
    if n > 0 {
        lemma_requests_content(cache, cur, ci, (n - 1) as nat);
        let before = spec_requests_upto(cache, cur, ci, (n - 1) as nat);
        let all = spec_requests_upto(cache, cur, ci, n);
        assert forall|k: int| 0 <= k < all.len() implies {
            let r = #[trigger] all[k];
            &&& r == spec_request(cache, r.position, ci)
            &&& spec_wants_instance(cache, r.position)
            &&& exists|i: int| 0 <= i < n && #[trigger] spec_neighbour(cur, i) == r.position
        } by {
            let r = all[k];
            if k < before.len() {
                assert(r == before[k]);
                let i = choose|i: int|
                    0 <= i < n - 1 && #[trigger] spec_neighbour(cur, i) == r.position;
                assert(0 <= i < n && spec_neighbour(cur, i) == r.position);
            } else {
                assert(spec_neighbour(cur, n - 1) == r.position);
            }
        }
    }
}

/// A mesh is computed at most once for a position.
///
/// Load the view of the same position twice in a row: the first time a mesh is
/// computed for exactly the positions in view that the cache lacked; the second
/// time none is computed and the cache stays as the first load left it.
pub proof fn lemma_load_chunks_generates_once<F: Fn(i32, i32) -> i32>(
    start: Map<ChunkPosition, Chunk>,
    first: Map<ChunkPosition, Chunk>,
    second: Map<ChunkPosition, Chunk>,
    f: F,
    cur: ChunkPosition,
    ci: ChunkInfo,
)
    requires
        spec_has_neighbours(cur),
        spec_loaded(start, first, f, cur, ci),
        spec_loaded(first, second, f, cur, ci),
    ensures
        second == first,
        forall|k: int|
            0 <= k < spec_requests(start, cur, ci).len() ==> ((
            #[trigger] spec_requests(start, cur, ci)[k]).generated <==> !start.contains_key(
                spec_requests(start, cur, ci)[k].position,
            )),
        forall|k: int|
            0 <= k < spec_requests(first, cur, ci).len() ==> !(#[trigger] spec_requests(
                first,
                cur,
                ci,
            )[k]).generated,
{
    lemma_neighbours(cur);
    lemma_requests_content(start, cur, ci, VIEW_COUNT as nat);
    lemma_requests_content(first, cur, ci, VIEW_COUNT as nat);
    assert forall|k: int| 0 <= k < spec_requests(first, cur, ci).len() implies !(
    #[trigger] spec_requests(first, cur, ci)[k]).generated by {
        let r = spec_requests(first, cur, ci)[k];
        let i = choose|i: int| 0 <= i < VIEW_COUNT && #[trigger] spec_neighbour(cur, i) == r.position;
        assert(spec_in_view(r.position, cur));
        assert(first.contains_key(r.position));
    }
    assert forall|p: ChunkPosition| second.contains_key(p) <==> first.contains_key(p) by {
        if second.contains_key(p) && !first.contains_key(p) {
            assert(spec_in_view(p, cur));
        }
    }
    assert(second =~= first);
}

/// The sampler returns one value for each pair of coordinates.
pub open spec fn spec_is_deterministic<F: Fn(i32, i32) -> i32>(f: F) -> bool {
    forall|x: i32, y: i32, a: i32, b: i32|
        #[trigger] f.ensures((x, y), a) && #[trigger] f.ensures((x, y), b) ==> a == b
}

/// With a sampler that returns one value for each pair of coordinates, a chunk
/// has one mesh: computing it again gives the same vertices and the same
/// indices.
pub proof fn lemma_chunk_mesh_deterministic<F: Fn(i32, i32) -> i32>(
    f: F,
    pos: ChunkPosition,
    ci: ChunkInfo,
    one: ChunkMeshData,
    other: ChunkMeshData,
)
    requires
        spec_is_deterministic(f),
        spec_is_chunk_mesh(one, f, pos, ci),
        spec_is_chunk_mesh(other, f, pos, ci),
    ensures
        one.0@ == other.0@,
        one.1@ == other.1@,
{
    let a = choose|samples: Seq<i32>|
        {
            &&& samples.len() == ci.chunk_size.spec_sample_count()
            &&& spec_is_generated(samples, pos, ci.chunk_size, ci.cell_size, f)
            &&& one.0@ == #[trigger] spec_vertices(
                samples,
                ci.chunk_size,
                ci.cell_size,
                ci.threshold.0,
            )
            &&& one.1@ == spec_indices(one.0@.len())
        };
    let b = choose|samples: Seq<i32>|
        {
            &&& samples.len() == ci.chunk_size.spec_sample_count()
            &&& spec_is_generated(samples, pos, ci.chunk_size, ci.cell_size, f)
            &&& other.0@ == #[trigger] spec_vertices(
                samples,
                ci.chunk_size,
                ci.cell_size,
                ci.threshold.0,
            )
            &&& other.1@ == spec_indices(other.0@.len())
        };
    lemma_samples_deterministic(f, pos, ci.chunk_size, ci.cell_size, a, b);
}

} // verus!
