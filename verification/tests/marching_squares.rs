use terrain_chunks::terrain::chunk::CellSize;
use terrain_chunks::terrain::chunk::ChunkData;
use terrain_chunks::terrain::chunk::ChunkSize;
use terrain_chunks::terrain::marching_squares::case_index;
use terrain_chunks::terrain::marching_squares::get_point;
use terrain_chunks::terrain::marching_squares::get_points;
use terrain_chunks::terrain::marching_squares::marching_squares;
use terrain_chunks::terrain::marching_squares::tri_lut;
use terrain_chunks::terrain::marching_squares::Side;
use terrain_chunks::terrain::marching_squares::CASE_COUNT;
use terrain_chunks::vec2::Vec2;

use Side::BotLeft;
use Side::BotRight;
use Side::Bottom;
use Side::Left;
use Side::Right;
use Side::Top;
use Side::TopLeft;
use Side::TopRight;

const ONE: i32 = 1_000_000;
const HALF: i32 = 500_000;

fn expected_table() -> Vec<Vec<Side>> {
    vec![
        vec![],
        vec![Left, BotLeft, Bottom],
        vec![Bottom, BotRight, Right],
        vec![Left, BotLeft, BotRight, Left, BotRight, Right],
        vec![Top, Right, TopRight],
        vec![
            Left, BotLeft, Bottom, Left, Bottom, Right, Left, Right, Top, Top, Right, TopRight,
        ],
        vec![Top, BotRight, TopRight, Bottom, BotRight, Top],
        vec![
            BotLeft, BotRight, TopRight, TopRight, Top, Left, Left, BotLeft, TopRight,
        ],
        vec![TopLeft, Left, Top],
        vec![TopLeft, BotLeft, Bottom, Bottom, Top, TopLeft],
        vec![
            TopLeft, Left, Top, Left, Bottom, Top, Top, Bottom, Right, Right, Bottom, BotRight,
        ],
        vec![
            TopLeft, BotLeft, BotRight, TopLeft, BotRight, Right, Right, Top, TopLeft,
        ],
        vec![TopLeft, Right, TopRight, TopLeft, Left, Right],
        vec![
            TopRight, TopLeft, BotLeft, BotLeft, Bottom, Right, Right, TopRight, BotLeft,
        ],
        vec![
            TopLeft, BotRight, TopRight, TopLeft, Left, Bottom, Bottom, BotRight, TopLeft,
        ],
        vec![TopLeft, BotLeft, BotRight, BotRight, TopRight, TopLeft],
        vec![Left, BotLeft, Bottom, Top, Right, TopRight],
        vec![Bottom, BotRight, Right, TopLeft, Left, Top],
    ]
}

#[test]
fn triangle_table_has_the_eighteen_entries() {
    let expected = expected_table();
    assert_eq!(expected.len(), CASE_COUNT);
    for case in 0..CASE_COUNT {
        assert_eq!(tri_lut(case), expected[case].as_slice(), "entry {}", case);
    }
}

#[test]
fn every_corner_pattern_has_whole_triangles() {
    for pattern in 0..16usize {
        for mean_high in [false, true] {
            // A solid corner is far above or just above the threshold, so that
            // the mean lies on either side of it.
            let solid = if mean_high { 100 * ONE } else { 1 };
            let pick = |bit: usize| if pattern & bit != 0 { solid } else { -ONE };
            let case = case_index(pick(8), pick(4), pick(2), pick(1), 0);
            assert!(case < CASE_COUNT);
            let triangles = tri_lut(case);
            assert_eq!(triangles.len() % 3, 0);
            assert!(triangles.len() / 3 <= 4);
            if ![5, 7, 10, 11, 13, 14].contains(&case) {
                assert!(triangles.len() / 3 <= 2, "case {}", case);
            }
            if pattern != 5 && pattern != 10 {
                assert_eq!(case, pattern);
            }
        }
    }
}

#[test]
fn three_solid_corners_take_three_triangles() {
    let case = case_index(-ONE, ONE, ONE, ONE, 0);
    assert_eq!(case, 7);
    assert_eq!(tri_lut(case).len(), 9);
}

#[test]
fn corner_pattern_weighs_the_corners() {
    assert_eq!(case_index(ONE, 0, 0, 0, HALF), 8);
    assert_eq!(case_index(0, ONE, 0, 0, HALF), 4);
    assert_eq!(case_index(0, 0, ONE, 0, HALF), 2);
    assert_eq!(case_index(0, 0, 0, ONE, HALF), 1);
    assert_eq!(case_index(ONE, ONE, ONE, ONE, HALF), 15);
    assert_eq!(case_index(0, 0, 0, 0, HALF), 0);
    // A sample equal to the threshold is not above it.
    assert_eq!(case_index(HALF, HALF, HALF, HALF, HALF), 0);
    assert_eq!(case_index(HALF + 1, HALF, HALF, HALF, HALF), 8);
}

#[test]
fn saddle_with_mean_at_threshold_is_split() {
    // Top-right and bottom-left solid: pattern 5. The mean is 0.5, not above.
    assert_eq!(case_index(0, ONE, 0, ONE, HALF), 16);
    assert_eq!(
        tri_lut(16),
        &[Left, BotLeft, Bottom, Top, Right, TopRight][..]
    );
    // Top-left and bottom-right solid: pattern 10.
    assert_eq!(case_index(ONE, 0, ONE, 0, HALF), 17);
    assert_eq!(
        tri_lut(17),
        &[Bottom, BotRight, Right, TopLeft, Left, Top][..]
    );
}

#[test]
fn saddle_with_mean_above_threshold_is_joined() {
    // The mean is 1.0, above 0.5.
    assert_eq!(case_index(0, 2 * ONE, 0, 2 * ONE, HALF), 5);
    assert_eq!(tri_lut(5).len(), 12);
    assert_eq!(case_index(2 * ONE, 0, 2 * ONE, 0, HALF), 10);
    assert_eq!(tri_lut(10).len(), 12);
    // The smallest step above the threshold on the sum is enough.
    assert_eq!(case_index(0, ONE + 1, 0, ONE, HALF), 5);
    assert_eq!(case_index(0, ONE + 1, 0, ONE - 1, HALF), 16);
}

#[test]
fn saddle_mean_does_not_overflow() {
    assert_eq!(case_index(i32::MAX, i32::MIN, i32::MAX, i32::MIN, i32::MIN), 10);
    assert_eq!(case_index(i32::MIN, i32::MAX, i32::MIN, i32::MAX, i32::MAX - 1), 16);
}

#[test]
fn top_anchor_is_the_middle_of_the_top_edge() {
    let cell = CellSize(8, 8);
    for pts in [[0, 0, 0, 0], [ONE, 0, 0, 0], [0, ONE, 0, 0], [-7, 9 * ONE, 3, 4]] {
        for threshold in [0, HALF, -ONE] {
            assert_eq!(get_point(&pts, Top, cell, threshold), Vec2::new(4, 0));
        }
    }
}

#[test]
fn anchors_lie_on_corners_and_edge_middles() {
    let cell = CellSize(8, 3);
    let pts = [1, 2, 3, 4];
    assert_eq!(get_point(&pts, TopLeft, cell, 0), Vec2::new(0, 0));
    assert_eq!(get_point(&pts, TopRight, cell, 0), Vec2::new(8, 0));
    assert_eq!(get_point(&pts, BotRight, cell, 0), Vec2::new(8, -3));
    assert_eq!(get_point(&pts, BotLeft, cell, 0), Vec2::new(0, -3));
    assert_eq!(get_point(&pts, Top, cell, 0), Vec2::new(4, 0));
    assert_eq!(get_point(&pts, Bottom, cell, 0), Vec2::new(4, -3));
    // The middle of an edge of odd length lies on a half unit.
    assert_eq!(get_point(&pts, Right, cell, 0), Vec2::from_halves(16, -3));
    assert_eq!(get_point(&pts, Left, cell, 0), Vec2::from_halves(0, -3));
    assert_eq!(
        get_points(pts, (&Left, &BotRight), cell, 0),
        (Vec2::from_halves(0, -3), Vec2::new(8, -3))
    );
}

#[test]
fn single_cell_with_one_solid_corner() {
    let size = ChunkSize(1, 1);
    let mut data = ChunkData::new(size);
    data.set_at(size, 0, 0, ONE);
    let (verts, idxs) = marching_squares(data, size, CellSize(8, 8), HALF);
    assert_eq!(verts, vec![Vec2::new(0, 0), Vec2::new(0, -4), Vec2::new(4, 0)]);
    assert_eq!(idxs, vec![0, 1, 2]);
}

#[test]
fn empty_field_has_no_mesh() {
    let size = ChunkSize(3, 2);
    let data = ChunkData::new(size);
    let (verts, idxs) = marching_squares(data, size, CellSize(8, 8), HALF);
    assert!(verts.is_empty());
    assert!(idxs.is_empty());
}

#[test]
fn solid_field_is_covered_cell_by_cell() {
    let size = ChunkSize(2, 2);
    let mut data = ChunkData::new(size);
    for x in 0..3 {
        for y in 0..3 {
            data.set_at(size, x, y, ONE);
        }
    }
    let (verts, idxs) = marching_squares(data, size, CellSize(8, 4), HALF);
    assert_eq!(verts.len(), 24);
    assert_eq!(idxs, (0..24).collect::<Vec<u32>>());
    // Cells come column by column, each column from the top.
    let cell = |x: i32, y: i32| {
        vec![
            Vec2::new(8 * x, -4 * y),
            Vec2::new(8 * x, -4 * y - 4),
            Vec2::new(8 * x + 8, -4 * y - 4),
            Vec2::new(8 * x + 8, -4 * y - 4),
            Vec2::new(8 * x + 8, -4 * y),
            Vec2::new(8 * x, -4 * y),
        ]
    };
    let mut expected = Vec::new();
    expected.extend(cell(0, 0));
    expected.extend(cell(0, 1));
    expected.extend(cell(1, 0));
    expected.extend(cell(1, 1));
    assert_eq!(verts, expected);
}

#[test]
fn mesh_follows_the_samples_of_each_cell() {
    // Two cells side by side. The left one has its bottom-left corner solid,
    // the right one is a saddle that is split.
    let size = ChunkSize(2, 1);
    let mut data = ChunkData::new(size);
    data.set_at(size, 0, 1, ONE);
    data.set_at(size, 2, 0, ONE);
    data.set_at(size, 1, 1, ONE);
    // Left cell: top-left 0, top-right 0, bottom-right 1, bottom-left 1 -> 3.
    // Right cell: top-left 0, top-right 1, bottom-right 0, bottom-left 1 -> 5,
    // with mean 0.5 against threshold 0.5 -> 16.
    let (verts, idxs) = marching_squares(data, size, CellSize(2, 2), HALF);
    let expected = vec![
        // Left, BotLeft, BotRight, Left, BotRight, Right
        Vec2::new(0, -1),
        Vec2::new(0, -2),
        Vec2::new(2, -2),
        Vec2::new(0, -1),
        Vec2::new(2, -2),
        Vec2::new(2, -1),
        // Left, BotLeft, Bottom, Top, Right, TopRight, moved right by one cell
        Vec2::new(2, -1),
        Vec2::new(2, -2),
        Vec2::new(3, -2),
        Vec2::new(3, 0),
        Vec2::new(4, -1),
        Vec2::new(4, 0),
    ];
    assert_eq!(verts, expected);
    assert_eq!(idxs, (0..12).collect::<Vec<u32>>());
}

#[test]
fn extraction_is_repeatable() {
    let size = ChunkSize(4, 3);
    let build = || {
        let mut data = ChunkData::new(size);
        for x in 0..5usize {
            for y in 0..4usize {
                data.set_at(size, x, y, ((x * 7 + y * 13) % 5) as i32 * HALF);
            }
        }
        data
    };
    let one = marching_squares(build(), size, CellSize(8, 8), ONE);
    let other = marching_squares(build(), size, CellSize(8, 8), ONE);
    assert_eq!(one, other);
    assert!(!one.0.is_empty());
}
