use brush::render_aux::{calc_tile_bounds, check_render_aux, max_intersections, tile_depth, AuxError, GAUSSIANS_UPPER_BOUND};

#[test]
fn tile_bounds_round_up() {
    assert_eq!(calc_tile_bounds(1920, 1080, 16), (120, 68));
    assert_eq!(calc_tile_bounds(0, 1, 16), (0, 1));
    assert_eq!(calc_tile_bounds(u32::MAX, 17, 16), (u32::MAX / 16 + 1, 2));
}

#[test]
fn intersection_estimate() {
    // 4 x 2 tiles, 10 splats: 80, below the bound.
    assert_eq!(max_intersections(64, 32, 10, 16, 1000), 80);
    assert_eq!(max_intersections(64, 32, 10, 16, 50), 50);
    // Saturates before the bound applies.
    assert_eq!(max_intersections(1 << 16, 1 << 16, u32::MAX, 16, u32::MAX), u32::MAX);
}

#[test]
fn gaussians_bound() {
    assert_eq!(GAUSSIANS_UPPER_BOUND, 256 * 65535);
}

#[test]
fn valid_buffers_pass() {
    let r = check_render_aux(4, 2, 3, &vec![0, 2, 4], &vec![0, 2, 4], &vec![0, 1, 1, 0, 9], &vec![2, 0], 100);
    assert_eq!(r, Ok(()));
}

#[test]
fn each_check_reports() {
    let ok_off = vec![0, 2, 4];
    assert_eq!(check_render_aux(100, 2, 3, &vec![], &ok_off, &vec![], &vec![], 100), Err(AuxError::TooManyIntersections));
    assert_eq!(check_render_aux(-1, 2, 3, &vec![], &ok_off, &vec![], &vec![], 100), Err(AuxError::TooManyIntersections));
    assert_eq!(check_render_aux(4, 4, 3, &vec![], &ok_off, &vec![], &vec![], 100), Err(AuxError::VisibleExceedsSplats));
    assert_eq!(
        check_render_aux(4, GAUSSIANS_UPPER_BOUND as i32, i32::MAX as u32, &vec![], &ok_off, &vec![], &vec![], 100),
        Err(AuxError::TooManyGaussians)
    );
    assert_eq!(check_render_aux(4, 2, 3, &vec![5], &ok_off, &vec![], &vec![], 100), Err(AuxError::FinalIndexOutOfBounds));
    assert_eq!(check_render_aux(4, 2, 3, &vec![], &vec![0, 5], &vec![], &vec![], 100), Err(AuxError::TileOffsetOutOfBounds));
    assert_eq!(check_render_aux(4, 2, 3, &vec![], &vec![2, 1], &vec![], &vec![], 100), Err(AuxError::TileOffsetsDecrease));
    assert_eq!(check_render_aux(4, 2, 3, &vec![], &vec![0, 3], &vec![], &vec![], 100), Err(AuxError::TileOverfull));
    assert_eq!(check_render_aux(4, 2, 3, &vec![], &ok_off, &vec![0, 1], &vec![], 100), Err(AuxError::MissingIntersectionIds));
    assert_eq!(check_render_aux(4, 2, 3, &vec![], &ok_off, &vec![0, 1, 2, 0], &vec![], 100), Err(AuxError::InvalidIntersectionId));
    assert_eq!(check_render_aux(4, 2, 3, &vec![], &ok_off, &vec![0, 1, 1, 0], &vec![1], 100), Err(AuxError::MissingSplatIds));
    assert_eq!(check_render_aux(4, 2, 3, &vec![], &ok_off, &vec![0, 1, 1, 0], &vec![1, 3], 100), Err(AuxError::InvalidSplatId));
}

#[test]
fn tile_depths_by_row() {
    let d = tile_depth(&vec![0, 1, 3, 3, 7, 8, 8], 3, 2);
    assert_eq!(d, vec![vec![1, 2, 0], vec![4, 1, 0]]);
    assert_eq!(tile_depth(&vec![5], 0, 0), Vec::<Vec<i32>>::new());
}

#[test]
fn checked_buffers_have_bounded_depths() {
    let offsets = vec![0, 2, 2, 4];
    assert_eq!(check_render_aux(4, 2, 5, &vec![1, 4], &offsets, &vec![0, 1, 1, 0], &vec![4, 0], 10), Ok(()));
    for row in tile_depth(&offsets, 3, 1) {
        for d in row {
            assert!(0 <= d && d <= 2);
        }
    }
}
