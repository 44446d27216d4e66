use raycaster::angle::{column_heading, normalize, rotate, HALF_FOV, TAU, TURN_STEP};
use raycaster::compositor::{blend, composite, Coverage, ALPHA_ONE};
use raycaster::frame::{cast_columns, column_pixel, render_walls};
use raycaster::grid::{GridMap, UNIT};
use raycaster::player::{Pose, MOVE_STEP};
use raycaster::raycast::{cast_ray, MAX_RAY_STEPS, RAY_STEP};
use raycaster::shading::{projected_height, shade, wall_color, wall_span};

const ROOM: [&str; 8] = [
    "########",
    "#      #",
    "#  ##  #",
    "#      #",
    "#      #",
    "#  ##  #",
    "#      #",
    "########",
];

fn room() -> GridMap {
    let rows: Vec<Vec<u8>> = ROOM.iter().map(|r| r.as_bytes().to_vec()).collect();
    GridMap::from_rows(&rows).unwrap()
}

#[test]
fn room_map_has_expected_cells() {
    let m = room();
    assert_eq!(m.width(), 8);
    assert_eq!(m.height(), 8);
    assert!(m.is_wall(0, 0));
    assert!(m.is_wall(7, 3));
    assert!(m.is_wall(3, 2));
    assert!(!m.is_wall(3, 3));
    assert!(!m.is_wall(1, 1));
}

#[test]
fn from_rows_rejects_bad_text() {
    let empty: Vec<Vec<u8>> = Vec::new();
    assert!(GridMap::from_rows(&empty).is_none());
    let blank_row: Vec<Vec<u8>> = vec![Vec::new()];
    assert!(GridMap::from_rows(&blank_row).is_none());
    let ragged: Vec<Vec<u8>> = vec![b"###".to_vec(), b"# ".to_vec()];
    assert!(GridMap::from_rows(&ragged).is_none());
}

#[test]
fn positions_outside_the_map_are_blocked() {
    let m = room();
    assert!(m.is_open_at(3 * UNIT, 3 * UNIT));
    assert!(!m.is_open_at(-1, 3 * UNIT));
    assert!(!m.is_open_at(3 * UNIT, 8 * UNIT));
    assert!(!m.is_open_at(3 * UNIT + 500_000, 2 * UNIT + 10));
}

#[test]
fn center_ray_from_room_hits_east_wall() {
    let m = room();
    let hit = cast_ray(&m, 3 * UNIT, 3 * UNIT, RAY_STEP, 0, MAX_RAY_STEPS);
    assert_eq!(hit, Some(80));
    let distance = 80 * RAY_STEP;
    assert_eq!(distance, 4 * UNIT);
}

#[test]
fn rays_end_within_step_budget_from_open_cells() {
    let m = room();
    let dirs: [(i64, i64); 8] = [
        (RAY_STEP, 0),
        (-RAY_STEP, 0),
        (0, RAY_STEP),
        (0, -RAY_STEP),
        (35_355, 35_355),
        (-35_355, 35_355),
        (35_355, -35_355),
        (-35_355, -35_355),
    ];
    for &(px, py) in &[(1_500_000i64, 1_500_000i64), (3_000_000, 3_000_000), (6_900_000, 6_900_000)] {
        for &(sx, sy) in &dirs {
            if let Some(k) = cast_ray(&m, px, py, sx, sy, MAX_RAY_STEPS) {
                assert!(k >= 1 && k <= MAX_RAY_STEPS);
            }
        }
    }
    assert_eq!(cast_ray(&m, 3 * UNIT, 3 * UNIT, 0, 0, MAX_RAY_STEPS), None);
}

#[test]
fn ray_that_runs_out_of_steps_misses() {
    let m = room();
    assert_eq!(cast_ray(&m, 3 * UNIT, 3 * UNIT, RAY_STEP, 0, 10), None);
}

#[test]
fn ray_leaving_the_map_misses() {
    let rows: Vec<Vec<u8>> = vec![b"   ".to_vec()];
    let m = GridMap::from_rows(&rows).unwrap();
    assert_eq!(cast_ray(&m, UNIT / 2, UNIT / 2, RAY_STEP, 0, MAX_RAY_STEPS), None);
}

#[test]
fn ten_small_turns_equal_one_large_turn() {
    let mut h: i64 = 0;
    for _ in 0..10 {
        h = rotate(h, -TURN_STEP);
    }
    assert_eq!(h, rotate(0, -10 * TURN_STEP));
    assert_eq!(h, TAU - 500_000);
}

#[test]
fn normalize_wraps_both_ways() {
    assert_eq!(normalize(-1), TAU - 1);
    assert_eq!(normalize(TAU), 0);
    assert_eq!(normalize(2 * TAU + 7), 7);
}

#[test]
fn column_headings_span_the_field_of_view() {
    assert_eq!(column_heading(HALF_FOV, 0, 320), 0);
    assert_eq!(column_heading(0, 160, 320), 0);
    assert_eq!(column_heading(0, 0, 320), TAU - HALF_FOV);
    assert_eq!(column_heading(0, 240, 320), HALF_FOV / 2);
}

#[test]
fn move_into_wall_is_rejected() {
    let m = room();
    let mut p = Pose::new(&m, 1_050_000, 3 * UNIT, 0).unwrap();
    let moved = p.try_move(&m, -MOVE_STEP, 0);
    assert!(!moved);
    assert_eq!((p.x, p.y), (1_050_000, 3 * UNIT));
}

#[test]
fn move_into_open_cell_is_committed() {
    let m = room();
    let mut p = Pose::new(&m, 3 * UNIT, 3 * UNIT, 0).unwrap();
    let moved = p.try_move(&m, MOVE_STEP, 20_000);
    assert!(moved);
    assert_eq!((p.x, p.y), (3 * UNIT + MOVE_STEP, 3 * UNIT + 20_000));
}

#[test]
fn pose_in_wall_is_refused() {
    let m = room();
    assert!(Pose::new(&m, 3_500_000, 2_500_000, 0).is_none());
    assert_eq!(Pose::new(&m, 3 * UNIT, 3 * UNIT, -1).unwrap().heading, TAU - 1);
}

#[test]
fn turning_keeps_position() {
    let m = room();
    let mut p = Pose::new(&m, 3 * UNIT, 3 * UNIT, 0).unwrap();
    p.turn(-TURN_STEP);
    assert_eq!(p.heading, TAU - TURN_STEP);
    assert_eq!((p.x, p.y), (3 * UNIT, 3 * UNIT));
}

#[test]
fn shade_falls_with_distance() {
    assert_eq!(shade(0), 255);
    assert_eq!(shade(UNIT as u64), 235);
    assert_eq!(shade(4 * UNIT as u64), 175);
    assert_eq!(shade(24_999), 255);
    assert_eq!(shade(25_000), 254);
    assert_eq!(shade(20 * UNIT as u64), 0);
    assert_eq!(shade(u64::MAX), 0);
    assert!(shade(1_000_000) >= shade(1_000_001));
}

#[test]
fn projected_height_falls_with_distance() {
    assert_eq!(projected_height(4 * UNIT as u64, 240), 60);
    assert_eq!(projected_height(UNIT as u64, 240), 240);
    assert_eq!(projected_height(3 * UNIT as u64, 240), 80);
    assert_eq!(projected_height(7 * UNIT as u64, 240), 34);
    assert_eq!(projected_height(1, 240), 240_000_000);
    assert!(projected_height(2_000_000, 240) >= projected_height(2_000_001, 240));
}

#[test]
fn wall_span_is_centred_and_clamped() {
    assert_eq!(wall_span(60, 240), (90, 150));
    assert_eq!(wall_span(1000, 240), (0, 239));
    assert_eq!(wall_span(0, 240), (120, 120));
}

#[test]
fn wall_color_packs_red_and_half_green() {
    assert_eq!(wall_color(175), 0xAF5700);
    assert_eq!(wall_color(255), 0xFF7F00);
    assert_eq!(wall_color(0), 0);
}

#[test]
fn white_at_half_coverage_over_black_is_mid_gray() {
    let r = blend(0x000000, 0xFFFFFF, ALPHA_ONE / 2);
    for shift in [0u32, 8, 16] {
        let c = (r >> shift) & 0xFF;
        assert!(c >= 0x7E && c <= 0x80);
    }
    assert_eq!(r, 0x7F7F7F);
}

#[test]
fn blend_at_full_and_zero_coverage() {
    let bg = 0x123456;
    let fg = 0xABCDEF;
    let once = blend(bg, fg, ALPHA_ONE);
    assert_eq!(once, fg);
    assert_eq!(blend(once, fg, ALPHA_ONE), fg);
    assert_eq!(blend(bg, fg, 0), bg);
    assert_eq!(blend(0xFF00_0000, 0x0100_00FF, ALPHA_ONE), 0x0000FF);
}

#[test]
fn composite_blends_on_buffer_and_skips_outside() {
    let mut buf = vec![0u32; 4 * 3];
    let samples = vec![
        Coverage { x: 1, y: 2, alpha: ALPHA_ONE },
        Coverage { x: -1, y: 0, alpha: ALPHA_ONE },
        Coverage { x: 4, y: 0, alpha: ALPHA_ONE },
        Coverage { x: 0, y: 3, alpha: ALPHA_ONE },
        Coverage { x: 3, y: 0, alpha: ALPHA_ONE / 2 },
        Coverage { x: 3, y: 0, alpha: ALPHA_ONE / 2 },
    ];
    composite(&mut buf, 4, 3, &samples, 0xFFFFFF);
    assert_eq!(buf[2 * 4 + 1], 0xFFFFFF);
    assert_eq!(buf[3], 0xBFBFBF);
    let touched = [2 * 4 + 1, 3];
    for (i, &v) in buf.iter().enumerate() {
        if !touched.contains(&i) {
            assert_eq!(v, 0);
        }
    }
}

#[test]
fn column_pixel_draws_strip_of_hit() {
    assert_eq!(column_pixel(Some(80), 89, 240), 0);
    assert_eq!(column_pixel(Some(80), 90, 240), 0xAF5700);
    assert_eq!(column_pixel(Some(80), 150, 240), 0xAF5700);
    assert_eq!(column_pixel(Some(80), 151, 240), 0);
    assert_eq!(column_pixel(None, 120, 240), 0);
}

#[test]
fn frame_renders_walls_from_room() {
    let m = room();
    let p = Pose::new(&m, 3 * UNIT, 3 * UNIT, 0).unwrap();
    let rays = vec![(RAY_STEP, 0), (0, 0), (-RAY_STEP, 0)];
    let hits = cast_columns(&m, &p, &rays);
    assert_eq!(hits, vec![Some(80), None, Some(41)]);
    let (w, h) = (3usize, 240usize);
    let mut buf = vec![0x123456u32; w * h];
    render_walls(&mut buf, w, h, &hits);
    assert_eq!(buf[0], 0);
    assert_eq!(buf[90 * w], 0xAF5700);
    assert_eq!(buf[150 * w], 0xAF5700);
    assert_eq!(buf[151 * w], 0);
    for y in 0..h {
        assert_eq!(buf[y * w + 1], 0);
    }
    let near = column_pixel(Some(41), 120, 240);
    assert_eq!(near, wall_color(shade(41 * RAY_STEP as u64)));
    assert_eq!(near, 0xD66B00);
    assert_eq!(buf[120 * w + 2], near);
    assert_eq!(buf[0 * w + 2], 0);
}
