use raycam::color::shade_component;
use raycam::color::shade_hit;
use raycam::color::normal_to_color;
use raycam::color::Color;
use raycam::grid::advance;
use raycam::grid::index_to_position;
use raycam::grid::raster_positions;
use raycam::shader::compile_outcome;
use raycam::shader::create_whitespace_buffer_with_length;
use raycam::vec3::Vec3;

#[test]
fn color_new_keeps_channels() {
    let c = Color::new(255, 0, 128);
    assert_eq!(c.red, 255);
    assert_eq!(c.green, 0);
    assert_eq!(c.blue, 128);
    assert_eq!(Color::default(), Color::new(0, 0, 0));
}

#[test]
fn shade_component_matches_scale_and_shift() {
    // component * 128 + 127, exact at representable points
    assert_eq!(shade_component(0, 100), 127);
    assert_eq!(shade_component(100, 100), 255);
    assert_eq!(shade_component(-100, 100), 0);
    assert_eq!(shade_component(50, 100), 191);
    assert_eq!(shade_component(-50, 100), 63);
    assert_eq!(shade_component(1, 1), 255);
    assert_eq!(shade_component(-1, 1), 0);
}

#[test]
fn normals_shade_channelwise() {
    let c = normal_to_color(&Vec3::new(0, 100, -100), 100);
    assert_eq!(c, Color::new(127, 255, 0));
}

#[test]
fn hits_shade_and_misses_are_black() {
    let hit = shade_hit(Some(Vec3::new(-50, 0, 100)), 100);
    assert_eq!(hit, Color::new(63, 127, 255));
    let miss = shade_hit(None, 100);
    assert_eq!(miss, Color::new(0, 0, 0));
}

#[test]
fn indices_map_row_major() {
    assert_eq!(index_to_position(0, 600), (0, 0));
    assert_eq!(index_to_position(599, 600), (599, 0));
    assert_eq!(index_to_position(600, 600), (0, 1));
    assert_eq!(index_to_position(7, 3), (1, 2));
}

#[test]
fn advance_walks_columns_then_rows() {
    assert_eq!(advance(0, 0, 3), (1, 0));
    assert_eq!(advance(1, 0, 3), (2, 0));
    assert_eq!(advance(2, 0, 3), (0, 1));
    assert_eq!(advance(2, 41, 3), (0, 42));
}

#[test]
fn raster_scan_covers_the_buffer_in_order() {
    let v = raster_positions(2, 3);
    assert_eq!(
        v,
        vec![(0, 0), (1, 0), (2, 0), (0, 1), (1, 1), (2, 1)]
    );
    assert_eq!(raster_positions(0, 5), vec![]);
    let big = raster_positions(800, 600);
    assert_eq!(big.len(), 480000);
    assert_eq!(big[600], (0, 1));
    assert_eq!(big[479999], (599, 799));
}

#[test]
fn compile_outcome_accepts_nonzero_status() {
    assert_eq!(compile_outcome(17, 1, String::from("unused")), Ok(17));
    assert_eq!(compile_outcome(17, -3, String::new()), Ok(17));
}

#[test]
fn compile_outcome_reports_the_log_on_failure() {
    let r = compile_outcome(17, 0, String::from("0:1: syntax error"));
    assert_eq!(r, Err(String::from("0:1: syntax error")));
}

#[test]
fn whitespace_buffer_is_all_spaces() {
    let v = create_whitespace_buffer_with_length(5);
    assert_eq!(v, vec![b' '; 5]);
    assert_eq!(create_whitespace_buffer_with_length(0), Vec::<u8>::new());
}
