use gcad::gcode::GcodeState;
use gcad::rat::Rat;

fn rat(n: i64, d: i64) -> Rat {
    Rat::make(n as i128, d as i128).expect("representable rational")
}

fn ri(n: i64) -> Rat {
    Rat::from_int(n)
}

#[test]
fn header_is_the_fixed_sequence() {
    let mut g = GcodeState::new();
    g.write_header();
    assert_eq!(g.output(), "G90\nG21\n(Move to safe Z)\nG53 G0 Z-5\nM05\n");
}

#[test]
fn repeated_rapid_to_same_target_emits_once() {
    let mut g = GcodeState::new();
    g.rapid_move(ri(1), ri(2), Some(ri(3))).unwrap();
    let once = g.output();
    assert_eq!(once, "G0 X1 Y2 Z3\n");
    g.rapid_move(ri(1), ri(2), Some(ri(3))).unwrap();
    assert_eq!(g.output(), once);
}

#[test]
fn move_changing_only_z_emits_only_z() {
    let mut g = GcodeState::new();
    g.rapid_move(ri(1), ri(2), Some(ri(3))).unwrap();
    g.rapid_move(ri(1), ri(2), Some(ri(4))).unwrap();
    assert_eq!(g.output(), "G0 X1 Y2 Z3\nZ4\n");
}

#[test]
fn command_word_suppressed_when_unchanged() {
    let mut g = GcodeState::new();
    g.rapid_move(ri(0), ri(0), None).unwrap();
    g.rapid_move(ri(5), ri(0), None).unwrap();
    // second line repeats neither the command nor the unchanged Y
    assert_eq!(g.output(), "G0 X0 Y0\nX5\n");
}

#[test]
fn feed_word_tracked_across_lines() {
    let mut g = GcodeState::new();
    g.feed_rate = ri(300);
    g.cutting_move(ri(1), ri(0), None).unwrap();
    g.cutting_move(ri(2), ri(0), None).unwrap();
    assert_eq!(g.output(), "G1 X1 Y0 F300\nX2\n");
}

#[test]
fn plunge_uses_plunge_rate() {
    let mut g = GcodeState::new();
    g.plunge_rate = ri(100);
    g.plunge(rat(-5, 1));
    assert_eq!(g.output(), "G1 Z-5 F100\n");
}

#[test]
fn spindle_line_suppressed_on_same_speed() {
    let mut g = GcodeState::new();
    g.set_rpm(ri(10000));
    g.set_rpm(ri(10000));
    assert_eq!(g.output(), "M03 S10000\n");
    g.set_rpm(ri(12000));
    assert_eq!(g.output(), "M03 S10000\nS12000\n");
}

#[test]
fn comment_is_parenthesized() {
    let mut g = GcodeState::new();
    g.write_comment("hello there");
    assert_eq!(g.output(), "(hello there)\n");
}

#[test]
fn numbers_format_to_three_decimals_stripped() {
    let mut g = GcodeState::new();
    g.rapid_move(rat(5, 2), ri(10), Some(rat(1, 4))).unwrap();
    assert_eq!(g.output(), "G0 X2.5 Y10 Z0.25\n");
}

#[test]
fn formatting_rounds_to_thousandths() {
    let mut g = GcodeState::new();
    // 1.2346 rounds to 1.235; 1/3 rounds to 0.333
    g.rapid_move(rat(12346, 10000), rat(1, 3), None).unwrap();
    assert_eq!(g.output(), "G0 X1.235 Y0.333\n");
}

#[test]
fn arc_requires_known_position() {
    let mut g = GcodeState::new();
    let e = g.arc_cut(ri(1), ri(0), ri(0), ri(0)).unwrap_err();
    assert!(matches!(e.kind, gcad::err::ErrorKind::Domain));
}

#[test]
fn arc_centers_are_offsets_from_current_position() {
    let mut g = GcodeState::new();
    g.feed_rate = ri(200);
    g.rapid_move(ri(2), ri(0), None).unwrap();
    g.arc_cut(ri(-2), ri(0), ri(0), ri(0)).unwrap();
    // I/J are the center relative to (2, 0)
    assert_eq!(g.output(), "G0 X2 Y0\nG3 X-2 I-2 J0 F200\n");
}

#[test]
fn drill_cycle_sequence() {
    let mut g = GcodeState::new();
    g.plunge_rate = ri(100);
    g.drill(ri(0), ri(0), ri(5)).unwrap();
    assert_eq!(g.output(), "G0 X0 Y0\nZ0.25\nG1 Z-5 F100\nG0 Z5\n");
}

#[test]
fn contour_line_passes_deepen() {
    let mut g = GcodeState::new();
    g.feed_rate = ri(300);
    g.plunge_rate = ri(100);
    g.depth_per_pass = ri(1);
    g.contour_line(ri(0), ri(0), ri(10), ri(0), ri(2)).unwrap();
    assert_eq!(
        g.output(),
        "G0 X0 Y0\nG1 Z-1 F100\nX10 F300\nG0 Z5\nX0\nG1 Z-2 F100\nX10 F300\nG0 Z5\n"
    );
}

#[test]
fn contour_line_zero_depth_per_pass_is_domain_error() {
    let mut g = GcodeState::new();
    let e = g.contour_line(ri(0), ri(0), ri(1), ri(0), ri(1)).unwrap_err();
    assert!(matches!(e.kind, gcad::err::ErrorKind::Domain));
}

#[test]
fn circle_pocket_guard_rejects_equal_diameter() {
    let mut g = GcodeState::new();
    g.cutter_diameter = ri(5);
    g.depth_per_pass = ri(1);
    let e = g.circle_pocket(ri(0), ri(0), ri(5), ri(1)).unwrap_err();
    assert!(matches!(e.kind, gcad::err::ErrorKind::Domain));
}

#[test]
fn circle_pocket_emits_concentric_arcs() {
    let mut g = GcodeState::new();
    g.cutter_diameter = ri(2);
    g.depth_per_pass = ri(1);
    g.feed_rate = ri(200);
    g.plunge_rate = ri(100);
    g.circle_pocket(ri(0), ri(0), ri(5), ri(1)).unwrap();
    // n_circles = 2, x_offset = 0.5; one pass at z = -1
    assert_eq!(
        g.output(),
        "G0 X0.5 Y0\nG1 Z2.5 F100\nZ-1\nG3 X-0.5 I-0.5 J0 F200\nX1.5 I1\nX-1.5 I-1.5\nX1.5 I1.5\nG0 Z5\n"
    );
}

#[test]
fn groove_pocket_starts_innermost() {
    let mut g = GcodeState::new();
    g.cutter_diameter = ri(2);
    g.depth_per_pass = ri(2);
    g.stepover = ri(1);
    g.feed_rate = ri(200);
    g.plunge_rate = ri(100);
    g.groove_pocket(ri(0), ri(0), ri(6), ri(4), ri(2)).unwrap();
    // n_loops = 1 + ceil((3-2)/1) = 2; the pattern is built from the inset
    // rectangle inward and then reversed, so the cut begins at the
    // innermost ring's closing corner; one pass at z = -2.
    let out = g.output();
    assert!(out.starts_with("G0 X2 Y2\nZ5\nG1 Z-2 F100\n"), "got: {}", out);
    assert!(out.ends_with("Z5\n"), "got: {}", out);
}

#[test]
fn scale_transforms_x_and_y_only() {
    let mut g = GcodeState::new();
    g.set_scale(ri(2), ri(3));
    g.rapid_move(ri(1), ri(1), Some(ri(1))).unwrap();
    assert_eq!(g.output(), "G0 X2 Y3 Z1\n");
}

#[test]
fn finish_emits_program_end() {
    let mut g = GcodeState::new();
    g.finish();
    assert_eq!(g.output(), "M02\n");
}
