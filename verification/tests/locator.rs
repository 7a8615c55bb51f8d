use radar_locate::cluster::{dbscan, NOISE_ID};
use radar_locate::labels::label_file_lines;
use radar_locate::locator::{BBox, Locator, RobotDetection, RobotLabel, RobotLocation};
use radar_locate::rat::Rat;
use radar_locate::transform::{MatrixWithInverse, Transform};
use radar_locate::vecmat::{Mat3, Mat4, Point3};
use radar_locate::LocateError;

fn r(n: i64) -> Rat {
    Rat::from_int(n)
}

fn rq(n: i64, d: i64) -> Rat {
    Rat::new(n, d).unwrap()
}

fn p3(x: i64, y: i64, z: i64) -> Point3 {
    Point3::new(r(x), r(y), r(z))
}

fn mat3_int(v: [i64; 9]) -> Mat3 {
    Mat3::new(
        r(v[0]), r(v[1]), r(v[2]),
        r(v[3]), r(v[4]), r(v[5]),
        r(v[6]), r(v[7]), r(v[8]),
    )
}

fn mat4_int(v: [i64; 16]) -> Mat4 {
    Mat4::new(
        r(v[0]), r(v[1]), r(v[2]), r(v[3]),
        r(v[4]), r(v[5]), r(v[6]), r(v[7]),
        r(v[8]), r(v[9]), r(v[10]), r(v[11]),
        r(v[12]), r(v[13]), r(v[14]), r(v[15]),
    )
}

fn identity3() -> Mat3 {
    mat3_int([1, 0, 0, 0, 1, 0, 0, 0, 1])
}

fn identity4() -> Mat4 {
    mat4_int([1, 0, 0, 0, 0, 1, 0, 0, 0, 0, 1, 0, 0, 0, 0, 1])
}

fn default_locator() -> Locator {
    Locator::new(
        640,
        480,
        identity3(),
        identity4(),
        identity4(),
        rq(1, 2),
        10,
        rq(1, 10),
        r(10),
        r(100),
    )
    .unwrap()
}

#[test]
fn test_transform_inverse() {
    let transform_matrix = mat4_int([
        1, 0, 0, 2,
        0, 1, 0, 3,
        0, 0, 1, 4,
        0, 0, 0, 1,
    ]);

    let transform = Transform::try_from(transform_matrix).unwrap();

    let expected_inverse = mat4_int([
        1, 0, 0, -2,
        0, 1, 0, -3,
        0, 0, 1, -4,
        0, 0, 0, 1,
    ]);
    assert_eq!(transform.transform_matrix_inverse, expected_inverse);

    let expected_rotation = mat3_int([
        1, 0, 0,
        0, 1, 0,
        0, 0, 1,
    ]);

    assert_eq!(transform.rotation_matrix, expected_rotation);
    assert_eq!(transform.translation_vector, p3(2, 3, 4));
}

#[test]
fn test_matrix_with_inverse() {
    let matrix = mat3_int([
        1, 2, 3,
        0, 1, 4,
        5, 6, 0,
    ]);

    let matrix_with_inverse = MatrixWithInverse::try_from(matrix).unwrap();

    // The matrix has determinant one, so its inverse is integral.
    let expected_inverse = mat3_int([
        -24, 18, 5,
        20, -15, -4,
        -5, 4, 1,
    ]);
    assert_eq!(matrix_with_inverse.matrix_inverse, expected_inverse);
}

#[test]
fn test_lidar_camera_conversion() {
    let locator = default_locator();

    let lidar_point = p3(1, 2, 3);
    let camera_point = locator.lidar_to_camera(&lidar_point).unwrap();
    let converted_back = locator.camera_to_lidar(&camera_point).unwrap();

    // Exact arithmetic: the round trip reproduces the point exactly.
    assert!(converted_back.x.val_eq(&lidar_point.x));
    assert!(converted_back.y.val_eq(&lidar_point.y));
    assert!(converted_back.z.val_eq(&lidar_point.z));
}

#[test]
fn test_get_robot_depth_map() {
    let mut locator = default_locator();

    let points_0 = vec![p3(2, 3, 1)];
    let points_1 = vec![p3(1, 2, 3), p3(2, 3, 1)];

    locator.get_robot_depth_map(&points_0);
    let depth_map = locator.get_robot_depth_map(&points_1);

    // Pixel (0, 1) of a 640-wide raster.
    let pixel = depth_map[640];
    assert!(pixel.val_eq(&r(3)));
}

#[test]
fn rat_arithmetic_is_exact() {
    let a = rq(1, 3);
    let b = rq(1, 6);
    assert_eq!(a.try_add(&b).unwrap(), rq(1, 2));
    assert_eq!(a.try_sub(&b).unwrap(), rq(1, 6));
    assert_eq!(a.try_mul(&b).unwrap(), rq(1, 18));
    assert_eq!(a.try_div(&b).unwrap(), r(2));
    assert!(rq(2, 4) == rq(1, 2));
    assert!(b.lt(&a));
    assert!(!a.lt(&b));
    assert!(r(0).try_div(&r(0)).is_none());
}

#[test]
fn rat_rounds_half_away_from_zero() {
    assert_eq!(rq(5, 2).round(), 3);
    assert_eq!(rq(-5, 2).round(), -3);
    assert_eq!(rq(1, 3).round(), 0);
    assert_eq!(rq(2, 3).round(), 1);
    assert_eq!(r(7).round(), 7);
}

#[test]
fn singular_intrinsic_is_rejected() {
    // Two equal rows: determinant zero.
    let singular = mat3_int([
        1, 2, 3,
        1, 2, 3,
        0, 1, 1,
    ]);
    assert_eq!(
        MatrixWithInverse::try_from(singular).unwrap_err(),
        LocateError::SingularMatrix
    );
}

#[test]
fn singular_extrinsic_is_rejected() {
    // A zero row: determinant zero.
    let singular = mat4_int([
        1, 0, 0, 2,
        0, 0, 0, 0,
        0, 0, 1, 4,
        0, 0, 0, 1,
    ]);
    assert_eq!(
        Transform::try_from(singular).unwrap_err(),
        LocateError::SingularMatrix
    );
    let result = Locator::new(
        640,
        480,
        identity3(),
        singular,
        identity4(),
        rq(1, 2),
        10,
        rq(1, 10),
        r(10),
        r(100),
    );
    match result {
        Ok(_) => panic!("construction accepted a singular extrinsic"),
        Err(e) => assert_eq!(e, LocateError::SingularMatrix),
    }
}

#[test]
fn singular_rotation_block_is_rejected() {
    // Invertible as a 4x4 (determinant -1), singular 3x3 rotation block.
    let matrix = mat4_int([
        1, 0, 0, 0,
        0, 1, 0, 0,
        0, 0, 0, 1,
        0, 0, 1, 0,
    ]);
    assert_eq!(
        Transform::try_from(matrix).unwrap_err(),
        LocateError::SingularMatrix
    );
}

#[test]
fn oversized_values_report_overflow() {
    let huge = Rat::new(1 << 41, 1).unwrap();
    let m = Mat3::new(
        huge, r(0), r(0),
        r(0), huge, r(0),
        r(0), r(0), huge,
    );
    assert_eq!(
        MatrixWithInverse::try_from(m).unwrap_err(),
        LocateError::NumericOverflow
    );
}

#[test]
fn depth_queue_is_bounded_by_three() {
    let mut locator = default_locator();
    let points = vec![p3(1, 2, 3)];
    assert_eq!(locator.depth_map_queue.len(), 0);
    locator.update_background_depth_map(&points);
    assert_eq!(locator.depth_map_queue.len(), 1);
    locator.update_background_depth_map(&points);
    assert_eq!(locator.depth_map_queue.len(), 2);
    locator.update_background_depth_map(&points);
    assert_eq!(locator.depth_map_queue.len(), 3);
    locator.update_background_depth_map(&points);
    assert_eq!(locator.depth_map_queue.len(), 3);
    locator.update_background_depth_map(&points);
    assert_eq!(locator.depth_map_queue.len(), 3);
}

#[test]
fn background_tracks_running_maximum() {
    let mut locator = default_locator();
    // All three points project to pixel (2, 2) with depths 4, 1, 2.
    let idx = 2 * 640 + 2;
    locator.update_background_depth_map(&vec![p3(8, 8, 4)]);
    assert!(locator.background_depth_map[idx].val_eq(&r(4)));
    locator.update_background_depth_map(&vec![p3(2, 2, 1)]);
    assert!(locator.background_depth_map[idx].val_eq(&r(4)));
    locator.update_background_depth_map(&vec![p3(4, 4, 2)]);
    assert!(locator.background_depth_map[idx].val_eq(&r(4)));
}

#[test]
fn empty_input_locates_nothing() {
    let mut locator = default_locator();
    let detection = RobotDetection::new(
        RobotLabel::Hero,
        BBox::new(r(100), r(100), r(50), r(50)),
    );
    let results = locator.locate_detections(&[], &[detection]);
    assert_eq!(results.len(), 1);
    assert!(results[0].is_none());
}

#[test]
fn invalid_points_locate_nothing() {
    let mut locator = default_locator();
    let detection = RobotDetection::new(
        RobotLabel::Hero,
        BBox::new(r(100), r(100), r(50), r(50)),
    );
    // A zero component marks a point as invalid.
    let points = vec![p3(0, 2, 3), p3(1, 0, 3), p3(1, 2, 0)];
    let results = locator.locate_detections(&points, &[detection]);
    assert_eq!(results.len(), 1);
    assert!(results[0].is_none());
}

fn cluster_scenario_locator() -> Locator {
    Locator::new(
        640,
        480,
        identity3(),
        identity4(),
        identity4(),
        r(2),
        2,
        rq(1, 10),
        r(10),
        r(100),
    )
    .unwrap()
}

fn run_cluster_scenario(locator: &mut Locator) -> Vec<Option<RobotLocation>> {
    // Warm-up frame with no points, then two points that land on the
    // neighbouring pixels (1, 2) and (2, 2) with depth 2.
    locator.update_background_depth_map(&[]);
    let points = vec![p3(2, 4, 2), p3(4, 4, 2)];
    let detection = RobotDetection::new(
        RobotLabel::Sentry,
        BBox::new(rq(3, 2), r(2), r(3), r(2)),
    );
    locator.locate_detections(&points, &[detection])
}

#[test]
fn locates_a_cluster_inside_the_box() {
    let mut locator = cluster_scenario_locator();
    let results = run_cluster_scenario(&mut locator);
    assert_eq!(results.len(), 1);
    let location = results[0].unwrap();
    // The two unprojected points are (2, 4, 2) and (4, 4, 2).
    assert_eq!(location.center, p3(3, 4, 2));
    assert_eq!(location.width, r(2));
    assert_eq!(location.height, r(0));
    assert_eq!(location.depth, r(0));
}

#[test]
fn majority_vote_is_deterministic() {
    let mut first = cluster_scenario_locator();
    let mut second = cluster_scenario_locator();
    let a = run_cluster_scenario(&mut first);
    let b = run_cluster_scenario(&mut second);
    assert_eq!(a, b);
}

#[test]
fn dbscan_labels_are_stable_and_contiguous() {
    let points = vec![
        p3(1, 1, 1),
        p3(1, 1, 2),
        p3(50, 50, 50),
        p3(100, 1, 1),
        p3(100, 1, 2),
    ];
    let eps = r(2);
    let labels = dbscan(&points, &eps, 2);
    assert_eq!(labels, vec![0, 0, NOISE_ID, 1, 1]);
    let again = dbscan(&points, &eps, 2);
    assert_eq!(labels, again);
}

#[test]
fn dbscan_isolated_points_are_noise() {
    let points = vec![p3(1, 1, 1), p3(10, 10, 10)];
    let eps = r(1);
    let labels = dbscan(&points, &eps, 2);
    assert_eq!(labels, vec![NOISE_ID, NOISE_ID]);
}

fn sample_location(cx: Rat, cy: Rat, cz: Rat) -> RobotLocation {
    RobotLocation {
        center: Point3::new(cx, cy, cz),
        width: rq(1, 4),
        height: r(3),
        depth: r(1),
    }
}

#[test]
fn label_lines_have_two_decimals() {
    let entries = vec![(
        RobotLabel::Hero,
        sample_location(rq(1, 2), rq(-3, 2), r(2)),
    )];
    let bytes = label_file_lines(&entries);
    assert_eq!(
        String::from_utf8(bytes).unwrap(),
        "0.50 -1.50 2.00 1.00 0.25 3.00 0.00 R1\n"
    );
}

#[test]
fn label_rewrite_is_byte_identical() {
    let entries = vec![
        (RobotLabel::Sentry, sample_location(r(1), r(2), r(3))),
        (RobotLabel::Hero, sample_location(r(4), r(5), r(6))),
        (RobotLabel::Sentry, sample_location(r(7), r(8), r(9))),
    ];
    let first = label_file_lines(&entries);
    let second = label_file_lines(&entries);
    assert_eq!(first, second);
    // Lines come in fixed class order, and the last Sentry entry wins.
    let text = String::from_utf8(first).unwrap();
    let lines: Vec<&str> = text.lines().collect();
    assert_eq!(lines.len(), 2);
    assert_eq!(lines[0], "4.00 5.00 6.00 1.00 0.25 3.00 0.00 R1");
    assert_eq!(lines[1], "7.00 8.00 9.00 1.00 0.25 3.00 0.00 R7");
}

#[test]
fn label_abbreviations_match_classes() {
    assert_eq!(RobotLabel::Hero.name_abbr(), "R1");
    assert_eq!(RobotLabel::Engineer.name_abbr(), "R2");
    assert_eq!(RobotLabel::InfantryThree.name_abbr(), "R3");
    assert_eq!(RobotLabel::InfantryFour.name_abbr(), "R4");
    assert_eq!(RobotLabel::InfantryFive.name_abbr(), "R5");
    assert_eq!(RobotLabel::Sentry.name_abbr(), "R7");
}

#[test]
fn rat_new_rejects_zero_denominator() {
    assert!(Rat::new(1, 0).is_none());
    assert_eq!(rq(3, -6), rq(-1, 2));
}
