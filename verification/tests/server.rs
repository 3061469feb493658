use tonic_template::hello_world::HelloRequest;
use tonic_template::route_guide::{Feature, Point, Rectangle, RouteSummary};
use tonic_template::server::{
    check_auth, in_range, AuthError, HealthTwiddler, MyGreeter, RouteGuideService, RouteRecorder,
    ServingStatus,
};

fn pt(latitude: i32, longitude: i32) -> Point {
    Point { latitude, longitude }
}

fn feature(name: &str, location: Option<Point>) -> Feature {
    Feature { name: name.to_string(), location }
}

fn rect(lo: Point, hi: Point) -> Rectangle {
    Rectangle { lo: Some(lo), hi: Some(hi) }
}

#[test]
fn in_range_inside_and_outside() {
    let r = rect(pt(400_000_000, -750_000_000), pt(420_000_000, -730_000_000));
    assert!(in_range(&pt(409_146_138, -746_188_906), &r));
    assert!(!in_range(&pt(399_999_999, -746_188_906), &r));
    assert!(!in_range(&pt(409_146_138, -729_999_999), &r));
}

#[test]
fn in_range_includes_borders_and_corners() {
    let r = rect(pt(0, 0), pt(10, 20));
    assert!(in_range(&pt(0, 0), &r));
    assert!(in_range(&pt(10, 20), &r));
    assert!(in_range(&pt(10, 0), &r));
    assert!(in_range(&pt(5, 20), &r));
    assert!(!in_range(&pt(11, 20), &r));
}

#[test]
fn in_range_corner_order_does_not_matter() {
    let a = pt(420_000_000, -750_000_000);
    let b = pt(400_000_000, -730_000_000);
    for p in [pt(410_000_000, -740_000_000), pt(430_000_000, -740_000_000), pt(400_000_000, -750_000_000)] {
        assert_eq!(in_range(&p, &rect(a, b)), in_range(&p, &rect(b, a)));
    }
    assert!(in_range(&pt(410_000_000, -740_000_000), &rect(b, a)));
}

fn sample_service() -> RouteGuideService {
    RouteGuideService::new(vec![
        feature("Patriots Path, Mendham, NJ 07945, USA", Some(pt(407_838_351, -746_143_763))),
        feature("101 New Jersey 10, Whippany, NJ 07981, USA", Some(pt(408_122_808, -743_999_179))),
        feature("", Some(pt(413_628_156, -749_015_468))),
        feature("second name at the first spot", Some(pt(407_838_351, -746_143_763))),
        feature("far away", Some(pt(-100, 100))),
    ])
}

#[test]
fn get_feature_returns_first_match() {
    let s = sample_service();
    let f = s.get_feature(&pt(407_838_351, -746_143_763));
    assert_eq!(f.name, "Patriots Path, Mendham, NJ 07945, USA");
    assert_eq!(f.location, Some(pt(407_838_351, -746_143_763)));
    let g = s.get_feature(&pt(413_628_156, -749_015_468));
    assert_eq!(g.name, "");
    assert_eq!(g.location, Some(pt(413_628_156, -749_015_468)));
}

#[test]
fn get_feature_unknown_point_gives_empty_feature() {
    let s = sample_service();
    let f = s.get_feature(&pt(0, 0));
    assert_eq!(f.name, "");
    assert_eq!(f.location, None);
    let empty = RouteGuideService::new(vec![]);
    assert_eq!(empty.get_feature(&pt(1, 1)).location, None);
}

#[test]
fn list_features_keeps_order_and_filters() {
    let s = sample_service();
    let (found, stopped) = s.list_features(&rect(pt(400_000_000, -750_000_000), pt(420_000_000, -730_000_000)));
    assert!(!stopped);
    let names: Vec<&str> = found.iter().map(|f| f.name.as_str()).collect();
    assert_eq!(
        names,
        vec![
            "Patriots Path, Mendham, NJ 07945, USA",
            "101 New Jersey 10, Whippany, NJ 07981, USA",
            "",
            "second name at the first spot",
        ]
    );
    let (none, _) = s.list_features(&rect(pt(0, 0), pt(1, 1)));
    assert!(none.is_empty());
    let (all, _) = s.list_features(&rect(pt(i32::MAX, i32::MIN), pt(i32::MIN, i32::MAX)));
    assert_eq!(all.len(), 5);
}

#[test]
fn record_route_counts_points_features_and_legs() {
    let s = sample_service();
    let mut r = RouteRecorder::new();
    assert_eq!(r.summary, RouteSummary { point_count: 0, feature_count: 0, distance: 0, elapsed_time: 0 });
    assert_eq!(r.last_point, None);
    // The first leg is ignored: there is no previous point.
    s.record_point(&mut r, pt(407_838_351, -746_143_763), 999);
    assert_eq!(r.summary, RouteSummary { point_count: 1, feature_count: 2, distance: 0, elapsed_time: 0 });
    assert_eq!(r.last_point, Some(pt(407_838_351, -746_143_763)));
    s.record_point(&mut r, pt(1, 1), 250);
    assert_eq!(r.summary, RouteSummary { point_count: 2, feature_count: 2, distance: 250, elapsed_time: 0 });
    s.record_point(&mut r, pt(408_122_808, -743_999_179), 1000);
    assert_eq!(r.summary, RouteSummary { point_count: 3, feature_count: 3, distance: 1250, elapsed_time: 0 });
    assert_eq!(r.last_point, Some(pt(408_122_808, -743_999_179)));
    let summary = r.finish(42);
    assert_eq!(summary, RouteSummary { point_count: 3, feature_count: 3, distance: 1250, elapsed_time: 42 });
}

#[test]
fn finish_cuts_elapsed_time_like_a_cast() {
    let r = RouteRecorder::new();
    assert_eq!(r.finish(u64::MAX).elapsed_time, -1);
    let r = RouteRecorder::new();
    assert_eq!(r.finish(1 << 31).elapsed_time, i32::MIN);
}

#[test]
fn say_hello_greets_by_name() {
    let g = MyGreeter {};
    assert_eq!(g.say_hello(HelloRequest { name: "Tonic".to_string() }).message, "Hello Tonic!");
    assert_eq!(g.say_hello(HelloRequest { name: String::new() }).message, "Hello !");
}

#[test]
fn check_auth_accepts_only_the_token() {
    assert_eq!(check_auth(Some("Bearer some-auth-token")), Ok(()));
    assert_eq!(check_auth(Some("Bearer some-auth-token ")), Err(AuthError::Unauthenticated));
    assert_eq!(check_auth(Some("bearer some-auth-token")), Err(AuthError::Unauthenticated));
    assert_eq!(check_auth(Some("")), Err(AuthError::Unauthenticated));
    assert_eq!(check_auth(None), Err(AuthError::Unauthenticated));
    assert_eq!(AuthError::Unauthenticated.message(), "No valid auth token");
}

#[test]
fn health_status_flips_every_tick() {
    let mut t = HealthTwiddler::new();
    assert_eq!(t.ticks, 0);
    assert_eq!(t.tick(), ServingStatus::NotServing);
    assert_eq!(t.tick(), ServingStatus::Serving);
    assert_eq!(t.tick(), ServingStatus::NotServing);
    assert_eq!(t.ticks, 3);
    let mut late = HealthTwiddler { ticks: u64::MAX - 1 };
    assert_eq!(late.tick(), ServingStatus::NotServing);
}

#[test]
fn try_record_point_refuses_overflowing_totals() {
    let s = sample_service();
    let mut r = RouteRecorder::new();
    assert!(s.try_record_point(&mut r, pt(1, 1), 0));
    assert!(s.try_record_point(&mut r, pt(2, 2), i32::MAX));
    assert_eq!(r.summary.distance, i32::MAX);
    let before = r;
    assert!(!s.try_record_point(&mut r, pt(3, 3), 1));
    assert_eq!(r, before);
    let mut full = RouteRecorder {
        summary: RouteSummary { point_count: i32::MAX, feature_count: 0, distance: 0, elapsed_time: 0 },
        last_point: None,
    };
    assert!(!s.try_record_point(&mut full, pt(0, 0), 0));
    let mut crowded = RouteRecorder {
        summary: RouteSummary { point_count: 0, feature_count: i32::MAX - 1, distance: 0, elapsed_time: 0 },
        last_point: None,
    };
    assert!(!s.try_record_point(&mut crowded, pt(407_838_351, -746_143_763), 0));
    assert!(s.try_record_point(&mut crowded, pt(408_122_808, -743_999_179), 0));
    assert_eq!(crowded.summary.feature_count, i32::MAX);
}

#[test]
fn list_features_stops_at_unlocated_or_missing_corner() {
    let s = RouteGuideService::new(vec![
        feature("a", Some(pt(5, 5))),
        feature("outside", Some(pt(50, 50))),
        feature("b", Some(pt(6, 6))),
        feature("unlocated", None),
        feature("c", Some(pt(7, 7))),
    ]);
    let r = rect(pt(0, 0), pt(10, 10));
    let (found, stopped) = s.list_features(&r);
    let names: Vec<&str> = found.iter().map(|f| f.name.as_str()).collect();
    assert_eq!(names, vec!["a", "b"]);
    assert!(stopped);

    let (found, stopped) = sample_service().list_features(&rect(pt(400_000_000, -750_000_000), pt(420_000_000, -730_000_000)));
    assert_eq!(found.len(), 4);
    assert!(!stopped);

    let no_corner = Rectangle { lo: Some(pt(0, 0)), hi: None };
    let (found, stopped) = s.list_features(&no_corner);
    assert!(found.is_empty());
    assert!(stopped);

    let empty = RouteGuideService::new(vec![]);
    let (found, stopped) = empty.list_features(&no_corner);
    assert!(found.is_empty());
    assert!(!stopped);
    assert_eq!(empty.list_features(&Rectangle { lo: None, hi: None }).0.len(), 0);
}

#[test]
fn greeter_default_greets() {
    let g = MyGreeter::default();
    assert_eq!(g.say_hello(HelloRequest { name: "x".to_string() }).message, "Hello x!");
}

fn record(s: &RouteGuideService, points: &[Point], legs: &[i32]) -> RouteSummary {
    let mut r = RouteRecorder::new();
    for (p, l) in points.iter().zip(legs) {
        s.record_point(&mut r, *p, *l);
    }
    r.finish(0)
}

#[test]
fn route_recorded_backwards_has_the_same_totals() {
    let s = sample_service();
    let points = [pt(407_838_351, -746_143_763), pt(1, 2), pt(408_122_808, -743_999_179), pt(3, 4)];
    let legs = [0, 10, 20, 30];
    let back: Vec<Point> = points.iter().rev().copied().collect();
    let back_legs = [7, 30, 20, 10];
    assert_eq!(record(&s, &points, &legs), record(&s, &back, &back_legs));
    assert_eq!(record(&s, &points, &legs), RouteSummary { point_count: 4, feature_count: 3, distance: 60, elapsed_time: 0 });
}

#[test]
fn joined_routes_add_up_with_the_joining_leg() {
    let s = sample_service();
    let first = [pt(407_838_351, -746_143_763), pt(1, 2)];
    let first_legs = [0, 15];
    let second = [pt(408_122_808, -743_999_179), pt(3, 4), pt(5, 6)];
    let second_legs = [0, 100, 1000];
    let a = record(&s, &first, &first_legs);
    let b = record(&s, &second, &second_legs);
    let joined: Vec<Point> = first.iter().chain(second.iter()).copied().collect();
    let c = record(&s, &joined, &[0, 15, 7, 100, 1000]);
    assert_eq!(c.point_count, a.point_count + b.point_count);
    assert_eq!(c.feature_count, a.feature_count + b.feature_count);
    assert_eq!(c.distance, a.distance + b.distance + 7);
}
