use tonic_template::client::{chat_note, note_at_elapsed, point_from_samples, random_point, random_route};
use tonic_template::route_guide::Point;

fn on_grid(p: &Point) -> bool {
    (-900_000_000..=890_000_000).contains(&p.latitude)
        && p.latitude % 10_000_000 == 0
        && (-1_800_000_000..=1_790_000_000).contains(&p.longitude)
        && p.longitude % 10_000_000 == 0
}

#[test]
fn point_from_samples_maps_degrees() {
    assert_eq!(point_from_samples(0, 0), Point { latitude: -900_000_000, longitude: -1_800_000_000 });
    assert_eq!(point_from_samples(90, 180), Point { latitude: 0, longitude: 0 });
    assert_eq!(point_from_samples(179, 359), Point { latitude: 890_000_000, longitude: 1_790_000_000 });
    assert_eq!(point_from_samples(131, 105), Point { latitude: 410_000_000, longitude: -750_000_000 });
}

#[test]
fn random_points_lie_on_the_grid() {
    let mut rng = rand::thread_rng();
    let mut seen = std::collections::HashSet::new();
    for _ in 0..2000 {
        let p = random_point(&mut rng);
        assert!(on_grid(&p), "{:?}", p);
        seen.insert((p.latitude, p.longitude));
    }
    assert!(seen.len() > 1000);
}

#[test]
fn random_routes_have_three_to_a_hundred_points() {
    let mut rng = rand::thread_rng();
    let mut lengths = std::collections::HashSet::new();
    for _ in 0..500 {
        let route = random_route(&mut rng);
        assert!((3..=100).contains(&route.len()));
        assert!(route.iter().all(on_grid));
        lengths.insert(route.len());
    }
    assert!(lengths.len() > 1);
}

#[test]
fn chat_note_moves_north_and_names_the_time() {
    let n = chat_note(0, 0);
    assert_eq!(n.location, Some(Point { latitude: 409_146_138, longitude: -746_188_906 }));
    assert_eq!(n.message, "at 0ns");
    let n = chat_note(3, 500_000_000);
    assert_eq!(n.location, Some(Point { latitude: 409_146_141, longitude: -746_188_906 }));
    assert_eq!(n.message, "at 3.5s");
    let n = chat_note(1, 2_000);
    assert_eq!(n.message, "at 1.000002s");
}

#[test]
fn note_at_elapsed_uses_the_given_text() {
    let n = note_at_elapsed(10, "10.25s");
    assert_eq!(n.location, Some(Point { latitude: 409_146_148, longitude: -746_188_906 }));
    assert_eq!(n.message, "at 10.25s");
}

#[test]
fn route_of_count_has_count_plus_one_points() {
    let mut rng = rand::thread_rng();
    for count in [2, 3, 50, 99] {
        let route = tonic_template::client::route_of_count(&mut rng, count);
        assert_eq!(route.len(), count as usize + 1);
        assert!(route.iter().all(on_grid));
    }
}
