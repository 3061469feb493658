//! What the demonstration client sends: random points on a whole-degree grid,
//! random routes made of them, and the notes of the route chat.

use rand::rngs::ThreadRng;
use rand::Rng;
use vstd::prelude::*;
use vstd::string::*;
use crate::route_guide::{Point, RouteNote};

verus! {

#[verifier::external_type_specification]
#[verifier::external_body]
pub struct ExThreadRng(ThreadRng);

/// Draws a number from `low..high` with `rand`'s `Rng::gen_range` (which
/// panics on an empty range, hence the `requires`; the thread generator also
/// panics if reseeding from the operating system fails, which no input can
/// cause). Which number comes out
/// is left to chance; only the range is stated.
#[verifier::external_body]
fn sample_between(rng: &mut ThreadRng, low: i32, high: i32) -> (sample: i32)
    requires
        low < high,
    ensures
        low <= sample < high,
{
    rng.gen_range(low..high)
}

/// A point whose latitude is a whole degree in `-90..90` and whose
/// longitude is a whole degree in `-180..180`.
pub open spec fn on_grid(p: Point) -> bool {
    &&& -900_000_000 <= p.latitude <= 890_000_000
    &&& p.latitude % 10_000_000 == 0
    &&& -1_800_000_000 <= p.longitude <= 1_790_000_000
    &&& p.longitude % 10_000_000 == 0
}

/// The point for a latitude sample in `0..180` and a longitude sample in
/// `0..360`, each counted in whole degrees from the south and west edges.
pub fn point_from_samples(latitude_sample: i32, longitude_sample: i32) -> (p: Point)
    requires
        0 <= latitude_sample < 180,
        0 <= longitude_sample < 360,
    ensures
        p.latitude == (latitude_sample - 90) * 10_000_000,
        p.longitude == (longitude_sample - 180) * 10_000_000,
        on_grid(p),
{
    let latitude = (latitude_sample - 90) * 10_000_000;
    let longitude = (longitude_sample - 180) * 10_000_000;
    Point { latitude, longitude }
}

/// A random point on the whole-degree grid.
pub fn random_point(rng: &mut ThreadRng) -> (p: Point)
    ensures
        on_grid(p),
{
    let latitude_sample = sample_between(rng, 0, 180);
    let longitude_sample = sample_between(rng, 0, 360);
    point_from_samples(latitude_sample, longitude_sample)
}

/// Two sample pairs give the same point only when they are the same pair:
/// distinct draws never collapse onto one point.
pub proof fn law_samples_give_distinct_points(a: (int, int), b: (int, int))
    ensures
        ((a.0 - 90) * 10_000_000 == (b.0 - 90) * 10_000_000 && (a.1 - 180) * 10_000_000 == (b.1
            - 180) * 10_000_000) <==> a == b,
{
}

/// The latitude and longitude samples are within the grid's ranges.
pub open spec fn sample_in_range(sample: (i32, i32)) -> bool {
    0 <= sample.0 < 180 && 0 <= sample.1 < 360
}

/// The route through the points of the given sample pairs: one point per
/// pair, in order, each as `point_from_samples` makes it.
pub fn route_from_samples(samples: &Vec<(i32, i32)>) -> (points: Vec<Point>)
    requires
        forall|i: int| 0 <= i < samples.len() ==> sample_in_range(#[trigger] samples[i]),
    ensures
        points.len() == samples.len(),
        forall|i: int|
            0 <= i < points.len() ==> (#[trigger] points[i]).latitude == (samples[i].0 - 90)
                * 10_000_000 && points[i].longitude == (samples[i].1 - 180) * 10_000_000,
        forall|i: int| 0 <= i < points.len() ==> on_grid(#[trigger] points[i]),
{
    let mut points: Vec<Point> = Vec::new();
    let n = samples.len();
    for i in 0..n
        invariant
            n == samples.len(),
            forall|k: int| 0 <= k < samples.len() ==> sample_in_range(#[trigger] samples[k]),
            points.len() == i,
            forall|k: int|
                0 <= k < points.len() ==> (#[trigger] points[k]).latitude == (samples[k].0 - 90)
                    * 10_000_000 && points[k].longitude == (samples[k].1 - 180) * 10_000_000,
            forall|k: int| 0 <= k < points.len() ==> on_grid(#[trigger] points[k]),
    {
        let (latitude_sample, longitude_sample) = samples[i];
        assert(sample_in_range(samples[i as int]));
        points.push(point_from_samples(latitude_sample, longitude_sample));
    }
    points
}

/// A route of `count + 1` random points, all on the whole-degree grid: for
/// each point a latitude and then a longitude sample is drawn, and the route
/// is made of these draws by `route_from_samples`.
pub fn route_of_count(rng: &mut ThreadRng, count: i32) -> (points: Vec<Point>)
    requires
        2 <= count < 100,
    ensures
        points.len() == count + 1,
        forall|i: int| 0 <= i < points.len() ==> on_grid(#[trigger] points[i]),
{
    let mut samples: Vec<(i32, i32)> = Vec::new();
    let mut i: i32 = 0;
    while i <= count
        invariant
            2 <= count < 100,
            0 <= i <= count + 1,
            samples.len() == i,
            forall|k: int| 0 <= k < samples.len() ==> sample_in_range(#[trigger] samples[k]),
        decreases count + 1 - i,
    {
        let latitude_sample = sample_between(rng, 0, 180);
        let longitude_sample = sample_between(rng, 0, 360);
        samples.push((latitude_sample, longitude_sample));
        i = i + 1;
    }
    route_from_samples(&samples)
}

/// A random route: one more point than a count drawn from `2..100`, so
/// between 3 and 100 points, all on the whole-degree grid.
pub fn random_route(rng: &mut ThreadRng) -> (points: Vec<Point>)
    ensures
        3 <= points.len() <= 100,
        forall|i: int| 0 <= i < points.len() ==> on_grid(#[trigger] points[i]),
{
    let point_count = sample_between(rng, 2, 100);
    route_of_count(rng, point_count)
}

/// What `{:?}` prints for the duration of `secs` seconds and `nanos`
/// nanoseconds.
pub uninterp spec fn duration_debug_text(secs: u64, nanos: u32) -> Seq<char>;

/// Formats `std::time::Duration::new(secs, nanos)` with `{:?}`. The text is
/// named, not spelled out; `Duration::new` panics only when carrying whole
/// seconds out of `nanos` overflows `secs`, and the `requires` leaves no
/// carry at all.
#[verifier::external_body]
fn duration_debug(secs: u64, nanos: u32) -> (text: String)
    requires
        nanos < 1_000_000_000,
    ensures
        text@ == duration_debug_text(secs, nanos),
{
    format!("{:?}", std::time::Duration::new(secs, nanos))
}

/// The latitude from which the chatting client starts.
pub open spec fn chat_start_latitude() -> int {
    409146138
}

/// The longitude along which the chatting client moves.
pub open spec fn chat_longitude() -> int {
    -746188906
}

/// The whole seconds elapsed, taken as an `i32` the way a cast does, keep the
/// chat latitude within `i32`.
pub open spec fn chat_latitude_fits(elapsed_secs: u64) -> bool {
    i32::MIN <= chat_start_latitude() + (elapsed_secs as i32) <= i32::MAX
}

/// The chat note sent `elapsed_secs` seconds after the start, whose elapsed
/// time reads `elapsed_text`: one latitude step north per second, and the
/// message `at <elapsed_text>`.
pub fn note_at_elapsed(elapsed_secs: u64, elapsed_text: &str) -> (note: RouteNote)
    requires
        chat_latitude_fits(elapsed_secs),
    ensures
        note.location == Some(
            Point {
                latitude: (chat_start_latitude() + (elapsed_secs as i32)) as i32,
                longitude: chat_longitude() as i32,
            },
        ),
        note.message@ == "at "@ + elapsed_text@,
{
    proof {
        reveal_strlit("at ");
    }
    let latitude = 409146138i32 + elapsed_secs as i32;
    let mut message = String::from_str("at ");
    message.append(elapsed_text);
    RouteNote { location: Some(Point { latitude, longitude: -746188906i32 }), message }
}

/// The chat note sent after `elapsed_secs` seconds and `elapsed_nanos`
/// nanoseconds.
pub fn chat_note(elapsed_secs: u64, elapsed_nanos: u32) -> (note: RouteNote)
    requires
        elapsed_nanos < 1_000_000_000,
        chat_latitude_fits(elapsed_secs),
    ensures
        note.location == Some(
            Point {
                latitude: (chat_start_latitude() + (elapsed_secs as i32)) as i32,
                longitude: chat_longitude() as i32,
            },
        ),
        note.message@ == "at "@ + duration_debug_text(elapsed_secs, elapsed_nanos),
{
    let text = duration_debug(elapsed_secs, elapsed_nanos);
    note_at_elapsed(elapsed_secs, text.as_str())
}

} // verus!
