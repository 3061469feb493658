//! How the server answers: the greeter, the route-guide queries, the
//! summary of a recorded route, the authorization check and the health
//! status that flips on every tick.

use vstd::prelude::*;
use vstd::string::*;
use crate::hello_world::{HelloReply, HelloRequest};
use crate::route_guide::{Feature, Point, Rectangle, RouteSummary};

verus! {

/// The smaller of two coordinates.
pub open spec fn lower(a: i32, b: i32) -> i32 {
    if a <= b { a } else { b }
}

/// The larger of two coordinates.
pub open spec fn upper(a: i32, b: i32) -> i32 {
    if a <= b { b } else { a }
}

/// `point` lies in the closed rectangle spanned by the corners `lo` and `hi`,
/// in whichever order the corners are given.
pub open spec fn within(point: Point, lo: Point, hi: Point) -> bool {
    &&& lower(lo.longitude, hi.longitude) <= point.longitude
    &&& point.longitude <= upper(lo.longitude, hi.longitude)
    &&& lower(lo.latitude, hi.latitude) <= point.latitude
    &&& point.latitude <= upper(lo.latitude, hi.latitude)
}

/// Whether `point` lies inside `rect` (borders included). Both corners of
/// the rectangle must be given.
pub fn in_range(point: &Point, rect: &Rectangle) -> (inside: bool)
    requires
        rect.lo is Some,
        rect.hi is Some,
    ensures
        inside == within(*point, rect.lo.unwrap(), rect.hi.unwrap()),
{
    let lo = match rect.lo {
        Some(p) => p,
        None => { return false; },
    };
    let hi = match rect.hi {
        Some(p) => p,
        None => { return false; },
    };
    let left = if lo.longitude <= hi.longitude { lo.longitude } else { hi.longitude };
    let right = if lo.longitude <= hi.longitude { hi.longitude } else { lo.longitude };
    let top = if lo.latitude <= hi.latitude { hi.latitude } else { lo.latitude };
    let bottom = if lo.latitude <= hi.latitude { lo.latitude } else { hi.latitude };
    point.longitude >= left && point.longitude <= right && point.latitude >= bottom
        && point.latitude <= top
}

/// A rectangle is the same whichever of its two corners comes first, and
/// both corners lie inside it.
pub proof fn law_rectangle_corners(point: Point, a: Point, b: Point)
    ensures
        within(point, a, b) == within(point, b, a),
        within(a, a, b),
        within(b, a, b),
{
}

/// A point is inside a rectangle exactly when its longitude lies between the
/// corners' longitudes and its latitude between the corners' latitudes
/// (borders included, corners in either order).
pub proof fn law_within_between_corners(point: Point, lo: Point, hi: Point)
    ensures
        within(point, lo, hi) <==> ({
            &&& (lo.longitude <= point.longitude <= hi.longitude || hi.longitude <= point.longitude
                <= lo.longitude)
            &&& (lo.latitude <= point.latitude <= hi.latitude || hi.latitude <= point.latitude
                <= lo.latitude)
        }),
{
}

/// What `in_range` answers is whether the point lies between the corners,
/// coordinate by coordinate; a point west, east, south or north of the
/// rectangle is outside it.
pub proof fn law_in_range_between_corners(point: Point, rect: Rectangle, inside: bool)
    requires
        rect.lo is Some,
        rect.hi is Some,
        inside == within(point, rect.lo.unwrap(), rect.hi.unwrap()),
    ensures
        ({
            let lo = rect.lo.unwrap();
            let hi = rect.hi.unwrap();
            inside <==> {
                &&& (lo.longitude <= point.longitude <= hi.longitude || hi.longitude
                    <= point.longitude <= lo.longitude)
                &&& (lo.latitude <= point.latitude <= hi.latitude || hi.latitude <= point.latitude
                    <= lo.latitude)
            }
        }),
{
    law_within_between_corners(point, rect.lo.unwrap(), rect.hi.unwrap());
}

/// The greeter service.
#[derive(Debug)]
pub struct MyGreeter {}

/// The greeting for `name`: `Hello <name>!`.
pub open spec fn greeting(name: Seq<char>) -> Seq<char> {
    "Hello "@ + name + "!"@
}

impl Default for MyGreeter {
    fn default() -> (greeter: Self)
        ensures
            greeter == (MyGreeter {}),
    {
        MyGreeter {}
    }
}

impl MyGreeter {
    /// Answers a greeting request with `Hello <name>!`.
    pub fn say_hello(&self, request: HelloRequest) -> (reply: HelloReply)
        ensures
            reply.message@ == greeting(request.name@),
    {
        proof {
            reveal_strlit("Hello ");
            reveal_strlit("!");
        }
        let mut message = String::from_str("Hello ");
        message.append(request.name.as_str());
        message.append("!");
        HelloReply { message }
    }
}

/// The greeting is the name, whole, between `Hello ` and `!`: seven
/// characters more than the name, with the name at positions 6 onwards.
pub proof fn law_greeting_frames_name(name: Seq<char>)
    ensures
        greeting(name).len() == name.len() + 7,
        greeting(name).subrange(0, 6) == "Hello "@,
        greeting(name).subrange(6, name.len() as int + 6) == name,
        greeting(name)[name.len() as int + 6] == '!',
{
    reveal_strlit("Hello ");
    reveal_strlit("!");
    assert(greeting(name).subrange(0, 6) =~= "Hello "@);
    assert(greeting(name).subrange(6, name.len() as int + 6) =~= name);
}

/// The feature is known to stand exactly at `point`.
pub open spec fn located_at(feature: Feature, point: Point) -> bool {
    feature.location == Some(point)
}

/// `i` is the first position in `features` of a feature standing at `point`.
pub open spec fn first_at(features: Seq<Feature>, point: Point, i: int) -> bool {
    &&& 0 <= i < features.len()
    &&& located_at(features[i], point)
    &&& forall|j: int| 0 <= j < i ==> !located_at(#[trigger] features[j], point)
}

/// Some feature of `features` stands at `point`.
pub open spec fn has_feature_at(features: Seq<Feature>, point: Point) -> bool {
    exists|i: int| 0 <= i < features.len() && located_at(#[trigger] features[i], point)
}

/// The feature has a location, and it lies between the corners `lo` and `hi`.
pub open spec fn feature_within(feature: Feature, lo: Point, hi: Point) -> bool {
    feature.location matches Some(p) && within(p, lo, hi)
}

/// The features of `features` that lie between `lo` and `hi`, in their order.
pub open spec fn features_within(features: Seq<Feature>, lo: Point, hi: Point) -> Seq<Feature> {
    features.filter(|f: Feature| feature_within(f, lo, hi))
}

/// How many features of `features` stand exactly at `point`.
pub open spec fn count_at(features: Seq<Feature>, point: Point) -> nat
    decreases features.len(),
{
    if features.len() == 0 {
        0
    } else {
        count_at(features.drop_last(), point) + if located_at(features.last(), point) {
            1nat
        } else {
            0nat
        }
    }
}

/// The feature `get_feature` answers with stands exactly at the requested
/// point when it has a location; it is the first such feature; and when no
/// feature stands exactly there, it is the unnamed feature with no location.
pub proof fn law_get_feature_exact(features: Seq<Feature>, point: Point, feature: Feature)
    requires
        has_feature_at(features, point) ==> exists|i: int|
            first_at(features, point, i) && feature == features[i],
        !has_feature_at(features, point) ==> feature.name@ == Seq::<char>::empty()
            && feature.location is None,
    ensures
        feature.location is Some ==> feature.location == Some(point),
        (forall|i: int| 0 <= i < features.len() ==> (#[trigger] features[i]).location != Some(point))
            ==> feature.location is None && feature.name@ == Seq::<char>::empty(),
        (exists|i: int| 0 <= i < features.len() && (#[trigger] features[i]).location == Some(point))
            ==> exists|i: int|
            #![trigger features[i]]
            0 <= i < features.len() && feature == features[i] && features[i].location == Some(point)
                && forall|j: int| 0 <= j < i ==> (#[trigger] features[j]).location != Some(point),
{
    if has_feature_at(features, point) {
        let i = choose|i: int| first_at(features, point, i) && feature == features[i];
        assert(features[i].location == Some(point));
        assert forall|j: int| 0 <= j < i implies (#[trigger] features[j]).location != Some(point) by {
            assert(!located_at(features[j], point));
        }
    } else {
        assert forall|i: int| 0 <= i < features.len() implies (#[trigger] features[i]).location != Some(
            point,
        ) by {
            assert(!located_at(features[i], point));
        }
    }
}

/// The features counted at a point are exactly the features whose location
/// is that very point: a feature elsewhere, even on the same latitude or
/// longitude, is never counted.
pub proof fn law_count_at_exact(features: Seq<Feature>, point: Point)
    ensures
        count_at(features, point) == features.filter(|f: Feature| f.location == Some(point)).len(),
    decreases features.len(),
{
    reveal_with_fuel(Seq::<_>::filter, 1);
    if features.len() > 0 {
        law_count_at_exact(features.drop_last(), point);
    }
}

/// Recording a point counts one more point, adds exactly the features whose
/// location is that point, adds the leg only when there was a previous
/// point, and remembers the point as the last one.
pub proof fn law_record_point_counts(features: Seq<Feature>, r: RouteRecorder, point: Point, leg: i32)
    requires
        can_record(features, r, point, leg),
    ensures
        after_point(features, r, point, leg).summary.point_count == r.summary.point_count + 1,
        after_point(features, r, point, leg).summary.feature_count == r.summary.feature_count
            + features.filter(|f: Feature| f.location == Some(point)).len(),
        after_point(features, r, point, leg).summary.distance == r.summary.distance + if r.last_point
            is Some {
            leg as int
        } else {
            0
        },
        after_point(features, r, point, leg).summary.elapsed_time == r.summary.elapsed_time,
        after_point(features, r, point, leg).last_point == Some(point),
{
    law_count_at_exact(features, point);
}

/// The route-guide service: a fixed list of features.
#[derive(Debug)]
pub struct RouteGuideService {
    features: Vec<Feature>,
}

impl View for RouteGuideService {
    type V = Seq<Feature>;

    closed spec fn view(&self) -> Seq<Feature> {
        self.features@
    }
}

impl RouteGuideService {
    /// A service that knows the given features.
    pub fn new(features: Vec<Feature>) -> (service: Self)
        ensures
            service@ == features@,
    {
        RouteGuideService { features }
    }

    /// The features the service knows.
    pub fn features(&self) -> (features: &Vec<Feature>)
        ensures
            features@ == self@,
    {
        &self.features
    }

    /// The first feature standing at `point`, or an unnamed feature with no
    /// location when there is none.
    pub fn get_feature(&self, point: &Point) -> (feature: Feature)
        ensures
            has_feature_at(self@, *point) ==> exists|i: int|
                first_at(self@, *point, i) && feature == self@[i],
            !has_feature_at(self@, *point) ==> feature.name@ == Seq::<char>::empty()
                && feature.location is None,
    {
        let n = self.features.len();
        for i in 0..n
            invariant
                n == self.features@.len(),
                forall|j: int| 0 <= j < i ==> !located_at(#[trigger] self.features@[j], *point),
        {
            let here = match self.features[i].location {
                Some(l) => l == *point,
                None => false,
            };
            if here {
                let found = self.features[i].clone();
                assert(first_at(self@, *point, i as int));
                return found;
            }
        }
        Feature::default()
    }

    /// The features that lie inside `rect`, in the order the service keeps
    /// them, going through the features until one has no location. Also says
    /// whether the listing stopped early: at a feature without a location, or,
    /// when a corner of `rect` is missing, at the first feature.
    pub fn list_features(&self, rect: &Rectangle) -> (listing: (Vec<Feature>, bool))
        ensures
            rect.lo is Some && rect.hi is Some ==> exists|k: int|
                #[trigger] listing_stop(self@, k) && listing.0@ == features_within(
                    self@.take(k),
                    rect.lo.unwrap(),
                    rect.hi.unwrap(),
                ) && listing.1 == (k < self@.len()),
            !(rect.lo is Some && rect.hi is Some) ==> listing.0@ == Seq::<Feature>::empty()
                && listing.1 == (self@.len() > 0),
    {
        let mut found: Vec<Feature> = Vec::new();
        let n = self.features.len();
        if rect.lo.is_none() || rect.hi.is_none() {
            return (found, n > 0);
        }
        let ghost lo = rect.lo.unwrap();
        let ghost hi = rect.hi.unwrap();
        for i in 0..n
            invariant
                n == self.features@.len(),
                rect.lo == Some(lo),
                rect.hi == Some(hi),
                forall|k: int| 0 <= k < i ==> (#[trigger] self@[k]).location is Some,
                found@ == features_within(self@.take(i as int), lo, hi),
        {
            proof {
                reveal_with_fuel(Seq::<_>::filter, 1);
                assert(self@.take(i + 1).drop_last() =~= self@.take(i as int));
            }
            let location = match self.features[i].location {
                Some(l) => l,
                None => {
                    assert(listing_stop(self@, i as int));
                    return (found, true);
                },
            };
            if in_range(&location, rect) {
                found.push(self.features[i].clone());
            }
        }
        assert(self@.take(n as int) =~= self@);
        assert(listing_stop(self@, n as int));
        (found, false)
    }
}

/// Every feature of `features` has a location.
pub open spec fn all_located(features: Seq<Feature>) -> bool {
    forall|i: int| 0 <= i < features.len() ==> (#[trigger] features[i]).location is Some
}

/// A listing of `features` stops at `k`: every feature before `k` has a
/// location, and `k` is the end or the first feature without one.
pub open spec fn listing_stop(features: Seq<Feature>, k: int) -> bool {
    &&& 0 <= k <= features.len()
    &&& all_located(features.take(k))
    &&& k < features.len() ==> features[k].location is None
}

/// The totals of a route being recorded, and where the client was last.
#[derive(Debug, Clone, Copy, PartialEq, Eq, Structural)]
pub struct RouteRecorder {
    pub summary: RouteSummary,
    pub last_point: Option<Point>,
}

/// The recorder after one more point: one more point counted, every feature
/// standing at the point counted, and `leg` (the distance from the previous
/// point) added when there was a previous point.
pub open spec fn after_point(features: Seq<Feature>, r: RouteRecorder, point: Point, leg: i32) -> RouteRecorder {
    RouteRecorder {
        summary: RouteSummary {
            point_count: (r.summary.point_count + 1) as i32,
            feature_count: (r.summary.feature_count + count_at(features, point)) as i32,
            distance: if r.last_point is Some {
                (r.summary.distance + leg) as i32
            } else {
                r.summary.distance
            },
            elapsed_time: r.summary.elapsed_time,
        },
        last_point: Some(point),
    }
}

/// Recording `point` with `leg` keeps every total within `i32`.
pub open spec fn can_record(features: Seq<Feature>, r: RouteRecorder, point: Point, leg: i32) -> bool {
    &&& r.summary.point_count + 1 <= i32::MAX
    &&& r.summary.feature_count + count_at(features, point) <= i32::MAX
    &&& r.last_point is Some ==> i32::MIN <= r.summary.distance + leg <= i32::MAX
}

impl RouteRecorder {
    /// A recorder that has seen no point yet.
    pub fn new() -> (r: Self)
        ensures
            r == fresh_recorder(),
    {
        RouteRecorder { summary: RouteSummary::default(), last_point: None }
    }

    /// The summary of the recorded route, with the time the route took in
    /// whole seconds (cut to `i32` as a cast does).
    pub fn finish(self, elapsed_secs: u64) -> (summary: RouteSummary)
        ensures
            summary == (RouteSummary { elapsed_time: elapsed_secs as i32, ..self.summary }),
    {
        RouteSummary {
            point_count: self.summary.point_count,
            feature_count: self.summary.feature_count,
            distance: self.summary.distance,
            elapsed_time: elapsed_secs as i32,
        }
    }
}

proof fn lemma_count_prefix(features: Seq<Feature>, point: Point, i: int)
    requires
        0 <= i <= features.len(),
    ensures
        count_at(features.take(i), point) <= count_at(features, point),
    decreases features.len() - i,
{
    if i < features.len() {
        lemma_count_prefix(features, point, i + 1);
        assert(features.take(i + 1).drop_last() =~= features.take(i));
    } else {
        assert(features.take(i) =~= features);
    }
}

impl RouteGuideService {
    /// Records one more point of a route: the point is counted, every known
    /// feature standing exactly there is counted, and `leg_distance` (the
    /// distance from the previous point, which the caller measures) is added
    /// when there was a previous point.
    pub fn record_point(&self, route: &mut RouteRecorder, point: Point, leg_distance: i32)
        requires
            can_record(self@, *old(route), point, leg_distance),
        ensures
            *final(route) == after_point(self@, *old(route), point, leg_distance),
    {
        proof {
            lemma_count_prefix(self@, point, 0);
        }
        route.summary.point_count = route.summary.point_count + 1;
        let ghost start = route.summary.feature_count;
        let n = self.features.len();
        for i in 0..n
            invariant
                n == self.features@.len(),
                start + count_at(self@, point) <= i32::MAX,
                route.summary.feature_count == start + count_at(self.features@.take(i as int), point),
                route.summary.point_count == old(route).summary.point_count + 1,
                route.summary.distance == old(route).summary.distance,
                route.summary.elapsed_time == old(route).summary.elapsed_time,
                route.last_point == old(route).last_point,
                start == old(route).summary.feature_count,
        {
            proof {
                assert(self.features@.take(i + 1).drop_last() =~= self.features@.take(i as int));
                lemma_count_prefix(self@, point, i + 1);
            }
            let here = match self.features[i].location {
                Some(l) => l == point,
                None => false,
            };
            if here {
                route.summary.feature_count = route.summary.feature_count + 1;
            }
        }
        assert(self.features@.take(n as int) =~= self.features@);
        if route.last_point.is_some() {
            route.summary.distance = route.summary.distance + leg_distance;
        }
        route.last_point = Some(point);
    }
}

proof fn lemma_count_at_most_len(features: Seq<Feature>, point: Point)
    ensures
        count_at(features, point) <= features.len(),
    decreases features.len(),
{
    if features.len() > 0 {
        lemma_count_at_most_len(features.drop_last(), point);
    }
}

impl RouteGuideService {
    /// How many known features stand exactly at `point`.
    fn count_features_at(&self, point: &Point) -> (count: usize)
        ensures
            count == count_at(self@, *point),
    {
        let mut count: usize = 0;
        let n = self.features.len();
        for i in 0..n
            invariant
                n == self.features@.len(),
                count == count_at(self.features@.take(i as int), *point),
        {
            proof {
                assert(self.features@.take(i + 1).drop_last() =~= self.features@.take(i as int));
                lemma_count_at_most_len(self.features@.take(i as int), *point);
            }
            let here = match self.features[i].location {
                Some(l) => l == *point,
                None => false,
            };
            if here {
                count = count + 1;
            }
        }
        assert(self.features@.take(n as int) =~= self.features@);
        count
    }

    /// Records `point` as `record_point` does when every total stays within
    /// `i32`; otherwise leaves the recorder as it was. Says which happened.
    pub fn try_record_point(&self, route: &mut RouteRecorder, point: Point, leg_distance: i32) -> (recorded: bool)
        ensures
            recorded == can_record(self@, *old(route), point, leg_distance),
            recorded ==> *final(route) == after_point(self@, *old(route), point, leg_distance),
            !recorded ==> *final(route) == *old(route),
    {
        if route.summary.point_count == i32::MAX {
            return false;
        }
        let seen = self.count_features_at(&point);
        let room: i64 = i32::MAX as i64 - route.summary.feature_count as i64;
        if seen as u64 > room as u64 {
            return false;
        }
        if route.last_point.is_some() {
            let total: i64 = route.summary.distance as i64 + leg_distance as i64;
            if total < i32::MIN as i64 || total > i32::MAX as i64 {
                return false;
            }
        }
        self.record_point(route, point, leg_distance);
        true
    }
}

/// The recorder after the points of a route, each with the leg that leads to
/// it, recorded one after the other.
pub open spec fn after_route(
    features: Seq<Feature>,
    r: RouteRecorder,
    points: Seq<Point>,
    legs: Seq<i32>,
) -> RouteRecorder
    decreases points.len(),
{
    if points.len() == 0 {
        r
    } else {
        after_point(
            features,
            after_route(features, r, points.drop_last(), legs.drop_last()),
            points.last(),
            legs.last(),
        )
    }
}

/// How many times a known feature was passed on the route.
pub open spec fn features_passed(features: Seq<Feature>, points: Seq<Point>) -> nat
    decreases points.len(),
{
    if points.len() == 0 {
        0
    } else {
        features_passed(features, points.drop_last()) + count_at(features, points.last())
    }
}

/// The length of the route: the legs that lead to every point but the first.
pub open spec fn route_length(legs: Seq<i32>) -> int
    decreases legs.len(),
{
    if legs.len() <= 1 {
        0
    } else {
        route_length(legs.drop_last()) + legs.last()
    }
}

/// The totals of the route fit in `i32`.
pub open spec fn totals_fit(features: Seq<Feature>, points: Seq<Point>, legs: Seq<i32>) -> bool {
    &&& points.len() <= i32::MAX
    &&& features_passed(features, points) <= i32::MAX
    &&& i32::MIN <= route_length(legs) <= i32::MAX
}

/// Recording a route point by point from a fresh recorder counts its points,
/// counts every known feature passed, and adds up the legs between
/// consecutive points; every step is allowed as long as the totals of every
/// part of the route fit in `i32`.
pub proof fn law_route_summary(features: Seq<Feature>, points: Seq<Point>, legs: Seq<i32>)
    requires
        legs.len() == points.len(),
        forall|k: int|
            0 <= k <= points.len() ==> #[trigger] totals_fit(
                features,
                points.take(k),
                legs.take(k),
            ),
    ensures
        after_route(features, fresh_recorder(), points, legs).summary == (RouteSummary {
            point_count: points.len() as i32,
            feature_count: features_passed(features, points) as i32,
            distance: route_length(legs) as i32,
            elapsed_time: 0,
        }),
        after_route(features, fresh_recorder(), points, legs).last_point == (if points.len() == 0 {
            None
        } else {
            Some(points.last())
        }),
        points.len() > 0 ==> can_record(
            features,
            after_route(features, fresh_recorder(), points.drop_last(), legs.drop_last()),
            points.last(),
            legs.last(),
        ),
    decreases points.len(),
{
    if points.len() > 0 {
        let n = points.len() as int;
        let pre = points.drop_last();
        let pre_legs = legs.drop_last();
        assert forall|k: int| 0 <= k <= pre.len() implies #[trigger] totals_fit(
            features,
            pre.take(k),
            pre_legs.take(k),
        ) by {
            assert(pre.take(k) =~= points.take(k));
            assert(pre_legs.take(k) =~= legs.take(k));
            assert(totals_fit(features, points.take(k), legs.take(k)));
        }
        law_route_summary(features, pre, pre_legs);
        assert(points.take(n - 1) =~= pre);
        assert(legs.take(n - 1) =~= pre_legs);
        assert(totals_fit(features, points.take(n - 1), legs.take(n - 1)));
        assert(totals_fit(features, pre, pre_legs));
        let r = after_route(features, fresh_recorder(), pre, pre_legs);
        assert(r.summary.point_count == n - 1);
        assert(r.summary.feature_count == features_passed(features, pre));
        assert(r.summary.distance == route_length(pre_legs));
        assert(features_passed(features, points) == features_passed(features, pre) + count_at(
            features,
            points.last(),
        ));
        if n > 1 {
            assert(route_length(legs) == route_length(pre_legs) + legs.last());
        }
        assert(points.take(n) =~= points);
        assert(legs.take(n) =~= legs);
        assert(totals_fit(features, points.take(n), legs.take(n)));
    }
}

/// A recorder that has seen no point.
pub open spec fn fresh_recorder() -> RouteRecorder {
    RouteRecorder {
        summary: RouteSummary { point_count: 0, feature_count: 0, distance: 0, elapsed_time: 0 },
        last_point: None,
    }
}

/// Whether the health service reports the greeter as serving.
#[derive(Debug, Clone, Copy, PartialEq, Eq, Structural)]
pub enum ServingStatus {
    Serving,
    NotServing,
}

/// The status reported after `ticks` ticks: serving on even ticks, not
/// serving on odd ones.
pub open spec fn status_after(ticks: u64) -> ServingStatus {
    if ticks % 2 == 0 { ServingStatus::Serving } else { ServingStatus::NotServing }
}

/// The counter that flips the reported health of the greeter every tick.
pub struct HealthTwiddler {
    pub ticks: u64,
}

impl HealthTwiddler {
    /// A counter that has not ticked yet.
    pub fn new() -> (t: Self)
        ensures
            t.ticks == 0,
    {
        HealthTwiddler { ticks: 0 }
    }

    /// Counts one more tick and gives the status to report after it.
    pub fn tick(&mut self) -> (status: ServingStatus)
        requires
            old(self).ticks < u64::MAX,
        ensures
            final(self).ticks == old(self).ticks + 1,
            status == status_after(final(self).ticks),
    {
        self.ticks = self.ticks + 1;
        if self.ticks % 2 == 0 {
            ServingStatus::Serving
        } else {
            ServingStatus::NotServing
        }
    }
}

/// Consecutive ticks report opposite statuses.
pub proof fn law_status_alternates(ticks: u64)
    requires
        ticks < u64::MAX,
    ensures
        status_after((ticks + 1) as u64) != status_after(ticks),
{
}

/// Why a call was refused by the authorization check.
#[derive(Debug, Clone, Copy, PartialEq, Eq, Structural)]
pub enum AuthError {
    /// No `authorization` value, or not the expected bearer token.
    Unauthenticated,
}

impl AuthError {
    /// The message sent with the refusal.
    pub fn message(&self) -> (text: String)
        ensures
            text@ == "No valid auth token"@,
    {
        String::from_str("No valid auth token")
    }
}

/// The only `authorization` value the route-guide service accepts.
pub open spec fn accepted_token() -> Seq<char> {
    "Bearer some-auth-token"@
}

/// Admits a call exactly when its `authorization` metadata is the expected
/// bearer token.
pub fn check_auth(authorization: Option<&str>) -> (verdict: Result<(), AuthError>)
    ensures
        verdict is Ok <==> (authorization matches Some(t) && t@ == accepted_token()),
        verdict is Err ==> verdict == Err::<(), AuthError>(AuthError::Unauthenticated),
{
    match authorization {
        Some(t) => {
            let given = String::from_str(t);
            let expected = String::from_str("Bearer some-auth-token");
            if given == expected {
                Ok(())
            } else {
                Err(AuthError::Unauthenticated)
            }
        },
        None => Err(AuthError::Unauthenticated),
    }
}

} // verus!
