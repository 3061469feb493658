//! Laws of route recording that span several routes: a route recorded
//! backwards, and two routes recorded one after the other.

use vstd::prelude::*;
use crate::route_guide::{Feature, Point};
use crate::server::{
    after_route, count_at, features_passed, fresh_recorder, law_route_summary, route_length,
    totals_fit,
};

verus! {

/// The sum of the legs.
pub open spec fn sum_legs(legs: Seq<i32>) -> int
    decreases legs.len(),
{
    if legs.len() == 0 {
        0
    } else {
        sum_legs(legs.drop_last()) + legs.last()
    }
}

/// The totals of every part of the route that starts it fit in `i32`.
pub open spec fn route_fits(features: Seq<Feature>, points: Seq<Point>, legs: Seq<i32>) -> bool {
    forall|k: int|
        0 <= k <= points.len() ==> #[trigger] totals_fit(features, points.take(k), legs.take(k))
}

proof fn lemma_sum_concat(a: Seq<i32>, b: Seq<i32>)
    ensures
        sum_legs(a + b) == sum_legs(a) + sum_legs(b),
    decreases b.len(),
{
    if b.len() == 0 {
        assert(a + b =~= a);
    } else {
        lemma_sum_concat(a, b.drop_last());
        assert((a + b).drop_last() =~= a + b.drop_last());
    }
}

proof fn lemma_sum_single(x: i32)
    ensures
        sum_legs(seq![x]) == x,
{
    assert(seq![x].drop_last() =~= Seq::<i32>::empty());
    assert(seq![x].last() == x);
    assert(sum_legs(Seq::<i32>::empty()) == 0);
}

proof fn lemma_sum_reverse(s: Seq<i32>)
    ensures
        sum_legs(s.reverse()) == sum_legs(s),
    decreases s.len(),
{
    if s.len() > 0 {
        lemma_sum_reverse(s.drop_last());
        assert(s.reverse() =~= seq![s.last()] + s.drop_last().reverse());
        lemma_sum_concat(seq![s.last()], s.drop_last().reverse());
        lemma_sum_single(s.last());
    }
}

proof fn lemma_route_length_is_sum(legs: Seq<i32>)
    requires
        legs.len() >= 1,
    ensures
        route_length(legs) == sum_legs(legs.drop_first()),
    decreases legs.len(),
{
    if legs.len() == 1 {
        assert(legs.drop_first() =~= Seq::<i32>::empty());
    } else {
        lemma_route_length_is_sum(legs.drop_last());
        assert(legs.drop_last().drop_first() =~= legs.drop_first().drop_last());
    }
}

proof fn lemma_passed_concat(features: Seq<Feature>, a: Seq<Point>, b: Seq<Point>)
    ensures
        features_passed(features, a + b) == features_passed(features, a) + features_passed(features, b),
    decreases b.len(),
{
    if b.len() == 0 {
        assert(a + b =~= a);
    } else {
        lemma_passed_concat(features, a, b.drop_last());
        assert((a + b).drop_last() =~= a + b.drop_last());
    }
}

proof fn lemma_passed_reverse(features: Seq<Feature>, s: Seq<Point>)
    ensures
        features_passed(features, s.reverse()) == features_passed(features, s),
    decreases s.len(),
{
    if s.len() > 0 {
        lemma_passed_reverse(features, s.drop_last());
        assert(s.reverse() =~= seq![s.last()] + s.drop_last().reverse());
        lemma_passed_concat(features, seq![s.last()], s.drop_last().reverse());
        assert(seq![s.last()].drop_last() =~= Seq::<Point>::empty());
        assert(seq![s.last()].last() == s.last());
        assert(features_passed(features, Seq::<Point>::empty()) == 0);
        assert(features_passed(features, seq![s.last()]) == count_at(features, s.last()));
    }
}

proof fn lemma_whole_route_fits(features: Seq<Feature>, points: Seq<Point>, legs: Seq<i32>)
    requires
        legs.len() == points.len(),
        route_fits(features, points, legs),
    ensures
        totals_fit(features, points, legs),
{
    assert(points.take(points.len() as int) =~= points);
    assert(legs.take(legs.len() as int) =~= legs);
    assert(totals_fit(features, points.take(points.len() as int), legs.take(points.len() as int)));
}

/// Recording a route backwards gives the same totals as recording it
/// forwards, when each leg of the backward route is the leg of the forward
/// route between the same two points (the distance does not depend on the
/// direction).
pub proof fn law_route_reversed(
    features: Seq<Feature>,
    points: Seq<Point>,
    legs: Seq<i32>,
    back_legs: Seq<i32>,
)
    requires
        points.len() > 0,
        legs.len() == points.len(),
        back_legs.len() == points.len(),
        forall|i: int| 1 <= i < points.len() ==> #[trigger] back_legs[i] == legs[points.len() - i],
        route_fits(features, points, legs),
        route_fits(features, points.reverse(), back_legs),
    ensures
        after_route(features, fresh_recorder(), points.reverse(), back_legs).summary == after_route(
            features,
            fresh_recorder(),
            points,
            legs,
        ).summary,
{
    law_route_summary(features, points, legs);
    law_route_summary(features, points.reverse(), back_legs);
    lemma_passed_reverse(features, points);
    lemma_route_length_is_sum(legs);
    lemma_route_length_is_sum(back_legs);
    assert(back_legs.drop_first() =~= legs.drop_first().reverse());
    lemma_sum_reverse(legs.drop_first());
}

/// Recording two routes one after the other as a single route adds up their
/// point counts and feature counts, and their lengths plus the leg `join`
/// that leads from the end of the first to the start of the second.
pub proof fn law_route_joined(
    features: Seq<Feature>,
    first: Seq<Point>,
    first_legs: Seq<i32>,
    second: Seq<Point>,
    second_legs: Seq<i32>,
    join: i32,
)
    requires
        first.len() > 0,
        second.len() > 0,
        first_legs.len() == first.len(),
        second_legs.len() == second.len(),
        route_fits(features, first, first_legs),
        route_fits(features, second, second_legs),
        route_fits(features, first + second, first_legs + second_legs.update(0, join)),
    ensures
        ({
            let a = after_route(features, fresh_recorder(), first, first_legs).summary;
            let b = after_route(features, fresh_recorder(), second, second_legs).summary;
            let c = after_route(
                features,
                fresh_recorder(),
                first + second,
                first_legs + second_legs.update(0, join),
            ).summary;
            &&& c.point_count == a.point_count + b.point_count
            &&& c.feature_count == a.feature_count + b.feature_count
            &&& c.distance == a.distance + b.distance + join
        }),
{
    let joined = first + second;
    let joined_legs = first_legs + second_legs.update(0, join);
    lemma_whole_route_fits(features, first, first_legs);
    lemma_whole_route_fits(features, second, second_legs);
    lemma_whole_route_fits(features, joined, joined_legs);
    law_route_summary(features, first, first_legs);
    law_route_summary(features, second, second_legs);
    law_route_summary(features, first + second, joined_legs);
    lemma_passed_concat(features, first, second);
    lemma_route_length_is_sum(first_legs);
    lemma_route_length_is_sum(second_legs);
    lemma_route_length_is_sum(joined_legs);
    assert(joined_legs.drop_first() =~= first_legs.drop_first() + (seq![join]
        + second_legs.drop_first()));
    lemma_sum_concat(first_legs.drop_first(), seq![join] + second_legs.drop_first());
    lemma_sum_concat(seq![join], second_legs.drop_first());
    lemma_sum_single(join);
}

} // verus!
