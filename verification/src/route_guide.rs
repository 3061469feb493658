//! Messages of the route-guide service.

use vstd::prelude::*;

verus! {

/// A position: latitude and longitude in degrees multiplied by 10^7.
#[derive(Debug, Clone, Copy, PartialEq, Eq, Structural, Hash)]
pub struct Point {
    pub latitude: i32,
    pub longitude: i32,
}

/// A latitude-longitude rectangle given by two opposite corners.
#[derive(Debug, Clone, Copy, PartialEq, Eq, Structural)]
pub struct Rectangle {
    pub lo: Option<Point>,
    pub hi: Option<Point>,
}

/// A named feature at a location; an unnamed feature with no location
/// stands for "nothing known here".
#[derive(Debug)]
pub struct Feature {
    pub name: String,
    pub location: Option<Point>,
}

/// A message sent while at a location.
#[derive(Debug)]
pub struct RouteNote {
    pub location: Option<Point>,
    pub message: String,
}

/// What the server reports after a client has traversed a route.
#[derive(Debug, Clone, Copy, PartialEq, Eq, Structural)]
pub struct RouteSummary {
    pub point_count: i32,
    pub feature_count: i32,
    pub distance: i32,
    pub elapsed_time: i32,
}

impl Clone for Feature {
    fn clone(&self) -> (copy: Self)
        ensures
            copy == *self,
    {
        Feature { name: self.name.clone(), location: self.location }
    }
}

impl Clone for RouteNote {
    fn clone(&self) -> (copy: Self)
        ensures
            copy == *self,
    {
        RouteNote { location: self.location, message: self.message.clone() }
    }
}

impl Default for Feature {
    fn default() -> (f: Self)
        ensures
            f.name@ == Seq::<char>::empty(),
            f.location is None,
    {
        Feature { name: String::new(), location: None }
    }
}

impl Default for RouteSummary {
    fn default() -> (s: Self)
        ensures
            s == (RouteSummary { point_count: 0, feature_count: 0, distance: 0, elapsed_time: 0 }),
    {
        RouteSummary { point_count: 0, feature_count: 0, distance: 0, elapsed_time: 0 }
    }
}

} // verus!
