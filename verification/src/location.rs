//! Places in the file system.

use crate::text::views;
use vstd::prelude::*;

verus! {

/// The operating systems whose directory layouts differ.
#[derive(Clone, Copy, Debug, PartialEq, Eq, Structural)]
pub enum Platform {
    Windows,
    MacOs,
    /// Any other Unix.
    Unix,
}

/// A base directory and the names that lead down from it.
#[derive(Debug, PartialEq)]
pub struct Location {
    pub base: String,
    pub parts: Vec<String>,
}

/// The mathematical content of a `Location`.
#[verifier::ext_equal]
pub struct LocationView {
    pub base: Seq<char>,
    pub parts: Seq<Seq<char>>,
}

impl View for Location {
    type V = LocationView;

    open spec fn view(&self) -> LocationView {
        LocationView { base: self.base@, parts: views(self.parts@) }
    }
}

impl LocationView {
    /// The place with the given name below this one.
    pub open spec fn child(self, name: Seq<char>) -> LocationView {
        LocationView { base: self.base, parts: self.parts.push(name) }
    }
}

/// A base directory itself.
pub open spec fn root_at(base: Seq<char>) -> LocationView {
    LocationView { base, parts: Seq::empty() }
}

/// The view of an optional place.
pub open spec fn place_view(place: Option<Location>) -> Option<LocationView> {
    match place {
        Some(place) => Some(place@),
        None => None,
    }
}

/// The views of a list of places.
pub open spec fn place_views(places: Seq<Location>) -> Seq<LocationView> {
    places.map_values(|place: Location| place@)
}

impl Location {
    /// A base directory itself.
    pub fn at(base: &str) -> (r: Location)
        ensures
            r@ == root_at(base@),
    {
        let r = Location { base: base.to_string(), parts: Vec::new() };
        assert(r@ =~= root_at(base@));
        r
    }

    /// The place with the given name below this one.
    pub fn join(self, name: &str) -> (r: Location)
        ensures
            r@ == self@.child(name@),
    {
        let mut place: Location = self;
        place.parts.push(name.to_string());
        assert(place@ =~= self@.child(name@));
        place
    }
}

} // verus!
