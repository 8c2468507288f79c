use vstd::prelude::*;

verus! {

/// Optional inclusive bounds, in micro-degrees, on the grid points that are
/// reported. An absent bound does not constrain its side.
pub struct Boundary {
    pub northernmost: Option<u32>,
    pub southernmost: Option<u32>,
    pub westernmost: Option<u32>,
    pub easternmost: Option<u32>,
}

/// `value` does not lie beyond `bound` on the side where `bound` is a maximum.
pub open spec fn within_max(bound: Option<u32>, value: u32) -> bool {
    match bound {
        Some(b) => value <= b,
        None => true,
    }
}

/// `value` does not lie beyond `bound` on the side where `bound` is a minimum.
pub open spec fn within_min(bound: Option<u32>, value: u32) -> bool {
    match bound {
        Some(b) => b <= value,
        None => true,
    }
}

impl Boundary {
    /// The point lies on no side strictly outside a configured bound.
    pub open spec fn spec_contains(&self, longitude: u32, latitude: u32) -> bool {
        &&& within_max(self.northernmost, latitude)
        &&& within_min(self.southernmost, latitude)
        &&& within_min(self.westernmost, longitude)
        &&& within_max(self.easternmost, longitude)
    }

    pub fn contains(&self, longitude: u32, latitude: u32) -> (r: bool)
        ensures
            r == self.spec_contains(longitude, latitude),
    {
        if let Some(northernmost) = self.northernmost {
            if northernmost < latitude {
                return false;
            }
        }
        if let Some(southernmost) = self.southernmost {
            if latitude < southernmost {
                return false;
            }
        }
        if let Some(westernmost) = self.westernmost {
            if longitude < westernmost {
                return false;
            }
        }
        if let Some(easternmost) = self.easternmost {
            if easternmost < longitude {
                return false;
            }
        }
        true
    }
}

impl Default for Boundary {
    fn default() -> (r: Boundary)
        ensures
            r.northernmost is None,
            r.southernmost is None,
            r.westernmost is None,
            r.easternmost is None,
    {
        Boundary { northernmost: None, southernmost: None, westernmost: None, easternmost: None }
    }
}

/// Bounds are inclusive: a configured bound never excludes a point that lies
/// on it, so such a point is reported exactly when the other bounds admit it;
/// a point strictly beyond a configured bound is never reported.
pub proof fn lemma_bounds_inclusive(b: Boundary, longitude: u32, latitude: u32)
    ensures
        b.northernmost == Some(latitude) ==> (b.spec_contains(longitude, latitude) <==> (
        within_min(b.southernmost, latitude) && within_min(b.westernmost, longitude)
            && within_max(b.easternmost, longitude))),
        b.southernmost == Some(latitude) ==> (b.spec_contains(longitude, latitude) <==> (
        within_max(b.northernmost, latitude) && within_min(b.westernmost, longitude)
            && within_max(b.easternmost, longitude))),
        b.westernmost == Some(longitude) ==> (b.spec_contains(longitude, latitude) <==> (
        within_max(b.northernmost, latitude) && within_min(b.southernmost, latitude)
            && within_max(b.easternmost, longitude))),
        b.easternmost == Some(longitude) ==> (b.spec_contains(longitude, latitude) <==> (
        within_max(b.northernmost, latitude) && within_min(b.southernmost, latitude)
            && within_min(b.westernmost, longitude))),
        b.northernmost is Some && b.northernmost->0 < latitude ==> !b.spec_contains(longitude, latitude),
        b.southernmost is Some && latitude < b.southernmost->0 ==> !b.spec_contains(longitude, latitude),
        b.westernmost is Some && longitude < b.westernmost->0 ==> !b.spec_contains(longitude, latitude),
        b.easternmost is Some && b.easternmost->0 < longitude ==> !b.spec_contains(longitude, latitude),
{
}

/// Collects optional bounds one side at a time.
pub struct BoundaryBuilder {
    northernmost: Option<u32>,
    southernmost: Option<u32>,
    westernmost: Option<u32>,
    easternmost: Option<u32>,
}

impl Default for BoundaryBuilder {
    fn default() -> (r: BoundaryBuilder)
        ensures
            r.spec_bounds() == (None::<u32>, None::<u32>, None::<u32>, None::<u32>),
    {
        BoundaryBuilder {
            northernmost: None,
            southernmost: None,
            westernmost: None,
            easternmost: None,
        }
    }
}

impl BoundaryBuilder {
    /// The bounds collected so far: north, south, west, east.
    pub closed spec fn spec_bounds(&self) -> (Option<u32>, Option<u32>, Option<u32>, Option<u32>) {
        (self.northernmost, self.southernmost, self.westernmost, self.easternmost)
    }

    pub fn northernmost(self, degree: Option<u32>) -> (r: Self)
        ensures
            r.spec_bounds() == (degree, self.spec_bounds().1, self.spec_bounds().2, self.spec_bounds().3),
    {
        BoundaryBuilder {
            northernmost: degree,
            southernmost: self.southernmost,
            westernmost: self.westernmost,
            easternmost: self.easternmost,
        }
    }

    pub fn southernmost(self, degree: Option<u32>) -> (r: Self)
        ensures
            r.spec_bounds() == (self.spec_bounds().0, degree, self.spec_bounds().2, self.spec_bounds().3),
    {
        BoundaryBuilder {
            northernmost: self.northernmost,
            southernmost: degree,
            westernmost: self.westernmost,
            easternmost: self.easternmost,
        }
    }

    pub fn westernmost(self, degree: Option<u32>) -> (r: Self)
        ensures
            r.spec_bounds() == (self.spec_bounds().0, self.spec_bounds().1, degree, self.spec_bounds().3),
    {
        BoundaryBuilder {
            northernmost: self.northernmost,
            southernmost: self.southernmost,
            westernmost: degree,
            easternmost: self.easternmost,
        }
    }

    pub fn easternmost(self, degree: Option<u32>) -> (r: Self)
        ensures
            r.spec_bounds() == (self.spec_bounds().0, self.spec_bounds().1, self.spec_bounds().2, degree),
    {
        BoundaryBuilder {
            northernmost: self.northernmost,
            southernmost: self.southernmost,
            westernmost: self.westernmost,
            easternmost: degree,
        }
    }

    pub fn build(self) -> (r: Boundary)
        ensures
            (r.northernmost, r.southernmost, r.westernmost, r.easternmost) == self.spec_bounds(),
    {
        Boundary {
            northernmost: self.northernmost,
            southernmost: self.southernmost,
            westernmost: self.westernmost,
            easternmost: self.easternmost,
        }
    }
}

} // verus!
