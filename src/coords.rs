use vstd::prelude::*;

verus! {

/// Units of a geographic coordinate per degree.
pub const UNITS_PER_DEGREE: i64 = 10_000_000;

/// A geographic point: longitude and latitude in units of 1e-7 degree.
#[derive(Clone, Copy, Debug, PartialEq, Eq, Structural)]
pub struct GeoPoint {
    pub lon: i32,
    pub lat: i32,
}

/// A latitude/longitude rectangle, in units of 1e-7 degree.
#[derive(Clone, Copy, Debug, PartialEq, Eq, Structural)]
pub struct Bounds {
    pub minlat: i32,
    pub minlon: i32,
    pub maxlat: i32,
    pub maxlon: i32,
}

/// The area of one fetch: a centre and a radius in metres.
#[derive(Clone, Copy, Debug, PartialEq, Eq, Structural)]
pub struct LoadRequest {
    pub center: GeoPoint,
    pub radius: u32,
}

/// The bounds of a query, in units of 1e-7 degree.
#[derive(Clone, Copy, Debug, PartialEq, Eq, Structural)]
pub struct BoundingBox {
    pub south: i32,
    pub west: i32,
    pub north: i32,
    pub east: i32,
}

impl GeoPoint {
    pub fn new(lon: i32, lat: i32) -> (r: GeoPoint)
        ensures
            r == (GeoPoint { lon, lat }),
    {
        GeoPoint { lon, lat }
    }
}

/// The midpoint of two coordinates, rounded down.
pub open spec fn midpoint(a: int, b: int) -> int {
    (a + b) / 2
}

fn mid(a: i32, b: i32) -> (r: i32)
    ensures
        r == midpoint(a as int, b as int),
{
    let s: i64 = a as i64 + b as i64;
    if s >= 0 {
        (s / 2) as i32
    } else {
        let h = (-s + 1) / 2;
        assert(-h == s / 2);
        (-h) as i32
    }
}

impl Bounds {
    /// The centre of the rectangle.
    pub fn center(&self) -> (r: GeoPoint)
        ensures
            r.lon == midpoint(self.minlon as int, self.maxlon as int),
            r.lat == midpoint(self.minlat as int, self.maxlat as int),
    {
        GeoPoint { lon: mid(self.minlon, self.maxlon), lat: mid(self.minlat, self.maxlat) }
    }

    pub fn north(&self) -> (r: i32)
        ensures
            r == self.maxlat,
    {
        self.maxlat
    }

    pub fn east(&self) -> (r: i32)
        ensures
            r == self.maxlon,
    {
        self.maxlon
    }

    pub fn south(&self) -> (r: i32)
        ensures
            r == self.minlat,
    {
        self.minlat
    }

    pub fn west(&self) -> (r: i32)
        ensures
            r == self.minlon,
    {
        self.minlon
    }

    pub fn north_west(&self) -> (r: GeoPoint)
        ensures
            r == (GeoPoint { lon: self.minlon, lat: self.maxlat }),
    {
        GeoPoint { lon: self.west(), lat: self.north() }
    }

    pub fn north_east(&self) -> (r: GeoPoint)
        ensures
            r == (GeoPoint { lon: self.maxlon, lat: self.maxlat }),
    {
        GeoPoint { lon: self.east(), lat: self.north() }
    }

    pub fn south_west(&self) -> (r: GeoPoint)
        ensures
            r == (GeoPoint { lon: self.minlon, lat: self.minlat }),
    {
        GeoPoint { lon: self.west(), lat: self.south() }
    }

    pub fn south_east(&self) -> (r: GeoPoint)
        ensures
            r == (GeoPoint { lon: self.maxlon, lat: self.minlat }),
    {
        GeoPoint { lon: self.east(), lat: self.south() }
    }
}

impl LoadRequest {
    pub fn new(center: GeoPoint, radius: u32) -> (r: LoadRequest)
        ensures
            r == (LoadRequest { center, radius }),
    {
        LoadRequest { center, radius }
    }
}

impl BoundingBox {
    /// The box through the points reached from a centre by going north, east,
    /// south and west: their latitudes bound it north and south, their
    /// longitudes east and west.
    pub fn from_corners(north: GeoPoint, east: GeoPoint, south: GeoPoint, west: GeoPoint) -> (r: BoundingBox)
        ensures
            r == (BoundingBox { south: south.lat, west: west.lon, north: north.lat, east: east.lon }),
    {
        BoundingBox { south: south.lat, west: west.lon, north: north.lat, east: east.lon }
    }

    /// Whether the box is not empty and holds `p`.
    pub fn contains(&self, p: GeoPoint) -> (r: bool)
        ensures
            r == (self.south <= p.lat <= self.north && self.west <= p.lon <= self.east),
    {
        self.south <= p.lat && p.lat <= self.north && self.west <= p.lon && p.lon <= self.east
    }
}

} // verus!
