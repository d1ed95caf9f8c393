use vstd::prelude::*;
use crate::mesh::{build_building_mesh, ring_in_range, BuiltMesh, GeometryError, LocalPoint, MAX_RING_LEN};
use crate::ring::{is_triangulation_of, triangulates};
use crate::tags::{height_spec, lookup, text_is, Tags, DEFAULT_HEIGHT_MM};

verus! {

/// Buildings lower than this, in millimetres, are only drawn near the camera.
pub const LOW_BUILDING_MM: i64 = 12_000;

/// How near, in metres, the camera must be to draw a low building.
pub const LOW_BUILDING_VIEW_DISTANCE: u32 = 1_000;

/// What the decoration pass attaches to a building.
pub struct BuildingDecoration {
    pub mesh: BuiltMesh,
    pub height: i64,
    pub view_distance: Option<u32>,
}

/// The height of a building with these tags, in millimetres.
pub open spec fn building_height_spec(entries: Seq<(String, String)>) -> int {
    match height_spec(entries) {
        Some(v) => v,
        None => DEFAULT_HEIGHT_MM as int,
    }
}

/// Decorates one building: its height comes from its tags, its mesh is built
/// over its prepared ring with the triangulation of that ring, and a low
/// building gets a view distance. A triangulation that does not cut the ring
/// into `n - 2` triangles over its corners, covering its area, is refused.
pub fn decorate_building(
    ring: &Vec<LocalPoint>,
    tags: &Tags,
    triangulated: Result<Vec<usize>, earcutr::Error>,
) -> (r: Result<BuildingDecoration, GeometryError>)
    requires
        ring@.len() <= MAX_RING_LEN,
        ring_in_range(ring@),
    ensures
        ring@.len() == 0 ==> r == Err::<BuildingDecoration, GeometryError>(GeometryError::EmptyRing),
        0 < ring@.len() < 3 ==> r == Err::<BuildingDecoration, GeometryError>(GeometryError::TooFewVertices),
        ring@.len() >= 3 ==> match triangulated {
            Err(_) => r == Err::<BuildingDecoration, GeometryError>(GeometryError::Triangulation),
            Ok(tris) => if triangulates(ring@, tris@) {
                r is Ok
            } else {
                r == Err::<BuildingDecoration, GeometryError>(GeometryError::Triangulation)
            },
        },
        r matches Ok(d) ==> {
            &&& d.height == building_height_spec(tags.0@)
            &&& triangulated matches Ok(tris) && d.mesh.is_building_mesh(ring@, d.height, tris@)
                && triangulates(ring@, tris@)
            &&& d.mesh.well_formed()
            &&& d.view_distance == if d.height < LOW_BUILDING_MM {
                Some(LOW_BUILDING_VIEW_DISTANCE)
            } else {
                None::<u32>
            }
        },
{
    let n = ring.len();
    if n == 0 {
        return Err(GeometryError::EmptyRing);
    }
    if n < 3 {
        return Err(GeometryError::TooFewVertices);
    }
    let tris = match triangulated {
        Ok(t) => t,
        Err(_) => {
            return Err(GeometryError::Triangulation);
        },
    };
    if !is_triangulation_of(ring, &tris) {
        return Err(GeometryError::Triangulation);
    }
    let height = tags.resolved_height();
    match build_building_mesh(ring, height, Ok(tris)) {
        Ok(mesh) => {
            let view_distance = if height < LOW_BUILDING_MM {
                Some(LOW_BUILDING_VIEW_DISTANCE)
            } else {
                None
            };
            Ok(BuildingDecoration { mesh, height, view_distance })
        },
        Err(e) => Err(e),
    }
}


/// The class of a building, which picks its material.
#[derive(Clone, Copy, Debug, PartialEq, Eq, Structural)]
pub enum BuildingClass {
    Default,
    Residential,
    Religious,
    Agricultural,
    School,
    Industrial,
    Civic,
    Commercial,
    Retail,
    Outbuilding,
    Construction,
    Service,
    Warehouse,
    Office,
    Hospital,
    Hotel,
    Transportation,
}

/// The class that a value of the `building` tag names.
pub open spec fn class_named(v: Seq<char>) -> BuildingClass {
    if v == "boathouse"@ || v == "bungalow"@ || v == "cabin"@ || v == "static_caravan"@ || v == "terrace"@ || v == "apartments"@ || v == "house"@ || v == "residential"@ || v == "detached"@ || v == "semidetached_house"@ {
        BuildingClass::Residential
    } else if v == "church"@ || v == "chapel"@ || v == "mosque"@ || v == "temple"@ || v == "religious"@ {
        BuildingClass::Religious
    } else if v == "farm_auxiliary"@ || v == "barn"@ || v == "greenhouse"@ || v == "farm"@ {
        BuildingClass::Agricultural
    } else if v == "school"@ || v == "university"@ || v == "kindergarten"@ {
        BuildingClass::School
    } else if v == "manufacture"@ || v == "industrial"@ {
        BuildingClass::Industrial
    } else if v == "civic"@ || v == "public"@ || v == "stadium"@ {
        BuildingClass::Civic
    } else if v == "commercial"@ {
        BuildingClass::Commercial
    } else if v == "retail"@ {
        BuildingClass::Retail
    } else if v == "outbuilding"@ {
        BuildingClass::Outbuilding
    } else if v == "construction"@ {
        BuildingClass::Construction
    } else if v == "service"@ || v == "fire_station"@ {
        BuildingClass::Service
    } else if v == "warehouse"@ {
        BuildingClass::Warehouse
    } else if v == "office"@ {
        BuildingClass::Office
    } else if v == "hospital"@ {
        BuildingClass::Hospital
    } else if v == "hotel"@ {
        BuildingClass::Hotel
    } else if v == "train_station"@ || v == "transportation"@ {
        BuildingClass::Transportation
    } else {
        BuildingClass::Default
    }
}

/// The class of a building with these tags.
pub open spec fn class_spec(entries: Seq<(String, String)>) -> BuildingClass {
    match lookup(entries, "building"@) {
        Some(v) => class_named(v),
        None => BuildingClass::Default,
    }
}

/// The class that a value of the `building` tag names.
pub fn class_named_by(v: &String) -> (r: BuildingClass)
    ensures
        r == class_named(v@),
{
    if text_is(v, "boathouse") || text_is(v, "bungalow") || text_is(v, "cabin") || text_is(v, "static_caravan") || text_is(v, "terrace") || text_is(v, "apartments") || text_is(v, "house") || text_is(v, "residential") || text_is(v, "detached") || text_is(v, "semidetached_house") {
        BuildingClass::Residential
    } else if text_is(v, "church") || text_is(v, "chapel") || text_is(v, "mosque") || text_is(v, "temple") || text_is(v, "religious") {
        BuildingClass::Religious
    } else if text_is(v, "farm_auxiliary") || text_is(v, "barn") || text_is(v, "greenhouse") || text_is(v, "farm") {
        BuildingClass::Agricultural
    } else if text_is(v, "school") || text_is(v, "university") || text_is(v, "kindergarten") {
        BuildingClass::School
    } else if text_is(v, "manufacture") || text_is(v, "industrial") {
        BuildingClass::Industrial
    } else if text_is(v, "civic") || text_is(v, "public") || text_is(v, "stadium") {
        BuildingClass::Civic
    } else if text_is(v, "commercial") {
        BuildingClass::Commercial
    } else if text_is(v, "retail") {
        BuildingClass::Retail
    } else if text_is(v, "outbuilding") {
        BuildingClass::Outbuilding
    } else if text_is(v, "construction") {
        BuildingClass::Construction
    } else if text_is(v, "service") || text_is(v, "fire_station") {
        BuildingClass::Service
    } else if text_is(v, "warehouse") {
        BuildingClass::Warehouse
    } else if text_is(v, "office") {
        BuildingClass::Office
    } else if text_is(v, "hospital") {
        BuildingClass::Hospital
    } else if text_is(v, "hotel") {
        BuildingClass::Hotel
    } else if text_is(v, "train_station") || text_is(v, "transportation") {
        BuildingClass::Transportation
    } else {
        BuildingClass::Default
    }
}

impl Tags {
    /// The class of the building that these tags describe.
    pub fn building_class(&self) -> (r: BuildingClass)
        ensures
            r == class_spec(self.0@),
    {
        match self.get("building") {
            Some(v) => class_named_by(v),
            None => BuildingClass::Default,
        }
    }
}

} // verus!
