//! A map-feature pipeline: geographic features fetched from a remote query
//! service are turned into indexed 3D meshes, under a non-blocking load
//! scheduler and a per-tick decoration budget.
//!
//! Distances are held in millimetres and geographic coordinates in units of
//! 1e-7 degree, so that every rule of the pipeline is stated and proved over
//! integers.

pub mod building;
pub mod coords;
pub mod decoration;
pub mod mesh;
pub mod osm;
pub mod query;
pub mod ring;
pub mod road;
pub mod scheduler;
pub mod tags;

pub use building::{
    decorate_building, BuildingClass, BuildingDecoration, LOW_BUILDING_MM,
    LOW_BUILDING_VIEW_DISTANCE,
};
pub use coords::{BoundingBox, Bounds, GeoPoint, LoadRequest, UNITS_PER_DEGREE};
pub use decoration::{lemma_drained_exactly_once, lemma_pending_distinct, DecorationQueue};
pub use mesh::{
    build_area_mesh, build_building_mesh, lemma_wall_extrusion, roof_indices, BuiltMesh, GeometryError,
    LocalPoint, Rgba8, Vec3i, VertexSource, MAX_COORD, MAX_RING_LEN, ROOF_SHADE, WALL_SHADE,
};
pub use osm::{
    features_from, ApiResponse, Element, Feature, FeatureKind, Node, Osm3s, Relation, Way,
};
pub use query::{query_template, render_query, request_body, QueryError};
pub use ring::{
    is_triangulation_of, lemma_roof_of_triangulation, prepare_ring, twice_signed_area,
};
pub use road::{parse_i32_of, strip_indices, MAX_SUBWAY_DEPTH_MM};
pub use scheduler::{lemma_one_fetch_per_request, FetchOutcome, LoadScheduler};
pub use tags::{
    lane_width_of, parse_millis_of, Tags, DEFAULT_HEIGHT_MM, DEFAULT_ROAD_WIDTH_MM,
    STOREY_HEIGHT_M,
};
