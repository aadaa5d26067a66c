//! Verified core of the estate and terrain services: the grass v3 tile
//! format and its filtering, the tiles an exclusion touches, house
//! foundations and templates, and the decision procedures for placing and
//! demolishing a house and for the housing routes.
pub mod cells;
pub mod grass;
pub mod house;
pub mod le_bytes;
pub mod placement;
pub mod routes;
pub mod text;
