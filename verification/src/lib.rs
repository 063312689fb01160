//! A layered-tilemap placement engine.
//!
//! Tiles live on grid cells, one occupant per (map, layer, position) cell.
//! The engine decides, for each placement-family operation, what happens
//! when the targeted cell is already occupied, classifies tiles into
//! interchangeable groups for those conflict decisions, and queues a
//! cascade notification whenever an occupant carrying auto-tile metadata
//! is removed, so that an external resolver can recompute neighbors.

pub mod tiles;
pub mod auto;
pub mod registry;
pub mod grid;
pub mod placement;
pub mod laws;
