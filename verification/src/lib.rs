//! Frame builder of a GPU-accelerated 2D renderer.
//!
//! A scene of nested stacking contexts and iframes is flattened into scroll
//! layers, draw-list groups and a tree of render targets; the result is
//! culled, compiled by the embedder and collected into a renderer frame.
//!
//! Lengths are whole pixels. Transforms are kept as products of factors
//! that the embedder evaluates.
//!
//! What a function does is stated on plain values: every type that holds a
//! list has a view with the list as a sequence, and the contracts of the
//! functions that change a frame say what becomes of its view. What
//! flattening comes to is stated in `flatten_model`, building a frame in
//! `create`, collecting it in `collect`. What holds of every frame that
//! has been built is stated and proved in `soundness`, `shape`, `textures`,
//! `world` and `rebuild`.
//!
//! A build goes through these steps. `Frame::create` flattens the scene.
//! `Frame::cull` marks the nodes that the viewports show, and
//! `Frame::nodes_to_compile` says which of them the embedder is to see to;
//! what the embedder makes of them comes back through
//! `Frame::update_resource_lists` and `Frame::compile_visible_nodes`.
//! `Frame::build` then passes the new vertex buffers on, sets the world
//! transforms of the scroll layers and collects the render targets.

pub mod geometry;
pub mod types;
pub mod transform;
pub mod draw_list_group;
pub mod composition;
pub mod views;
pub mod render_target;
pub mod lookup;
pub mod error;
pub mod scene;
pub mod paint_order;
pub mod batch;
pub mod layer;
pub mod resource_cache;
pub mod table;
pub mod frame;
pub mod flatten_model;
pub mod flatten;
pub mod reset;
pub mod create;
pub mod soundness;
pub mod scroll;
pub mod transforms;
pub mod nodes;
pub mod commands;
pub mod collect;
pub mod shape;
pub mod textures;
pub mod rebuild;
pub mod world;
