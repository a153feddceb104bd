//! Layout and paint-ordering engine for a retained-mode UI tree.
//!
//! A layout pass walks a tree snapshot from its root, resolves a rectangle
//! for every node from its size attributes, and registers each rectangle into
//! a z-ordered layer registry.
pub mod node;
pub mod area;
pub mod layers;
pub mod layout;
pub mod text;
pub mod attributes;
pub mod style;
