//! A minimal type-representation library with an assignability (subtyping)
//! relation over three type shapes: primitive scalars, nominal traits
//! organized in a supertrait graph, and structural function signatures with
//! variance (contravariant parameters, covariant return).
//!
//! Trait nodes live in an arena ([`graph::TraitGraph`]) and are addressed by
//! stable integer index; a node may only name already-registered nodes as
//! supertraits, so the supertrait graph is acyclic by construction and every
//! assignability query terminates.

pub mod graph;
pub mod laws;
pub mod types;
