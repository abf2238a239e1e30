//! Semantic model and code-generation engine for peripheral access crates
//! described by SVD register descriptions.
//!
//! The stages run in order, each on the complete output of the one before:
//! - [`parse`]: the scalar values of a description (integer literals, access modes);
//! - [`validate`]: attribute checks per validation level, with fallback to device defaults;
//! - [`builder`], [`derive`] and [`fields`]: `derivedFrom` resolution, bitfield-array
//!   expansion, enumerated-value and name checks, and peripheral and register array expansion;
//! - [`layout`]: bitfield placement, absolute addresses, collisions and the alias name table;
//! - [`emit`]: accessor source text per register, peripheral and target;
//! - [`pipeline`]: the stages composed.
//!
//! [`naming`] writes numbers and array-element names; [`bits`] states the mask and offset arithmetic that the emitted accessors perform.
pub mod bits;
pub mod builder;
pub mod config;
pub mod derive;
pub mod emit;
pub mod error;
pub mod fields;
pub mod layout;
pub mod model;
pub mod naming;
pub mod parse;
pub mod pipeline;
pub mod validate;
