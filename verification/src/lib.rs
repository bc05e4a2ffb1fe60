//! A query plan compiler for an ORM-style data layer.
//!
//! A typed query descriptor and the metadata of a model are compiled into a backend-neutral
//! plan: an ordered sequence of stages. Every function is verified against a contract stated
//! over the mathematical views of the data types.

pub mod action;
pub mod error;
pub mod name;
pub mod predicate;
pub mod plan;
pub mod aggregate;
pub mod shape;
pub mod render;
pub mod statement;
pub mod document;
pub mod emit;
pub mod pagination;
pub mod query;
pub mod evaluate;
pub mod groups;
pub mod order;
pub mod page;
pub mod meaning;
pub mod show;
pub mod connector;
pub mod pipeline;
pub mod server;
pub mod outline;
pub mod client;
pub mod text;
pub mod field;
pub mod model;
