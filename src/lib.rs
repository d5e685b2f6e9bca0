//! Generation of conformance test scenarios out of a REST API contract, and
//! validation of live responses against that contract.
pub mod combiner;
pub mod disparity;
pub mod generator;
pub mod instructions;
pub mod known_param;
pub mod literal;
pub mod mutation;
pub mod mutator;
pub mod operation;
pub mod patterns;
pub mod request_param;
pub mod scenario;
pub mod schema;
pub mod text;
pub mod validator;

pub use generator::{Generator, GeneratorConfig};
