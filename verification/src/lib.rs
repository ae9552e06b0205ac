//! Safety gate for trace-sampling policies: match expressions, bounded
//! reservoirs, static analysis, traffic simulation and corpus replay;
//! around them the policy text, the compiler to flat rules, readers of
//! spans, seeded generators of corpora and a harness of scenarios.

pub mod analysis;
pub mod chaos;
pub mod checks;
pub mod client;
pub mod compiler;
pub mod copies;
pub mod corpus;
pub mod encoder;
pub mod error;
pub mod evolution;
pub mod fixed;
pub mod fixtures;
pub mod grouping;
pub mod harness;
pub mod honeycomb;
pub mod ingestor;
pub mod literal;
pub mod loader;
pub mod lockfile;
pub mod match_expr;
pub mod order;
pub mod otlp;
pub mod policy;
pub mod prompt;
pub mod prover;
pub mod refinery;
pub mod replay;
pub mod response;
pub mod reservoir;
pub mod result;
pub mod rng;
pub mod scenario;
pub mod simulation;
pub mod span;
pub mod synthetic;
pub mod text;
pub mod time;
pub mod toon;
pub mod trace;
pub mod traffic;
pub mod waggle;
pub mod watch;
