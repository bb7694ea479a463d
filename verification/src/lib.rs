//! The verified core of a small user record service.
//!
//! The service accepts two requests, "create a user" and "list the users",
//! keeps its rows in a relational store that it reaches through a bounded
//! pool of connections, and brings the schema up to date before it serves.
//! Everything that decides something lives here, as functions from plain
//! values to plain values with proved contracts. Sockets, the database
//! driver, the clock and the environment belong to the program around it.
//!
//! - `config`: the connection string and the settings of the pool.
//! - `startup`: the order in which the service comes up, and how it fails.
//! - `migrations`: which schema steps a run applies, and how a run ends.
//! - `pool`: who holds which connection, and who waits for one.
//! - `model`, `store`: the user records, and the relation that holds them.
//! - `handlers`: the two requests, stage by stage.
//! - `migration_laws`, `pool_laws`, `handler_laws`: what holds of every run.

pub mod config;
pub mod handler_laws;
pub mod handlers;
pub mod migration_laws;
pub mod migrations;
pub mod model;
pub mod pool;
pub mod pool_laws;
pub mod startup;
pub mod store;
