//! Orders with line items: the domain model, the rules by which orders are
//! written to and read from a relational store, and the mapping between the
//! domain model and the messages of the RPC surface.
//!
//! The library touches neither the store nor the network. A write is a
//! transaction that names one action after another and takes in what came
//! of each (`transaction`); a read is a function of the rows that a query
//! returned (`order_repository`). What the transactions do to the tables is
//! proved against a model of the store (`store`).

pub mod error;
pub mod models;
pub mod order_repository;
pub mod order_service;
pub mod outside;
pub mod proto;
pub mod store;
pub mod text;
pub mod transaction;
