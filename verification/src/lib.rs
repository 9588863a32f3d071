//! A column-oriented in-memory store: tables of fixed-width columns, addressed
//! by row handles that are bound to the table they were issued from.

pub mod action;
pub mod bag;
pub mod columns;
pub mod domain;
pub mod fmt;
pub mod foreign;
pub mod free;
pub mod index;
pub mod intern;
pub mod joincore;
pub mod order;
pub mod rows;
pub mod sorted;
pub mod tables;
pub mod tracking;
