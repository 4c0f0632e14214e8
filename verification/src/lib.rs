//! Record mapping and the dependency-ordered load of a transit feed into a
//! relational store.

pub mod descriptor;
pub mod mapper;
pub mod model;
pub mod naming;
pub mod order;
pub mod statement;
pub mod task;
pub mod text;
pub mod util;
pub mod value;
