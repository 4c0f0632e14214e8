//! The record types of the transit feed.

pub mod gtfs;
