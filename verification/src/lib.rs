//! A personal music server built around iroh: the verified library behind its two programs.
//!
//! The library scans what lies in a music directory into an index ([`scanner`], [`builder`],
//! [`chunks`], [`tags`]), answers requests from it ([`server`], [`rpc`]) and serves Subsonic
//! clients ([`routes`], [`render`], [`auth`]). Files, databases and the network are left to the
//! programs: where one of them is needed, the library says what is to be done and takes what came
//! of it.

pub mod auth;
pub mod backend_laws;
pub mod builder;
pub mod chunks;
pub mod cli;
pub mod config;
pub mod duplicate;
pub mod error;
pub mod index;
pub mod integrity;
pub mod json;
pub mod lastfm;
pub mod library_laws;
pub mod media;
pub mod models;
pub mod network;
pub mod ordered_map;
pub mod path;
pub mod protocol;
pub mod reading;
pub mod render;
pub mod response_laws;
pub mod route_laws;
pub mod routes;
pub mod rpc;
pub mod scan_laws;
pub mod scanner;
pub mod server;
pub mod slug;
pub mod sorting;
pub mod tags;
pub mod text;
pub mod utf8;
pub mod watch;
pub mod xml;
