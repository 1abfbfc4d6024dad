//! The logic of Yatch, a small OCI image registry.

pub mod answers;
pub mod auth;
pub mod blobs;
pub mod config;
pub mod db;
pub mod digest;
pub mod effects;
pub mod json;
pub mod keys;
pub mod laws;
pub mod manifests;
pub mod multipart;
pub mod oci_error;
pub mod oci_path;
pub mod order;
pub mod params;
pub mod reply;
pub mod responses;
pub mod routes;
pub mod sql;
pub mod step;
pub mod storage;
pub mod text;
pub mod types;
pub mod uploads;
pub mod world;
