pub mod api;
pub mod cli;
pub mod clock;
pub mod cloud;
pub mod cloud_execution;
pub mod cloud_stream;
pub mod digest;
pub mod enrollment;
pub mod ident;
pub mod json;
pub mod names;
pub mod oidc;
pub mod order;
pub mod repository;
pub mod restore;
pub mod runtime;
pub mod service;
pub mod sql;
pub mod startup;
pub mod table;
pub mod text;
pub mod web;
pub mod worker;
pub mod workload;
