//! Verified core logic of the Embucket Snowflake-compatible query engine.
#![allow(unused_imports)]

pub mod text;
pub mod build_info;
pub mod types;
pub mod numtext;
pub mod column_info;
pub mod temporal;
pub mod convert;
pub mod assoc;
pub mod merge;
pub mod sql;
pub mod location;
pub mod metastore_config;
pub mod catalog;
pub mod information_schema;
pub mod sessions;
pub mod ui_auth;
pub mod builtins;
pub mod type_planner;
pub mod rest;
pub mod accelerators;
pub mod json_get_float;
pub mod json_get_float_as_number;
pub mod metastore_settings;
pub mod catalog_list;
pub mod logical_plan;
pub mod qualify;
pub mod query_context;
pub mod kv;
pub mod caching;
