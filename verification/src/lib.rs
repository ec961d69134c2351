//! Keeps the environment variables of a Cloudflare Pages project in step with a
//! local file: the remote and local shapes of a variable set, the conversions
//! between them, the minimal patch that turns the remote state into the desired
//! one, and the rendering of one environment as `NAME=value` lines.

pub mod commands;
pub mod diff;
pub mod environment;
pub mod error;
pub mod model;
pub mod name_order;
pub mod render;
pub mod var_map;
