//! A typed model of a site-deployment configuration document, together with
//! the resolver that merges its global, context and branch tiers into the
//! effective configuration of one deployment.
//!
//! The document is a `Config`. `Config::context_env`, `Config::scoped_redirects`
//! and `Config::scoped_headers` give the environment variables, the redirect
//! rules and the header rules of a deployment, named by a context and a
//! branch.

pub mod header_values;
pub mod merge;
pub mod model;
pub mod resolve;
pub mod string_map;
pub mod string_set;
pub mod text;

pub use crate::header_values::Encoding;
pub use crate::merge::{merge_rules, Rule};
pub use crate::model::{
    default_status, Build, Bundler, Config, Context, ContextFunctions, EdgeHandler, Functions,
    Header, HeaderValues, Redirect, Template,
};
pub use crate::string_map::StringMap;
pub use crate::string_set::StringSet;
