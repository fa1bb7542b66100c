//! Fetching, reducing and outlining OpenAPI documents: the verified core.

pub mod cli;
pub mod config;
pub mod errors;
pub mod fetch;
pub mod json;
pub mod outline;
pub mod output;
pub mod text;
pub mod watch;

pub use cli::{Cli, Command, CommonArgs, OutputProfile, WatchArgs};
pub use config::{parse_reduce_list, validate_config, Config, Mode, ReduceKey};
pub use errors::AppError;
pub use fetch::parse_json;
pub use json::Json;
pub use outline::outline_openapi;
pub use output::{build_output, build_outputs, reduce_openapi, OutputPayloads};
pub use watch::{maybe_prompt_for_url, normalize_user_url};
