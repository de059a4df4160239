//! A search tool backed by a SearxNG instance: request planning, response
//! pruning and Markdown rendering, with their contracts.
use vstd::prelude::*;

pub mod external;
pub mod json;
pub mod markdown;
pub mod prune;
pub mod text;
pub mod tool;

pub use json::{JsonNumber, JsonValue, render_json};
pub use markdown::build_search_markdown;
pub use prune::build_pruned_output;
pub use tool::{
    SearchOutput, SearchParams, SearchRequest, SearxSearchTool, ZeptoError, parse_args, respond,
    request_failed, response_not_json, serialize_failed, status_error,
};

verus! {

} // verus!
