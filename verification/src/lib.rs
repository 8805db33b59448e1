//! Verified core of the ModelRelay SDK: key parsing, the bash command
//! policy, client setup and retry decisions, request headers and paths,
//! error envelopes, NDJSON stream framing, queueing and timeouts, stream
//! event decoding and collection, structured records, the rules of the
//! local tool packs and of the SQL tool loop, and plugin sources, parsing,
//! planning and prompts.

pub mod text;
pub mod bash_tokenizer;
pub mod bash_policy;
pub mod errors;
pub mod api_key;
pub mod http;
pub mod client_core;
pub mod local_tools_common;
pub mod local_fs_tools;
pub mod local_fs_edit;
pub mod local_bash_tools;
pub mod convenience;
pub mod identifiers;
pub mod customers;
pub mod stream_timeouts;
pub mod plugins;
pub mod plugin_markdown;
pub mod orchestration_plan;
pub mod plugin_manifest;
pub mod http_errors;
pub mod plugin_prompts;
pub mod sql_tool_loop;
pub mod structured_records;
pub mod sessions;
pub mod images;
pub mod agent_refs;
pub mod responses;
pub mod chat_requests;
pub mod ndjson_stream;
pub mod plugin_source;
pub mod client_setup;
pub mod stream_events;
