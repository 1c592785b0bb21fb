//! Client core for the OpenAI Responses API and its Azure and compatible
//! deployments: rate limiting with adaptive feedback, retry and backoff,
//! provider URL assembly and Azure detection, and error classification.

pub mod bucket;
pub mod breaker;
pub mod pacer;
pub mod keyed;
pub mod limiter;
pub mod headers;
pub mod parse;
pub mod retry;
pub mod text;
pub mod azure;
pub mod json;
pub mod provider;
pub mod error;
pub mod payload;
pub mod estimate;
pub mod queue;
pub mod auth;
pub mod stored;
pub mod decimal;
