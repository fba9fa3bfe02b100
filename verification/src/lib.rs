//! Rate-limited batch fetching: the decisions behind fetching a list of URLs
//! through one configured HTTP client, under a concurrency and pacing budget.
//!
//! The library performs no I/O. A caller hands it what a batch asks for and
//! gets back the configuration of the client and a dispatcher; it then drives
//! the dispatcher, doing the fetches and the pauses that the dispatcher asks
//! for and reporting what came back. Every URL ends with exactly one outcome,
//! filed under its position in the input, whether its fetch succeeded or not.
//!
//! - `batch`: what a caller asks for, and the plan made from it.
//! - `client`: the configuration of the client: user agent, default headers,
//!   proxy.
//! - `headers`, `proxy`: what a client takes as a header and as a proxy.
//! - `dispatch`: the dispatcher; `dispatch_model` is its mathematical model,
//!   and `dispatch_laws` holds what is proved of every batch.
//! - `outcome`: the classification of a response into an outcome.
//! - `snippet`: the text preview of a page.
//! - `pacing`: the rate of a batch and the pause between two starts.
//! - `text`: helpers for text.

pub mod batch;
pub mod client;
pub mod dispatch;
pub mod dispatch_laws;
pub mod dispatch_model;
pub mod headers;
pub mod outcome;
pub mod pacing;
pub mod proxy;
pub mod snippet;
pub mod text;
