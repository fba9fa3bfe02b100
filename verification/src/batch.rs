//! One batch: what a caller asks for, and what follows from it before the
//! first fetch.

use crate::client::{build_client, built_client, optional_pair_views, ClientConfig, ConfigError};
use crate::dispatch::{texts, Dispatcher};
use crate::dispatch_model::DispatchState;
use crate::headers::HeaderPair;
use crate::text::text_view;
use crate::pacing::spec_effective_rate;
use vstd::prelude::*;

verus! {

/// What a caller asks for: the URLs to fetch, and how.
#[derive(Debug)]
pub struct BatchRequest {
    /// The URLs, in the order in which their outcomes are wanted. The same
    /// URL may stand more than once; the list may be empty.
    pub urls: Vec<String>,
    /// How many fetches may start per second and be in flight at once.
    pub rate_limit: Option<u32>,
    /// Headers that every request of the batch carries.
    pub headers: Option<Vec<HeaderPair>>,
    /// The proxy that the requests go through.
    pub proxy: Option<String>,
    /// The user agent that every request carries.
    pub user_agent: Option<String>,
}

/// What a batch runs with: the configuration of its client, and its
/// dispatcher before anything has happened.
pub struct BatchPlan {
    pub client: ClientConfig,
    pub dispatcher: Dispatcher,
}

/// Prepares a batch: makes the configuration of its client and its
/// dispatcher. A batch with a faulty default header or user agent is
/// refused, whether or not it has URLs; nothing else refuses one.
pub fn plan_batch(request: BatchRequest, fallback_proxy: Option<String>) -> (planned: Result<
    BatchPlan,
    ConfigError,
>)
    ensures
        match planned {
            Ok(plan) => {
                &&& built_client(
                    optional_pair_views(request.headers),
                    text_view(request.proxy),
                    text_view(fallback_proxy),
                    text_view(request.user_agent),
                ) == Ok::<_, ConfigError>(plan.client@)
                &&& plan.dispatcher.inv()
                &&& plan.dispatcher@ == DispatchState::initial(
                    texts(request.urls@),
                    spec_effective_rate(request.rate_limit),
                )
            },
            Err(error) => built_client(
                optional_pair_views(request.headers),
                text_view(request.proxy),
                text_view(fallback_proxy),
                text_view(request.user_agent),
            ) == Err::<crate::client::ClientConfigView, _>(error),
        },
{
    let BatchRequest { urls, rate_limit, headers, proxy, user_agent } = request;
    match build_client(headers, proxy, fallback_proxy, user_agent) {
        Ok(client) => Ok(BatchPlan { client, dispatcher: Dispatcher::new(urls, rate_limit) }),
        Err(error) => Err(error),
    }
}

} // verus!
