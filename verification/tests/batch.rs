use batch_fetch::batch::{plan_batch, BatchRequest};
use batch_fetch::client::ConfigError;
use batch_fetch::dispatch::Action;
use batch_fetch::headers::HeaderPair;
use batch_fetch::outcome::FetchResponse;
use batch_fetch::proxy::ProxySetting;

fn request_for(urls: &[&str]) -> BatchRequest {
    BatchRequest {
        urls: urls.iter().map(|u| u.to_string()).collect(),
        rate_limit: None,
        headers: None,
        proxy: None,
        user_agent: None,
    }
}

#[test]
fn plain_request_is_planned_with_defaults() {
    let plan = plan_batch(request_for(&["http://a/", "http://b/"]), None).ok().unwrap();
    assert_eq!(plan.dispatcher.len(), 2);
    assert_eq!(plan.dispatcher.rate(), 5);
    assert_eq!(plan.dispatcher.pause_millis(), 200);
    assert_eq!(plan.dispatcher.next_action(), Action::Start { index: 0 });
    assert!(plan.client.headers.is_empty());
    assert!(matches!(plan.client.proxy, ProxySetting::Direct));
}

#[test]
fn request_settings_reach_the_plan() {
    let mut request = request_for(&["u"]);
    request.rate_limit = Some(10);
    request.user_agent = Some("agent".to_string());
    request.proxy = Some("http://proxy.example:1".to_string());
    request.headers =
        Some(vec![HeaderPair { name: "x-k".to_string(), value: "v".to_string() }]);
    let plan = plan_batch(request, Some("http://fallback.example".to_string())).ok().unwrap();
    assert_eq!(plan.dispatcher.rate(), 10);
    assert_eq!(plan.dispatcher.pause_millis(), 100);
    assert_eq!(plan.client.user_agent, "agent");
    assert_eq!(plan.client.headers.len(), 1);
    assert_eq!(plan.client.headers[0].name, "x-k");
    assert!(matches!(&plan.client.proxy, ProxySetting::Via { url } if url == "http://proxy.example:1"));
}

#[test]
fn fallback_proxy_reaches_the_plan() {
    let plan =
        plan_batch(request_for(&[]), Some("http://fallback.example".to_string())).ok().unwrap();
    assert!(matches!(&plan.client.proxy, ProxySetting::Via { url } if url == "http://fallback.example"));
}

#[test]
fn invalid_header_fails_the_batch_before_any_fetch() {
    let mut request = request_for(&["http://a/", "http://b/"]);
    request.headers = Some(vec![HeaderPair { name: "".to_string(), value: "x".to_string() }]);
    let planned = plan_batch(request, None);
    assert_eq!(planned.err(), Some(ConfigError::InvalidHeaderName { index: 0 }));
}

#[test]
fn invalid_header_fails_an_empty_batch_too() {
    let mut request = request_for(&[]);
    request.headers =
        Some(vec![HeaderPair { name: "x-a".to_string(), value: "a\nb".to_string() }]);
    assert_eq!(plan_batch(request, None).err(), Some(ConfigError::InvalidHeaderValue { index: 0 }));
}

#[test]
fn empty_request_yields_no_outcomes() {
    let plan = plan_batch(request_for(&[]), None).ok().unwrap();
    assert_eq!(plan.dispatcher.next_action(), Action::Finished);
    assert_eq!(plan.dispatcher.into_outcomes().map(|o| o.len()), Some(0));
}

#[test]
fn planned_batch_runs_to_ordered_outcomes() {
    let mut request = request_for(&["first", "second"]);
    request.rate_limit = Some(0);
    let mut dispatcher = plan_batch(request, None).ok().unwrap().dispatcher;
    assert_eq!(dispatcher.rate(), 1);
    assert_eq!(dispatcher.start(), Some(0));
    assert_eq!(dispatcher.next_action(), Action::Pause { millis: 1000 });
    dispatcher.pause_elapsed();
    assert_eq!(dispatcher.next_action(), Action::AwaitCompletion);
    assert!(dispatcher.complete(
        0,
        FetchResponse::Replied {
            status: 200,
            content_type: Some(b"application/json".to_vec()),
            body: None,
        }
    ));
    assert_eq!(dispatcher.start(), Some(1));
    assert!(dispatcher.complete(1, FetchResponse::Replied { status: 404, content_type: None, body: None }));
    let outcomes = dispatcher.into_outcomes().unwrap();
    assert_eq!(outcomes.len(), 2);
    assert_eq!(outcomes[0].url, "first");
    assert_eq!(outcomes[0].error, Some("Skipped non-HTML content".to_string()));
    assert_eq!(outcomes[1].url, "second");
    assert_eq!(outcomes[1].error, Some("HTTP 404".to_string()));
}
