//! Which proxy, if any, the fetches of a batch go through.
//!
//! A proxy named with the batch wins over the fallback of the process. The
//! address chosen is handed to `reqwest`; where `reqwest` does not take it,
//! the batch goes out directly rather than fail.

use crate::text::text_view;
use vstd::prelude::*;

verus! {

/// A proxy of `reqwest`. Nothing is read from it here.
#[verifier::external_type_specification]
#[verifier::external_body]
pub struct ExProxy(reqwest::Proxy);

/// The error of `reqwest`. Nothing is read from it here.
#[verifier::external_type_specification]
#[verifier::external_body]
pub struct ExReqwestError(reqwest::Error);

/// Whether `reqwest::Proxy::all` takes `url` as the address of a proxy.
pub uninterp spec fn proxy_url_accepted(url: Seq<char>) -> bool;

/// Calls `reqwest::Proxy::all` on `url`. Whether the call succeeds depends
/// on the text of `url` alone: it parses the text as a URL, once more with
/// `http://` before it where that fails for want of a scheme, and takes the
/// schemes `http` and `https`. Nothing is claimed of the proxy or the error
/// that it returns.
#[verifier::external_body]
fn parse_proxy(url: &str) -> (parsed: Result<reqwest::Proxy, reqwest::Error>)
    ensures
        parsed is Ok <==> proxy_url_accepted(url@),
{
    reqwest::Proxy::all(url)
}

/// How the fetches of a batch reach their targets.
#[derive(Debug)]
pub enum ProxySetting {
    /// No proxy was named: the fetches go out directly.
    Direct,
    /// The fetches go through the proxy at `url`.
    Via { url: String },
    /// The proxy named at `url` was not taken: the fetches go out directly.
    Rejected { url: String },
}

/// The mathematical value of a `ProxySetting`.
pub enum ProxySettingView {
    Direct,
    Via { url: Seq<char> },
    Rejected { url: Seq<char> },
}

impl View for ProxySetting {
    type V = ProxySettingView;

    open spec fn view(&self) -> ProxySettingView {
        match *self {
            ProxySetting::Direct => ProxySettingView::Direct,
            ProxySetting::Via { url } => ProxySettingView::Via { url: url@ },
            ProxySetting::Rejected { url } => ProxySettingView::Rejected { url: url@ },
        }
    }
}

/// The proxy address that counts: the one named with the batch, else the
/// fallback of the process, else none.
pub open spec fn chosen_proxy(
    named: Option<Seq<char>>,
    fallback: Option<Seq<char>>,
) -> Option<Seq<char>> {
    match named {
        Some(url) => Some(url),
        None => fallback,
    }
}

/// The setting for the address that counts, given whether it was taken.
pub open spec fn setting_for(chosen: Option<Seq<char>>, accepted: bool) -> ProxySettingView {
    match chosen {
        None => ProxySettingView::Direct,
        Some(url) => if accepted {
            ProxySettingView::Via { url }
        } else {
            ProxySettingView::Rejected { url }
        },
    }
}

/// The setting of a batch that names `named`, in a process whose fallback
/// is `fallback`.
pub open spec fn resolved_proxy(
    named: Option<Seq<char>>,
    fallback: Option<Seq<char>>,
) -> ProxySettingView {
    match chosen_proxy(named, fallback) {
        None => ProxySettingView::Direct,
        Some(url) => setting_for(Some(url), proxy_url_accepted(url)),
    }
}

/// Picks the proxy address that counts.
pub fn choose_proxy(named: Option<String>, fallback: Option<String>) -> (chosen: Option<String>)
    ensures
        text_view(chosen) == chosen_proxy(text_view(named), text_view(fallback)),
{
    match named {
        Some(url) => Some(url),
        None => fallback,
    }
}

/// Makes the setting for the address that counts, given whether it was
/// taken.
pub fn proxy_setting(chosen: Option<String>, accepted: bool) -> (setting: ProxySetting)
    ensures
        setting@ == setting_for(text_view(chosen), accepted),
{
    match chosen {
        None => ProxySetting::Direct,
        Some(url) => if accepted {
            ProxySetting::Via { url }
        } else {
            ProxySetting::Rejected { url }
        },
    }
}

/// Tells whether `url` is taken as the address of a proxy.
pub fn proxy_url_is_accepted(url: &str) -> (accepted: bool)
    ensures
        accepted == proxy_url_accepted(url@),
{
    match parse_proxy(url) {
        Ok(_) => true,
        Err(_) => false,
    }
}

/// Resolves the proxy of a batch.
pub fn resolve_proxy(named: Option<String>, fallback: Option<String>) -> (setting: ProxySetting)
    ensures
        setting@ == resolved_proxy(text_view(named), text_view(fallback)),
{
    let chosen = choose_proxy(named, fallback);
    let accepted = match &chosen {
        Some(url) => proxy_url_is_accepted(url.as_str()),
        None => false,
    };
    proxy_setting(chosen, accepted)
}

} // verus!
