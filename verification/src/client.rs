//! The client factory: the configuration of the HTTP client of one batch.
//!
//! The configuration is made once for a batch and shared, unchanged, by all
//! of its fetches. It is made from what the batch asks for: a user agent,
//! default headers, a proxy. A header or a user agent that no client would
//! take fails the batch before any fetch; a proxy address that is not taken
//! does not. Where a header name is given more than once, in whatever case
//! of its letters, the last pair with that name counts.

use crate::headers::{check_headers, first_fault, header_value_is_legal, keep_last_of_each_name,
    last_of_each_name, lemma_distinct_names_are_all_kept, lemma_kept_names_are_distinct,
    lemma_kept_pairs_are_legal, lemma_no_fault_means_all_legal, name_is_legal, names_distinct,
    pair_is_legal, pair_views, value_is_legal, HeaderFault, HeaderPair, HeaderPairView};
use crate::text::text_view;
use crate::proxy::{proxy_url_accepted, resolve_proxy, resolved_proxy, ProxySetting,
    ProxySettingView};
use vstd::prelude::*;
use vstd::utf8::{encode_utf8, is_ascii_chars, is_ascii_chars_encode_utf8};

verus! {

/// The user agent of a batch that names none: that of a desktop browser.
pub const DEFAULT_USER_AGENT: &'static str =
    "Mozilla/5.0 (Windows NT 10.0; Win64; x64) AppleWebKit/537.36 (KHTML, like Gecko) Chrome/114.0.0.0 Safari/537.36";

/// Why a batch is refused before any fetch.
#[derive(Clone, Copy, Debug, PartialEq, Eq, Structural)]
pub enum ConfigError {
    /// The name of the default header at `index` is no header name.
    InvalidHeaderName { index: usize },
    /// The value of the default header at `index` is no header value.
    InvalidHeaderValue { index: usize },
    /// The user agent cannot be sent: it is no header value.
    InvalidUserAgent,
}

/// The configuration of the client of one batch.
#[derive(Debug)]
pub struct ClientConfig {
    /// The user agent that every request carries; it is a header value.
    pub user_agent: String,
    /// The headers that every request carries, each of them legal and no
    /// two with the same name, in the order in which they were given.
    pub headers: Vec<HeaderPair>,
    /// How the requests reach their targets.
    pub proxy: ProxySetting,
}

/// The mathematical value of a `ClientConfig`.
pub struct ClientConfigView {
    pub user_agent: Seq<char>,
    pub headers: Seq<HeaderPairView>,
    pub proxy: ProxySettingView,
}

impl View for ClientConfig {
    type V = ClientConfigView;

    open spec fn view(&self) -> ClientConfigView {
        ClientConfigView {
            user_agent: self.user_agent@,
            headers: pair_views(self.headers@),
            proxy: self.proxy@,
        }
    }
}

/// The view of an optional list of header pairs.
pub open spec fn optional_pair_views(pairs: Option<Vec<HeaderPair>>) -> Option<
    Seq<HeaderPairView>,
> {
    match pairs {
        Some(list) => Some(pair_views(list@)),
        None => None,
    }
}

/// The user agent of a batch: the one it names, else the default.
pub open spec fn resolved_user_agent(named: Option<Seq<char>>) -> Seq<char> {
    match named {
        Some(agent) => agent,
        None => DEFAULT_USER_AGENT@,
    }
}

/// The default headers of a batch: those it names, else none.
pub open spec fn resolved_headers(named: Option<Seq<HeaderPairView>>) -> Seq<HeaderPairView> {
    match named {
        Some(pairs) => pairs,
        None => Seq::empty(),
    }
}

/// The error that a header fault stands for.
pub open spec fn error_of(fault: HeaderFault) -> ConfigError {
    match fault {
        HeaderFault::Name { index } => ConfigError::InvalidHeaderName { index },
        HeaderFault::Value { index } => ConfigError::InvalidHeaderValue { index },
    }
}

impl ClientConfigView {
    /// What holds of every configuration that the factory makes: a client
    /// takes its user agent and each of its headers, no two headers have the
    /// same name, and its proxy, if it has one, was taken.
    pub open spec fn well_formed(self) -> bool {
        &&& value_is_legal(self.user_agent)
        &&& forall|i: int| 0 <= i < self.headers.len() ==> pair_is_legal(#[trigger] self.headers[i])
        &&& names_distinct(self.headers)
        &&& self.proxy matches ProxySettingView::Via { url } ==> proxy_url_accepted(url)
    }
}

/// What the client factory makes of a request: the error of the first faulty
/// header, where there is one; else the error of a user agent that cannot be
/// sent; and else the configuration, with the headers that count.
pub open spec fn built_client(
    headers: Option<Seq<HeaderPairView>>,
    named_proxy: Option<Seq<char>>,
    fallback_proxy: Option<Seq<char>>,
    user_agent: Option<Seq<char>>,
) -> Result<ClientConfigView, ConfigError> {
    match first_fault(resolved_headers(headers)) {
        Some(fault) => Err(error_of(fault)),
        None => if value_is_legal(resolved_user_agent(user_agent)) {
            Ok(
                ClientConfigView {
                    user_agent: resolved_user_agent(user_agent),
                    headers: last_of_each_name(resolved_headers(headers)),
                    proxy: resolved_proxy(named_proxy, fallback_proxy),
                },
            )
        } else {
            Err(ConfigError::InvalidUserAgent)
        },
    }
}

/// The view of what the client factory returns.
pub open spec fn built_view(built: Result<ClientConfig, ConfigError>) -> Result<
    ClientConfigView,
    ConfigError,
> {
    match built {
        Ok(config) => Ok(config@),
        Err(error) => Err(error),
    }
}

/// The default user agent can be sent: it is a header value.
pub proof fn lemma_default_user_agent_is_legal()
    ensures
        value_is_legal(DEFAULT_USER_AGENT@),
{
    reveal_strlit(
        "Mozilla/5.0 (Windows NT 10.0; Win64; x64) AppleWebKit/537.36 (KHTML, like Gecko) Chrome/114.0.0.0 Safari/537.36",
    );
    let agent = DEFAULT_USER_AGENT@;
    assert(agent.len() == 111);
    assert forall|i: int| 0 <= i < agent.len() implies 32 <= (#[trigger] agent[i]) as u32 <= 126 by {}
    assert(is_ascii_chars(agent));
    is_ascii_chars_encode_utf8(agent);
}

/// The empty text is no header name.
pub proof fn lemma_empty_name_is_illegal()
    ensures
        !name_is_legal(Seq::empty()),
{
    assert(encode_utf8(Seq::<char>::empty()) =~= Seq::<u8>::empty());
}

/// A batch is refused exactly when one of its default headers or its user
/// agent is not legal. A faulty header comes first, and of the faulty headers
/// the first one: it is named for its name, where that is no header name, and
/// else for its value. A configuration that is made is well formed.
pub proof fn law_faulty_header_refuses_batch(
    headers: Option<Seq<HeaderPairView>>,
    named_proxy: Option<Seq<char>>,
    fallback_proxy: Option<Seq<char>>,
    user_agent: Option<Seq<char>>,
)
    ensures
        built_client(headers, named_proxy, fallback_proxy, user_agent) is Ok <==> value_is_legal(
            resolved_user_agent(user_agent),
        ) && forall|i: int|
            0 <= i < resolved_headers(headers).len() ==> pair_is_legal(
                #[trigger] resolved_headers(headers)[i],
            ),
        built_client(headers, named_proxy, fallback_proxy, user_agent) matches Ok(config)
            ==> config.well_formed(),
        first_fault(resolved_headers(headers)) matches Some(fault) ==> built_client(
            headers,
            named_proxy,
            fallback_proxy,
            user_agent,
        ) == Err::<ClientConfigView, _>(error_of(fault)),
        headers matches Some(pairs) && pairs.len() > 0 && !name_is_legal(pairs[0].name)
            ==> built_client(headers, named_proxy, fallback_proxy, user_agent) == Err::<
            ClientConfigView,
            _,
        >(ConfigError::InvalidHeaderName { index: 0 }),
{
    lemma_no_fault_means_all_legal(resolved_headers(headers), 0);
    if built_client(headers, named_proxy, fallback_proxy, user_agent) is Ok {
        lemma_kept_pairs_are_legal(resolved_headers(headers));
        lemma_kept_names_are_distinct(resolved_headers(headers), 0);
    }
}

/// Every legal header is applied: a batch whose default headers are all
/// legal, with no name given twice in whatever case of its letters, and whose
/// user agent can be sent, gets a configuration with exactly those headers,
/// in their order: none is dropped and none is added. A batch that names no
/// default headers gets a configuration without any.
pub proof fn law_legal_headers_are_all_kept(
    headers: Option<Seq<HeaderPairView>>,
    named_proxy: Option<Seq<char>>,
    fallback_proxy: Option<Seq<char>>,
    user_agent: Option<Seq<char>>,
)
    requires
        forall|i: int|
            0 <= i < resolved_headers(headers).len() ==> pair_is_legal(
                #[trigger] resolved_headers(headers)[i],
            ),
        names_distinct(resolved_headers(headers)),
        value_is_legal(resolved_user_agent(user_agent)),
    ensures
        built_client(headers, named_proxy, fallback_proxy, user_agent) matches Ok(config)
            && config.headers == resolved_headers(headers),
        headers is None ==> (built_client(headers, named_proxy, fallback_proxy, user_agent)
            matches Ok(config) && config.headers.len() == 0),
{
    let pairs = resolved_headers(headers);
    lemma_no_fault_means_all_legal(pairs, 0);
    lemma_distinct_names_are_all_kept(pairs, 0);
    assert(pairs.skip(0) =~= pairs);
}

/// A batch whose first default header has the empty name is refused for
/// that name, whatever else it asks for.
pub proof fn law_empty_header_name_refuses_batch(
    pairs: Seq<HeaderPairView>,
    named_proxy: Option<Seq<char>>,
    fallback_proxy: Option<Seq<char>>,
    user_agent: Option<Seq<char>>,
)
    requires
        pairs.len() > 0,
        pairs[0].name.len() == 0,
    ensures
        built_client(Some(pairs), named_proxy, fallback_proxy, user_agent) == Err::<
            ClientConfigView,
            _,
        >(ConfigError::InvalidHeaderName { index: 0 }),
{
    lemma_empty_name_is_illegal();
    assert(pairs[0].name =~= Seq::<char>::empty());
}

/// A batch that names no user agent is refused for its default headers
/// alone, and one that names no default headers either is never refused.
pub proof fn law_defaults_are_never_refused(
    headers: Option<Seq<HeaderPairView>>,
    named_proxy: Option<Seq<char>>,
    fallback_proxy: Option<Seq<char>>,
)
    ensures
        built_client(headers, named_proxy, fallback_proxy, None) is Ok <==> first_fault(
            resolved_headers(headers),
        ) is None,
        built_client(None, named_proxy, fallback_proxy, None) is Ok,
{
    lemma_default_user_agent_is_legal();
}

impl ConfigError {
    /// A short description of the error.
    pub fn message(&self) -> (text: String)
        ensures
            text@ == match *self {
                ConfigError::InvalidHeaderName { .. } => "Invalid header name"@,
                ConfigError::InvalidHeaderValue { .. } => "Invalid header value"@,
                ConfigError::InvalidUserAgent => "Invalid user agent"@,
            },
    {
        match self {
            ConfigError::InvalidHeaderName { .. } => "Invalid header name".to_owned(),
            ConfigError::InvalidHeaderValue { .. } => "Invalid header value".to_owned(),
            ConfigError::InvalidUserAgent => "Invalid user agent".to_owned(),
        }
    }
}

/// Makes the configuration of the client of one batch from the default
/// headers, the proxy and the user agent that the batch names, and the
/// fallback proxy of the process.
pub fn build_client(
    headers: Option<Vec<HeaderPair>>,
    named_proxy: Option<String>,
    fallback_proxy: Option<String>,
    user_agent: Option<String>,
) -> (built: Result<ClientConfig, ConfigError>)
    ensures
        built_view(built) == built_client(
            optional_pair_views(headers),
            text_view(named_proxy),
            text_view(fallback_proxy),
            text_view(user_agent),
        ),
{
    let ghost wanted = resolved_headers(optional_pair_views(headers));
    let agent = match user_agent {
        Some(named) => named,
        None => DEFAULT_USER_AGENT.to_owned(),
    };
    let pairs = match headers {
        Some(named) => named,
        None => Vec::new(),
    };
    proof {
        assert(pair_views(pairs@) =~= wanted);
    }
    match check_headers(&pairs) {
        Some(HeaderFault::Name { index }) => Err(ConfigError::InvalidHeaderName { index }),
        Some(HeaderFault::Value { index }) => Err(ConfigError::InvalidHeaderValue { index }),
        None => {
            if !header_value_is_legal(agent.as_str()) {
                return Err(ConfigError::InvalidUserAgent);
            }
            let kept = keep_last_of_each_name(&pairs);
            let proxy = resolve_proxy(named_proxy, fallback_proxy);
            Ok(ClientConfig { user_agent: agent, headers: kept, proxy })
        },
    }
}

} // verus!
