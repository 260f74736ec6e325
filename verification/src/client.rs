//! Building a managed LLM client from the options that every binding collects.
use vstd::prelude::*;
use crate::config::{CacheConfig, RateLimitConfig};
use crate::error::LiterLlmError;

verus! {

/// Client settings. Each optional setting is `None` until the builder is
/// told about it; `B` is the budget configuration and `H` a request hook.
pub struct ClientConfig<B, H> {
    pub api_key: String,
    pub base_url: Option<String>,
    pub timeout_secs: Option<u64>,
    pub max_retries: Option<u32>,
    pub cache: Option<CacheConfig>,
    pub budget: Option<B>,
    pub hooks: Vec<H>,
    pub cooldown_secs: Option<u64>,
    pub rate_limit: Option<RateLimitConfig>,
    pub health_check_secs: Option<u64>,
    pub cost_tracking: bool,
    pub tracing: bool,
}

/// Step-by-step construction of a [`ClientConfig`].
pub struct ClientConfigBuilder<B, H> {
    pub config: ClientConfig<B, H>,
}

impl<B, H> ClientConfigBuilder<B, H> {
    /// A builder for a client that authenticates with `api_key` and has no
    /// other setting.
    pub fn new(api_key: &str) -> (r: Self)
        ensures
            r.config.api_key@ == api_key@,
            r.config.base_url is None,
            r.config.timeout_secs is None,
            r.config.max_retries is None,
            r.config.cache is None,
            r.config.budget is None,
            r.config.hooks@.len() == 0,
            r.config.cooldown_secs is None,
            r.config.rate_limit is None,
            r.config.health_check_secs is None,
            !r.config.cost_tracking,
            !r.config.tracing,
    {
        ClientConfigBuilder {
            config: ClientConfig {
                api_key: api_key.to_owned(),
                base_url: None,
                timeout_secs: None,
                max_retries: None,
                cache: None,
                budget: None,
                hooks: Vec::new(),
                cooldown_secs: None,
                rate_limit: None,
                health_check_secs: None,
                cost_tracking: false,
                tracing: false,
            },
        }
    }

    /// Sets the base URL.
    pub fn base_url(self, url: &str) -> (r: Self)
        ensures
            r.config == (ClientConfig { base_url: r.config.base_url, ..self.config }),
            r.config.base_url matches Some(u) && u@ == url@,
    {
        let mut b = self;
        b.config.base_url = Some(url.to_owned());
        b
    }

    /// Sets the request timeout, in seconds.
    pub fn timeout(self, secs: u64) -> (r: Self)
        ensures
            r.config == (ClientConfig { timeout_secs: Some(secs), ..self.config }),
    {
        let mut b = self;
        b.config.timeout_secs = Some(secs);
        b
    }

    /// Sets how often a failed request is retried.
    pub fn max_retries(self, n: u32) -> (r: Self)
        ensures
            r.config == (ClientConfig { max_retries: Some(n), ..self.config }),
    {
        let mut b = self;
        b.config.max_retries = Some(n);
        b
    }

    /// Sets the response cache.
    pub fn cache(self, cache: CacheConfig) -> (r: Self)
        ensures
            r.config == (ClientConfig { cache: Some(cache), ..self.config }),
    {
        let mut b = self;
        b.config.cache = Some(cache);
        b
    }

    /// Sets the spending budget.
    pub fn budget(self, budget: B) -> (r: Self)
        ensures
            r.config == (ClientConfig { budget: Some(budget), ..self.config }),
    {
        let mut b = self;
        b.config.budget = Some(budget);
        b
    }

    /// Sets the request hooks.
    pub fn hooks(self, hooks: Vec<H>) -> (r: Self)
        ensures
            r.config == (ClientConfig { hooks: hooks, ..self.config }),
    {
        let mut b = self;
        b.config.hooks = hooks;
        b
    }

    /// Sets the cooldown after failures, in seconds.
    pub fn cooldown(self, secs: u64) -> (r: Self)
        ensures
            r.config == (ClientConfig { cooldown_secs: Some(secs), ..self.config }),
    {
        let mut b = self;
        b.config.cooldown_secs = Some(secs);
        b
    }

    /// Sets the rate limits.
    pub fn rate_limit(self, limits: RateLimitConfig) -> (r: Self)
        ensures
            r.config == (ClientConfig { rate_limit: Some(limits), ..self.config }),
    {
        let mut b = self;
        b.config.rate_limit = Some(limits);
        b
    }

    /// Sets the health check interval, in seconds.
    pub fn health_check(self, secs: u64) -> (r: Self)
        ensures
            r.config == (ClientConfig { health_check_secs: Some(secs), ..self.config }),
    {
        let mut b = self;
        b.config.health_check_secs = Some(secs);
        b
    }

    /// Turns cost tracking on or off.
    pub fn cost_tracking(self, on: bool) -> (r: Self)
        ensures
            r.config == (ClientConfig { cost_tracking: on, ..self.config }),
    {
        let mut b = self;
        b.config.cost_tracking = on;
        b
    }

    /// Turns request tracing on or off.
    pub fn tracing(self, on: bool) -> (r: Self)
        ensures
            r.config == (ClientConfig { tracing: on, ..self.config }),
    {
        let mut b = self;
        b.config.tracing = on;
        b
    }

    /// The configuration built so far.
    pub fn build(self) -> (r: ClientConfig<B, H>)
        ensures
            r == self.config,
    {
        self.config
    }
}

/// A client bound to its configuration and to the model it was created for.
pub struct ManagedClient<B, H> {
    pub config: ClientConfig<B, H>,
    pub model_hint: Option<String>,
}

impl<B, H> ManagedClient<B, H> {
    /// Creates a client from a configuration and an optional model hint.
    pub fn new(config: ClientConfig<B, H>, model_hint: Option<&str>) -> (r: Result<Self, LiterLlmError>)
        ensures
            r matches Ok(c) && c.config == config && (match model_hint {
                Some(h) => c.model_hint matches Some(m) && m@ == h@,
                None => c.model_hint is None,
            }),
    {
        let model_hint = match model_hint {
            Some(h) => Some(h.to_owned()),
            None => None,
        };
        Ok(ManagedClient { config, model_hint })
    }
}

/// Common client options for building a `ManagedClient`.
pub struct ClientOptions<B, H> {
    pub api_key: String,
    pub base_url: Option<String>,
    pub model_hint: Option<String>,
    pub timeout_secs: Option<u64>,
    pub max_retries: Option<u32>,
    pub cache_config: Option<CacheConfig>,
    pub budget_config: Option<B>,
    pub hooks: Vec<H>,
    pub cooldown_secs: Option<u64>,
    pub rate_limit_config: Option<RateLimitConfig>,
    pub health_check_secs: Option<u64>,
    pub enable_cost_tracking: bool,
    pub enable_tracing: bool,
}

impl<B, H> Default for ClientOptions<B, H> {
    /// No API key, no option set, no hooks, no tracking.
    fn default() -> (r: Self)
        ensures
            r.api_key@ == Seq::<char>::empty(),
            r.base_url is None,
            r.model_hint is None,
            r.timeout_secs is None,
            r.max_retries is None,
            r.cache_config is None,
            r.budget_config is None,
            r.hooks@ == Seq::<H>::empty(),
            r.cooldown_secs is None,
            r.rate_limit_config is None,
            r.health_check_secs is None,
            !r.enable_cost_tracking,
            !r.enable_tracing,
    {
        ClientOptions {
            api_key: String::new(),
            base_url: None,
            model_hint: None,
            timeout_secs: None,
            max_retries: None,
            cache_config: None,
            budget_config: None,
            hooks: Vec::new(),
            cooldown_secs: None,
            rate_limit_config: None,
            health_check_secs: None,
            enable_cost_tracking: false,
            enable_tracing: false,
        }
    }
}

/// The characters of an optional string.
pub open spec fn opt_view(s: Option<String>) -> Option<Seq<char>> {
    match s {
        Some(x) => Some(x@),
        None => None,
    }
}

/// The configuration that a set of options gives.
pub open spec fn config_from_options<B, H>(opts: ClientOptions<B, H>, c: ClientConfig<B, H>) -> bool {
    &&& c.api_key@ == opts.api_key@
    &&& opt_view(c.base_url) == opt_view(opts.base_url)
    &&& c.timeout_secs == opts.timeout_secs
    &&& c.max_retries == opts.max_retries
    &&& c.cache == opts.cache_config
    &&& c.budget == opts.budget_config
    &&& c.hooks@ == opts.hooks@
    &&& c.cooldown_secs == opts.cooldown_secs
    &&& c.rate_limit == opts.rate_limit_config
    &&& c.health_check_secs == opts.health_check_secs
    &&& c.cost_tracking == opts.enable_cost_tracking
    &&& c.tracing == opts.enable_tracing
}

/// Build a `ManagedClient` from common configuration parameters: every
/// option that is given is passed on to the client configuration, and the
/// model hint to the client.
pub fn build_managed_client<B, H>(opts: ClientOptions<B, H>) -> (r: Result<ManagedClient<B, H>, LiterLlmError>)
    ensures
        r matches Ok(c) && config_from_options(opts, c.config) && (match opts.model_hint {
            Some(h) => c.model_hint matches Some(m) && m@ == h@,
            None => c.model_hint is None,
        }),
{
    let ClientOptions {
        api_key,
        base_url,
        model_hint,
        timeout_secs,
        max_retries,
        cache_config,
        budget_config,
        hooks,
        cooldown_secs,
        rate_limit_config,
        health_check_secs,
        enable_cost_tracking,
        enable_tracing,
    } = opts;
    let mut builder: ClientConfigBuilder<B, H> = ClientConfigBuilder::new(api_key.as_str());
    if let Some(url) = &base_url {
        builder = builder.base_url(url.as_str());
    }
    if let Some(t) = timeout_secs {
        builder = builder.timeout(t);
    }
    if let Some(n) = max_retries {
        builder = builder.max_retries(n);
    }
    if let Some(cache) = cache_config {
        builder = builder.cache(cache);
    }
    if let Some(budget) = budget_config {
        builder = builder.budget(budget);
    }
    if hooks.len() > 0 {
        builder = builder.hooks(hooks);
    } else {
        assert(builder.config.hooks@ =~= hooks@);
    }
    if let Some(secs) = cooldown_secs {
        builder = builder.cooldown(secs);
    }
    if let Some(rl) = rate_limit_config {
        builder = builder.rate_limit(rl);
    }
    if let Some(secs) = health_check_secs {
        builder = builder.health_check(secs);
    }
    if enable_cost_tracking {
        builder = builder.cost_tracking(true);
    }
    if enable_tracing {
        builder = builder.tracing(true);
    }
    let config = builder.build();
    let hint = match &model_hint {
        Some(h) => Some(h.as_str()),
        None => None,
    };
    ManagedClient::new(config, hint)
}

} // verus!
