//! Providers: how a model name is routed to an API endpoint.
use std::collections::HashMap;
use vstd::prelude::*;
use vstd::string::{StrSliceExecFns, StringExecFns};
use crate::error::LiterLlmError;
use crate::json::{strings_view, JsonValue};
use crate::text::{starts_with, str_eq, str_starts_with};

verus! {

/// Auth configuration block of a provider entry.
pub struct AuthConfig {
    pub auth_type: String,
    pub env_var: Option<String>,
}

/// Static configuration for a single provider entry of the registry.
pub struct ProviderConfig {
    pub name: String,
    pub display_name: Option<String>,
    pub base_url: Option<String>,
    pub auth: Option<AuthConfig>,
    pub endpoints: Option<Vec<String>>,
    pub model_prefixes: Option<Vec<String>>,
    pub param_mappings: Option<HashMap<String, String>>,
}

/// The provider entries and the names of the providers that need their own
/// auth or routing logic.
pub struct ProviderRegistry {
    pub providers: Vec<ProviderConfig>,
    pub complex_providers: Vec<String>,
}

/// The characters of an optional list of strings.
pub open spec fn opt_strings_view(v: Option<Vec<String>>) -> Option<Seq<Seq<char>>> {
    match v {
        Some(xs) => Some(strings_view(xs@)),
        None => None,
    }
}

/// `b` holds the same configuration as `a`.
pub open spec fn same_config(a: ProviderConfig, b: ProviderConfig) -> bool {
    &&& b.name == a.name
    &&& b.display_name == a.display_name
    &&& b.base_url == a.base_url
    &&& b.auth == a.auth
    &&& opt_strings_view(b.endpoints) == opt_strings_view(a.endpoints)
    &&& opt_strings_view(b.model_prefixes) == opt_strings_view(a.model_prefixes)
    &&& b.param_mappings is Some <==> a.param_mappings is Some
    &&& b.param_mappings is Some ==> b.param_mappings.unwrap()@ == a.param_mappings.unwrap()@
}

fn copy_string_list(v: &Vec<String>) -> (r: Vec<String>)
    ensures
        strings_view(r@) == strings_view(v@),
{
    let mut out: Vec<String> = Vec::new();
    let mut i: usize = 0;
    while i < v.len()
        invariant
            i <= v.len(),
            out.len() == i,
            forall|k: int| 0 <= k < i ==> out@[k]@ == v@[k]@,
        decreases v.len() - i,
    {
        out.push(v[i].clone());
        i = i + 1;
    }
    assert(strings_view(out@) =~= strings_view(v@));
    out
}

fn copy_opt_string(v: &Option<String>) -> (r: Option<String>)
    ensures
        r == *v,
{
    match v {
        Some(s) => Some(s.clone()),
        None => None,
    }
}

fn copy_opt_string_list(v: &Option<Vec<String>>) -> (r: Option<Vec<String>>)
    ensures
        opt_strings_view(r) == opt_strings_view(*v),
{
    match v {
        Some(xs) => Some(copy_string_list(xs)),
        None => None,
    }
}

impl ProviderConfig {
    /// A copy of this configuration.
    pub fn duplicate(&self) -> (r: ProviderConfig)
        ensures
            same_config(*self, r),
    {
        let auth = match &self.auth {
            Some(a) => Some(AuthConfig { auth_type: a.auth_type.clone(), env_var: copy_opt_string(&a.env_var) }),
            None => None,
        };
        let param_mappings = match &self.param_mappings {
            Some(m) => Some(m.clone()),
            None => None,
        };
        ProviderConfig {
            name: self.name.clone(),
            display_name: copy_opt_string(&self.display_name),
            base_url: copy_opt_string(&self.base_url),
            auth,
            endpoints: copy_opt_string_list(&self.endpoints),
            model_prefixes: copy_opt_string_list(&self.model_prefixes),
            param_mappings,
        }
    }
}

/// `model` with the routing prefix `name/` removed, when it has one.
pub open spec fn strip_routing_prefix(name: Seq<char>, model: Seq<char>) -> Seq<char> {
    if starts_with(model, name) && name.len() < model.len() && model[name.len() as int] == '/' {
        model.skip(name.len() as int + 1)
    } else {
        model
    }
}

/// Removes the routing prefix `name/` from `model`, when it has one.
pub fn strip_name_prefix<'m>(name: &str, model: &'m str) -> (r: &'m str)
    ensures
        r@ == strip_routing_prefix(name@, model@),
{
    let n = name.unicode_len();
    let m = model.unicode_len();
    if str_starts_with(model, name) && n < m && model.get_char(n) == '/' {
        model.substring_char(n + 1, m)
    } else {
        model
    }
}

/// The authorization header of a bearer-token provider.
pub open spec fn bearer_header(api_key: Seq<char>, r: (String, String)) -> bool {
    r.0@ == "Authorization"@ && r.1@ == "Bearer "@ + api_key
}

/// Builds `Authorization: Bearer <key>`.
pub fn bearer_auth_header(api_key: &str) -> (r: (String, String))
    ensures
        bearer_header(api_key@, r),
{
    let mut value = "Bearer ".to_owned();
    value.append(api_key);
    ("Authorization".to_owned(), value)
}

/// A provider defines how to reach an LLM API endpoint.
pub trait Provider {
    /// The provider's name.
    spec fn spec_name(&self) -> Seq<char>;

    /// The provider's base URL.
    spec fn spec_base_url(&self) -> Seq<char>;

    /// Whether the provider serves a model name.
    spec fn spec_matches_model(&self, model: Seq<char>) -> bool;

    /// Provider name (e.g., "openai").
    fn name(&self) -> (r: &str)
        ensures
            r@ == self.spec_name(),
    ;

    /// Base URL (e.g., "https://api.openai.com/v1").
    fn base_url(&self) -> (r: &str)
        ensures
            r@ == self.spec_base_url(),
    ;

    /// Build the authorization header as (header-name, header-value).
    fn auth_header(&self, api_key: &str) -> (r: (String, String));

    /// Whether this provider matches a given model string.
    fn matches_model(&self, model: &str) -> (r: bool)
        ensures
            r == self.spec_matches_model(model@),
    ;

    /// Strip any provider-routing prefix from a model name before sending it
    /// in the request body: `"groq/llama3-70b"` becomes `"llama3-70b"`, and a
    /// model name without the prefix is returned unchanged.
    fn strip_model_prefix<'m>(&self, model: &'m str) -> (r: &'m str)
        default_ensures
            r@ == strip_routing_prefix(self.spec_name(), model@),
    {
        strip_name_prefix(self.name(), model)
    }

    /// Path for chat completions endpoint.
    fn chat_completions_path(&self) -> (r: &str)
        default_ensures
            r@ == "/chat/completions"@,
    {
        "/chat/completions"
    }

    /// Path for embeddings endpoint.
    fn embeddings_path(&self) -> (r: &str)
        default_ensures
            r@ == "/embeddings"@,
    {
        "/embeddings"
    }

    /// Path for list models endpoint.
    fn models_path(&self) -> (r: &str)
        default_ensures
            r@ == "/models"@,
    {
        "/models"
    }

    /// Whether streaming is supported.
    fn supports_streaming(&self) -> (r: bool)
        default_ensures
            r,
    {
        true
    }

    /// Transform the request body before sending, if needed.
    fn transform_request(&self, body: &mut JsonValue) -> (r: Result<(), LiterLlmError>)
        default_ensures
            r is Ok,
            *final(body) == *old(body),
    {
        Ok(())
    }
}

/// The model families served by OpenAI.
pub open spec fn openai_model(model: Seq<char>) -> bool {
    ||| starts_with(model, "gpt-"@)
    ||| starts_with(model, "o1-"@)
    ||| starts_with(model, "o3-"@)
    ||| starts_with(model, "o4-"@)
    ||| starts_with(model, "dall-e-"@)
    ||| starts_with(model, "whisper-"@)
    ||| starts_with(model, "tts-"@)
    ||| starts_with(model, "text-embedding-"@)
    ||| starts_with(model, "chatgpt-"@)
}

/// Built-in OpenAI provider.
pub struct OpenAiProvider;

impl Provider for OpenAiProvider {
    open spec fn spec_name(&self) -> Seq<char> {
        "openai"@
    }

    open spec fn spec_base_url(&self) -> Seq<char> {
        "https://api.openai.com/v1"@
    }

    open spec fn spec_matches_model(&self, model: Seq<char>) -> bool {
        openai_model(model)
    }

    fn name(&self) -> (r: &str) {
        "openai"
    }

    fn base_url(&self) -> (r: &str) {
        "https://api.openai.com/v1"
    }

    fn auth_header(&self, api_key: &str) -> (r: (String, String))
        ensures
            bearer_header(api_key@, r),
    {
        bearer_auth_header(api_key)
    }

    fn matches_model(&self, model: &str) -> (r: bool) {
        str_starts_with(model, "gpt-") || str_starts_with(model, "o1-") || str_starts_with(
            model,
            "o3-",
        ) || str_starts_with(model, "o4-") || str_starts_with(model, "dall-e-")
            || str_starts_with(model, "whisper-") || str_starts_with(model, "tts-")
            || str_starts_with(model, "text-embedding-") || str_starts_with(model, "chatgpt-")
    }

    /// OpenAI models have no routing prefix.
    fn strip_model_prefix<'m>(&self, model: &'m str) -> (r: &'m str)
        ensures
            r@ == model@,
    {
        model
    }
}

/// Some prefix in `prefixes` begins `model`.
pub open spec fn any_prefix(prefixes: Seq<Seq<char>>, model: Seq<char>) -> bool {
    exists|i: int| 0 <= i < prefixes.len() && starts_with(model, #[trigger] prefixes[i])
}

/// Whether some prefix in `prefixes` begins `model`.
fn has_any_prefix(prefixes: &Vec<String>, model: &str) -> (r: bool)
    ensures
        r == any_prefix(strings_view(prefixes@), model@),
{
    let mut i: usize = 0;
    while i < prefixes.len()
        invariant
            i <= prefixes.len(),
            forall|k: int| 0 <= k < i ==> !starts_with(model@, #[trigger] strings_view(prefixes@)[k]),
        decreases prefixes.len() - i,
    {
        if str_starts_with(model, prefixes[i].as_str()) {
            assert(starts_with(model@, strings_view(prefixes@)[i as int]));
            return true;
        }
        i = i + 1;
    }
    false
}

/// A generic OpenAI-compatible provider (configurable base_url + bearer auth).
pub struct OpenAiCompatibleProvider {
    pub name: String,
    pub base_url: String,
    pub env_var: String,
    pub model_prefixes: Vec<String>,
}

impl Provider for OpenAiCompatibleProvider {
    open spec fn spec_name(&self) -> Seq<char> {
        self.name@
    }

    open spec fn spec_base_url(&self) -> Seq<char> {
        self.base_url@
    }

    open spec fn spec_matches_model(&self, model: Seq<char>) -> bool {
        any_prefix(strings_view(self.model_prefixes@), model)
    }

    fn name(&self) -> (r: &str) {
        self.name.as_str()
    }

    fn base_url(&self) -> (r: &str) {
        self.base_url.as_str()
    }

    fn auth_header(&self, api_key: &str) -> (r: (String, String))
        ensures
            bearer_header(api_key@, r),
    {
        bearer_auth_header(api_key)
    }

    fn matches_model(&self, model: &str) -> (r: bool) {
        has_any_prefix(&self.model_prefixes, model)
    }
}

/// A data-driven provider backed by a [`ProviderConfig`] entry of the registry.
///
/// Used for simple providers that are fully described by their configuration.
pub struct ConfigDrivenProvider {
    config: ProviderConfig,
    resolved_base_url: String,
}

/// The base URL of a configuration, or the empty string.
pub open spec fn resolved_base_url(config: ProviderConfig) -> Seq<char> {
    match config.base_url {
        Some(u) => u@,
        None => Seq::empty(),
    }
}

/// The model-prefix routing of a configuration.
pub open spec fn config_matches(config: ProviderConfig, model: Seq<char>) -> bool {
    match config.model_prefixes {
        Some(ps) => any_prefix(strings_view(ps@), model),
        None => false,
    }
}

impl ConfigDrivenProvider {
    /// The resolved base URL is the configured one, or the empty string.
    #[verifier::type_invariant]
    closed spec fn base_url_resolved(self) -> bool {
        self.resolved_base_url@ == resolved_base_url(self.config)
    }

    /// The configuration this provider was built from.
    pub closed spec fn spec_config(&self) -> ProviderConfig {
        self.config
    }

    /// Builds a provider from a configuration; a missing base URL becomes the
    /// empty string.
    pub fn new(config: ProviderConfig) -> (r: Self)
        ensures
            r.spec_config() == config,
            r.spec_name() == config.name@,
            r.spec_base_url() == resolved_base_url(config),
            forall|m: Seq<char>| #[trigger] r.spec_matches_model(m) == config_matches(config, m),
    {
        let resolved_base_url = match &config.base_url {
            Some(u) => u.clone(),
            None => String::new(),
        };
        ConfigDrivenProvider { config, resolved_base_url }
    }
}

impl Provider for ConfigDrivenProvider {
    open spec fn spec_name(&self) -> Seq<char> {
        self.spec_config().name@
    }

    open spec fn spec_base_url(&self) -> Seq<char> {
        resolved_base_url(self.spec_config())
    }

    open spec fn spec_matches_model(&self, model: Seq<char>) -> bool {
        config_matches(self.spec_config(), model)
    }

    fn name(&self) -> (r: &str) {
        self.config.name.as_str()
    }

    fn base_url(&self) -> (r: &str) {
        proof {
            use_type_invariant(self);
        }
        self.resolved_base_url.as_str()
    }

    fn auth_header(&self, api_key: &str) -> (r: (String, String))
        ensures
            bearer_header(api_key@, r),
    {
        bearer_auth_header(api_key)
    }

    fn matches_model(&self, model: &str) -> (r: bool) {
        match &self.config.model_prefixes {
            Some(ps) => has_any_prefix(ps, model),
            None => false,
        }
    }
}

/// The first entry of `ps` whose name is `name`.
pub open spec fn first_named(ps: Seq<ProviderConfig>, name: Seq<char>, i: int) -> bool {
    &&& 0 <= i < ps.len()
    &&& ps[i].name@ == name
    &&& forall|j: int| 0 <= j < i ==> (#[trigger] ps[j]).name@ != name
}

/// Look up a provider config by exact name in the registry.
pub fn registry_find<'a>(registry: &'a ProviderRegistry, name: &str) -> (r: Option<&'a ProviderConfig>)
    ensures
        r is None <==> forall|j: int|
            0 <= j < registry.providers@.len() ==> (#[trigger] registry.providers@[j]).name@ != name@,
        r is Some ==> exists|i: int|
            first_named(registry.providers@, name@, i) && *r.unwrap() == registry.providers@[i],
{
    let ps = &registry.providers;
    let mut i: usize = 0;
    while i < ps.len()
        invariant
            ps@ == registry.providers@,
            i <= ps.len(),
            forall|j: int| 0 <= j < i ==> (#[trigger] ps@[j]).name@ != name@,
        decreases ps.len() - i,
    {
        if str_eq(ps[i].name.as_str(), name) {
            assert(first_named(ps@, name@, i as int));
            return Some(&ps[i]);
        }
        i = i + 1;
    }
    None
}

/// Return all provider configs of the registry.
pub fn all_providers(registry: &ProviderRegistry) -> (r: &[ProviderConfig])
    ensures
        r@ == registry.providers@,
{
    registry.providers.as_slice()
}

/// Return the names of the complex providers, which need custom auth or
/// routing logic beyond simple bearer tokens.
pub fn complex_provider_names(registry: &ProviderRegistry) -> (r: &[String])
    ensures
        r@ == registry.complex_providers@,
{
    registry.complex_providers.as_slice()
}

/// `s` ends with `c`.
pub open spec fn ends_with_char(s: Seq<char>, c: char) -> bool {
    s.len() > 0 && s.last() == c
}

/// The part of `model` before its first `/`, when it has one.
pub open spec fn routing_prefix(model: Seq<char>) -> Option<Seq<char>> {
    if exists|i: int| 0 <= i < model.len() && model[i] == '/' {
        let i = choose|i: int|
            0 <= i < model.len() && model[i] == '/' && forall|j: int| 0 <= j < i ==> model[j] != '/';
        Some(model.take(i))
    } else {
        None
    }
}

/// Some prefix of `prefixes` that is not a `name/` routing prefix begins `model`.
pub open spec fn bare_prefix_match(prefixes: Seq<Seq<char>>, model: Seq<char>) -> bool {
    exists|i: int|
        0 <= i < prefixes.len() && starts_with(model, #[trigger] prefixes[i]) && !ends_with_char(
            prefixes[i],
            '/',
        )
}

/// An entry that unprefixed model names are routed to by its model prefixes.
pub open spec fn serves_unprefixed(c: ProviderConfig, model: Seq<char>) -> bool {
    &&& c.base_url is Some
    &&& c.model_prefixes matches Some(ps) && bare_prefix_match(strings_view(ps@), model)
}

/// The first entry of `ps` that serves the unprefixed `model`.
pub open spec fn first_serving(ps: Seq<ProviderConfig>, model: Seq<char>, i: int) -> bool {
    &&& 0 <= i < ps.len()
    &&& serves_unprefixed(ps[i], model)
    &&& forall|j: int| 0 <= j < i ==> !serves_unprefixed(#[trigger] ps[j], model)
}

/// A provider chosen for a model name.
pub enum DetectedProvider {
    OpenAi(OpenAiProvider),
    ConfigDriven(ConfigDrivenProvider),
}

impl Provider for DetectedProvider {
    open spec fn spec_name(&self) -> Seq<char> {
        match self {
            DetectedProvider::OpenAi(p) => p.spec_name(),
            DetectedProvider::ConfigDriven(p) => p.spec_name(),
        }
    }

    open spec fn spec_base_url(&self) -> Seq<char> {
        match self {
            DetectedProvider::OpenAi(p) => p.spec_base_url(),
            DetectedProvider::ConfigDriven(p) => p.spec_base_url(),
        }
    }

    open spec fn spec_matches_model(&self, model: Seq<char>) -> bool {
        match self {
            DetectedProvider::OpenAi(p) => p.spec_matches_model(model),
            DetectedProvider::ConfigDriven(p) => p.spec_matches_model(model),
        }
    }

    fn name(&self) -> (r: &str) {
        match self {
            DetectedProvider::OpenAi(p) => p.name(),
            DetectedProvider::ConfigDriven(p) => p.name(),
        }
    }

    fn base_url(&self) -> (r: &str) {
        match self {
            DetectedProvider::OpenAi(p) => p.base_url(),
            DetectedProvider::ConfigDriven(p) => p.base_url(),
        }
    }

    fn auth_header(&self, api_key: &str) -> (r: (String, String))
        ensures
            bearer_header(api_key@, r),
    {
        match self {
            DetectedProvider::OpenAi(p) => p.auth_header(api_key),
            DetectedProvider::ConfigDriven(p) => p.auth_header(api_key),
        }
    }

    fn matches_model(&self, model: &str) -> (r: bool) {
        match self {
            DetectedProvider::OpenAi(p) => p.matches_model(model),
            DetectedProvider::ConfigDriven(p) => p.matches_model(model),
        }
    }

    fn strip_model_prefix<'m>(&self, model: &'m str) -> (r: &'m str)
        ensures
            self is OpenAi ==> r@ == model@,
            self is ConfigDriven ==> r@ == strip_routing_prefix(self.spec_name(), model@),
    {
        match self {
            DetectedProvider::OpenAi(p) => p.strip_model_prefix(model),
            DetectedProvider::ConfigDriven(p) => p.strip_model_prefix(model),
        }
    }
}

/// The entry that the routing prefix of `model` names, when it has a base URL.
pub open spec fn prefix_routed(ps: Seq<ProviderConfig>, model: Seq<char>, i: int) -> bool {
    &&& routing_prefix(model) matches Some(pre) && first_named(ps, pre, i)
    &&& ps[i].base_url is Some
}

/// A provider built from entry `c`: it has the entry's name and base URL and
/// routes by the entry's model prefixes.
pub open spec fn routed_to(c: ProviderConfig, p: ConfigDrivenProvider) -> bool {
    &&& p.spec_name() == c.name@
    &&& c.base_url matches Some(u) && p.spec_base_url() == u@
    &&& forall|m: Seq<char>| #[trigger] p.spec_matches_model(m) == config_matches(c, m)
}

/// Which provider serves `model`: OpenAI's own model families first, then the
/// entry named by a `name/` routing prefix, then the first entry whose model
/// prefixes match.
pub open spec fn detected(ps: Seq<ProviderConfig>, model: Seq<char>, r: Option<DetectedProvider>) -> bool {
    if openai_model(model) {
        r matches Some(DetectedProvider::OpenAi(_))
    } else if exists|i: int| prefix_routed(ps, model, i) {
        exists|i: int|
            prefix_routed(ps, model, i) && (r matches Some(DetectedProvider::ConfigDriven(p))
                && same_config(ps[i], p.spec_config()) && routed_to(ps[i], p))
    } else if exists|i: int| first_serving(ps, model, i) {
        exists|i: int|
            first_serving(ps, model, i) && (r matches Some(DetectedProvider::ConfigDriven(p))
                && same_config(ps[i], p.spec_config()) && routed_to(ps[i], p))
    } else {
        r is None
    }
}

/// The part of `model` before its first `/`, when it has one.
fn split_routing_prefix(model: &str) -> (r: Option<&str>)
    ensures
        r is Some <==> routing_prefix(model@) is Some,
        r is Some ==> r.unwrap()@ == routing_prefix(model@).unwrap(),
{
    let n = model.unicode_len();
    let mut i: usize = 0;
    while i < n
        invariant
            n == model@.len(),
            i <= n,
            forall|j: int| 0 <= j < i ==> model@[j] != '/',
        decreases n - i,
    {
        if model.get_char(i) == '/' {
            let ghost k = choose|k: int|
                0 <= k < model@.len() && model@[k] == '/' && forall|j: int| 0 <= j < k ==> model@[j] != '/';
            assert(k == i) by {
                if k < i {
                    assert(model@[k] != '/');
                } else if k > i {
                    assert(model@[i as int] != '/');
                }
            }
            return Some(model.substring_char(0, i));
        }
        i = i + 1;
    }
    None
}

/// Whether some prefix in `prefixes` that is not a routing prefix begins `model`.
fn has_bare_prefix(prefixes: &Vec<String>, model: &str) -> (r: bool)
    ensures
        r == bare_prefix_match(strings_view(prefixes@), model@),
{
    let mut i: usize = 0;
    while i < prefixes.len()
        invariant
            i <= prefixes.len(),
            forall|k: int|
                0 <= k < i ==> !(starts_with(model@, #[trigger] strings_view(prefixes@)[k])
                    && !ends_with_char(strings_view(prefixes@)[k], '/')),
        decreases prefixes.len() - i,
    {
        let p = prefixes[i].as_str();
        let len = p.unicode_len();
        let slash_end = len > 0 && p.get_char(len - 1) == '/';
        if str_starts_with(model, p) && !slash_end {
            assert(starts_with(model@, strings_view(prefixes@)[i as int]));
            return true;
        }
        i = i + 1;
    }
    false
}

/// Detect which provider to use based on model name.
///
/// Strategy:
/// 1. OpenAI's own model families (`gpt-*`, `o1-*`, `text-embedding-*`, ...).
/// 2. A `"provider/"` prefix, looked up by name in the registry.
/// 3. The registry entries' model prefixes, for unprefixed model names.
///
/// Returns `None` when no provider matches; registry entries without a base
/// URL are never chosen.
pub fn detect_provider(registry: &ProviderRegistry, model: &str) -> (r: Option<DetectedProvider>)
    ensures
        detected(registry.providers@, model@, r),
{
    let openai = OpenAiProvider;
    if openai.matches_model(model) {
        return Some(DetectedProvider::OpenAi(openai));
    }
    let ghost ps = registry.providers@;
    match split_routing_prefix(model) {
        Some(prefix) => {
            match registry_find(registry, prefix) {
                Some(cfg) => {
                    if cfg.base_url.is_some() {
                        let ghost i = choose|i: int| first_named(ps, prefix@, i) && *cfg == ps[i];
                        assert(prefix_routed(ps, model@, i));
                        return Some(DetectedProvider::ConfigDriven(ConfigDrivenProvider::new(cfg.duplicate())));
                    } else {
                        assert forall|i: int| !prefix_routed(ps, model@, i) by {
                            if prefix_routed(ps, model@, i) {
                                let k = choose|k: int| first_named(ps, prefix@, k) && *cfg == ps[k];
                                assert(k == i) by {
                                    if k < i {
                                        assert(ps[k].name@ == prefix@);
                                    } else if k > i {
                                        assert(ps[i].name@ == prefix@);
                                    }
                                }
                            }
                        }
                    }
                },
                None => {
                    assert forall|i: int| !prefix_routed(ps, model@, i) by {
                        if prefix_routed(ps, model@, i) {
                            assert(ps[i].name@ == prefix@);
                        }
                    }
                },
            }
        },
        None => {},
    }
    assert(forall|i: int| !prefix_routed(ps, model@, i));
    let providers = &registry.providers;
    let mut i: usize = 0;
    while i < providers.len()
        invariant
            ps == providers@,
            ps == registry.providers@,
            i <= providers.len(),
            !openai_model(model@),
            forall|k: int| !prefix_routed(ps, model@, k),
            forall|j: int| 0 <= j < i ==> !serves_unprefixed(#[trigger] ps[j], model@),
        decreases providers.len() - i,
    {
        let cfg = &providers[i];
        match &cfg.model_prefixes {
            Some(prefixes) => {
                if has_bare_prefix(prefixes, model) && cfg.base_url.is_some() {
                    assert(first_serving(ps, model@, i as int));
                    let found = ConfigDrivenProvider::new(cfg.duplicate());
                    assert(same_config(ps[i as int], found.spec_config()));
                    let r = Some(DetectedProvider::ConfigDriven(found));
                    assert(!(exists|k: int| prefix_routed(ps, model@, k)));
                    assert(first_serving(ps, model@, i as int) && (r matches Some(
                        DetectedProvider::ConfigDriven(p),
                    ) && same_config(ps[i as int], p.spec_config())));
                    return r;
                }
            },
            None => {},
        }
        i = i + 1;
    }
    assert forall|k: int| !first_serving(ps, model@, k) by {
        if first_serving(ps, model@, k) {
            assert(!serves_unprefixed(ps[k], model@));
        }
    }
    None
}

} // verus!
