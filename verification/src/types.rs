//! Request and response types of the search, embedding and model-listing endpoints.
use vstd::prelude::*;

verus! {

/// A search request.
#[derive(Debug, Clone)]
pub struct SearchRequest {
    /// The model/provider to use (e.g. `"brave/web-search"`, `"tavily/search"`).
    pub model: String,
    /// The search query.
    pub query: String,
    /// Maximum number of results to return.
    pub max_results: Option<u32>,
    /// Domain filter: restrict results to specific domains.
    pub search_domain_filter: Option<Vec<String>>,
    /// Country code for localized results (ISO 3166-1 alpha-2).
    pub country: Option<String>,
}

impl Default for SearchRequest {
    fn default() -> (r: Self)
        ensures
            r.model@ == Seq::<char>::empty(),
            r.query@ == Seq::<char>::empty(),
            r.max_results is None,
            r.search_domain_filter is None,
            r.country is None,
    {
        SearchRequest {
            model: String::new(),
            query: String::new(),
            max_results: None,
            search_domain_filter: None,
            country: None,
        }
    }
}

/// A search response.
#[derive(Debug, Clone)]
pub struct SearchResponse {
    /// The search results.
    pub results: Vec<SearchResult>,
    /// The model used.
    pub model: String,
}

/// An individual search result.
#[derive(Debug, Clone)]
pub struct SearchResult {
    /// Title of the result.
    pub title: String,
    /// URL of the result.
    pub url: String,
    /// Text snippet or excerpt.
    pub snippet: String,
    /// Publication or last-updated date, if available.
    pub date: Option<String>,
}

/// The `object` field of an embedding response. Always `"list"`.
#[derive(Debug, Clone, Copy, PartialEq, Eq, Structural)]
pub enum EmbeddingListObject {
    List,
}

impl Default for EmbeddingListObject {
    fn default() -> (r: Self)
        ensures
            r == EmbeddingListObject::List,
    {
        EmbeddingListObject::List
    }
}

/// The `object` field of an embedding object. Always `"embedding"`.
#[derive(Debug, Clone, Copy, PartialEq, Eq, Structural)]
pub enum EmbeddingObjectType {
    Embedding,
}

impl Default for EmbeddingObjectType {
    fn default() -> (r: Self)
        ensures
            r == EmbeddingObjectType::Embedding,
    {
        EmbeddingObjectType::Embedding
    }
}

/// An embedding request.
#[derive(Debug, Clone)]
pub struct EmbeddingRequest {
    pub model: String,
    pub input: EmbeddingInput,
    pub encoding_format: Option<String>,
    pub dimensions: Option<u32>,
    pub user: Option<String>,
}

/// The text to embed: one string or several.
#[derive(Debug, Clone)]
pub enum EmbeddingInput {
    Single(String),
    Multiple(Vec<String>),
}

/// The `object` field of a model list response. Always `"list"`.
#[derive(Debug, Clone, Copy, PartialEq, Eq, Structural)]
pub enum ModelsListObject {
    List,
}

impl Default for ModelsListObject {
    fn default() -> (r: Self)
        ensures
            r == ModelsListObject::List,
    {
        ModelsListObject::List
    }
}

/// The `object` field of a model object. Always `"model"`.
#[derive(Debug, Clone, Copy, PartialEq, Eq, Structural)]
pub enum ModelObjectType {
    Model,
}

impl Default for ModelObjectType {
    fn default() -> (r: Self)
        ensures
            r == ModelObjectType::Model,
    {
        ModelObjectType::Model
    }
}

/// The models an endpoint offers.
#[derive(Debug, Clone)]
pub struct ModelsListResponse {
    pub object: ModelsListObject,
    pub data: Vec<ModelObject>,
}

/// One model an endpoint offers.
#[derive(Debug, Clone)]
pub struct ModelObject {
    pub id: String,
    pub object: ModelObjectType,
    pub created: u64,
    pub owned_by: String,
}

} // verus!
