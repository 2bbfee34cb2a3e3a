//! The target of a listing: one context and one namespace in it.

use crate::planner::{plan_view, Query, QueryView};
use vstd::prelude::*;

verus! {

/// What is to be listed where: a context, a namespace, and the conditions.
pub struct ApiBuilder<'a> {
    /// The name of the context to use.
    context: Option<String>,
    /// The namespace to list in.
    namespace: Option<String>,
    queries: Option<&'a [Query]>,
}

/// What a target holds.
pub struct ApiBuilderView {
    pub context: Option<Seq<char>>,
    pub namespace: Option<Seq<char>>,
    pub queries: Option<Seq<QueryView>>,
}

impl<'a> View for ApiBuilder<'a> {
    type V = ApiBuilderView;

    closed spec fn view(&self) -> ApiBuilderView {
        ApiBuilderView {
            context: match self.context {
                Some(c) => Some(c@),
                None => None,
            },
            namespace: match self.namespace {
                Some(n) => Some(n@),
                None => None,
            },
            queries: match self.queries {
                Some(q) => Some(plan_view(q@)),
                None => None,
            },
        }
    }
}

impl<'a> Default for ApiBuilder<'a> {
    /// No context, the namespace `default`, no conditions.
    fn default() -> (r: Self)
        ensures
            r@ == (ApiBuilderView { context: None, namespace: Some("default"@), queries: None }),
    {
        ApiBuilder { context: None, namespace: Some(String::from_str("default")), queries: None }
    }
}

impl<'a> ApiBuilder<'a> {
    /// A target in its default state.
    pub fn new() -> (r: ApiBuilder<'a>)
        ensures
            r@ == (ApiBuilderView { context: None, namespace: Some("default"@), queries: None }),
    {
        ApiBuilder { context: None, namespace: Some(String::from_str("default")), queries: None }
    }

    /// Starts a target in its default state.
    pub fn builder() -> (r: ApiBuilder<'a>)
        ensures
            r@ == (ApiBuilderView { context: None, namespace: Some("default"@), queries: None }),
    {
        ApiBuilder::new()
    }

    /// Sets the context.
    pub fn context(self, ctx: String) -> (r: ApiBuilder<'a>)
        ensures
            r@ == (ApiBuilderView { context: Some(ctx@), ..self@ }),
    {
        let mut this = self;
        this.context = Some(ctx);
        this
    }

    /// Sets the namespace.
    pub fn namespace(self, ns: String) -> (r: ApiBuilder<'a>)
        ensures
            r@ == (ApiBuilderView { namespace: Some(ns@), ..self@ }),
    {
        let mut this = self;
        this.namespace = Some(ns);
        this
    }

    /// Sets the conditions.
    pub fn queries(self, queries: &'a [Query]) -> (r: ApiBuilder<'a>)
        ensures
            r@ == (ApiBuilderView { queries: Some(plan_view(queries@)), ..self@ }),
    {
        let mut this = self;
        this.queries = Some(queries);
        this
    }

    /// Whether both the context and the namespace are set.
    pub fn is_complete(&self) -> (r: bool)
        ensures
            r == (self@.context is Some && self@.namespace is Some),
    {
        self.context.is_some() && self.namespace.is_some()
    }

    /// The context, once it is set.
    pub fn get_context(&self) -> (r: &String)
        requires
            self@.context is Some,
        ensures
            Some(r@) == self@.context,
    {
        self.context.as_ref().unwrap()
    }

    /// The namespace.
    pub fn get_namespace(&self) -> (r: &String)
        requires
            self@.namespace is Some,
        ensures
            Some(r@) == self@.namespace,
    {
        self.namespace.as_ref().unwrap()
    }
}

} // verus!
