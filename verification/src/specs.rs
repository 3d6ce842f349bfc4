//! The parsed API document: named schemas, responses, request bodies,
//! operations grouped by path, tags and servers.
//!
//! Every mapping that the document declares in a fixed order is kept as an
//! ordered list of `(key, value)` pairs, never as an unordered map, so that
//! resolution is deterministic and output is diff-stable across runs.

use vstd::prelude::*;

verus! {

/// A whole API document.
#[derive(Debug)]
pub struct OpenApiSpec {
    pub openapi: String,
    pub info: OpenApiInfoSpec,
    /// Path template to its operations, in declaration order.
    pub paths: Vec<(String, PathSpec)>,
    pub components: Option<ComponentsSpec>,
    pub tags: Vec<TagSpec>,
    pub servers: Vec<ServerSpec>,
}

#[derive(Debug, Clone)]
pub struct OpenApiInfoSpec {
    pub title: String,
}

#[derive(Debug, Clone)]
pub struct ServerSpec {
    pub url: String,
}

/// A node that is either a reference to a named component or an inline value.
#[derive(Debug)]
pub enum RefOr<T> {
    Ref { ref_path: String },
    Object(T),
}

/// The document's reusable components, each section in declaration order.
#[derive(Debug)]
pub struct ComponentsSpec {
    pub schemas: Vec<(String, RefOr<SchemaSpec>)>,
    pub responses: Vec<(String, RefOr<ResponseSpec>)>,
    pub parameters: Vec<(String, RefOr<ParameterSpec>)>,
    pub request_bodies: Vec<(String, RefOr<RequestBodySpec>)>,
    pub headers: Vec<(String, RefOr<HeaderSpec>)>,
}

/// One schema node: a declared type with its enum literals, required field
/// names, array item schema and ordered properties.
#[derive(Debug)]
pub struct SchemaSpec {
    pub schema_type: Option<String>,
    pub description: String,
    pub required: Vec<String>,
    pub schema_enum: Vec<String>,
    pub format: Option<String>,
    pub items: Option<Box<RefOr<SchemaSpec>>>,
    /// Property name to schema, in declaration order.
    pub properties: Vec<(String, RefOr<SchemaSpec>)>,
}

#[derive(Debug)]
pub struct ResponseSpec {
    pub description: Option<String>,
    pub headers: Vec<(String, HeaderSpec)>,
    /// Media type to its schema, in declaration order.
    pub content: Vec<(String, MediaTypeSpec)>,
}

#[derive(Debug)]
pub struct MediaTypeSpec {
    pub schema: RefOr<SchemaSpec>,
}

#[derive(Debug, Clone)]
pub struct ParameterSpec {}

#[derive(Debug)]
pub struct RequestBodySpec {
    pub description: Option<String>,
    /// Media type to its schema, in declaration order.
    pub content: Vec<(String, MediaTypeSpec)>,
    pub required: bool,
}

#[derive(Debug, Clone)]
pub struct HeaderSpec {}

/// The operations declared under one path template.
#[derive(Debug)]
pub struct PathSpec {
    pub summary: Option<String>,
    pub description: Option<String>,
    pub get: Option<OperationSpec>,
    pub post: Option<OperationSpec>,
    pub put: Option<OperationSpec>,
    pub patch: Option<OperationSpec>,
    pub delete: Option<OperationSpec>,
    pub head: Option<OperationSpec>,
    pub trace: Option<OperationSpec>,
    pub options: Option<OperationSpec>,
}

#[derive(Debug)]
pub struct OperationSpec {
    pub tags: Vec<String>,
    pub summary: Option<String>,
    pub operation_id: String,
    pub parameters: Vec<ParamSpec>,
    pub request_body: Option<RefOr<RequestBodySpec>>,
    pub responses: Vec<(String, ResponseSpec)>,
    pub deprecated: bool,
}

/// One declared operation parameter.
#[derive(Debug)]
pub struct ParamSpec {
    pub name: String,
    /// Where the parameter is carried: `path`, `query` or `header`.
    pub location: String,
    pub description: Option<String>,
    pub required: bool,
    pub deprecated: bool,
    pub schema: RefOr<SchemaSpec>,
}

#[derive(Debug, Clone)]
pub struct TagSpec {
    pub name: String,
    pub description: String,
}

impl<T> RefOr<T> {
    /// Maps the inline value through `f` after cloning it; a reference is
    /// passed through unchanged.
    pub fn map_cloned<U, F: FnOnce(T) -> RefOr<U>>(&self, f: F) -> (r: RefOr<U>)
        where T: Clone
        requires
            forall|x: T|
                *self matches RefOr::Object(o) && vstd::pervasive::cloned(o, x)
                    ==> call_requires(f, (x,)),
        ensures
            *self matches RefOr::Ref { ref_path } ==> r matches RefOr::Ref {
                ref_path: p,
            } && p@ == ref_path@,
            *self matches RefOr::Object(o) ==> exists|x: T|
                vstd::pervasive::cloned(o, x) && call_ensures(f, (x,), r),
    {
        match self {
            RefOr::Ref { ref ref_path } => RefOr::Ref { ref_path: ref_path.clone() },
            RefOr::Object(x) => f(x.clone()),
        }
    }

    /// Maps the inline value through `f` after cloning it; a reference is
    /// passed through unchanged as `Some` reference.
    pub fn maybe_map_cloned<U, F: FnOnce(T) -> Option<RefOr<U>>>(&self, f: F) -> (r: Option<
        RefOr<U>,
    >)
        where T: Clone
        requires
            forall|x: T|
                *self matches RefOr::Object(o) && vstd::pervasive::cloned(o, x)
                    ==> call_requires(f, (x,)),
        ensures
            *self matches RefOr::Ref { ref_path } ==> r matches Some(RefOr::Ref {
                ref_path: p,
            }) && p@ == ref_path@,
            *self matches RefOr::Object(o) ==> exists|x: T|
                vstd::pervasive::cloned(o, x) && call_ensures(f, (x,), r),
    {
        match self {
            RefOr::Ref { ref ref_path } => Some(RefOr::Ref { ref_path: ref_path.clone() }),
            RefOr::Object(x) => f(x.clone()),
        }
    }
}

} // verus!
