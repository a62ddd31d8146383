//! Core data model: HTTP methods, parameter locations, endpoint descriptors
//! and the interface that collection readers implement.

use vstd::prelude::*;

verus! {

/// Supported HTTP methods.
#[derive(Debug, Clone, Copy, PartialEq, Eq, Structural)]
pub enum Method {
    GET,
    POST,
    PUT,
    DELETE,
    PATCH,
    OPTIONS,
    HEAD,
}

impl Method {
    /// The method's canonical upper-case name.
    pub fn as_str(&self) -> (r: &'static str)
        ensures
            r@ == self.name_seq(),
    {
        match self {
            Method::GET => "GET",
            Method::POST => "POST",
            Method::PUT => "PUT",
            Method::DELETE => "DELETE",
            Method::PATCH => "PATCH",
            Method::OPTIONS => "OPTIONS",
            Method::HEAD => "HEAD",
        }
    }

    /// The characters of the method's canonical name.
    pub open spec fn name_seq(&self) -> Seq<char> {
        match self {
            Method::GET => "GET"@,
            Method::POST => "POST"@,
            Method::PUT => "PUT"@,
            Method::DELETE => "DELETE"@,
            Method::PATCH => "PATCH"@,
            Method::OPTIONS => "OPTIONS"@,
            Method::HEAD => "HEAD"@,
        }
    }
}

/// Where a parameter travels in the request.
#[derive(Debug, Clone, Copy, PartialEq, Eq, Structural)]
pub enum ParameterLocation {
    Path,
    Query,
    Body,
    Header,
}

/// A structured parameter attached to an endpoint.
#[derive(Debug, Clone)]
pub struct Parameter {
    pub name: String,
    pub location: ParameterLocation,
    pub required: bool,
    pub schema_type: Option<String>,
}

/// A discovered API endpoint.
#[derive(Debug, Clone)]
pub struct Endpoint {
    pub method: Method,
    pub path: String,
    pub description: Option<String>,
    pub params: Vec<String>,
    pub parameters: Vec<Parameter>,
}

impl Endpoint {
    /// Create a new endpoint with an empty structured-parameter list.
    pub fn new(
        method: Method,
        path: String,
        description: Option<String>,
        params: Vec<String>,
    ) -> (r: Endpoint)
        ensures
            r.method == method,
            r.path == path,
            r.description == description,
            r.params == params,
            r.parameters@ =~= Seq::<Parameter>::empty(),
    {
        Endpoint { method, path, description, params, parameters: Vec::new() }
    }
}

/// Interface for reading API collections (Bruno, Postman, OpenAPI) into
/// endpoint descriptors. Implementations live with the I/O layer.
pub trait CollectionParser {
    fn parse(&self, file_path: &str) -> Result<Vec<Endpoint>, String>;
}

} // verus!
