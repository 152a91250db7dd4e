//! Value types of the REST-client surface: service identification and
//! the data-repository and tool-registry models the clients exchange.

use vstd::prelude::*;

verus! {

/// The kind of service an endpoint hosts.
pub enum ServiceType {
    /// Task execution service.
    TES,
    /// Data repository service.
    DRS,
    /// Tool registry service.
    TRS,
    /// Authentication and authorization infrastructure.
    AAI,
}

impl ServiceType {
    /// The configuration-file key for this service type.
    pub fn as_str(&self) -> (r: &str)
        ensures
            self is TES ==> r@ == "TES"@,
            self is DRS ==> r@ == "DRS"@,
            self is TRS ==> r@ == "TRS"@,
            self is AAI ==> r@ == "AAI"@,
    {
        match self {
            ServiceType::TES => "TES",
            ServiceType::DRS => "DRS",
            ServiceType::TRS => "TRS",
            ServiceType::AAI => "AAI",
        }
    }
}

/// Authorization requirements reported for one data-repository object.
pub struct Authorizations {
    /// The object the requirements are about.
    pub drs_object_id: Option<String>,
    /// Authorization types the server supports, tried in sequence.
    pub supported_types: Option<Vec<SupportedTypes>>,
    /// Visa issuers that may authorize access via passports.
    pub passport_auth_issuers: Option<Vec<String>>,
    /// Issuers that may authorize access via bearer tokens.
    pub bearer_auth_issuers: Option<Vec<String>>,
}

impl Authorizations {
    /// An empty set of authorization requirements.
    pub fn new() -> (r: Authorizations)
        ensures
            r.drs_object_id is None,
            r.supported_types is None,
            r.passport_auth_issuers is None,
            r.bearer_auth_issuers is None,
    {
        Authorizations {
            drs_object_id: None,
            supported_types: None,
            passport_auth_issuers: None,
            bearer_auth_issuers: None,
        }
    }
}

/// An authorization type a data-repository server may support.
#[derive(Clone, Copy, PartialEq, Eq, Structural)]
pub enum SupportedTypes {
    /// No authorization needed; the wire value `None`.
    NoAuth,
    /// HTTP basic authentication.
    BasicAuth,
    /// Bearer tokens.
    BearerAuth,
    /// GA4GH passports.
    PassportAuth,
}

impl Default for SupportedTypes {
    /// The default authorization type: no authorization.
    fn default() -> (r: SupportedTypes)
        ensures
            r is NoAuth,
    {
        SupportedTypes::NoAuth
    }
}

/// The organization providing a service.
pub struct ServiceOrganization {
    /// Name of the organization responsible for the service.
    pub name: String,
    /// URL of the organization's website.
    pub url: String,
}

impl ServiceOrganization {
    /// An organization record with the given name and website.
    pub fn new(name: String, url: String) -> (r: ServiceOrganization)
        ensures
            r.name@ == name@,
            r.url@ == url@,
    {
        ServiceOrganization { name, url }
    }
}

/// Objects a bulk data-repository request could not resolve.
pub struct UnresolvedInner {
    /// The error code shared by these objects.
    pub error_code: Option<i32>,
    /// The object identifiers that failed with that code.
    pub object_ids: Option<Vec<String>>,
}

impl UnresolvedInner {
    /// An empty unresolved-objects record.
    pub fn new() -> (r: UnresolvedInner)
        ensures
            r.error_code is None,
            r.object_ids is None,
    {
        UnresolvedInner { error_code: None, object_ids: None }
    }
}

/// A class of tool in a tool registry: workflows, tasks, and the like.
pub struct ToolClass {
    /// The unique identifier for the class.
    pub id: Option<String>,
    /// A short friendly name for the class.
    pub name: Option<String>,
    /// A longer explanation of what this class accomplishes.
    pub description: Option<String>,
}

impl ToolClass {
    /// An empty tool-class record.
    pub fn new() -> (r: ToolClass)
        ensures
            r.id is None,
            r.name is None,
            r.description is None,
    {
        ToolClass { id: None, name: None, description: None }
    }
}

/// An error carrying a plain message.
pub struct MyError {
    /// What went wrong.
    pub message: String,
}

impl MyError {
    /// An error with the given message.
    pub fn new(message: String) -> (r: MyError)
        ensures
            r.message@ == message@,
    {
        MyError { message }
    }
}

} // verus!
