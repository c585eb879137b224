//! What a rejected operation reports.

use vstd::prelude::*;
use vstd::string::StringExecFns;

verus! {

/// The thing that an error is about.
#[derive(Clone, Copy, Debug, PartialEq, Eq, Structural)]
pub enum Entity {
    /// The table of domains as a whole.
    Domains,
    Domain,
    /// A domain's location, the key of the table of domains.
    DomainLocation,
    /// A domain's name.
    DomainName,
    DefaultEnvironment,
    /// The table of environments as a whole.
    Environments,
    Environment,
    /// A domain's table of services as a whole.
    Services,
    Service,
    /// A table of port mappings as a whole.
    PortMappings,
    PortMapping,
    /// A list of volumes as a whole.
    Volumes,
    Volume,
    ServeCommand,
    ImageRepository,
    Platform,
    DefaultContainerImage,
    /// A container image to run.
    Image,
    /// A port for the reverse proxy.
    Port,
    /// The lists of service folders, one for each domain.
    Listing,
    /// The container engine.
    Engine,
}

/// What a value should have been.
#[derive(Clone, Copy, Debug, PartialEq, Eq, Structural)]
pub enum Grammar {
    /// A word that switches a flag on or off.
    Flag,
    /// The name of a container engine.
    EngineName,
}

/// Why an operation was rejected.
#[derive(Clone, Debug, PartialEq, Eq)]
pub enum ConfigError {
    /// `entity` has nothing under `key`.
    NotFound { entity: Entity, key: String },
    /// `entity` has `key` already.
    AlreadyExists { entity: Entity, key: String },
    /// `value` is not what `grammar` accepts.
    InvalidInput { value: String, grammar: Grammar },
    /// The operation wants `entity` to be there first; `detail` tells the
    /// user what to do.
    PreconditionFailed { entity: Entity, detail: String },
}

/// An error with its texts as sequences of characters.
pub enum ErrorView {
    NotFound { entity: Entity, key: Seq<char> },
    AlreadyExists { entity: Entity, key: Seq<char> },
    InvalidInput { value: Seq<char>, grammar: Grammar },
    PreconditionFailed { entity: Entity, detail: Seq<char> },
}

impl View for ConfigError {
    type V = ErrorView;

    open spec fn view(&self) -> ErrorView {
        match *self {
            ConfigError::NotFound { entity, key } => ErrorView::NotFound { entity, key: key@ },
            ConfigError::AlreadyExists { entity, key } => ErrorView::AlreadyExists {
                entity,
                key: key@,
            },
            ConfigError::InvalidInput { value, grammar } => ErrorView::InvalidInput {
                value: value@,
                grammar,
            },
            ConfigError::PreconditionFailed { entity, detail } => ErrorView::PreconditionFailed {
                entity,
                detail: detail@,
            },
        }
    }
}

/// The operation was rejected because `entity` has nothing under `key`.
pub open spec fn is_not_found<T>(r: Result<T, ConfigError>, entity: Entity, key: Seq<char>) -> bool {
    r matches Err(e) && e@ == (ErrorView::NotFound { entity, key })
}

/// The operation was rejected because `entity` already has `key`.
pub open spec fn is_already_exists<T>(
    r: Result<T, ConfigError>,
    entity: Entity,
    key: Seq<char>,
) -> bool {
    r matches Err(e) && e@ == (ErrorView::AlreadyExists { entity, key })
}

/// The operation was rejected because `entity` is wanted, with `detail` for
/// the user.
pub open spec fn is_unmet<T>(r: Result<T, ConfigError>, entity: Entity, detail: Seq<char>) -> bool {
    r matches Err(e) && e@ == (ErrorView::PreconditionFailed { entity, detail })
}

/// The error for a missing `entity` called `key`.
pub fn not_found(entity: Entity, key: &str) -> (e: ConfigError)
    ensures
        e@ == (ErrorView::NotFound { entity, key: key@ }),
{
    ConfigError::NotFound { entity, key: String::from_str(key) }
}

/// The error for an `entity` that has `key` already.
pub fn already_exists(entity: Entity, key: &str) -> (e: ConfigError)
    ensures
        e@ == (ErrorView::AlreadyExists { entity, key: key@ }),
{
    ConfigError::AlreadyExists { entity, key: String::from_str(key) }
}

/// The error for a `value` that `grammar` does not accept.
pub fn invalid_input(value: &str, grammar: Grammar) -> (e: ConfigError)
    ensures
        e@ == (ErrorView::InvalidInput { value: value@, grammar }),
{
    ConfigError::InvalidInput { value: String::from_str(value), grammar }
}

/// The error for an operation that wants `entity` first.
pub fn unmet(entity: Entity, detail: &str) -> (e: ConfigError)
    ensures
        e@ == (ErrorView::PreconditionFailed { entity, detail: detail@ }),
{
    ConfigError::PreconditionFailed { entity, detail: String::from_str(detail) }
}

/// A message in three parts: what stands before the key, whether the key is
/// named at all, and what stands behind it.
pub struct Frame {
    pub before: Seq<char>,
    pub names_key: bool,
    pub after: Seq<char>,
}

impl Frame {
    /// The message about `key`.
    pub open spec fn around(self, key: Seq<char>) -> Seq<char> {
        self.before + (if self.names_key {
            key
        } else {
            Seq::empty()
        }) + self.after
    }
}

impl Entity {
    /// The message for something of this kind that is missing.
    pub open spec fn missing(self) -> Frame {
        match self {
            Entity::Domains => Frame {
                before: "No domains configured"@,
                names_key: false,
                after: ""@,
            },
            Entity::Domain => Frame {
                before: "domain, "@,
                names_key: true,
                after: ", does not exist"@,
            },
            Entity::DomainLocation => Frame {
                before: "domain location '"@,
                names_key: true,
                after: "' does not exist in darp's domain configuration."@,
            },
            Entity::DomainName => Frame {
                before: "domain name '"@,
                names_key: true,
                after: "' does not exist"@,
            },
            Entity::DefaultEnvironment => Frame {
                before: "Domain '"@,
                names_key: true,
                after: "' has no default_environment."@,
            },
            Entity::Environments => Frame {
                before: "No environments configured"@,
                names_key: false,
                after: ""@,
            },
            Entity::Environment => Frame {
                before: "Environment '"@,
                names_key: true,
                after: "' does not exist."@,
            },
            Entity::Services => Frame {
                before: "No services configured for domain "@,
                names_key: true,
                after: ""@,
            },
            Entity::Service => Frame {
                before: "service, "@,
                names_key: true,
                after: ", does not exist"@,
            },
            Entity::PortMappings => Frame {
                before: "No host_portmappings configured for '"@,
                names_key: true,
                after: "'"@,
            },
            Entity::PortMapping => Frame {
                before: "Portmapping on host side ("@,
                names_key: true,
                after: ":____) does not exist"@,
            },
            Entity::Volumes => Frame {
                before: "No volumes configured for '"@,
                names_key: true,
                after: "'"@,
            },
            Entity::Volume => Frame {
                before: "No matching volume found for container '"@,
                names_key: true,
                after: "'"@,
            },
            Entity::ServeCommand => Frame {
                before: "'"@,
                names_key: true,
                after: "' has no custom serve_command."@,
            },
            Entity::ImageRepository => Frame {
                before: "'"@,
                names_key: true,
                after: "' has no custom image_repository."@,
            },
            Entity::Platform => Frame {
                before: "'"@,
                names_key: true,
                after: "' has no custom platform."@,
            },
            Entity::DefaultContainerImage => Frame {
                before: "'"@,
                names_key: true,
                after: "' has no default_container_image."@,
            },
            Entity::Image => Frame {
                before: "No container image provided for '"@,
                names_key: true,
                after: "'"@,
            },
            Entity::Port => Frame {
                before: "port not yet assigned to "@,
                names_key: true,
                after: ", run 'darp deploy'"@,
            },
            Entity::Listing => Frame {
                before: "No list of folders for '"@,
                names_key: true,
                after: "'"@,
            },
            Entity::Engine => Frame {
                before: "No container engine is configured."@,
                names_key: false,
                after: ""@,
            },
        }
    }

    /// The message for something of this kind that is there already.
    pub open spec fn taken(self) -> Frame {
        match self {
            Entity::DomainLocation => Frame {
                before: "Domain with location '"@,
                names_key: true,
                after: "' already exists."@,
            },
            Entity::DomainName => Frame {
                before: "Domain name '"@,
                names_key: true,
                after: "' already exists. Domain names must be unique."@,
            },
            Entity::PortMapping => Frame {
                before: "Portmapping on host side ("@,
                names_key: true,
                after: ":____) already exists"@,
            },
            Entity::Volume => Frame {
                before: "Volume mapping already exists for container '"@,
                names_key: true,
                after: "'"@,
            },
            _ => Frame { before: "'"@, names_key: true, after: "' already exists"@ },
        }
    }

    fn missing_parts(self) -> (r: (&'static str, bool, &'static str))
        ensures
            r.0@ == self.missing().before,
            r.1 == self.missing().names_key,
            r.2@ == self.missing().after,
    {
        match self {
            Entity::Domains => ("No domains configured", false, ""),
            Entity::Domain => ("domain, ", true, ", does not exist"),
            Entity::DomainLocation => (
                "domain location '",
                true,
                "' does not exist in darp's domain configuration.",
            ),
            Entity::DomainName => ("domain name '", true, "' does not exist"),
            Entity::DefaultEnvironment => ("Domain '", true, "' has no default_environment."),
            Entity::Environments => ("No environments configured", false, ""),
            Entity::Environment => ("Environment '", true, "' does not exist."),
            Entity::Services => ("No services configured for domain ", true, ""),
            Entity::Service => ("service, ", true, ", does not exist"),
            Entity::PortMappings => ("No host_portmappings configured for '", true, "'"),
            Entity::PortMapping => ("Portmapping on host side (", true, ":____) does not exist"),
            Entity::Volumes => ("No volumes configured for '", true, "'"),
            Entity::Volume => ("No matching volume found for container '", true, "'"),
            Entity::ServeCommand => ("'", true, "' has no custom serve_command."),
            Entity::ImageRepository => ("'", true, "' has no custom image_repository."),
            Entity::Platform => ("'", true, "' has no custom platform."),
            Entity::DefaultContainerImage => ("'", true, "' has no default_container_image."),
            Entity::Image => ("No container image provided for '", true, "'"),
            Entity::Port => ("port not yet assigned to ", true, ", run 'darp deploy'"),
            Entity::Listing => ("No list of folders for '", true, "'"),
            Entity::Engine => ("No container engine is configured.", false, ""),
        }
    }

    fn taken_parts(self) -> (r: (&'static str, bool, &'static str))
        ensures
            r.0@ == self.taken().before,
            r.1 == self.taken().names_key,
            r.2@ == self.taken().after,
    {
        match self {
            Entity::DomainLocation => ("Domain with location '", true, "' already exists."),
            Entity::DomainName => (
                "Domain name '",
                true,
                "' already exists. Domain names must be unique.",
            ),
            Entity::PortMapping => ("Portmapping on host side (", true, ":____) already exists"),
            Entity::Volume => ("Volume mapping already exists for container '", true, "'"),
            _ => ("'", true, "' already exists"),
        }
    }
}

impl Grammar {
    /// The message for a value that this grammar does not accept.
    pub open spec fn refused(self) -> Frame {
        match self {
            Grammar::Flag => Frame {
                before: "Invalid boolean value: "@,
                names_key: true,
                after: " (expected TRUE/FALSE/yes/no/1/0)"@,
            },
            Grammar::EngineName => Frame {
                before: "engine must be 'podman' or 'docker'"@,
                names_key: false,
                after: ""@,
            },
        }
    }

    fn refused_parts(self) -> (r: (&'static str, bool, &'static str))
        ensures
            r.0@ == self.refused().before,
            r.1 == self.refused().names_key,
            r.2@ == self.refused().after,
    {
        match self {
            Grammar::Flag => ("Invalid boolean value: ", true, " (expected TRUE/FALSE/yes/no/1/0)"),
            Grammar::EngineName => ("engine must be 'podman' or 'docker'", false, ""),
        }
    }
}

impl ErrorView {
    /// The error in words, for the user.
    pub open spec fn text(self) -> Seq<char> {
        match self {
            ErrorView::NotFound { entity, key } => entity.missing().around(key),
            ErrorView::AlreadyExists { entity, key } => entity.taken().around(key),
            ErrorView::InvalidInput { value, grammar } => grammar.refused().around(value),
            ErrorView::PreconditionFailed { entity, detail } => detail,
        }
    }
}

fn frame_text(parts: (&'static str, bool, &'static str), key: &str) -> (r: String)
    ensures
        r@ == (Frame { before: parts.0@, names_key: parts.1, after: parts.2@ }).around(key@),
{
    let mut out = String::from_str(parts.0);
    if parts.1 {
        out.append(key);
    }
    out.append(parts.2);
    proof {
        if !parts.1 {
            assert(parts.0@ + Seq::<char>::empty() =~= parts.0@);
        }
    }
    out
}

impl ConfigError {
    /// The error in words, for the user.
    pub fn message(&self) -> (r: String)
        ensures
            r@ == self@.text(),
    {
        match self {
            ConfigError::NotFound { entity, key } => frame_text(
                entity.missing_parts(),
                key.as_str(),
            ),
            ConfigError::AlreadyExists { entity, key } => frame_text(
                entity.taken_parts(),
                key.as_str(),
            ),
            ConfigError::InvalidInput { value, grammar } => frame_text(
                grammar.refused_parts(),
                value.as_str(),
            ),
            ConfigError::PreconditionFailed { entity, detail } => detail.clone(),
        }
    }
}

} // verus!
