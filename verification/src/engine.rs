//! The container engine: which one is configured, and what differs between
//! the two.

use vstd::prelude::*;
use crate::error::ConfigError;
use crate::model::{Config, text_opt};
use crate::text::{lowercase_text, lowercased, push_text, same_text, texts};

verus! {

/// The container engine that the store names.
#[derive(Clone, Copy, Debug, PartialEq, Eq, Structural)]
pub enum EngineKind {
    Podman,
    Docker,
    /// No engine, or one that is neither of the two.
    Unset,
}

/// The engine that a name in lower case stands for.
pub open spec fn kind_of(word: Option<Seq<char>>) -> EngineKind {
    match word {
        Some(w) => if w == "docker"@ {
            EngineKind::Docker
        } else if w == "podman"@ {
            EngineKind::Podman
        } else {
            EngineKind::Unset
        },
        None => EngineKind::Unset,
    }
}

/// An optional name in lower case.
pub open spec fn lowercased_opt(o: Option<Seq<char>>) -> Option<Seq<char>> {
    match o {
        Some(s) => Some(lowercased(s)),
        None => None,
    }
}

/// The engine that `word`, a name in lower case, stands for.
pub fn kind_of_word(word: &str) -> (r: EngineKind)
    ensures
        r == kind_of(Some(word@)),
{
    if same_text(word, "docker") {
        EngineKind::Docker
    } else if same_text(word, "podman") {
        EngineKind::Podman
    } else {
        EngineKind::Unset
    }
}

impl EngineKind {
    /// The engine that the store names, whatever the case of the name.
    pub fn from_config(config: &Config) -> (r: Self)
        ensures
            r == kind_of(lowercased_opt(config@.engine)),
    {
        match &config.engine {
            Some(name) => {
                let word = lowercase_text(name.as_str());
                kind_of_word(word.as_str())
            },
            None => EngineKind::Unset,
        }
    }

    /// The name of the engine's program.
    pub open spec fn bin_name(self) -> Option<Seq<char>> {
        match self {
            EngineKind::Podman => Some("podman"@),
            EngineKind::Docker => Some("docker"@),
            EngineKind::Unset => None,
        }
    }

    /// The engine's program.
    pub fn bin(&self) -> (r: Option<&'static str>)
        ensures
            match r {
                Some(b) => self.bin_name() == Some(b@),
                None => self.bin_name() is None,
            },
    {
        match self {
            EngineKind::Podman => Some("podman"),
            EngineKind::Docker => Some("docker"),
            EngineKind::Unset => None,
        }
    }

    /// The name by which a container reaches the host.
    pub open spec fn gateway_name(self) -> Seq<char> {
        match self {
            EngineKind::Podman => "host.containers.internal"@,
            EngineKind::Docker => "host.docker.internal"@,
            EngineKind::Unset => "localhost"@,
        }
    }

    /// The name by which a container reaches the host.
    pub fn host_gateway(&self) -> (r: &'static str)
        ensures
            r@ == self.gateway_name(),
    {
        match self {
            EngineKind::Podman => "host.containers.internal",
            EngineKind::Docker => "host.docker.internal",
            EngineKind::Unset => "localhost",
        }
    }
}

/// The engine as a run uses it.
#[derive(Clone, Debug, PartialEq, Eq)]
pub struct Engine {
    pub kind: EngineKind,
    pub bin: Option<&'static str>,
    pub podman_machine: Option<String>,
}

impl Engine {
    /// The engine of kind `kind`, with the podman machine that the store
    /// names.
    pub fn new(kind: EngineKind, config: &Config) -> (r: Result<Self, ConfigError>)
        ensures
            r is Ok,
            r->Ok_0.kind == kind,
            match r->Ok_0.bin {
                Some(b) => kind.bin_name() == Some(b@),
                None => kind.bin_name() is None,
            },
            text_opt(r->Ok_0.podman_machine) == config@.podman_machine,
    {
        let podman_machine = match &config.podman_machine {
            Some(m) => Some(m.clone()),
            None => None,
        };
        Ok(Engine { bin: kind.bin(), kind, podman_machine })
    }

    /// The name by which a container reaches the host.
    pub fn host_gateway(&self) -> (r: &'static str)
        ensures
            r@ == self.kind.gateway_name(),
    {
        self.kind.host_gateway()
    }

    /// The arguments that every run with a terminal begins with.
    pub fn base_run_interactive(&self, container_name: &str) -> (r: Vec<String>)
        ensures
            texts(r@) == seq!["run"@, "--rm"@, "-it"@, "--name"@, container_name@],
    {
        let mut args: Vec<String> = Vec::new();
        assert(texts(args@) =~= Seq::<Seq<char>>::empty());
        push_text(&mut args, "run");
        push_text(&mut args, "--rm");
        push_text(&mut args, "-it");
        push_text(&mut args, "--name");
        push_text(&mut args, container_name);
        assert(texts(args@) =~= seq!["run"@, "--rm"@, "-it"@, "--name"@, container_name@]);
        args
    }

    /// The arguments that every run without a terminal begins with.
    pub fn base_run_noninteractive(&self, container_name: &str) -> (r: Vec<String>)
        ensures
            texts(r@) == seq!["run"@, "--rm"@, "--name"@, container_name@],
    {
        let mut args: Vec<String> = Vec::new();
        assert(texts(args@) =~= Seq::<Seq<char>>::empty());
        push_text(&mut args, "run");
        push_text(&mut args, "--rm");
        push_text(&mut args, "--name");
        push_text(&mut args, container_name);
        assert(texts(args@) =~= seq!["run"@, "--rm"@, "--name"@, container_name@]);
        args
    }
}

} // verus!
