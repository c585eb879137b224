//! The store's operations on domains.

use vstd::prelude::*;
use vstd::string::StringExecFns;
use crate::error::{ConfigError, Entity, is_not_found, is_already_exists, not_found, already_exists};
use crate::model::{
    Config, ConfigView, Domain, DomainView, entries_view, has_named, lemma_entries_view,
    lemma_put_view,
};
use crate::services::{find_domain, lemma_first_named, domain_not_found};
use crate::slug::{slug, slugify_name};
use crate::strmap::{StrMap, has_key, put};
use crate::text::same_text;

verus! {

/// A domain answers to its name and to its location.
pub open spec fn answers_to(e: (Seq<char>, DomainView), name: Seq<char>) -> bool {
    e.1.name == name || e.0 == name
}

/// Some domain answers to `name`.
pub open spec fn has_answering(d: Seq<(Seq<char>, DomainView)>, name: Seq<char>) -> bool {
    exists|i: int| 0 <= i < d.len() && answers_to(#[trigger] d[i], name)
}

/// The domain at position `i` answers to `name`, and none before it does.
pub open spec fn answering_at(d: Seq<(Seq<char>, DomainView)>, name: Seq<char>, i: int) -> bool {
    &&& 0 <= i < d.len()
    &&& answers_to(d[i], name)
    &&& forall|j: int| 0 <= j < i ==> !answers_to(#[trigger] d[j], name)
}

/// The position of the first domain, in the order of locations, that
/// answers to `name`.
pub open spec fn first_answering(d: Seq<(Seq<char>, DomainView)>, name: Seq<char>) -> int {
    choose|i: int| answering_at(d, name, i)
}

/// The first domain that answers to `name` stands where `answering_at` says.
pub proof fn lemma_first_answering(d: Seq<(Seq<char>, DomainView)>, name: Seq<char>, i: int)
    requires
        answering_at(d, name, i),
    ensures
        has_answering(d, name),
        first_answering(d, name) == i,
{
    let j = first_answering(d, name);
    assert(answering_at(d, name, j));
    if j < i {
        assert(!answers_to(d[j], name));
    } else if i < j {
        assert(!answers_to(d[i], name));
    }
}

/// A domain as it is when first registered.
pub open spec fn fresh_domain(name: Seq<char>) -> DomainView {
    DomainView { name, services: None, default_environment: None }
}

/// The store after registering the directory at `location`, whose final path
/// segment is `label`. The location must be new, and so must the name that
/// the label gives.
pub open spec fn domain_added(
    pre: ConfigView,
    post: ConfigView,
    r: Result<(), ConfigError>,
    label: Seq<char>,
    location: Seq<char>,
) -> bool {
    if has_key(pre.doms(), location) {
        is_already_exists(r, Entity::DomainLocation, location) && post == pre
    } else if has_named(pre.doms(), slug(label)) {
        is_already_exists(r, Entity::DomainName, slug(label)) && post == pre
    } else {
        r is Ok && post == (ConfigView {
            domains: Some(put(pre.doms(), location, fresh_domain(slug(label)))),
            ..pre
        })
    }
}

/// The store after taking out the first domain that answers to `name`.
pub open spec fn domain_removed(
    pre: ConfigView,
    post: ConfigView,
    r: Result<(), ConfigError>,
    name: Seq<char>,
) -> bool {
    if pre.domains is None {
        is_not_found(r, Entity::Domains, name) && post == pre
    } else if !has_answering(pre.doms(), name) {
        is_not_found(r, Entity::Domain, name) && post == pre
    } else {
        r is Ok && post == (ConfigView {
            domains: Some(pre.doms().remove(first_answering(pre.doms(), name))),
            ..pre
        })
    }
}

/// The store after making `env` the default environment of the domain called
/// `domain`. The environment must exist, and is looked for first.
pub open spec fn default_environment_set(
    pre: ConfigView,
    post: ConfigView,
    r: Result<(), ConfigError>,
    domain: Seq<char>,
    env: Seq<char>,
) -> bool {
    if !pre.has_env(env) {
        is_not_found(r, Entity::Environment, env) && post == pre
    } else if !pre.has_domain(domain) {
        domain_not_found(pre, post, r, domain)
    } else {
        r is Ok && post == pre.with_domain(
            domain,
            DomainView { default_environment: Some(env), ..pre.domain(domain) },
        )
    }
}

/// The store after taking the default environment from the domain called
/// `domain`, which must have one.
pub open spec fn default_environment_cleared(
    pre: ConfigView,
    post: ConfigView,
    r: Result<(), ConfigError>,
    domain: Seq<char>,
) -> bool {
    if !pre.has_domain(domain) {
        domain_not_found(pre, post, r, domain)
    } else if pre.domain(domain).default_environment is None {
        is_not_found(r, Entity::DefaultEnvironment, domain) && post == pre
    } else {
        r is Ok && post == pre.with_domain(
            domain,
            DomainView { default_environment: None, ..pre.domain(domain) },
        )
    }
}

/// The position of the first domain that answers to `name`.
pub fn find_answering(domains: &StrMap<Domain>, name: &str) -> (r: Option<usize>)
    ensures
        match r {
            Some(i) => answering_at(entries_view(domains@), name@, i as int),
            None => !has_answering(entries_view(domains@), name@),
        },
{
    let n: usize = domains.len();
    let mut i: usize = 0;
    while i < n
        invariant
            n == domains@.len(),
            i <= n,
            forall|j: int| 0 <= j < i ==> !answers_to(#[trigger] entries_view(domains@)[j], name@),
        decreases n - i,
    {
        if same_text(domains.value_at(i).name.as_str(), name) || same_text(
            domains.key_at(i),
            name,
        ) {
            return Some(i);
        }
        i = i + 1;
    }
    None
}

impl Config {
    /// Registers the directory whose canonical path is `location` and whose
    /// final path segment is `label`, under the name `slugify_name(label)`.
    pub fn add_domain(&mut self, label: &str, location: &str) -> (r: Result<(), ConfigError>)
        ensures
            domain_added(old(self)@, final(self)@, r, label@, location@),
    {
        let name = slugify_name(label);
        let ghost pre = self@;
        let domains = match self.domains.take() {
            Some(d) => d,
            None => StrMap::new(),
        };
        domains.ordered();
        let ghost s = domains@;
        proof {
            lemma_entries_view(s);
            assert(entries_view(s) =~= pre.doms());
        }
        if domains.contains_key(location) {
            self.domains = Some(domains);
            return Err(already_exists(Entity::DomainLocation, location));
        }
        match find_domain(&domains, name.as_str()) {
            Some(i) => {
                self.domains = Some(domains);
                Err(already_exists(Entity::DomainName, name.as_str()))
            },
            None => {
                let fresh = Domain { name, services: None, default_environment: None };
                proof {
                    lemma_put_view(s, location@, fresh);
                }
                let (domains, _) = domains.insert(String::from_str(location), fresh);
                self.domains = Some(domains);
                Ok(())
            },
        }
    }

    /// Removes a domain by its name or by its location.
    pub fn rm_domain(&mut self, name: &str) -> (r: Result<(), ConfigError>)
        ensures
            domain_removed(old(self)@, final(self)@, r, name@),
    {
        let domains = match self.domains.take() {
            Some(d) => d,
            None => {
                return Err(not_found(Entity::Domains, name));
            },
        };
        let ghost s = domains@;
        match find_answering(&domains, name) {
            None => {
                self.domains = Some(domains);
                Err(not_found(Entity::Domain, name))
            },
            Some(i) => {
                proof {
                    lemma_first_answering(entries_view(s), name@, i as int);
                }
                let (domains, _, _) = domains.remove_at(i);
                assert(entries_view(domains@) =~= entries_view(s).remove(i as int));
                self.domains = Some(domains);
                Ok(())
            },
        }
    }

    /// Sets or clears the default environment of the domain at position `i`.
    fn write_default_environment(&mut self, i: usize, value: Option<String>)
        requires
            old(self).domains is Some,
            i < old(self)@.doms().len(),
        ensures
            final(self)@ == (ConfigView {
                domains: Some(
                    old(self)@.doms().update(
                        i as int,
                        (
                            old(self)@.doms()[i as int].0,
                            DomainView {
                                default_environment: crate::model::text_opt(value),
                                ..old(self)@.doms()[i as int].1
                            },
                        ),
                    ),
                ),
                ..old(self)@
            }),
    {
        let domains = match self.domains.take() {
            Some(d) => d,
            None => StrMap::new(),
        };
        let ghost s = domains@;
        let blank = Domain { name: String::new(), services: None, default_environment: None };
        let (domains, mut dom) = domains.replace_at(i, blank);
        dom.default_environment = value;
        let (domains, _) = domains.replace_at(i, dom);
        proof {
            assert(domains@ =~= s.update(i as int, (s[i as int].0, dom)));
            assert(entries_view(domains@) =~= entries_view(s).update(
                i as int,
                (s[i as int].0, dom@),
            ));
        }
        self.domains = Some(domains);
    }

    /// Makes an existing environment the default of a domain.
    pub fn set_domain_default_environment(&mut self, domain_name: &str, env_name: &str) -> (r:
        Result<(), ConfigError>)
        ensures
            default_environment_set(old(self)@, final(self)@, r, domain_name@, env_name@),
    {
        let known = match &self.environments {
            Some(envs) => {
                envs.ordered();
                proof {
                    lemma_entries_view(envs@);
                }
                envs.contains_key(env_name)
            },
            None => false,
        };
        if !known {
            return Err(not_found(Entity::Environment, env_name));
        }
        let found = match &self.domains {
            Some(d) => find_domain(d, domain_name),
            None => {
                return Err(not_found(Entity::Domains, domain_name));
            },
        };
        match found {
            None => Err(not_found(Entity::Domain, domain_name)),
            Some(i) => {
                proof {
                    lemma_first_named(self@.doms(), domain_name@, i as int);
                }
                self.write_default_environment(i, Some(String::from_str(env_name)));
                Ok(())
            },
        }
    }

    /// Takes a domain's default environment away.
    pub fn rm_domain_default_environment(&mut self, domain_name: &str) -> (r: Result<
        (),
        ConfigError,
    >)
        ensures
            default_environment_cleared(old(self)@, final(self)@, r, domain_name@),
    {
        let found = match &self.domains {
            Some(d) => {
                match find_domain(d, domain_name) {
                    Some(i) => Some((i, d.value_at(i).default_environment.is_some())),
                    None => None,
                }
            },
            None => {
                return Err(not_found(Entity::Domains, domain_name));
            },
        };
        match found {
            None => Err(not_found(Entity::Domain, domain_name)),
            Some((i, has_default)) => {
                proof {
                    lemma_first_named(self@.doms(), domain_name@, i as int);
                }
                if !has_default {
                    return Err(not_found(Entity::DefaultEnvironment, domain_name));
                }
                self.write_default_environment(i, None);
                Ok(())
            },
        }
    }
}

} // verus!
