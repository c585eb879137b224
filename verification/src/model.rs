//! The persisted configuration: domains, their services, and environments,
//! each with its mathematical view.

use vstd::prelude::*;
use crate::strmap::{
    StrMap, sorted, has_key, index_of, rank, put, del, lookup, lemma_index_of, lemma_rank,
    lemma_rank_exists,
};
use crate::text::str_lt;

verus! {

/// One of the four optional text settings that a service and an environment
/// both carry.
#[derive(Clone, Copy, Debug, PartialEq, Eq, Structural)]
pub enum Setting {
    ServeCommand,
    ImageRepository,
    Platform,
    DefaultContainerImage,
}

/// A volume with its paths as sequences of characters.
pub struct VolumeView {
    pub container: Seq<char>,
    pub host: Seq<char>,
}

/// What a service or an environment holds.
pub struct SettingsView {
    pub host_portmappings: Option<Seq<(Seq<char>, Seq<char>)>>,
    pub volumes: Option<Seq<VolumeView>>,
    pub serve_command: Option<Seq<char>>,
    pub image_repository: Option<Seq<char>>,
    pub platform: Option<Seq<char>>,
    pub default_container_image: Option<Seq<char>>,
}

/// What a domain holds. A table is a sequence of entries in the order of
/// their keys.
pub struct DomainView {
    pub name: Seq<char>,
    pub services: Option<Seq<(Seq<char>, SettingsView)>>,
    pub default_environment: Option<Seq<char>>,
}

/// What the store holds.
pub struct ConfigView {
    pub engine: Option<Seq<char>>,
    pub podman_machine: Option<Seq<char>>,
    pub domains: Option<Seq<(Seq<char>, DomainView)>>,
    pub environments: Option<Seq<(Seq<char>, SettingsView)>>,
    pub urls_in_hosts: Option<bool>,
}

/// A directory mounted into the container. `host` may hold the tokens `{pwd}`
/// and `{home}`.
#[derive(Clone, Debug, PartialEq, Eq)]
pub struct Volume {
    pub container: String,
    pub host: String,
}

/// The overrides of one service folder of a domain.
#[derive(Clone, Debug, PartialEq, Eq)]
pub struct Service {
    pub host_portmappings: Option<StrMap<String>>,
    pub volumes: Option<Vec<Volume>>,
    pub serve_command: Option<String>,
    pub image_repository: Option<String>,
    pub platform: Option<String>,
    pub default_container_image: Option<String>,
}

/// A named bundle of defaults that services fall back to.
#[derive(Clone, Debug, PartialEq, Eq)]
pub struct Environment {
    pub volumes: Option<Vec<Volume>>,
    pub serve_command: Option<String>,
    pub image_repository: Option<String>,
    pub host_portmappings: Option<StrMap<String>>,
    pub platform: Option<String>,
    pub default_container_image: Option<String>,
}

/// A registered directory whose subfolders are services.
#[derive(Clone, Debug, PartialEq, Eq)]
pub struct Domain {
    pub name: String,
    pub services: Option<StrMap<Service>>,
    pub default_environment: Option<String>,
}

/// The whole store. `domains` is keyed by canonical location, `environments`
/// by name.
#[derive(Clone, Debug, PartialEq, Eq)]
pub struct Config {
    pub engine: Option<String>,
    pub podman_machine: Option<String>,
    pub domains: Option<StrMap<Domain>>,
    pub environments: Option<StrMap<Environment>>,
    pub urls_in_hosts: Option<bool>,
}

/// The text of an optional string.
pub open spec fn text_opt(o: Option<String>) -> Option<Seq<char>> {
    match o {
        Some(s) => Some(s@),
        None => None,
    }
}

/// The entries of a map with each value replaced by its view.
pub open spec fn entries_view<V: View>(s: Seq<(Seq<char>, V)>) -> Seq<(Seq<char>, V::V)> {
    Seq::new(s.len(), |i: int| (s[i].0, s[i].1@))
}

/// The entries of an optional table, by their views.
pub open spec fn map_opt<V: View>(o: Option<StrMap<V>>) -> Option<Seq<(Seq<char>, V::V)>> {
    match o {
        Some(m) => Some(entries_view(m@)),
        None => None,
    }
}

/// The volumes of a list, by their views.
pub open spec fn volumes_view(v: Seq<Volume>) -> Seq<VolumeView> {
    Seq::new(v.len(), |i: int| v[i]@)
}

/// The volumes of an optional list, by their views.
pub open spec fn volumes_opt(o: Option<Vec<Volume>>) -> Option<Seq<VolumeView>> {
    match o {
        Some(v) => Some(volumes_view(v@)),
        None => None,
    }
}

impl View for Volume {
    type V = VolumeView;

    open spec fn view(&self) -> VolumeView {
        VolumeView { container: self.container@, host: self.host@ }
    }
}

impl View for Service {
    type V = SettingsView;

    open spec fn view(&self) -> SettingsView {
        SettingsView {
            host_portmappings: map_opt(self.host_portmappings),
            volumes: volumes_opt(self.volumes),
            serve_command: text_opt(self.serve_command),
            image_repository: text_opt(self.image_repository),
            platform: text_opt(self.platform),
            default_container_image: text_opt(self.default_container_image),
        }
    }
}

impl View for Environment {
    type V = SettingsView;

    open spec fn view(&self) -> SettingsView {
        SettingsView {
            host_portmappings: map_opt(self.host_portmappings),
            volumes: volumes_opt(self.volumes),
            serve_command: text_opt(self.serve_command),
            image_repository: text_opt(self.image_repository),
            platform: text_opt(self.platform),
            default_container_image: text_opt(self.default_container_image),
        }
    }
}

impl View for Domain {
    type V = DomainView;

    open spec fn view(&self) -> DomainView {
        DomainView {
            name: self.name@,
            services: map_opt(self.services),
            default_environment: text_opt(self.default_environment),
        }
    }
}

impl View for Config {
    type V = ConfigView;

    open spec fn view(&self) -> ConfigView {
        ConfigView {
            engine: text_opt(self.engine),
            podman_machine: text_opt(self.podman_machine),
            domains: map_opt(self.domains),
            environments: map_opt(self.environments),
            urls_in_hosts: self.urls_in_hosts,
        }
    }
}

impl SettingsView {
    /// Nothing set.
    pub open spec fn empty() -> SettingsView {
        SettingsView {
            host_portmappings: None,
            volumes: None,
            serve_command: None,
            image_repository: None,
            platform: None,
            default_container_image: None,
        }
    }

    /// The value of one of the four text settings.
    pub open spec fn setting(self, which: Setting) -> Option<Seq<char>> {
        match which {
            Setting::ServeCommand => self.serve_command,
            Setting::ImageRepository => self.image_repository,
            Setting::Platform => self.platform,
            Setting::DefaultContainerImage => self.default_container_image,
        }
    }

    /// The settings with one of the four text settings replaced.
    pub open spec fn with_setting(self, which: Setting, value: Option<Seq<char>>) -> SettingsView {
        match which {
            Setting::ServeCommand => SettingsView { serve_command: value, ..self },
            Setting::ImageRepository => SettingsView { image_repository: value, ..self },
            Setting::Platform => SettingsView { platform: value, ..self },
            Setting::DefaultContainerImage => SettingsView {
                default_container_image: value,
                ..self
            },
        }
    }

    /// The port mappings, empty where none were ever added.
    pub open spec fn ports(self) -> Seq<(Seq<char>, Seq<char>)> {
        match self.host_portmappings {
            Some(p) => p,
            None => Seq::empty(),
        }
    }

    /// The volumes, empty where none were ever added.
    pub open spec fn vols(self) -> Seq<VolumeView> {
        match self.volumes {
            Some(v) => v,
            None => Seq::empty(),
        }
    }

    /// Every map inside is ordered by key.
    pub open spec fn wf(self) -> bool {
        sorted(self.ports())
    }
}

impl DomainView {
    /// The services, empty where none were ever added.
    pub open spec fn svcs(self) -> Seq<(Seq<char>, SettingsView)> {
        match self.services {
            Some(s) => s,
            None => Seq::empty(),
        }
    }

    /// The service called `name`, or one with nothing set.
    pub open spec fn svc(self, name: Seq<char>) -> SettingsView {
        match lookup(self.svcs(), name) {
            Some(s) => s,
            None => SettingsView::empty(),
        }
    }

    /// The domain with service `name` bound to `s`.
    pub open spec fn with_svc(self, name: Seq<char>, s: SettingsView) -> DomainView {
        DomainView { services: Some(put(self.svcs(), name, s)), ..self }
    }

    pub open spec fn wf(self) -> bool {
        &&& sorted(self.svcs())
        &&& forall|i: int| 0 <= i < self.svcs().len() ==> (#[trigger] self.svcs()[i]).1.wf()
    }
}

/// The domain at position `i` is called `name`, and none before it is.
pub open spec fn named_at(d: Seq<(Seq<char>, DomainView)>, name: Seq<char>, i: int) -> bool {
    &&& 0 <= i < d.len()
    &&& d[i].1.name == name
    &&& forall|j: int| 0 <= j < i ==> (#[trigger] d[j]).1.name != name
}

/// Some domain is called `name`.
pub open spec fn has_named(d: Seq<(Seq<char>, DomainView)>, name: Seq<char>) -> bool {
    exists|i: int| 0 <= i < d.len() && (#[trigger] d[i]).1.name == name
}

/// The position of the first domain, in key order, that is called `name`.
pub open spec fn first_named(d: Seq<(Seq<char>, DomainView)>, name: Seq<char>) -> int {
    choose|i: int| named_at(d, name, i)
}

impl ConfigView {
    /// The store with nothing in it.
    pub open spec fn empty() -> ConfigView {
        ConfigView {
            engine: None,
            podman_machine: None,
            domains: None,
            environments: None,
            urls_in_hosts: None,
        }
    }

    /// The environments, empty where none were ever added.
    pub open spec fn envs(self) -> Seq<(Seq<char>, SettingsView)> {
        match self.environments {
            Some(e) => e,
            None => Seq::empty(),
        }
    }

    /// The domains in the order of their locations, empty where none were
    /// ever added.
    pub open spec fn doms(self) -> Seq<(Seq<char>, DomainView)> {
        match self.domains {
            Some(d) => d,
            None => Seq::empty(),
        }
    }

    /// The store has an environment called `name`.
    pub open spec fn has_env(self, name: Seq<char>) -> bool {
        has_key(self.envs(), name)
    }

    /// The environment called `name`, or one with nothing set.
    pub open spec fn env(self, name: Seq<char>) -> SettingsView {
        match lookup(self.envs(), name) {
            Some(e) => e,
            None => SettingsView::empty(),
        }
    }

    /// The store with environment `name` bound to `e`.
    pub open spec fn with_env(self, name: Seq<char>, e: SettingsView) -> ConfigView {
        ConfigView { environments: Some(put(self.envs(), name, e)), ..self }
    }

    /// The store has a domain called `name`.
    pub open spec fn has_domain(self, name: Seq<char>) -> bool {
        has_named(self.doms(), name)
    }

    /// The first domain, in the order of locations, that is called `name`.
    pub open spec fn domain(self, name: Seq<char>) -> DomainView {
        self.doms()[first_named(self.doms(), name)].1
    }

    /// The store with that domain replaced by `d`, at its location.
    pub open spec fn with_domain(self, name: Seq<char>, d: DomainView) -> ConfigView {
        let i = first_named(self.doms(), name);
        ConfigView { domains: Some(self.doms().update(i, (self.doms()[i].0, d))), ..self }
    }

    /// Every map inside is ordered by key.
    pub open spec fn wf(self) -> bool {
        &&& sorted(self.doms())
        &&& sorted(self.envs())
        &&& forall|i: int| 0 <= i < self.doms().len() ==> (#[trigger] self.doms()[i]).1.wf()
        &&& forall|i: int| 0 <= i < self.envs().len() ==> (#[trigger] self.envs()[i]).1.wf()
    }
}

/// Viewing the values changes neither the keys nor their order.
pub proof fn lemma_entries_view<V: View>(s: Seq<(Seq<char>, V)>)
    requires
        sorted(s),
    ensures
        sorted(entries_view(s)),
        forall|k: Seq<char>| has_key(entries_view(s), k) == has_key(s, k),
        forall|k: Seq<char>| has_key(s, k) ==> index_of(entries_view(s), k) == index_of(s, k),
        forall|k: Seq<char>| rank(entries_view(s), k) == rank(s, k),
{
    let t = entries_view(s);
    assert forall|i: int, j: int| 0 <= i < j < t.len() implies str_lt(
        #[trigger] t[i].0,
        #[trigger] t[j].0,
    ) by {
        assert(t[i].0 == s[i].0 && t[j].0 == s[j].0);
    }
    assert forall|k: Seq<char>| has_key(t, k) == has_key(s, k) by {
        if has_key(t, k) {
            let i = index_of(t, k);
            assert(s[i].0 == k);
        }
        if has_key(s, k) {
            let i = index_of(s, k);
            assert(t[i].0 == k);
        }
    }
    assert forall|k: Seq<char>| has_key(s, k) implies index_of(t, k) == index_of(s, k) by {
        let i = index_of(s, k);
        assert(t[i].0 == k);
        lemma_index_of(t, i);
    }
    assert forall|k: Seq<char>| rank(t, k) == rank(s, k) by {
        lemma_rank_exists(s, k);
        let p = rank(s, k);
        assert forall|i: int| 0 <= i < p implies str_lt(#[trigger] t[i].0, k) by {
            assert(t[i].0 == s[i].0);
        }
        assert forall|i: int| p <= i < t.len() implies !str_lt(#[trigger] t[i].0, k) by {
            assert(t[i].0 == s[i].0);
        }
        lemma_rank(t, k, p);
    }
}

/// Binding a key and then viewing is viewing and then binding the view.
pub proof fn lemma_put_view<V: View>(s: Seq<(Seq<char>, V)>, k: Seq<char>, v: V)
    requires
        sorted(s),
    ensures
        entries_view(put(s, k, v)) == put(entries_view(s), k, v@),
        lookup(entries_view(s), k) == match lookup(s, k) {
            Some(x) => Some(x@),
            None => None,
        },
{
    lemma_entries_view(s);
    let t = entries_view(s);
    if has_key(s, k) {
        let i = index_of(s, k);
        assert(index_of(t, k) == i);
        assert(t[i].1 == s[i].1@);
    } else {
        lemma_rank_exists(s, k);
        assert(rank(t, k) == rank(s, k));
    }
    assert(entries_view(put(s, k, v)) =~= put(t, k, v@));
}

/// Looking a key up and then viewing is viewing and then looking it up.
pub proof fn lemma_lookup_view<V: View>(s: Seq<(Seq<char>, V)>, k: Seq<char>)
    requires
        sorted(s),
    ensures
        lookup(entries_view(s), k) == match lookup(s, k) {
            Some(x) => Some(x@),
            None => None,
        },
{
    lemma_entries_view(s);
}

/// Taking a key out and then viewing is viewing and then taking it out.
pub proof fn lemma_del_view<V: View>(s: Seq<(Seq<char>, V)>, k: Seq<char>)
    requires
        sorted(s),
    ensures
        entries_view(del(s, k)) == del(entries_view(s), k),
{
    lemma_entries_view(s);
    let t = entries_view(s);
    if has_key(s, k) {
        assert(index_of(t, k) == index_of(s, k));
    }
    assert(entries_view(del(s, k)) =~= del(t, k));
}

} // verus!
