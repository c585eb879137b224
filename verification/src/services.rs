//! The store's operations on the services of a domain.

use vstd::prelude::*;
use vstd::string::StringExecFns;
use crate::edit::{Edit, EditView};
use crate::error::{ConfigError, Entity, ErrorView, is_not_found, is_already_exists, not_found};
use crate::model::{
    Config, ConfigView, Domain, DomainView, Service, Setting, SettingsView, entries_view,
    first_named, has_named, named_at, lemma_entries_view, lemma_put_view,
};
use crate::strmap::{StrMap, has_key, lemma_index_of, lemma_put_after_remove};
use crate::text::same_text;

verus! {

/// The first domain called `name` stands where `named_at` says.
pub proof fn lemma_first_named(d: Seq<(Seq<char>, DomainView)>, name: Seq<char>, i: int)
    requires
        named_at(d, name, i),
    ensures
        has_named(d, name),
        first_named(d, name) == i,
{
    let j = first_named(d, name);
    assert(named_at(d, name, j));
    if j < i {
        assert(d[j].1.name != name);
    } else if i < j {
        assert(d[i].1.name != name);
    }
}

/// Among the domains called `name` there is a first one.
pub proof fn lemma_has_named(d: Seq<(Seq<char>, DomainView)>, name: Seq<char>)
    requires
        has_named(d, name),
    ensures
        named_at(d, name, first_named(d, name)),
{
    let w = choose|i: int| 0 <= i < d.len() && (#[trigger] d[i]).1.name == name;
    lemma_least_named(d, name, w);
}

proof fn lemma_least_named(d: Seq<(Seq<char>, DomainView)>, name: Seq<char>, w: int)
    requires
        0 <= w < d.len(),
        d[w].1.name == name,
    ensures
        exists|i: int| named_at(d, name, i),
    decreases w,
{
    if exists|j: int| 0 <= j < w && (#[trigger] d[j]).1.name == name {
        let j = choose|j: int| 0 <= j < w && (#[trigger] d[j]).1.name == name;
        lemma_least_named(d, name, j);
    } else {
        assert(named_at(d, name, w));
    }
}

/// The position of the first domain, in the order of locations, whose name
/// is `name`.
pub fn find_domain(domains: &StrMap<Domain>, name: &str) -> (r: Option<usize>)
    ensures
        match r {
            Some(i) => named_at(entries_view(domains@), name@, i as int),
            None => !has_named(entries_view(domains@), name@),
        },
{
    let n: usize = domains.len();
    let mut i: usize = 0;
    while i < n
        invariant
            n == domains@.len(),
            i <= n,
            forall|j: int| 0 <= j < i ==> (#[trigger] entries_view(domains@)[j]).1.name != name@,
        decreases n - i,
    {
        if same_text(domains.value_at(i).name.as_str(), name) {
            return Some(i);
        }
        i = i + 1;
    }
    None
}

impl EditView {
    /// Giving a setting a value, adding a port mapping and adding a volume
    /// bring the service into being; clearing and removing want it to exist.
    pub open spec fn creates_service(self) -> bool {
        self is Assign || self is AddPort || self is AddVolume
    }
}

impl Edit {
    /// Whether the edit brings a missing service into being.
    pub fn creates_service(&self) -> (r: bool)
        ensures
            r == self@.creates_service(),
    {
        match self {
            Edit::Assign { .. } => true,
            Edit::AddPort { .. } => true,
            Edit::AddVolume { .. } => true,
            _ => false,
        }
    }
}

impl DomainView {
    /// The domain has overrides for the service folder `name`.
    pub open spec fn has_svc(self, name: Seq<char>) -> bool {
        has_key(self.svcs(), name)
    }

    /// The domain after `edit` on its service `name`, or why the edit is
    /// rejected.
    pub open spec fn service_edited(self, name: Seq<char>, edit: EditView) -> Result<
        DomainView,
        ErrorView,
    > {
        if self.has_svc(name) || edit.creates_service() {
            match self.svc(name).edited(edit, name) {
                Ok(s) => Ok(self.with_svc(name, s)),
                Err(x) => Err(x),
            }
        } else if self.services is None {
            Err(ErrorView::NotFound { entity: Entity::Services, key: self.name })
        } else {
            Err(ErrorView::NotFound { entity: Entity::Service, key: name })
        }
    }
}

impl Domain {
    /// A domain to stand in a table while the real one is being edited.
    fn blank() -> (r: Domain)
        ensures
            r.services is None,
            r.default_environment is None,
    {
        Domain { name: String::new(), services: None, default_environment: None }
    }

    /// Applies `edit` to the service called `name`; on an error the domain is
    /// unchanged.
    pub fn edit_service(&mut self, name: &str, edit: Edit) -> (r: Result<(), ConfigError>)
        ensures
            match old(self)@.service_edited(name@, edit@) {
                Ok(d) => r is Ok && final(self)@ == d,
                Err(x) => r is Err && r->Err_0@ == x && final(self)@ == old(self)@,
            },
    {
        let creates = edit.creates_service();
        let ghost pre = self@;
        let svcs = match self.services.take() {
            Some(s) => s,
            None => {
                if creates {
                    StrMap::new()
                } else {
                    return Err(not_found(Entity::Services, self.name.as_str()));
                }
            },
        };
        svcs.ordered();
        let ghost s = svcs@;
        proof {
            lemma_entries_view(s);
            assert(entries_view(s) =~= pre.svcs());
        }
        let (i, found) = svcs.locate(name);
        if found {
            proof {
                lemma_index_of(s, i as int);
                lemma_index_of(entries_view(s), i as int);
            }
            let (svcs, mut svc) = svcs.replace_at(i, Service::default());
            let r = svc.apply(edit, name);
            let (svcs, _) = svcs.replace_at(i, svc);
            proof {
                assert(svcs@ =~= s.update(i as int, (name@, svc)));
                lemma_put_after_remove(entries_view(s), i as int, svc@);
                assert(entries_view(svcs@) =~= entries_view(s).update(i as int, (name@, svc@)));
                if r is Err {
                    assert(entries_view(svcs@) =~= entries_view(s));
                }
            }
            self.services = Some(svcs);
            r
        } else if creates {
            let mut svc = Service::default();
            let r = svc.apply(edit, name);
            proof {
                assert(!has_key(SettingsView::empty().ports(), edit@->AddPort_host_port));
                assert(r is Ok);
                lemma_put_view(s, name@, svc);
            }
            let (svcs, _) = svcs.insert(String::from_str(name), svc);
            self.services = Some(svcs);
            r
        } else {
            self.services = Some(svcs);
            Err(not_found(Entity::Service, name))
        }
    }
}

/// What `edit` on service `service` of the domain called `domain` makes of
/// the store. The domain must exist; it is the first one of that name in the
/// order of locations.
pub open spec fn service_edited(
    pre: ConfigView,
    post: ConfigView,
    r: Result<(), ConfigError>,
    domain: Seq<char>,
    service: Seq<char>,
    edit: EditView,
) -> bool {
    if pre.domains is None {
        is_not_found(r, Entity::Domains, domain) && post == pre
    } else if !pre.has_domain(domain) {
        is_not_found(r, Entity::Domain, domain) && post == pre
    } else {
        match pre.domain(domain).service_edited(service, edit) {
            Ok(d) => r is Ok && post == pre.with_domain(domain, d),
            Err(x) => r is Err && r->Err_0@ == x && post == pre,
        }
    }
}

/// The domain called `domain` is not there: the store has no table of
/// domains, or the table has no domain of that name. Nothing changes.
pub open spec fn domain_not_found(
    pre: ConfigView,
    post: ConfigView,
    r: Result<(), ConfigError>,
    domain: Seq<char>,
) -> bool {
    &&& post == pre
    &&& if pre.domains is None {
        is_not_found(r, Entity::Domains, domain)
    } else {
        is_not_found(r, Entity::Domain, domain)
    }
}

/// Service `service` of domain `d` is not there: the domain has no table of
/// services, or the table has no such service. Nothing changes.
pub open spec fn service_not_found(
    pre: ConfigView,
    post: ConfigView,
    r: Result<(), ConfigError>,
    d: DomainView,
    service: Seq<char>,
) -> bool {
    &&& post == pre
    &&& if d.services is None {
        is_not_found(r, Entity::Services, d.name)
    } else {
        is_not_found(r, Entity::Service, service)
    }
}

/// The store after giving `which` the value `value` in a service, which is
/// created where the domain does not have it yet.
pub open spec fn service_setting_set(
    pre: ConfigView,
    post: ConfigView,
    r: Result<(), ConfigError>,
    domain: Seq<char>,
    service: Seq<char>,
    which: Setting,
    value: Seq<char>,
) -> bool {
    if !pre.has_domain(domain) {
        domain_not_found(pre, post, r, domain)
    } else {
        let d = pre.domain(domain);
        r is Ok && post == pre.with_domain(
            domain,
            d.with_svc(service, d.svc(service).with_setting(which, Some(value))),
        )
    }
}

/// The store after clearing `which` in a service: domain and service must
/// exist and the setting must have a value.
pub open spec fn service_setting_cleared(
    pre: ConfigView,
    post: ConfigView,
    r: Result<(), ConfigError>,
    domain: Seq<char>,
    service: Seq<char>,
    which: Setting,
) -> bool {
    if !pre.has_domain(domain) {
        domain_not_found(pre, post, r, domain)
    } else {
        let d = pre.domain(domain);
        if !d.has_svc(service) {
            service_not_found(pre, post, r, d, service)
        } else if d.svc(service).setting(which) is None {
            is_not_found(r, which.entity(), service) && post == pre
        } else {
            r is Ok && post == pre.with_domain(
                domain,
                d.with_svc(service, d.svc(service).with_setting(which, None)),
            )
        }
    }
}

/// The store after mapping `host_port` in a service, which is created where
/// the domain does not have it yet. A host port that is already mapped is
/// rejected, whatever container port it has.
pub open spec fn service_port_added(
    pre: ConfigView,
    post: ConfigView,
    r: Result<(), ConfigError>,
    domain: Seq<char>,
    service: Seq<char>,
    host_port: Seq<char>,
    container_port: Seq<char>,
) -> bool {
    if !pre.has_domain(domain) {
        domain_not_found(pre, post, r, domain)
    } else {
        let d = pre.domain(domain);
        if d.svc(service).has_port(host_port) {
            is_already_exists(r, Entity::PortMapping, host_port) && post == pre
        } else {
            r is Ok && post == pre.with_domain(
                domain,
                d.with_svc(service, d.svc(service).with_port(host_port, container_port)),
            )
        }
    }
}

/// The store after dropping the mapping of `host_port` from a service.
pub open spec fn service_port_removed(
    pre: ConfigView,
    post: ConfigView,
    r: Result<(), ConfigError>,
    domain: Seq<char>,
    service: Seq<char>,
    host_port: Seq<char>,
) -> bool {
    if !pre.has_domain(domain) {
        domain_not_found(pre, post, r, domain)
    } else {
        let d = pre.domain(domain);
        if !d.has_svc(service) {
            service_not_found(pre, post, r, d, service)
        } else if d.svc(service).host_portmappings is None {
            is_not_found(r, Entity::PortMappings, service) && post == pre
        } else if !d.svc(service).has_port(host_port) {
            is_not_found(r, Entity::PortMapping, host_port) && post == pre
        } else {
            r is Ok && post == pre.with_domain(
                domain,
                d.with_svc(service, d.svc(service).without_port(host_port)),
            )
        }
    }
}

/// The store after adding a volume to a service, which is created where the
/// domain does not have it yet. The same pair of paths twice is rejected.
pub open spec fn service_volume_added(
    pre: ConfigView,
    post: ConfigView,
    r: Result<(), ConfigError>,
    domain: Seq<char>,
    service: Seq<char>,
    container: Seq<char>,
    host: Seq<char>,
) -> bool {
    if !pre.has_domain(domain) {
        domain_not_found(pre, post, r, domain)
    } else {
        let d = pre.domain(domain);
        if d.svc(service).has_volume(container, host) {
            is_already_exists(r, Entity::Volume, container) && post == pre
        } else {
            r is Ok && post == pre.with_domain(
                domain,
                d.with_svc(service, d.svc(service).with_volume(container, host)),
            )
        }
    }
}

/// The store after dropping the volumes with that pair of paths from a
/// service.
pub open spec fn service_volume_removed(
    pre: ConfigView,
    post: ConfigView,
    r: Result<(), ConfigError>,
    domain: Seq<char>,
    service: Seq<char>,
    container: Seq<char>,
    host: Seq<char>,
) -> bool {
    if !pre.has_domain(domain) {
        domain_not_found(pre, post, r, domain)
    } else {
        let d = pre.domain(domain);
        if !d.has_svc(service) {
            service_not_found(pre, post, r, d, service)
        } else if d.svc(service).volumes is None {
            is_not_found(r, Entity::Volumes, service) && post == pre
        } else if !d.svc(service).has_volume(container, host) {
            is_not_found(r, Entity::Volume, container) && post == pre
        } else {
            r is Ok && post == pre.with_domain(
                domain,
                d.with_svc(service, d.svc(service).without_volume(container, host)),
            )
        }
    }
}

impl Config {
    /// Applies `edit` to service `service_name` of the domain called
    /// `domain_name`.
    pub fn edit_service(&mut self, domain_name: &str, service_name: &str, edit: Edit) -> (r: Result<
        (),
        ConfigError,
    >)
        ensures
            service_edited(old(self)@, final(self)@, r, domain_name@, service_name@, edit@),
    {
        let ghost pre = self@;
        let domains = match self.domains.take() {
            Some(d) => d,
            None => {
                return Err(not_found(Entity::Domains, domain_name));
            },
        };
        domains.ordered();
        let ghost s = domains@;
        match find_domain(&domains, domain_name) {
            None => {
                self.domains = Some(domains);
                Err(not_found(Entity::Domain, domain_name))
            },
            Some(i) => {
                proof {
                    lemma_first_named(entries_view(s), domain_name@, i as int);
                }
                let (domains, mut dom) = domains.replace_at(i, Domain::blank());
                let r = dom.edit_service(service_name, edit);
                let (domains, _) = domains.replace_at(i, dom);
                proof {
                    assert(domains@ =~= s.update(i as int, (s[i as int].0, dom)));
                    assert(entries_view(domains@) =~= entries_view(s).update(
                        i as int,
                        (s[i as int].0, dom@),
                    ));
                    if r is Err {
                        assert(entries_view(domains@) =~= entries_view(s));
                    }
                }
                self.domains = Some(domains);
                r
            },
        }
    }

    /// Sets the command that serves a service.
    pub fn set_service_serve_command(&mut self, domain_name: &str, service_name: &str, cmd: &str) -> (r: Result<
        (),
        ConfigError,
    >)
        ensures
            service_setting_set(
                old(self)@,
                final(self)@,
                r,
                domain_name@,
                service_name@,
                Setting::ServeCommand,
                cmd@,
            ),
    {
        proof {
            if self@.has_domain(domain_name@) {
                lemma_has_named(self@.doms(), domain_name@);
            }
        }
        self.edit_service(
            domain_name,
            service_name,
            Edit::Assign { which: Setting::ServeCommand, value: String::from_str(cmd) },
        )
    }

    /// Clears a service's serve command.
    pub fn rm_service_serve_command(&mut self, domain_name: &str, service_name: &str) -> (r: Result<
        (),
        ConfigError,
    >)
        ensures
            service_setting_cleared(
                old(self)@,
                final(self)@,
                r,
                domain_name@,
                service_name@,
                Setting::ServeCommand,
            ),
    {
        proof {
            if self@.has_domain(domain_name@) {
                lemma_has_named(self@.doms(), domain_name@);
            }
        }
        self.edit_service(domain_name, service_name, Edit::Clear { which: Setting::ServeCommand })
    }

    /// Sets the repository that a service takes its images from.
    pub fn set_service_image_repository(&mut self, domain_name: &str, service_name: &str, repo: &str) -> (r: Result<
        (),
        ConfigError,
    >)
        ensures
            service_setting_set(
                old(self)@,
                final(self)@,
                r,
                domain_name@,
                service_name@,
                Setting::ImageRepository,
                repo@,
            ),
    {
        proof {
            if self@.has_domain(domain_name@) {
                lemma_has_named(self@.doms(), domain_name@);
            }
        }
        self.edit_service(
            domain_name,
            service_name,
            Edit::Assign { which: Setting::ImageRepository, value: String::from_str(repo) },
        )
    }

    /// Clears a service's image repository.
    pub fn rm_service_image_repository(&mut self, domain_name: &str, service_name: &str) -> (r: Result<
        (),
        ConfigError,
    >)
        ensures
            service_setting_cleared(
                old(self)@,
                final(self)@,
                r,
                domain_name@,
                service_name@,
                Setting::ImageRepository,
            ),
    {
        proof {
            if self@.has_domain(domain_name@) {
                lemma_has_named(self@.doms(), domain_name@);
            }
        }
        self.edit_service(domain_name, service_name, Edit::Clear { which: Setting::ImageRepository })
    }

    /// Sets a service's platform, such as `linux/amd64`.
    pub fn set_service_platform(&mut self, domain_name: &str, service_name: &str, platform: &str) -> (r: Result<
        (),
        ConfigError,
    >)
        ensures
            service_setting_set(
                old(self)@,
                final(self)@,
                r,
                domain_name@,
                service_name@,
                Setting::Platform,
                platform@,
            ),
    {
        proof {
            if self@.has_domain(domain_name@) {
                lemma_has_named(self@.doms(), domain_name@);
            }
        }
        self.edit_service(
            domain_name,
            service_name,
            Edit::Assign { which: Setting::Platform, value: String::from_str(platform) },
        )
    }

    /// Clears a service's platform.
    pub fn rm_service_platform(&mut self, domain_name: &str, service_name: &str) -> (r: Result<
        (),
        ConfigError,
    >)
        ensures
            service_setting_cleared(
                old(self)@,
                final(self)@,
                r,
                domain_name@,
                service_name@,
                Setting::Platform,
            ),
    {
        proof {
            if self@.has_domain(domain_name@) {
                lemma_has_named(self@.doms(), domain_name@);
            }
        }
        self.edit_service(domain_name, service_name, Edit::Clear { which: Setting::Platform })
    }

    /// Sets the image that a service runs where none is given.
    pub fn set_service_default_container_image(&mut self, domain_name: &str, service_name: &str, image: &str) -> (r: Result<
        (),
        ConfigError,
    >)
        ensures
            service_setting_set(
                old(self)@,
                final(self)@,
                r,
                domain_name@,
                service_name@,
                Setting::DefaultContainerImage,
                image@,
            ),
    {
        proof {
            if self@.has_domain(domain_name@) {
                lemma_has_named(self@.doms(), domain_name@);
            }
        }
        self.edit_service(
            domain_name,
            service_name,
            Edit::Assign { which: Setting::DefaultContainerImage, value: String::from_str(image) },
        )
    }

    /// Clears a service's default image.
    pub fn rm_service_default_container_image(&mut self, domain_name: &str, service_name: &str) -> (r: Result<
        (),
        ConfigError,
    >)
        ensures
            service_setting_cleared(
                old(self)@,
                final(self)@,
                r,
                domain_name@,
                service_name@,
                Setting::DefaultContainerImage,
            ),
    {
        proof {
            if self@.has_domain(domain_name@) {
                lemma_has_named(self@.doms(), domain_name@);
            }
        }
        self.edit_service(domain_name, service_name, Edit::Clear { which: Setting::DefaultContainerImage })
    }

    /// Maps a host port to a container port in a service of an existing
    /// domain.
    pub fn add_portmap(
        &mut self,
        domain_name: &str,
        service_name: &str,
        host_port: &str,
        container_port: &str,
    ) -> (r: Result<(), ConfigError>)
        ensures
            service_port_added(
                old(self)@,
                final(self)@,
                r,
                domain_name@,
                service_name@,
                host_port@,
                container_port@,
            ),
    {
        proof {
            if self@.has_domain(domain_name@) {
                lemma_has_named(self@.doms(), domain_name@);
            }
        }
        self.edit_service(
            domain_name,
            service_name,
            Edit::AddPort {
                host_port: String::from_str(host_port),
                container_port: String::from_str(container_port),
            },
        )
    }

    /// Drops the mapping of a host port from a service.
    pub fn rm_portmap(&mut self, domain_name: &str, service_name: &str, host_port: &str) -> (r:
        Result<(), ConfigError>)
        ensures
            service_port_removed(
                old(self)@,
                final(self)@,
                r,
                domain_name@,
                service_name@,
                host_port@,
            ),
    {
        proof {
            if self@.has_domain(domain_name@) {
                lemma_has_named(self@.doms(), domain_name@);
            }
        }
        self.edit_service(
            domain_name,
            service_name,
            Edit::RemovePort { host_port: String::from_str(host_port) },
        )
    }

    /// Adds a volume to a service of an existing domain.
    pub fn add_service_volume(
        &mut self,
        domain_name: &str,
        service_name: &str,
        container_dir: &str,
        host_dir: &str,
    ) -> (r: Result<(), ConfigError>)
        ensures
            service_volume_added(
                old(self)@,
                final(self)@,
                r,
                domain_name@,
                service_name@,
                container_dir@,
                host_dir@,
            ),
    {
        proof {
            if self@.has_domain(domain_name@) {
                lemma_has_named(self@.doms(), domain_name@);
            }
        }
        self.edit_service(
            domain_name,
            service_name,
            Edit::AddVolume {
                container: String::from_str(container_dir),
                host: String::from_str(host_dir),
            },
        )
    }

    /// Drops a volume from a service.
    pub fn rm_service_volume(
        &mut self,
        domain_name: &str,
        service_name: &str,
        container_dir: &str,
        host_dir: &str,
    ) -> (r: Result<(), ConfigError>)
        ensures
            service_volume_removed(
                old(self)@,
                final(self)@,
                r,
                domain_name@,
                service_name@,
                container_dir@,
                host_dir@,
            ),
    {
        proof {
            if self@.has_domain(domain_name@) {
                lemma_has_named(self@.doms(), domain_name@);
            }
        }
        self.edit_service(
            domain_name,
            service_name,
            Edit::RemoveVolume {
                container: String::from_str(container_dir),
                host: String::from_str(host_dir),
            },
        )
    }
}

} // verus!
