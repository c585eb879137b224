//! What a service and an environment have in common: four text settings, a
//! table of port mappings keyed by host port, and a list of volumes.

use vstd::prelude::*;
use vstd::string::StringExecFns;
use crate::model::{
    Setting, Service, Environment, Volume, VolumeView, SettingsView, text_opt, map_opt,
    volumes_opt, volumes_view, entries_view, lemma_entries_view, lemma_put_view, lemma_del_view,
};
use crate::strmap::{StrMap, has_key, put, del};
use crate::text::same_text;

verus! {

/// How an attempt to take an entry out of an optional table ended.
#[derive(Clone, Copy, Debug, PartialEq, Eq, Structural)]
pub enum Removal {
    /// The entry was there and is gone.
    Removed,
    /// The table was never created.
    NoTable,
    /// The table has no such entry.
    NoEntry,
}

/// The entries of an optional table, none where it is absent.
pub open spec fn entries_or_empty<V>(o: Option<Seq<(Seq<char>, V)>>) -> Seq<(Seq<char>, V)> {
    match o {
        Some(s) => s,
        None => Seq::empty(),
    }
}

/// The items of an optional list, none where it is absent.
pub open spec fn items_or_empty<T>(o: Option<Seq<T>>) -> Seq<T> {
    match o {
        Some(s) => s,
        None => Seq::empty(),
    }
}

impl SettingsView {
    /// The host port is mapped.
    pub open spec fn has_port(self, host_port: Seq<char>) -> bool {
        has_key(self.ports(), host_port)
    }

    /// The settings with the host port mapped to the container port.
    pub open spec fn with_port(self, host_port: Seq<char>, container_port: Seq<char>) -> SettingsView {
        SettingsView {
            host_portmappings: Some(put(self.ports(), host_port, container_port)),
            ..self
        }
    }

    /// The settings without a mapping of the host port.
    pub open spec fn without_port(self, host_port: Seq<char>) -> SettingsView {
        SettingsView { host_portmappings: Some(del(self.ports(), host_port)), ..self }
    }

    /// A volume with that pair of paths is listed.
    pub open spec fn has_volume(self, container: Seq<char>, host: Seq<char>) -> bool {
        self.vols().contains(VolumeView { container, host })
    }

    /// The settings with the volume added at the end of the list.
    pub open spec fn with_volume(self, container: Seq<char>, host: Seq<char>) -> SettingsView {
        SettingsView { volumes: Some(self.vols().push(VolumeView { container, host })), ..self }
    }

    /// Every volume with that pair of paths is gone; the others keep their
    /// order.
    pub open spec fn without_volume(self, container: Seq<char>, host: Seq<char>) -> SettingsView {
        SettingsView {
            volumes: Some(
                self.vols().filter(|v: VolumeView| v != (VolumeView { container, host })),
            ),
            ..self
        }
    }
}

/// Maps `host_port` to `container_port` unless the host port is taken; the
/// table is created where it was absent.
pub fn add_port_to(ports: &mut Option<StrMap<String>>, host_port: &str, container_port: &str) -> (added:
    bool)
    ensures
        added == !has_key(entries_or_empty(map_opt(*old(ports))), host_port@),
        added ==> map_opt(*final(ports)) == Some(
            put(entries_or_empty(map_opt(*old(ports))), host_port@, container_port@),
        ),
        !added ==> map_opt(*final(ports)) == map_opt(*old(ports)),
{
    let m = match ports.take() {
        Some(m) => m,
        None => StrMap::new(),
    };
    m.ordered();
    proof {
        lemma_entries_view(m@);
        assert(entries_view(m@) =~= entries_or_empty(map_opt(*old(ports))));
    }
    if m.contains_key(host_port) {
        *ports = Some(m);
        false
    } else {
        let value = String::from_str(container_port);
        proof {
            lemma_put_view(m@, host_port@, value);
        }
        let (m2, _) = m.insert(String::from_str(host_port), value);
        *ports = Some(m2);
        true
    }
}

/// Takes the mapping of `host_port` out of the table.
pub fn remove_port_from(ports: &mut Option<StrMap<String>>, host_port: &str) -> (r: Removal)
    ensures
        match r {
            Removal::NoTable => map_opt(*old(ports)) is None && map_opt(*final(ports)) is None,
            Removal::NoEntry => map_opt(*old(ports)) is Some && !has_key(
                map_opt(*old(ports))->0,
                host_port@,
            ) && map_opt(*final(ports)) == map_opt(*old(ports)),
            Removal::Removed => map_opt(*old(ports)) is Some && has_key(
                map_opt(*old(ports))->0,
                host_port@,
            ) && map_opt(*final(ports)) == Some(del(map_opt(*old(ports))->0, host_port@)),
        },
{
    match ports.take() {
        None => Removal::NoTable,
        Some(m) => {
            m.ordered();
            proof {
                lemma_entries_view(m@);
                lemma_del_view(m@, host_port@);
            }
            let (m2, prev) = m.remove(host_port);
            *ports = Some(m2);
            match prev {
                Some(_) => Removal::Removed,
                None => Removal::NoEntry,
            }
        },
    }
}

impl Volume {
    /// A volume with the same two paths.
    pub fn duplicate(&self) -> (r: Volume)
        ensures
            r@ == self@,
    {
        Volume { container: self.container.clone(), host: self.host.clone() }
    }

    /// Whether this volume mounts `host` at `container`.
    pub fn is_pair(&self, container: &str, host: &str) -> (r: bool)
        ensures
            r == (self@ == VolumeView { container: container@, host: host@ }),
    {
        same_text(self.container.as_str(), container) && same_text(self.host.as_str(), host)
    }
}

/// Whether the list holds a volume that mounts `host` at `container`.
pub fn holds_volume(vols: &Vec<Volume>, container: &str, host: &str) -> (r: bool)
    ensures
        r == volumes_view(vols@).contains(VolumeView { container: container@, host: host@ }),
{
    let ghost target = VolumeView { container: container@, host: host@ };
    let n: usize = vols.len();
    let mut i: usize = 0;
    while i < n
        invariant
            n == vols@.len(),
            i <= n,
            target == (VolumeView { container: container@, host: host@ }),
            forall|j: int| 0 <= j < i ==> volumes_view(vols@)[j] != target,
        decreases n - i,
    {
        if vols[i].is_pair(container, host) {
            assert(volumes_view(vols@)[i as int] == target);
            return true;
        }
        i = i + 1;
    }
    false
}

/// Appends the volume unless the same pair of paths is already listed; the
/// list is created where it was absent.
pub fn add_volume_to(vols: &mut Option<Vec<Volume>>, container: &str, host: &str) -> (added: bool)
    ensures
        added == !items_or_empty(volumes_opt(*old(vols))).contains(
            VolumeView { container: container@, host: host@ },
        ),
        added ==> volumes_opt(*final(vols)) == Some(
            items_or_empty(volumes_opt(*old(vols))).push(
                VolumeView { container: container@, host: host@ },
            ),
        ),
        !added ==> volumes_opt(*final(vols)) == volumes_opt(*old(vols)),
{
    let mut v = match vols.take() {
        Some(v) => v,
        None => Vec::new(),
    };
    if holds_volume(&v, container, host) {
        *vols = Some(v);
        false
    } else {
        let ghost before = volumes_view(v@);
        v.push(Volume { container: String::from_str(container), host: String::from_str(host) });
        assert(volumes_view(v@) =~= before.push(
            VolumeView { container: container@, host: host@ },
        ));
        *vols = Some(v);
        true
    }
}

/// Takes every volume that mounts `host` at `container` out of the list.
pub fn remove_volume_from(vols: &mut Option<Vec<Volume>>, container: &str, host: &str) -> (r:
    Removal)
    ensures
        match r {
            Removal::NoTable => volumes_opt(*old(vols)) is None && volumes_opt(*final(vols))
                is None,
            Removal::NoEntry => volumes_opt(*old(vols)) is Some && !volumes_opt(
                *old(vols),
            )->0.contains(VolumeView { container: container@, host: host@ }) && volumes_opt(
                *final(vols),
            ) == volumes_opt(*old(vols)),
            Removal::Removed => volumes_opt(*old(vols)) is Some && volumes_opt(
                *old(vols),
            )->0.contains(VolumeView { container: container@, host: host@ }) && volumes_opt(
                *final(vols),
            ) == Some(
                volumes_opt(*old(vols))->0.filter(
                    |v: VolumeView| v != (VolumeView { container: container@, host: host@ }),
                ),
            ),
        },
{
    match vols.take() {
        None => Removal::NoTable,
        Some(v) => {
            if !holds_volume(&v, container, host) {
                *vols = Some(v);
                return Removal::NoEntry;
            }
            let ghost target = VolumeView { container: container@, host: host@ };
            let ghost keep = |x: VolumeView| x != target;
            let ghost all = volumes_view(v@);
            let n: usize = v.len();
            let mut kept: Vec<Volume> = Vec::new();
            let mut i: usize = 0;
            proof {
                reveal(Seq::filter);
                assert(all.take(0).filter(keep) =~= Seq::<VolumeView>::empty());
                assert(volumes_view(kept@) =~= Seq::<VolumeView>::empty());
            }
            while i < n
                invariant
                    n == v@.len(),
                    i <= n,
                    all == volumes_view(v@),
                    target == (VolumeView { container: container@, host: host@ }),
                    keep == (|x: VolumeView| x != target),
                    volumes_view(kept@) == all.take(i as int).filter(keep),
                decreases n - i,
            {
                let ghost before = volumes_view(kept@);
                proof {
                    assert(all.take(i as int + 1) =~= all.take(i as int).push(all[i as int]));
                    all.take(i as int).lemma_filter_push(all[i as int], keep);
                }
                if !v[i].is_pair(container, host) {
                    kept.push(v[i].duplicate());
                    assert(volumes_view(kept@) =~= before.push(all[i as int]));
                }
                i = i + 1;
            }
            assert(all.take(n as int) =~= all);
            *vols = Some(kept);
            Removal::Removed
        },
    }
}

impl Default for Service {
    fn default() -> (r: Service)
        ensures
            r@ == SettingsView::empty(),
    {
        Service {
            host_portmappings: None,
            volumes: None,
            serve_command: None,
            image_repository: None,
            platform: None,
            default_container_image: None,
        }
    }
}

impl Default for Environment {
    fn default() -> (r: Environment)
        ensures
            r@ == SettingsView::empty(),
    {
        Environment {
            volumes: None,
            serve_command: None,
            image_repository: None,
            host_portmappings: None,
            platform: None,
            default_container_image: None,
        }
    }
}

impl Service {
    /// Sets or clears one of the four text settings.
    pub fn put_setting(&mut self, which: Setting, value: Option<String>)
        ensures
            final(self)@ == old(self)@.with_setting(which, text_opt(value)),
    {
        match which {
            Setting::ServeCommand => {
                self.serve_command = value;
            },
            Setting::ImageRepository => {
                self.image_repository = value;
            },
            Setting::Platform => {
                self.platform = value;
            },
            Setting::DefaultContainerImage => {
                self.default_container_image = value;
            },
        }
    }

    /// Whether one of the four text settings has a value.
    pub fn has_setting(&self, which: Setting) -> (r: bool)
        ensures
            r == self@.setting(which) is Some,
    {
        match which {
            Setting::ServeCommand => self.serve_command.is_some(),
            Setting::ImageRepository => self.image_repository.is_some(),
            Setting::Platform => self.platform.is_some(),
            Setting::DefaultContainerImage => self.default_container_image.is_some(),
        }
    }
}

impl Environment {
    /// Sets or clears one of the four text settings.
    pub fn put_setting(&mut self, which: Setting, value: Option<String>)
        ensures
            final(self)@ == old(self)@.with_setting(which, text_opt(value)),
    {
        match which {
            Setting::ServeCommand => {
                self.serve_command = value;
            },
            Setting::ImageRepository => {
                self.image_repository = value;
            },
            Setting::Platform => {
                self.platform = value;
            },
            Setting::DefaultContainerImage => {
                self.default_container_image = value;
            },
        }
    }

    /// Whether one of the four text settings has a value.
    pub fn has_setting(&self, which: Setting) -> (r: bool)
        ensures
            r == self@.setting(which) is Some,
    {
        match which {
            Setting::ServeCommand => self.serve_command.is_some(),
            Setting::ImageRepository => self.image_repository.is_some(),
            Setting::Platform => self.platform.is_some(),
            Setting::DefaultContainerImage => self.default_container_image.is_some(),
        }
    }
}

} // verus!
