//! One change to a service or an environment, and what it does.

use vstd::prelude::*;
use crate::error::{ConfigError, Entity, ErrorView, not_found, already_exists};
use crate::model::{Setting, Service, Environment, SettingsView};
use crate::settings::{Removal, add_port_to, remove_port_from, add_volume_to, remove_volume_from};

verus! {

/// A change to the settings of a service or an environment.
#[derive(Clone, Debug, PartialEq, Eq)]
pub enum Edit {
    /// Give a text setting a value.
    Assign { which: Setting, value: String },
    /// Take a text setting's value away.
    Clear { which: Setting },
    /// Map a host port to a container port.
    AddPort { host_port: String, container_port: String },
    /// Drop the mapping of a host port.
    RemovePort { host_port: String },
    /// Mount a host directory at a container path.
    AddVolume { container: String, host: String },
    /// Drop the volumes with that pair of paths.
    RemoveVolume { container: String, host: String },
}

/// An edit with its texts as sequences of characters.
pub enum EditView {
    Assign { which: Setting, value: Seq<char> },
    Clear { which: Setting },
    AddPort { host_port: Seq<char>, container_port: Seq<char> },
    RemovePort { host_port: Seq<char> },
    AddVolume { container: Seq<char>, host: Seq<char> },
    RemoveVolume { container: Seq<char>, host: Seq<char> },
}

impl View for Edit {
    type V = EditView;

    open spec fn view(&self) -> EditView {
        match *self {
            Edit::Assign { which, value } => EditView::Assign { which, value: value@ },
            Edit::Clear { which } => EditView::Clear { which },
            Edit::AddPort { host_port, container_port } => EditView::AddPort {
                host_port: host_port@,
                container_port: container_port@,
            },
            Edit::RemovePort { host_port } => EditView::RemovePort { host_port: host_port@ },
            Edit::AddVolume { container, host } => EditView::AddVolume {
                container: container@,
                host: host@,
            },
            Edit::RemoveVolume { container, host } => EditView::RemoveVolume {
                container: container@,
                host: host@,
            },
        }
    }
}

impl Setting {
    /// The kind of thing that is missing where this setting has no value.
    pub open spec fn entity(self) -> Entity {
        match self {
            Setting::ServeCommand => Entity::ServeCommand,
            Setting::ImageRepository => Entity::ImageRepository,
            Setting::Platform => Entity::Platform,
            Setting::DefaultContainerImage => Entity::DefaultContainerImage,
        }
    }

    /// The kind of thing that is missing where this setting has no value.
    pub fn as_entity(self) -> (r: Entity)
        ensures
            r == self.entity(),
    {
        match self {
            Setting::ServeCommand => Entity::ServeCommand,
            Setting::ImageRepository => Entity::ImageRepository,
            Setting::Platform => Entity::Platform,
            Setting::DefaultContainerImage => Entity::DefaultContainerImage,
        }
    }
}

impl SettingsView {
    /// The settings after `edit`, or why it is rejected. `owner` is the name
    /// of the service or environment that holds the settings.
    ///
    /// Setting a value always succeeds. Clearing fails where there is no
    /// value. A port mapping is added only where the host port is free, a
    /// volume only where the same pair of paths is not yet listed. Removing
    /// fails where the table was never created or holds no such entry.
    pub open spec fn edited(self, edit: EditView, owner: Seq<char>) -> Result<
        SettingsView,
        ErrorView,
    > {
        match edit {
            EditView::Assign { which, value } => Ok(self.with_setting(which, Some(value))),
            EditView::Clear { which } => if self.setting(which) is None {
                Err(ErrorView::NotFound { entity: which.entity(), key: owner })
            } else {
                Ok(self.with_setting(which, None))
            },
            EditView::AddPort { host_port, container_port } => if self.has_port(host_port) {
                Err(ErrorView::AlreadyExists { entity: Entity::PortMapping, key: host_port })
            } else {
                Ok(self.with_port(host_port, container_port))
            },
            EditView::RemovePort { host_port } => if self.host_portmappings is None {
                Err(ErrorView::NotFound { entity: Entity::PortMappings, key: owner })
            } else if !self.has_port(host_port) {
                Err(ErrorView::NotFound { entity: Entity::PortMapping, key: host_port })
            } else {
                Ok(self.without_port(host_port))
            },
            EditView::AddVolume { container, host } => if self.has_volume(container, host) {
                Err(ErrorView::AlreadyExists { entity: Entity::Volume, key: container })
            } else {
                Ok(self.with_volume(container, host))
            },
            EditView::RemoveVolume { container, host } => if self.volumes is None {
                Err(ErrorView::NotFound { entity: Entity::Volumes, key: owner })
            } else if !self.has_volume(container, host) {
                Err(ErrorView::NotFound { entity: Entity::Volume, key: container })
            } else {
                Ok(self.without_volume(container, host))
            },
        }
    }
}

/// `r` and `post` are what `edit` makes of `pre`: the edited settings, or
/// the error with nothing changed.
pub open spec fn edit_outcome(
    pre: SettingsView,
    post: SettingsView,
    r: Result<(), ConfigError>,
    edit: EditView,
    owner: Seq<char>,
) -> bool {
    match pre.edited(edit, owner) {
        Ok(s) => r is Ok && post == s,
        Err(e) => r is Err && r->Err_0@ == e && post == pre,
    }
}

impl Service {
    /// Applies `edit`; on an error the service is unchanged.
    pub fn apply(&mut self, edit: Edit, owner: &str) -> (r: Result<(), ConfigError>)
        ensures
            edit_outcome(old(self)@, final(self)@, r, edit@, owner@),
    {
        match edit {
            Edit::Assign { which, value } => {
                self.put_setting(which, Some(value));
                Ok(())
            },
            Edit::Clear { which } => {
                if self.has_setting(which) {
                    self.put_setting(which, None);
                    Ok(())
                } else {
                    Err(not_found(which.as_entity(), owner))
                }
            },
            Edit::AddPort { host_port, container_port } => {
                if add_port_to(
                    &mut self.host_portmappings,
                    host_port.as_str(),
                    container_port.as_str(),
                ) {
                    Ok(())
                } else {
                    Err(already_exists(Entity::PortMapping, host_port.as_str()))
                }
            },
            Edit::RemovePort { host_port } => {
                match remove_port_from(&mut self.host_portmappings, host_port.as_str()) {
                    Removal::Removed => Ok(()),
                    Removal::NoTable => Err(not_found(Entity::PortMappings, owner)),
                    Removal::NoEntry => Err(not_found(Entity::PortMapping, host_port.as_str())),
                }
            },
            Edit::AddVolume { container, host } => {
                if add_volume_to(&mut self.volumes, container.as_str(), host.as_str()) {
                    Ok(())
                } else {
                    Err(already_exists(Entity::Volume, container.as_str()))
                }
            },
            Edit::RemoveVolume { container, host } => {
                match remove_volume_from(&mut self.volumes, container.as_str(), host.as_str()) {
                    Removal::Removed => Ok(()),
                    Removal::NoTable => Err(not_found(Entity::Volumes, owner)),
                    Removal::NoEntry => Err(not_found(Entity::Volume, container.as_str())),
                }
            },
        }
    }
}

impl Environment {
    /// Applies `edit`; on an error the environment is unchanged.
    pub fn apply(&mut self, edit: Edit, owner: &str) -> (r: Result<(), ConfigError>)
        ensures
            edit_outcome(old(self)@, final(self)@, r, edit@, owner@),
    {
        match edit {
            Edit::Assign { which, value } => {
                self.put_setting(which, Some(value));
                Ok(())
            },
            Edit::Clear { which } => {
                if self.has_setting(which) {
                    self.put_setting(which, None);
                    Ok(())
                } else {
                    Err(not_found(which.as_entity(), owner))
                }
            },
            Edit::AddPort { host_port, container_port } => {
                if add_port_to(
                    &mut self.host_portmappings,
                    host_port.as_str(),
                    container_port.as_str(),
                ) {
                    Ok(())
                } else {
                    Err(already_exists(Entity::PortMapping, host_port.as_str()))
                }
            },
            Edit::RemovePort { host_port } => {
                match remove_port_from(&mut self.host_portmappings, host_port.as_str()) {
                    Removal::Removed => Ok(()),
                    Removal::NoTable => Err(not_found(Entity::PortMappings, owner)),
                    Removal::NoEntry => Err(not_found(Entity::PortMapping, host_port.as_str())),
                }
            },
            Edit::AddVolume { container, host } => {
                if add_volume_to(&mut self.volumes, container.as_str(), host.as_str()) {
                    Ok(())
                } else {
                    Err(already_exists(Entity::Volume, container.as_str()))
                }
            },
            Edit::RemoveVolume { container, host } => {
                match remove_volume_from(&mut self.volumes, container.as_str(), host.as_str()) {
                    Removal::Removed => Ok(()),
                    Removal::NoTable => Err(not_found(Entity::Volumes, owner)),
                    Removal::NoEntry => Err(not_found(Entity::Volume, container.as_str())),
                }
            },
        }
    }
}

} // verus!
