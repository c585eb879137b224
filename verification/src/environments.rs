//! The store's operations on environments.

use vstd::prelude::*;
use vstd::string::StringExecFns;
use crate::edit::{Edit, EditView};
use crate::error::{ConfigError, Entity, is_not_found, is_already_exists, not_found};
use crate::model::{
    Config, ConfigView, Environment, Setting, SettingsView, entries_view, lemma_entries_view,
    lemma_put_view,
};
use crate::strmap::{StrMap, has_key, lemma_index_of, lemma_put_after_remove};

verus! {

impl Default for Config {
    fn default() -> (r: Config)
        ensures
            r@ == ConfigView::empty(),
    {
        Config {
            engine: None,
            podman_machine: None,
            domains: None,
            environments: None,
            urls_in_hosts: None,
        }
    }
}

impl EditView {
    /// Adding a port mapping or a volume brings the environment into being;
    /// every other edit wants it to exist.
    pub open spec fn creates_environment(self) -> bool {
        self is AddPort || self is AddVolume
    }

    /// What is reported as missing where the store has no table of
    /// environments at all.
    pub open spec fn absent_environments(self) -> Entity {
        if self is RemovePort || self is RemoveVolume {
            Entity::Environments
        } else {
            Entity::Environment
        }
    }
}

impl Edit {
    /// Whether the edit brings a missing environment into being.
    pub fn creates_environment(&self) -> (r: bool)
        ensures
            r == self@.creates_environment(),
    {
        match self {
            Edit::AddPort { .. } => true,
            Edit::AddVolume { .. } => true,
            _ => false,
        }
    }

    /// What is reported as missing where there is no table of environments.
    pub fn absent_environments(&self) -> (r: Entity)
        ensures
            r == self@.absent_environments(),
    {
        match self {
            Edit::RemovePort { .. } => Entity::Environments,
            Edit::RemoveVolume { .. } => Entity::Environments,
            _ => Entity::Environment,
        }
    }
}

/// What `edit` on the environment `name` makes of the store. Where the
/// environment exists, or the edit creates it, the edit is applied to it and
/// the store changes only on success. Otherwise the environment is reported
/// as not found.
pub open spec fn environment_edited(
    pre: ConfigView,
    post: ConfigView,
    r: Result<(), ConfigError>,
    name: Seq<char>,
    edit: EditView,
) -> bool {
    if pre.has_env(name) || edit.creates_environment() {
        match pre.env(name).edited(edit, name) {
            Ok(e) => r is Ok && post == pre.with_env(name, e),
            Err(x) => r is Err && r->Err_0@ == x && post == pre,
        }
    } else if pre.environments is None {
        is_not_found(r, edit.absent_environments(), name) && post == pre
    } else {
        is_not_found(r, Entity::Environment, name) && post == pre
    }
}

/// The store after giving `which` the value `value` in environment `name`,
/// which must exist.
pub open spec fn environment_setting_set(
    pre: ConfigView,
    post: ConfigView,
    r: Result<(), ConfigError>,
    name: Seq<char>,
    which: Setting,
    value: Seq<char>,
) -> bool {
    if pre.has_env(name) {
        r is Ok && post == pre.with_env(name, pre.env(name).with_setting(which, Some(value)))
    } else {
        is_not_found(r, Entity::Environment, name) && post == pre
    }
}

/// The store after clearing `which` in environment `name`: the environment
/// must exist and the setting must have a value.
pub open spec fn environment_setting_cleared(
    pre: ConfigView,
    post: ConfigView,
    r: Result<(), ConfigError>,
    name: Seq<char>,
    which: Setting,
) -> bool {
    if !pre.has_env(name) {
        is_not_found(r, Entity::Environment, name) && post == pre
    } else if pre.env(name).setting(which) is None {
        is_not_found(r, which.entity(), name) && post == pre
    } else {
        r is Ok && post == pre.with_env(name, pre.env(name).with_setting(which, None))
    }
}

/// The store after mapping `host_port` in environment `name`, which is
/// created where it is missing. A host port that is already mapped is
/// rejected, whatever container port it has.
pub open spec fn environment_port_added(
    pre: ConfigView,
    post: ConfigView,
    r: Result<(), ConfigError>,
    name: Seq<char>,
    host_port: Seq<char>,
    container_port: Seq<char>,
) -> bool {
    if pre.env(name).has_port(host_port) {
        is_already_exists(r, Entity::PortMapping, host_port) && post == pre
    } else {
        r is Ok && post == pre.with_env(name, pre.env(name).with_port(host_port, container_port))
    }
}

/// The store after dropping the mapping of `host_port` from environment
/// `name`.
pub open spec fn environment_port_removed(
    pre: ConfigView,
    post: ConfigView,
    r: Result<(), ConfigError>,
    name: Seq<char>,
    host_port: Seq<char>,
) -> bool {
    if pre.environments is None {
        is_not_found(r, Entity::Environments, name) && post == pre
    } else if !pre.has_env(name) {
        is_not_found(r, Entity::Environment, name) && post == pre
    } else if pre.env(name).host_portmappings is None {
        is_not_found(r, Entity::PortMappings, name) && post == pre
    } else if !pre.env(name).has_port(host_port) {
        is_not_found(r, Entity::PortMapping, host_port) && post == pre
    } else {
        r is Ok && post == pre.with_env(name, pre.env(name).without_port(host_port))
    }
}

/// The store after adding a volume to environment `name`, which is created
/// where it is missing. The same pair of paths twice is rejected.
pub open spec fn environment_volume_added(
    pre: ConfigView,
    post: ConfigView,
    r: Result<(), ConfigError>,
    name: Seq<char>,
    container: Seq<char>,
    host: Seq<char>,
) -> bool {
    if pre.env(name).has_volume(container, host) {
        is_already_exists(r, Entity::Volume, container) && post == pre
    } else {
        r is Ok && post == pre.with_env(name, pre.env(name).with_volume(container, host))
    }
}

/// The store after dropping the volumes with that pair of paths from
/// environment `name`.
pub open spec fn environment_volume_removed(
    pre: ConfigView,
    post: ConfigView,
    r: Result<(), ConfigError>,
    name: Seq<char>,
    container: Seq<char>,
    host: Seq<char>,
) -> bool {
    if pre.environments is None {
        is_not_found(r, Entity::Environments, name) && post == pre
    } else if !pre.has_env(name) {
        is_not_found(r, Entity::Environment, name) && post == pre
    } else if pre.env(name).volumes is None {
        is_not_found(r, Entity::Volumes, name) && post == pre
    } else if !pre.env(name).has_volume(container, host) {
        is_not_found(r, Entity::Volume, container) && post == pre
    } else {
        r is Ok && post == pre.with_env(name, pre.env(name).without_volume(container, host))
    }
}

impl Config {
    /// Applies `edit` to the environment called `name`.
    pub fn edit_environment(&mut self, name: &str, edit: Edit) -> (r: Result<(), ConfigError>)
        ensures
            environment_edited(old(self)@, final(self)@, r, name@, edit@),
    {
        let creates = edit.creates_environment();
        let absent = edit.absent_environments();
        let ghost pre = self@;
        let envs = match self.environments.take() {
            Some(e) => e,
            None => {
                if creates {
                    StrMap::new()
                } else {
                    return Err(not_found(absent, name));
                }
            },
        };
        envs.ordered();
        let ghost s = envs@;
        proof {
            lemma_entries_view(s);
            assert(entries_view(s) =~= pre.envs());
        }
        let (i, found) = envs.locate(name);
        if found {
            proof {
                lemma_index_of(s, i as int);
                lemma_index_of(entries_view(s), i as int);
            }
            let (envs, mut env) = envs.replace_at(i, Environment::default());
            let r = env.apply(edit, name);
            let (envs, _) = envs.replace_at(i, env);
            proof {
                assert(envs@ =~= s.update(i as int, (name@, env)));
                lemma_put_after_remove(entries_view(s), i as int, env@);
                assert(entries_view(envs@) =~= entries_view(s).update(i as int, (name@, env@)));
                if r is Err {
                    assert(entries_view(envs@) =~= entries_view(s));
                }
            }
            self.environments = Some(envs);
            r
        } else if creates {
            let mut env = Environment::default();
            let r = env.apply(edit, name);
            proof {
                assert(!has_key(SettingsView::empty().ports(), edit@->AddPort_host_port));
                assert(r is Ok);
                lemma_put_view(s, name@, env);
            }
            let (envs, _) = envs.insert(String::from_str(name), env);
            self.environments = Some(envs);
            r
        } else {
            self.environments = Some(envs);
            Err(not_found(Entity::Environment, name))
        }
    }

    /// Sets the command that serves an environment.
    pub fn set_serve_command(&mut self, env_name: &str, cmd: &str) -> (r: Result<(), ConfigError>)
        ensures
            environment_setting_set(
                old(self)@,
                final(self)@,
                r,
                env_name@,
                Setting::ServeCommand,
                cmd@,
            ),
    {
        self.edit_environment(
            env_name,
            Edit::Assign { which: Setting::ServeCommand, value: String::from_str(cmd) },
        )
    }

    /// Clears an environment's serve command.
    pub fn rm_serve_command(&mut self, env_name: &str) -> (r: Result<(), ConfigError>)
        ensures
            environment_setting_cleared(
                old(self)@,
                final(self)@,
                r,
                env_name@,
                Setting::ServeCommand,
            ),
    {
        self.edit_environment(env_name, Edit::Clear { which: Setting::ServeCommand })
    }

    /// Sets the repository that an environment takes its images from.
    pub fn set_image_repository(&mut self, env_name: &str, repo: &str) -> (r: Result<(), ConfigError>)
        ensures
            environment_setting_set(
                old(self)@,
                final(self)@,
                r,
                env_name@,
                Setting::ImageRepository,
                repo@,
            ),
    {
        self.edit_environment(
            env_name,
            Edit::Assign { which: Setting::ImageRepository, value: String::from_str(repo) },
        )
    }

    /// Clears an environment's image repository.
    pub fn rm_image_repository(&mut self, env_name: &str) -> (r: Result<(), ConfigError>)
        ensures
            environment_setting_cleared(
                old(self)@,
                final(self)@,
                r,
                env_name@,
                Setting::ImageRepository,
            ),
    {
        self.edit_environment(env_name, Edit::Clear { which: Setting::ImageRepository })
    }

    /// Sets an environment's platform, such as `linux/amd64`.
    pub fn set_platform(&mut self, env_name: &str, platform: &str) -> (r: Result<(), ConfigError>)
        ensures
            environment_setting_set(
                old(self)@,
                final(self)@,
                r,
                env_name@,
                Setting::Platform,
                platform@,
            ),
    {
        self.edit_environment(
            env_name,
            Edit::Assign { which: Setting::Platform, value: String::from_str(platform) },
        )
    }

    /// Clears an environment's platform.
    pub fn rm_platform(&mut self, env_name: &str) -> (r: Result<(), ConfigError>)
        ensures
            environment_setting_cleared(
                old(self)@,
                final(self)@,
                r,
                env_name@,
                Setting::Platform,
            ),
    {
        self.edit_environment(env_name, Edit::Clear { which: Setting::Platform })
    }

    /// Sets the image that an environment runs where none is given.
    pub fn set_default_container_image(&mut self, env_name: &str, image: &str) -> (r: Result<(), ConfigError>)
        ensures
            environment_setting_set(
                old(self)@,
                final(self)@,
                r,
                env_name@,
                Setting::DefaultContainerImage,
                image@,
            ),
    {
        self.edit_environment(
            env_name,
            Edit::Assign { which: Setting::DefaultContainerImage, value: String::from_str(image) },
        )
    }

    /// Clears an environment's default image.
    pub fn rm_default_container_image(&mut self, env_name: &str) -> (r: Result<(), ConfigError>)
        ensures
            environment_setting_cleared(
                old(self)@,
                final(self)@,
                r,
                env_name@,
                Setting::DefaultContainerImage,
            ),
    {
        self.edit_environment(env_name, Edit::Clear { which: Setting::DefaultContainerImage })
    }

    /// Maps a host port to a container port in an environment, creating the
    /// environment where it is missing.
    pub fn add_env_portmap(&mut self, env_name: &str, host_port: &str, container_port: &str) -> (r:
        Result<(), ConfigError>)
        ensures
            environment_port_added(
                old(self)@,
                final(self)@,
                r,
                env_name@,
                host_port@,
                container_port@,
            ),
    {
        self.edit_environment(
            env_name,
            Edit::AddPort {
                host_port: String::from_str(host_port),
                container_port: String::from_str(container_port),
            },
        )
    }

    /// Drops the mapping of a host port from an environment.
    pub fn rm_env_portmap(&mut self, env_name: &str, host_port: &str) -> (r: Result<
        (),
        ConfigError,
    >)
        ensures
            environment_port_removed(old(self)@, final(self)@, r, env_name@, host_port@),
    {
        self.edit_environment(env_name, Edit::RemovePort { host_port: String::from_str(host_port) })
    }

    /// Adds a volume to an environment, creating the environment where it is
    /// missing.
    pub fn add_volume(&mut self, env_name: &str, container_dir: &str, host_dir: &str) -> (r: Result<
        (),
        ConfigError,
    >)
        ensures
            environment_volume_added(
                old(self)@,
                final(self)@,
                r,
                env_name@,
                container_dir@,
                host_dir@,
            ),
    {
        self.edit_environment(
            env_name,
            Edit::AddVolume {
                container: String::from_str(container_dir),
                host: String::from_str(host_dir),
            },
        )
    }

    /// Drops a volume from an environment.
    pub fn rm_volume(&mut self, env_name: &str, container_dir: &str, host_dir: &str) -> (r: Result<
        (),
        ConfigError,
    >)
        ensures
            environment_volume_removed(
                old(self)@,
                final(self)@,
                r,
                env_name@,
                container_dir@,
                host_dir@,
            ),
    {
        self.edit_environment(
            env_name,
            Edit::RemoveVolume {
                container: String::from_str(container_dir),
                host: String::from_str(host_dir),
            },
        )
    }
}

} // verus!
