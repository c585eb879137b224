//! The store's global settings, and the configuration commands as values.

use vstd::prelude::*;
use vstd::string::StringExecFns;
use crate::domains::{domain_added, domain_removed};
use crate::edit::{Edit, EditView};
use crate::engine::{EngineKind, kind_of, kind_of_word};
use crate::environments::environment_edited;
use crate::error::{ConfigError, ErrorView, Grammar, invalid_input};
use crate::model::{Config, ConfigView};
use crate::resolve::{flag_of, is_result};
use crate::services::service_edited;
use crate::model::Setting;
use crate::slug::{slug, slugify_name};
use crate::text::{join_all, joined_all, lowercase_text, lowercased, slices, trim_blank};

verus! {

/// The store after naming the engine by `word`, the name in lower case:
/// `podman` and `docker` are taken, anything else is invalid input, reported
/// as it was given.
pub open spec fn engine_set(
    pre: ConfigView,
    post: ConfigView,
    r: Result<(), ConfigError>,
    word: Seq<char>,
    given: Seq<char>,
) -> bool {
    if kind_of(Some(word)) == EngineKind::Unset {
        r is Err && r->Err_0@ == (ErrorView::InvalidInput {
            value: given,
            grammar: Grammar::EngineName,
        }) && post == pre
    } else {
        r is Ok && post == (ConfigView { engine: Some(word), ..pre })
    }
}

/// The store after reading `value` as a flag for mirroring the host names
/// into the system's hosts file.
pub open spec fn urls_in_hosts_set(
    pre: ConfigView,
    post: ConfigView,
    r: Result<bool, ConfigError>,
    word: Seq<char>,
    given: Seq<char>,
) -> bool {
    &&& is_result(r, flag_of(word, given))
    &&& match r {
        Ok(flag) => post == (ConfigView { urls_in_hosts: Some(flag), ..pre }),
        Err(_) => post == pre,
    }
}

impl Config {
    /// Names the engine by a word that is already in lower case.
    pub fn set_engine_word(&mut self, word: String, given: &str) -> (r: Result<(), ConfigError>)
        ensures
            engine_set(old(self)@, final(self)@, r, word@, given@),
    {
        match kind_of_word(word.as_str()) {
            EngineKind::Unset => Err(invalid_input(given, Grammar::EngineName)),
            _ => {
                self.engine = Some(word);
                Ok(())
            },
        }
    }

    /// Names the container engine, `podman` or `docker` in any case; the
    /// store keeps the name in lower case.
    pub fn set_engine(&mut self, engine: &str) -> (r: Result<(), ConfigError>)
        ensures
            engine_set(old(self)@, final(self)@, r, lowercased(engine@), engine@),
    {
        let word = lowercase_text(engine);
        self.set_engine_word(word, engine)
    }

    /// Names the podman machine that must be running.
    pub fn set_podman_machine(&mut self, name: &str)
        ensures
            final(self)@ == (ConfigView { podman_machine: Some(name@), ..old(self)@ }),
    {
        self.podman_machine = Some(String::from_str(name));
    }

    /// Forgets the podman machine.
    pub fn rm_podman_machine(&mut self)
        ensures
            final(self)@ == (ConfigView { podman_machine: None, ..old(self)@ }),
    {
        self.podman_machine = None;
    }

    /// Switches the mirroring of host names into the system's hosts file on
    /// or off, and says which.
    pub fn set_urls_in_hosts(&mut self, value: &str) -> (r: Result<bool, ConfigError>)
        ensures
            urls_in_hosts_set(
                old(self)@,
                final(self)@,
                r,
                lowercased(trim_blank(value@)),
                value@,
            ),
    {
        match self.parse_bool(value) {
            Ok(flag) => {
                self.urls_in_hosts = Some(flag);
                Ok(flag)
            },
            Err(e) => Err(e),
        }
    }

    /// Whether the host names are mirrored into the system's hosts file;
    /// they are not unless the store says so.
    pub fn mirrors_urls(&self) -> (r: bool)
        ensures
            r == (self@.urls_in_hosts == Some(true)),
    {
        match self.urls_in_hosts {
            Some(flag) => flag,
            None => false,
        }
    }
}

/// A configuration command.
#[derive(Clone, Debug, PartialEq, Eq)]
pub enum ConfigCommand {
    SetEngine { engine: String },
    SetPodmanMachine { name: String },
    RemovePodmanMachine,
    SetUrlsInHosts { value: String },
    /// Register the directory at the canonical path `location`, whose final
    /// path segment is `label`.
    AddDomain { label: String, location: String },
    RemoveDomain { name: String },
    EditEnvironment { name: String, edit: Edit },
    EditService { domain: String, service: String, edit: Edit },
}

/// A command with its texts as sequences of characters.
pub enum CommandView {
    SetEngine { engine: Seq<char> },
    SetPodmanMachine { name: Seq<char> },
    RemovePodmanMachine,
    SetUrlsInHosts { value: Seq<char> },
    AddDomain { label: Seq<char>, location: Seq<char> },
    RemoveDomain { name: Seq<char> },
    EditEnvironment { name: Seq<char>, edit: EditView },
    EditService { domain: Seq<char>, service: Seq<char>, edit: EditView },
}

impl View for ConfigCommand {
    type V = CommandView;

    open spec fn view(&self) -> CommandView {
        match *self {
            ConfigCommand::SetEngine { engine } => CommandView::SetEngine { engine: engine@ },
            ConfigCommand::SetPodmanMachine { name } => CommandView::SetPodmanMachine {
                name: name@,
            },
            ConfigCommand::RemovePodmanMachine => CommandView::RemovePodmanMachine,
            ConfigCommand::SetUrlsInHosts { value } => CommandView::SetUrlsInHosts {
                value: value@,
            },
            ConfigCommand::AddDomain { label, location } => CommandView::AddDomain {
                label: label@,
                location: location@,
            },
            ConfigCommand::RemoveDomain { name } => CommandView::RemoveDomain { name: name@ },
            ConfigCommand::EditEnvironment { name, edit } => CommandView::EditEnvironment {
                name: name@,
                edit: edit@,
            },
            ConfigCommand::EditService { domain, service, edit } => CommandView::EditService {
                domain: domain@,
                service: service@,
                edit: edit@,
            },
        }
    }
}

/// What a command makes of the store: each command is the operation of the
/// same name. An error leaves the store as it was; only after `Ok` is there
/// anything new to write to disk.
pub open spec fn executed(
    pre: ConfigView,
    post: ConfigView,
    r: Result<(), ConfigError>,
    cmd: CommandView,
) -> bool {
    match cmd {
        CommandView::SetEngine { engine } => engine_set(pre, post, r, lowercased(engine), engine),
        CommandView::SetPodmanMachine { name } => r is Ok && post == (ConfigView {
            podman_machine: Some(name),
            ..pre
        }),
        CommandView::RemovePodmanMachine => r is Ok && post == (ConfigView {
            podman_machine: None,
            ..pre
        }),
        CommandView::SetUrlsInHosts { value } => match flag_of(lowercased(trim_blank(value)), value) {
            Ok(flag) => r is Ok && post == (ConfigView { urls_in_hosts: Some(flag), ..pre }),
            Err(e) => r is Err && r->Err_0@ == e && post == pre,
        },
        CommandView::AddDomain { label, location } => domain_added(pre, post, r, label, location),
        CommandView::RemoveDomain { name } => domain_removed(pre, post, r, name),
        CommandView::EditEnvironment { name, edit } => environment_edited(
            pre,
            post,
            r,
            name,
            edit,
        ),
        CommandView::EditService { domain, service, edit } => service_edited(
            pre,
            post,
            r,
            domain,
            service,
            edit,
        ),
    }
}

impl Config {
    /// Carries a configuration command out.
    pub fn execute(&mut self, cmd: ConfigCommand) -> (r: Result<(), ConfigError>)
        ensures
            executed(old(self)@, final(self)@, r, cmd@),
    {
        match cmd {
            ConfigCommand::SetEngine { engine } => self.set_engine(engine.as_str()),
            ConfigCommand::SetPodmanMachine { name } => {
                self.set_podman_machine(name.as_str());
                Ok(())
            },
            ConfigCommand::RemovePodmanMachine => {
                self.rm_podman_machine();
                Ok(())
            },
            ConfigCommand::SetUrlsInHosts { value } => {
                match self.set_urls_in_hosts(value.as_str()) {
                    Ok(_) => Ok(()),
                    Err(e) => Err(e),
                }
            },
            ConfigCommand::AddDomain { label, location } => self.add_domain(
                label.as_str(),
                location.as_str(),
            ),
            ConfigCommand::RemoveDomain { name } => self.rm_domain(name.as_str()),
            ConfigCommand::EditEnvironment { name, edit } => self.edit_environment(
                name.as_str(),
                edit,
            ),
            ConfigCommand::EditService { domain, service, edit } => self.edit_service(
                domain.as_str(),
                service.as_str(),
                edit,
            ),
        }
    }
}

impl Setting {
    /// The setting's name in the configuration file.
    pub open spec fn label(self) -> Seq<char> {
        match self {
            Setting::ServeCommand => "serve_command"@,
            Setting::ImageRepository => "image_repository"@,
            Setting::Platform => "platform"@,
            Setting::DefaultContainerImage => "default_container_image"@,
        }
    }

    /// The setting's name in the configuration file.
    pub fn label_text(self) -> (r: &'static str)
        ensures
            r@ == self.label(),
    {
        match self {
            Setting::ServeCommand => "serve_command",
            Setting::ImageRepository => "image_repository",
            Setting::Platform => "platform",
            Setting::DefaultContainerImage => "default_container_image",
        }
    }
}

/// What an edit that went through says of itself. `whose` names the owner,
/// an environment or a service, with a word before it and one behind: for
/// an environment `environment 'dev'`, for a service `'shop.web'`. Clearing
/// a setting says nothing.
pub open spec fn edit_notice(edit: EditView, whose: Seq<Seq<char>>, is_service: bool) -> Option<
    Seq<Seq<char>>,
> {
    match edit {
        EditView::Assign { which, value } => Some(
            seq!["Set "@, which.label(), " for "@, if is_service {
                "service "@
            } else {
                ""@
            }] + whose + seq![" to:\n  "@, value],
        ),
        EditView::Clear { which } => None,
        EditView::AddPort { host_port, container_port } => Some(
            seq!["Created portmapping for "@] + whose + seq![
                " ("@,
                host_port,
                ":"@,
                container_port,
                ")"@,
            ],
        ),
        EditView::RemovePort { host_port } => Some(
            seq!["Removed portmapping for "@] + whose + seq![" ("@, host_port, ":____)"@],
        ),
        EditView::AddVolume { container, host } => Some(
            seq!["Added volume to "@, if is_service {
                "service "@
            } else {
                ""@
            }] + whose + seq![": "@, host, " -> "@, container],
        ),
        EditView::RemoveVolume { container, host } => Some(
            seq!["Removed volume from "@, if is_service {
                "service "@
            } else {
                ""@
            }] + whose + seq![": "@, host, " -> "@, container],
        ),
    }
}

/// What a command that went through tells the user, in pieces. `path` is
/// where the store is kept and `flag` the flag that it now holds.
pub open spec fn notice_parts(cmd: CommandView, path: Seq<char>, flag: Option<bool>) -> Option<
    Seq<Seq<char>>,
> {
    match cmd {
        CommandView::SetEngine { engine } => Some(
            seq!["Engine set. New Darp invocations will use this container engine."@],
        ),
        CommandView::SetPodmanMachine { name } => Some(
            seq!["PODMAN_MACHINE set to '"@, name, "' in config ("@, path, ")."@],
        ),
        CommandView::RemovePodmanMachine => None,
        CommandView::SetUrlsInHosts { value } => Some(
            seq![
                "urls_in_hosts has been "@,
                if flag == Some(true) {
                    "enabled"@
                } else {
                    "disabled"@
                },
                " (stored in "@,
                path,
                "). Next 'darp deploy' will sync /etc/hosts accordingly."@,
            ],
        ),
        CommandView::AddDomain { label, location } => Some(
            seq!["created '"@, slug(label), "' at "@, location],
        ),
        CommandView::RemoveDomain { name } => Some(seq!["removed '"@, name, "'"@]),
        CommandView::EditEnvironment { name, edit } => edit_notice(
            edit,
            seq!["environment '"@, name, "'"@],
            false,
        ),
        CommandView::EditService { domain, service, edit } => edit_notice(
            edit,
            seq!["'"@, domain, "."@, service, "'"@],
            true,
        ),
    }
}

/// The notice as one text.
pub open spec fn notice_of(cmd: CommandView, path: Seq<char>, flag: Option<bool>) -> Option<
    Seq<char>,
> {
    match notice_parts(cmd, path, flag) {
        Some(p) => Some(joined_all(p)),
        None => None,
    }
}

fn push_piece<'a>(parts: &mut Vec<&'a str>, s: &'a str)
    ensures
        slices(final(parts)@) == slices(old(parts)@).push(s@),
{
    let ghost before = slices(parts@);
    parts.push(s);
    assert(slices(parts@) =~= before.push(s@));
}

fn push_owner<'a>(parts: &mut Vec<&'a str>, whose: &Vec<&'a str>)
    ensures
        slices(final(parts)@) == slices(old(parts)@) + slices(whose@),
{
    let ghost before = slices(parts@);
    let n: usize = whose.len();
    let mut i: usize = 0;
    assert(before + slices(whose@).take(0) =~= before);
    while i < n
        invariant
            n == whose@.len(),
            i <= n,
            slices(parts@) == before + slices(whose@).take(i as int),
        decreases n - i,
    {
        push_piece(parts, whose[i]);
        assert(slices(parts@) =~= before + slices(whose@).take(i + 1));
        i = i + 1;
    }
    assert(slices(whose@).take(n as int) =~= slices(whose@));
}

fn edit_pieces<'a>(edit: &'a Edit, whose: &Vec<&'a str>, is_service: bool) -> (r: Option<
    Vec<&'a str>,
>)
    ensures
        match edit_notice(edit@, slices(whose@), is_service) {
            Some(p) => r is Some && slices(r->0@) == p,
            None => r is None,
        },
{
    let mut parts: Vec<&'a str> = Vec::new();
    assert(slices(parts@) =~= Seq::<Seq<char>>::empty());
    let word: &'static str = if is_service {
        "service "
    } else {
        ""
    };
    match edit {
        Edit::Assign { which, value } => {
            push_piece(&mut parts, "Set ");
            push_piece(&mut parts, which.label_text());
            push_piece(&mut parts, " for ");
            push_piece(&mut parts, word);
            push_owner(&mut parts, whose);
            push_piece(&mut parts, " to:\n  ");
            push_piece(&mut parts, value.as_str());
            assert(slices(parts@) =~= edit_notice(edit@, slices(whose@), is_service)->0);
            Some(parts)
        },
        Edit::Clear { .. } => None,
        Edit::AddPort { host_port, container_port } => {
            push_piece(&mut parts, "Created portmapping for ");
            push_owner(&mut parts, whose);
            push_piece(&mut parts, " (");
            push_piece(&mut parts, host_port.as_str());
            push_piece(&mut parts, ":");
            push_piece(&mut parts, container_port.as_str());
            push_piece(&mut parts, ")");
            assert(slices(parts@) =~= edit_notice(edit@, slices(whose@), is_service)->0);
            Some(parts)
        },
        Edit::RemovePort { host_port } => {
            push_piece(&mut parts, "Removed portmapping for ");
            push_owner(&mut parts, whose);
            push_piece(&mut parts, " (");
            push_piece(&mut parts, host_port.as_str());
            push_piece(&mut parts, ":____)");
            assert(slices(parts@) =~= edit_notice(edit@, slices(whose@), is_service)->0);
            Some(parts)
        },
        Edit::AddVolume { container, host } => {
            push_piece(&mut parts, "Added volume to ");
            push_piece(&mut parts, word);
            push_owner(&mut parts, whose);
            push_piece(&mut parts, ": ");
            push_piece(&mut parts, host.as_str());
            push_piece(&mut parts, " -> ");
            push_piece(&mut parts, container.as_str());
            assert(slices(parts@) =~= edit_notice(edit@, slices(whose@), is_service)->0);
            Some(parts)
        },
        Edit::RemoveVolume { container, host } => {
            push_piece(&mut parts, "Removed volume from ");
            push_piece(&mut parts, word);
            push_owner(&mut parts, whose);
            push_piece(&mut parts, ": ");
            push_piece(&mut parts, host.as_str());
            push_piece(&mut parts, " -> ");
            push_piece(&mut parts, container.as_str());
            assert(slices(parts@) =~= edit_notice(edit@, slices(whose@), is_service)->0);
            Some(parts)
        },
    }
}

impl ConfigCommand {
    /// What to tell the user once the command has gone through. `after` is
    /// the store that the command left.
    pub fn notice(&self, config_path: &str, after: &Config) -> (r: Option<String>)
        ensures
            match notice_of(self@, config_path@, after@.urls_in_hosts) {
                Some(t) => r is Some && r->0@ == t,
                None => r is None,
            },
    {
        let mut parts: Vec<&str> = Vec::new();
        assert(slices(parts@) =~= Seq::<Seq<char>>::empty());
        let slug_name: String;
        match self {
            ConfigCommand::SetEngine { .. } => {
                push_piece(
                    &mut parts,
                    "Engine set. New Darp invocations will use this container engine.",
                );
            },
            ConfigCommand::SetPodmanMachine { name } => {
                push_piece(&mut parts, "PODMAN_MACHINE set to '");
                push_piece(&mut parts, name.as_str());
                push_piece(&mut parts, "' in config (");
                push_piece(&mut parts, config_path);
                push_piece(&mut parts, ").");
            },
            ConfigCommand::RemovePodmanMachine => {
                return None;
            },
            ConfigCommand::SetUrlsInHosts { .. } => {
                push_piece(&mut parts, "urls_in_hosts has been ");
                push_piece(
                    &mut parts,
                    if after.mirrors_urls() {
                        "enabled"
                    } else {
                        "disabled"
                    },
                );
                push_piece(&mut parts, " (stored in ");
                push_piece(&mut parts, config_path);
                push_piece(&mut parts, "). Next 'darp deploy' will sync /etc/hosts accordingly.");
            },
            ConfigCommand::AddDomain { label, location } => {
                slug_name = slugify_name(label.as_str());
                push_piece(&mut parts, "created '");
                push_piece(&mut parts, slug_name.as_str());
                push_piece(&mut parts, "' at ");
                push_piece(&mut parts, location.as_str());
            },
            ConfigCommand::RemoveDomain { name } => {
                push_piece(&mut parts, "removed '");
                push_piece(&mut parts, name.as_str());
                push_piece(&mut parts, "'");
            },
            ConfigCommand::EditEnvironment { name, edit } => {
                let mut whose: Vec<&str> = Vec::new();
                assert(slices(whose@) =~= Seq::<Seq<char>>::empty());
                push_piece(&mut whose, "environment '");
                push_piece(&mut whose, name.as_str());
                push_piece(&mut whose, "'");
                assert(slices(whose@) =~= seq!["environment '"@, name@, "'"@]);
                match edit_pieces(edit, &whose, false) {
                    Some(p) => {
                        parts = p;
                    },
                    None => {
                        return None;
                    },
                }
            },
            ConfigCommand::EditService { domain, service, edit } => {
                let mut whose: Vec<&str> = Vec::new();
                assert(slices(whose@) =~= Seq::<Seq<char>>::empty());
                push_piece(&mut whose, "'");
                push_piece(&mut whose, domain.as_str());
                push_piece(&mut whose, ".");
                push_piece(&mut whose, service.as_str());
                push_piece(&mut whose, "'");
                assert(slices(whose@) =~= seq!["'"@, domain@, "."@, service@, "'"@]);
                match edit_pieces(edit, &whose, true) {
                    Some(p) => {
                        parts = p;
                    },
                    None => {
                        return None;
                    },
                }
            },
        }
        assert(slices(parts@) =~= notice_parts(self@, config_path@, after@.urls_in_hosts)->0);
        Some(join_all(&parts))
    }
}

} // verus!
