//! Starting a service's container: what is resolved for the folder that the
//! user stands in, and the engine's command line that comes of it.

use vstd::prelude::*;
use vstd::string::StringExecFns;
use crate::engine::EngineKind;
use crate::error::{ConfigError, Entity, ErrorView, not_found, unmet};
use crate::model::{
    Config, ConfigView, Domain, Environment, Service, Setting, SettingsView, Volume, VolumeView,
    entries_view, volumes_view, lemma_lookup_view,
};
use crate::paths::DarpPaths;
use crate::resolve::{
    base_image, effective_ports, effective_setting, effective_volumes, host_path, image_advice,
    image_advice_text, image_name, resolve_ports, resolve_setting, resolve_volumes, serve_advice,
    serve_advice_text, str_of,
};
use crate::strmap::{StrMap, lookup};
use crate::text::{
    chars_of, concat2, concat3, decimal, decimal_text, push_text, take_until, texts, until,
};

verus! {

/// Where the user stands.
#[derive(Clone, Debug, PartialEq, Eq)]
pub struct Workspace {
    /// The current directory.
    pub current_dir: String,
    /// The final segment of the current directory: the service folder.
    pub folder: String,
    /// The canonical path of the directory above: the domain's location.
    pub parent_key: String,
    /// The user's home directory.
    pub home: String,
}

/// A workspace with its texts as sequences of characters.
pub struct WorkspaceView {
    pub current_dir: Seq<char>,
    pub folder: Seq<char>,
    pub parent_key: Seq<char>,
    pub home: Seq<char>,
}

impl View for Workspace {
    type V = WorkspaceView;

    open spec fn view(&self) -> WorkspaceView {
        WorkspaceView {
            current_dir: self.current_dir@,
            folder: self.folder@,
            parent_key: self.parent_key@,
            home: self.home@,
        }
    }
}

/// A host port with the container port that it leads to.
#[derive(Clone, Debug, PartialEq, Eq)]
pub struct PortPair {
    pub host_port: String,
    pub container_port: String,
}

/// What a run of the service folder uses.
#[derive(Clone, Debug, PartialEq, Eq)]
pub struct RunTarget {
    /// The domain's name.
    pub domain: String,
    pub folder: String,
    /// The environment's name, as it was given.
    pub environment: Option<String>,
    /// The effective volumes, their host paths filled in.
    pub mounts: Vec<Volume>,
    /// The host paths of the effective volumes as they are configured, for
    /// naming a volume to the user.
    pub mount_sources: Vec<String>,
    /// The effective port mappings, in the order of host ports.
    pub ports: Vec<PortPair>,
    pub platform: Option<String>,
    /// The effective serve command, where the run serves.
    pub serve_command: Option<String>,
    /// The image to run, where one could be resolved.
    pub image: Option<String>,
}

/// A run target with its texts as sequences of characters.
pub struct RunTargetView {
    pub domain: Seq<char>,
    pub folder: Seq<char>,
    pub environment: Option<Seq<char>>,
    pub mounts: Seq<VolumeView>,
    pub mount_sources: Seq<Seq<char>>,
    pub ports: Seq<(Seq<char>, Seq<char>)>,
    pub platform: Option<Seq<char>>,
    pub serve_command: Option<Seq<char>>,
    pub image: Option<Seq<char>>,
}

/// The port pairs of a list, by their texts.
pub open spec fn pairs_view(v: Seq<PortPair>) -> Seq<(Seq<char>, Seq<char>)> {
    Seq::new(v.len(), |i: int| (v[i].host_port@, v[i].container_port@))
}

impl View for RunTarget {
    type V = RunTargetView;

    open spec fn view(&self) -> RunTargetView {
        RunTargetView {
            domain: self.domain@,
            folder: self.folder@,
            environment: crate::model::text_opt(self.environment),
            mounts: volumes_view(self.mounts@),
            mount_sources: texts(self.mount_sources@),
            ports: pairs_view(self.ports@),
            platform: crate::model::text_opt(self.platform),
            serve_command: crate::model::text_opt(self.serve_command),
            image: crate::model::text_opt(self.image),
        }
    }
}

/// The volumes with the tokens of their host paths filled in.
pub open spec fn mounts_of(
    volumes: Option<Seq<VolumeView>>,
    current_dir: Seq<char>,
    home: Seq<char>,
) -> Seq<VolumeView> {
    match volumes {
        Some(v) => Seq::new(
            v.len(),
            |i: int|
                VolumeView {
                    container: v[i].container,
                    host: host_path(v[i].host, current_dir, home),
                },
        ),
        None => Seq::empty(),
    }
}

/// The host paths of the volumes as they are configured.
pub open spec fn sources_of(volumes: Option<Seq<VolumeView>>) -> Seq<Seq<char>> {
    match volumes {
        Some(v) => Seq::new(v.len(), |i: int| v[i].host),
        None => Seq::empty(),
    }
}

/// The port mappings as a list, none where there is no table.
pub open spec fn pairs_of(ports: Option<Seq<(Seq<char>, Seq<char>)>>) -> Seq<
    (Seq<char>, Seq<char>),
> {
    match ports {
        Some(p) => p,
        None => Seq::empty(),
    }
}

/// The image that a run uses: the base image under the repository, or
/// nothing where no base image is configured or given.
pub open spec fn run_image(
    given: Option<Seq<char>>,
    service: Option<SettingsView>,
    environment: Option<SettingsView>,
) -> Option<Seq<char>> {
    match base_image(given, service, environment) {
        Some(b) => Some(image_name(service, environment, b)),
        None => None,
    }
}

/// What to tell a user who names an environment that is not there.
pub open spec fn environment_advice(environment_name: Option<Seq<char>>) -> Seq<char> {
    "Environment '"@ + (match environment_name {
        Some(n) => n,
        None => Seq::empty(),
    }) + "' does not exist."@
}

/// What to tell a user who has no engine configured.
pub open spec fn engine_advice() -> Seq<char> {
    "No container engine is configured.\nUse 'darp set engine podman' or 'darp set engine docker'."@
}

/// The word of the command that a run belongs to.
pub open spec fn command_word(t: RunTargetView) -> Seq<char> {
    if t.serve_command is Some {
        "serve"@
    } else {
        "shell"@
    }
}

/// What a run resolves to. The environment is looked up by name; serving
/// wants it to exist, a shell goes on without it. The domain is the one whose
/// location is the directory above, the service the one named like the
/// current folder. Serving wants a serve command in one of the two tiers.
pub open spec fn target_of(
    c: ConfigView,
    serve: bool,
    environment_name: Option<Seq<char>>,
    given_image: Option<Seq<char>>,
    ws: WorkspaceView,
) -> Result<RunTargetView, ErrorView> {
    let env = match environment_name {
        Some(n) => lookup(c.envs(), n),
        None => None,
    };
    if serve && env is None {
        Err(
            ErrorView::PreconditionFailed {
                entity: Entity::Environment,
                detail: environment_advice(environment_name),
            },
        )
    } else {
        match lookup(c.doms(), ws.parent_key) {
            None => Err(
                ErrorView::NotFound { entity: Entity::DomainLocation, key: ws.parent_key },
            ),
            Some(d) => {
                let svc = lookup(d.svcs(), ws.folder);
                let cmd = effective_setting(svc, env, Setting::ServeCommand);
                if serve && cmd is None {
                    Err(
                        ErrorView::PreconditionFailed {
                            entity: Entity::ServeCommand,
                            detail: serve_advice(d.name, ws.folder, environment_name->0),
                        },
                    )
                } else {
                    Ok(
                        RunTargetView {
                            domain: d.name,
                            folder: ws.folder,
                            environment: environment_name,
                            mounts: mounts_of(
                                effective_volumes(svc, env),
                                ws.current_dir,
                                ws.home,
                            ),
                            mount_sources: sources_of(effective_volumes(svc, env)),
                            ports: pairs_of(effective_ports(svc, env)),
                            platform: effective_setting(svc, env, Setting::Platform),
                            serve_command: if serve {
                                cmd
                            } else {
                                None
                            },
                            image: run_image(given_image, svc, env),
                        },
                    )
                }
            },
        }
    }
}

/// The container's name.
pub open spec fn container_name(domain: Seq<char>, folder: Seq<char>) -> Seq<char> {
    "darp_"@ + domain + "_"@ + folder
}

/// The arguments that name a platform to the engine. Docker takes it whole;
/// podman takes the part before the first `/` as the system and the part
/// behind it, up to the next `/`, as the architecture, or the whole as the
/// architecture where there is no `/`.
pub open spec fn platform_args(kind: EngineKind, platform: Seq<char>) -> Seq<Seq<char>> {
    match kind {
        EngineKind::Docker => seq!["--platform"@, platform],
        EngineKind::Podman => {
            let os = until(platform, '/');
            if os.len() < platform.len() {
                seq!["--os"@, os, "--arch"@, until(platform.skip(os.len() as int + 1), '/')]
            } else {
                seq!["--arch"@, platform]
            }
        },
        EngineKind::Unset => Seq::empty(),
    }
}

/// The two arguments `flag` and `left:right`.
pub open spec fn pair_arg(flag: Seq<char>, left: Seq<char>, right: Seq<char>) -> Seq<Seq<char>> {
    seq![flag, left + ":"@ + right]
}

/// `flag` and `left:right`, for each pair in turn.
pub open spec fn pair_args(flag: Seq<char>, items: Seq<(Seq<char>, Seq<char>)>) -> Seq<Seq<char>>
    decreases items.len(),
{
    if items.len() == 0 {
        Seq::empty()
    } else {
        pair_args(flag, items.drop_last()) + pair_arg(flag, items.last().0, items.last().1)
    }
}

/// Each mount as the pair of its host path and its container path.
pub open spec fn mount_pairs(mounts: Seq<VolumeView>) -> Seq<(Seq<char>, Seq<char>)> {
    Seq::new(mounts.len(), |i: int| (mounts[i].host, mounts[i].container))
}

/// What every run begins with; a shell gets a terminal.
pub open spec fn base_args(serve: bool, name: Seq<char>) -> Seq<Seq<char>> {
    if serve {
        seq!["run"@, "--rm"@, "--name"@, name]
    } else {
        seq!["run"@, "--rm"@, "-it"@, "--name"@, name]
    }
}

/// The mounts that every run has: the folder itself, the hosts fragment and
/// the two proxy configurations.
pub open spec fn fixed_mounts(current_dir: Seq<char>, paths: DarpPaths) -> Seq<Seq<char>> {
    pair_arg("-v"@, current_dir, "/app"@) + pair_arg(
        "-v"@,
        paths.hosts_container_path@,
        "/etc/hosts"@,
    ) + pair_arg("-v"@, paths.nginx_conf_path@, "/etc/nginx/nginx.conf"@) + pair_arg(
        "-v"@,
        paths.vhost_container_conf@,
        "/etc/nginx/http.d/vhost_container.conf"@,
    )
}

/// What a shell runs: the proxy inside the container, then the shell.
pub open spec fn shell_script() -> Seq<char> {
    "if command -v nginx >/dev/null 2>&1; then\n    echo \"Starting nginx...\"; nginx;\nelse\n    echo \"nginx not found, skipping\";\nfi;\necho \"\";\necho \"To leave this shell and stop the container, type: $(printf '\\033[33m')exit$(printf '\\033[0m')\"\necho \"\";\ncd /app; exec sh"@
}

/// What serving runs: the proxy inside the container, then the command.
pub open spec fn serve_script(command: Seq<char>) -> Seq<char> {
    "if command -v nginx >/dev/null 2>&1; then\n    echo \"Starting nginx...\"; nginx;\nelse\n    echo \"nginx not found, skipping\";\nfi;\ncd /app; "@
        + command
}

/// What runs inside the container.
pub open spec fn inner_script(t: RunTargetView) -> Seq<char> {
    match t.serve_command {
        Some(c) => serve_script(c),
        None => shell_script(),
    }
}

/// The arguments for the platform, none where no platform is set.
pub open spec fn platform_part(kind: EngineKind, platform: Option<Seq<char>>) -> Seq<Seq<char>> {
    match platform {
        Some(p) => platform_args(kind, p),
        None => Seq::empty(),
    }
}

/// The engine's arguments for a run of `t` behind reverse-proxy port `port`,
/// with the image `image`.
pub open spec fn run_args(
    t: RunTargetView,
    kind: EngineKind,
    paths: DarpPaths,
    current_dir: Seq<char>,
    port: u64,
    image: Seq<char>,
) -> Seq<Seq<char>> {
    base_args(t.serve_command is Some, container_name(t.domain, t.folder)) + fixed_mounts(
        current_dir,
        paths,
    ) + pair_args("-v"@, mount_pairs(t.mounts)) + pair_args("-p"@, t.ports) + platform_part(
        kind,
        t.platform,
    ) + pair_arg("-p"@, decimal(port as nat), "8000"@) + seq![
        image,
        "sh"@,
        "-c"@,
        inner_script(t),
    ]
}

/// A program with its arguments.
#[derive(Clone, Debug, PartialEq, Eq)]
pub struct RunCommand {
    pub program: String,
    pub args: Vec<String>,
}

/// The command for a run, or why there is none: no engine, no port assigned
/// to the folder yet, no image.
pub open spec fn command_of(
    t: RunTargetView,
    kind: EngineKind,
    paths: DarpPaths,
    current_dir: Seq<char>,
    port: Option<u64>,
) -> Result<(Seq<char>, Seq<Seq<char>>), ErrorView> {
    if kind.bin_name() is None {
        Err(ErrorView::PreconditionFailed { entity: Entity::Engine, detail: engine_advice() })
    } else if port is None {
        Err(ErrorView::NotFound { entity: Entity::Port, key: t.folder })
    } else if t.image is None {
        Err(
            ErrorView::PreconditionFailed {
                entity: Entity::Image,
                detail: image_advice(t.environment, t.domain, t.folder, command_word(t)),
            },
        )
    } else {
        Ok((kind.bin_name()->0, run_args(t, kind, paths, current_dir, port->0, t.image->0)))
    }
}

/// Appends the arguments that name `platform` to the engine.
pub fn add_platform_args(args: &mut Vec<String>, kind: EngineKind, platform: &str)
    ensures
        texts(final(args)@) == texts(old(args)@) + platform_args(kind, platform@),
{
    let ghost before = texts(args@);
    match kind {
        EngineKind::Docker => {
            push_text(args, "--platform");
            push_text(args, platform);
            assert(texts(args@) =~= before + platform_args(kind, platform@));
        },
        EngineKind::Podman => {
            let p = chars_of(platform);
            assert(p@.skip(0) =~= p@);
            let os = take_until(&p, 0, '/');
            let n: usize = os.as_str().unicode_len();
            if n < p.len() {
                let arch = take_until(&p, n + 1, '/');
                push_text(args, "--os");
                push_text(args, os.as_str());
                push_text(args, "--arch");
                push_text(args, arch.as_str());
                assert(texts(args@) =~= before + platform_args(kind, platform@));
            } else {
                push_text(args, "--arch");
                push_text(args, platform);
                assert(texts(args@) =~= before + platform_args(kind, platform@));
            }
        },
        EngineKind::Unset => {
            assert(texts(args@) =~= before + platform_args(kind, platform@));
        },
    }
}

/// Appends `flag` and `left:right` to the arguments.
fn push_pair(args: &mut Vec<String>, flag: &str, left: &str, right: &str)
    ensures
        texts(final(args)@) == texts(old(args)@) + pair_arg(flag@, left@, right@),
{
    let ghost before = texts(args@);
    push_text(args, flag);
    let joined = concat3(left, ":", right);
    push_text(args, joined.as_str());
    assert(texts(args@) =~= before + pair_arg(flag@, left@, right@));
}

/// Appends what every run begins with.
fn push_base(args: &mut Vec<String>, serve: bool, name: &str)
    ensures
        texts(final(args)@) == texts(old(args)@) + base_args(serve, name@),
{
    let ghost start = texts(args@);
    push_text(args, "run");
    push_text(args, "--rm");
    if !serve {
        push_text(args, "-it");
    }
    push_text(args, "--name");
    push_text(args, name);
    assert(texts(args@) =~= start + base_args(serve, name@));
}

/// Appends the mounts that every run has.
fn push_fixed_mounts(args: &mut Vec<String>, current_dir: &str, paths: &DarpPaths)
    ensures
        texts(final(args)@) == texts(old(args)@) + fixed_mounts(current_dir@, *paths),
{
    let ghost start = texts(args@);
    push_pair(args, "-v", current_dir, "/app");
    push_pair(args, "-v", paths.hosts_container_path.as_str(), "/etc/hosts");
    push_pair(args, "-v", paths.nginx_conf_path.as_str(), "/etc/nginx/nginx.conf");
    push_pair(
        args,
        "-v",
        paths.vhost_container_conf.as_str(),
        "/etc/nginx/http.d/vhost_container.conf",
    );
    assert(texts(args@) =~= start + fixed_mounts(current_dir@, *paths));
}

/// Appends the arguments for the platform, if one is set.
fn push_platform(args: &mut Vec<String>, kind: EngineKind, platform: &Option<String>)
    ensures
        texts(final(args)@) == texts(old(args)@) + platform_part(
            kind,
            crate::model::text_opt(*platform),
        ),
{
    let ghost start = texts(args@);
    match platform {
        Some(p) => {
            add_platform_args(args, kind, p.as_str());
        },
        None => {
            assert(texts(args@) =~= start + Seq::<Seq<char>>::empty());
        },
    }
}

/// Appends the image and the script that runs in it.
fn push_tail(args: &mut Vec<String>, image: &str, script: &str)
    ensures
        texts(final(args)@) == texts(old(args)@) + seq![image@, "sh"@, "-c"@, script@],
{
    let ghost start = texts(args@);
    push_text(args, image);
    push_text(args, "sh");
    push_text(args, "-c");
    push_text(args, script);
    assert(texts(args@) =~= start + seq![image@, "sh"@, "-c"@, script@]);
}

/// Appends `-v` and `host:container` for each mount.
fn push_mounts(args: &mut Vec<String>, mounts: &Vec<Volume>)
    ensures
        texts(final(args)@) == texts(old(args)@) + pair_args(
            "-v"@,
            mount_pairs(volumes_view(mounts@)),
        ),
{
    let ghost start = texts(args@);
    let ghost all = mount_pairs(volumes_view(mounts@));
    let n: usize = mounts.len();
    let mut i: usize = 0;
    assert(all.take(0) =~= Seq::<(Seq<char>, Seq<char>)>::empty());
    assert(start + pair_args("-v"@, all.take(0)) =~= start);
    while i < n
        invariant
            n == mounts@.len(),
            all == mount_pairs(volumes_view(mounts@)),
            i <= n,
            texts(args@) == start + pair_args("-v"@, all.take(i as int)),
        decreases n - i,
    {
        let m = &mounts[i];
        push_pair(args, "-v", m.host.as_str(), m.container.as_str());
        proof {
            assert(all.take(i + 1).drop_last() =~= all.take(i as int));
            assert(all.take(i + 1).last() == (m.host@, m.container@));
            assert(texts(args@) =~= start + pair_args("-v"@, all.take(i + 1)));
        }
        i = i + 1;
    }
    assert(all.take(n as int) =~= all);
}

/// Appends `-p` and `host:container` for each port mapping.
fn push_ports(args: &mut Vec<String>, ports: &Vec<PortPair>)
    ensures
        texts(final(args)@) == texts(old(args)@) + pair_args("-p"@, pairs_view(ports@)),
{
    let ghost start = texts(args@);
    let ghost all = pairs_view(ports@);
    let n: usize = ports.len();
    let mut i: usize = 0;
    assert(all.take(0) =~= Seq::<(Seq<char>, Seq<char>)>::empty());
    assert(start + pair_args("-p"@, all.take(0)) =~= start);
    while i < n
        invariant
            n == ports@.len(),
            all == pairs_view(ports@),
            i <= n,
            texts(args@) == start + pair_args("-p"@, all.take(i as int)),
        decreases n - i,
    {
        let p = &ports[i];
        push_pair(args, "-p", p.host_port.as_str(), p.container_port.as_str());
        proof {
            assert(all.take(i + 1).drop_last() =~= all.take(i as int));
            assert(all.take(i + 1).last() == (p.host_port@, p.container_port@));
            assert(texts(args@) =~= start + pair_args("-p"@, all.take(i + 1)));
        }
        i = i + 1;
    }
    assert(all.take(n as int) =~= all);
}

impl RunTarget {
    /// The container's name.
    pub fn container_name(&self) -> (r: String)
        ensures
            r@ == container_name(self@.domain, self@.folder),
    {
        let mut out = String::from_str("darp_");
        out.append(self.domain.as_str());
        out.append("_");
        out.append(self.folder.as_str());
        out
    }

    /// What runs inside the container.
    pub fn inner_script(&self) -> (r: String)
        ensures
            r@ == inner_script(self@),
    {
        match &self.serve_command {
            Some(c) => concat2(
                "if command -v nginx >/dev/null 2>&1; then\n    echo \"Starting nginx...\"; nginx;\nelse\n    echo \"nginx not found, skipping\";\nfi;\ncd /app; ",
                c.as_str(),
            ),
            None => String::from_str(
                "if command -v nginx >/dev/null 2>&1; then\n    echo \"Starting nginx...\"; nginx;\nelse\n    echo \"nginx not found, skipping\";\nfi;\necho \"\";\necho \"To leave this shell and stop the container, type: $(printf '\\033[33m')exit$(printf '\\033[0m')\"\necho \"\";\ncd /app; exec sh",
            ),
        }
    }

    /// The engine's command for this run. `port` is the folder's port in the
    /// port map, if it has one.
    pub fn command(
        &self,
        kind: EngineKind,
        paths: &DarpPaths,
        current_dir: &str,
        port: Option<u64>,
    ) -> (r: Result<RunCommand, ConfigError>)
        ensures
            match command_of(self@, kind, *paths, current_dir@, port) {
                Ok(c) => r is Ok && r->Ok_0.program@ == c.0 && texts(r->Ok_0.args@) == c.1,
                Err(e) => r is Err && r->Err_0@ == e,
            },
    {
        let program = match kind.bin() {
            Some(b) => String::from_str(b),
            None => {
                return Err(
                    unmet(
                        Entity::Engine,
                        "No container engine is configured.\nUse 'darp set engine podman' or 'darp set engine docker'.",
                    ),
                );
            },
        };
        let port_number = match port {
            Some(p) => p,
            None => {
                return Err(not_found(Entity::Port, self.folder.as_str()));
            },
        };
        let image = match &self.image {
            Some(i) => i,
            None => {
                let word = if self.serve_command.is_some() {
                    "serve"
                } else {
                    "shell"
                };
                let name: Option<&str> = match &self.environment {
                    Some(e) => Some(e.as_str()),
                    None => None,
                };
                let detail = image_advice_text(
                    name,
                    self.domain.as_str(),
                    self.folder.as_str(),
                    word,
                );
                return Err(unmet(Entity::Image, detail.as_str()));
            },
        };
        let mut args: Vec<String> = Vec::new();
        assert(texts(args@) =~= Seq::<Seq<char>>::empty());
        let name = self.container_name();
        let number = decimal_text(port_number);
        let script = self.inner_script();
        push_base(&mut args, self.serve_command.is_some(), name.as_str());
        push_fixed_mounts(&mut args, current_dir, paths);
        push_mounts(&mut args, &self.mounts);
        push_ports(&mut args, &self.ports);
        push_platform(&mut args, kind, &self.platform);
        push_pair(&mut args, "-p", number.as_str(), "8000");
        push_tail(&mut args, image.as_str(), script.as_str());
        assert(texts(args@) =~= run_args(
            self@,
            kind,
            *paths,
            current_dir@,
            port_number,
            image@,
        ));
        Ok(RunCommand { program, args })
    }
}

/// The volumes with their host paths filled in.
fn fill_mounts(config: &Config, volumes: Option<&Vec<Volume>>, ws: &Workspace) -> (r: (
    Vec<Volume>,
    Vec<String>,
))
    ensures
        volumes_view(r.0@) == mounts_of(
            match volumes {
                Some(v) => Some(volumes_view(v@)),
                None => None,
            },
            ws@.current_dir,
            ws@.home,
        ),
        texts(r.1@) == sources_of(
            match volumes {
                Some(v) => Some(volumes_view(v@)),
                None => None,
            },
        ),
{
    let mut out: Vec<Volume> = Vec::new();
    let mut sources: Vec<String> = Vec::new();
    match volumes {
        None => {
            assert(volumes_view(out@) =~= Seq::<VolumeView>::empty());
            assert(texts(sources@) =~= Seq::<Seq<char>>::empty());
        },
        Some(v) => {
            let n: usize = v.len();
            let mut i: usize = 0;
            let ghost want = mounts_of(Some(volumes_view(v@)), ws@.current_dir, ws@.home);
            let ghost given = sources_of(Some(volumes_view(v@)));
            assert(volumes_view(out@) =~= want.take(0));
            assert(texts(sources@) =~= given.take(0));
            while i < n
                invariant
                    n == v@.len(),
                    i <= n,
                    want == mounts_of(Some(volumes_view(v@)), ws@.current_dir, ws@.home),
                    given == sources_of(Some(volumes_view(v@))),
                    volumes_view(out@) == want.take(i as int),
                    texts(sources@) == given.take(i as int),
                decreases n - i,
            {
                let ghost sources_before = texts(sources@);
                sources.push(v[i].host.clone());
                proof {
                    assert(volumes_view(v@)[i as int] == v@[i as int]@);
                    assert(texts(sources@) =~= sources_before.push(v@[i as int].host@));
                    assert(given.take(i + 1) =~= given.take(i as int).push(given[i as int]));
                }
                let host = config.resolve_host_path(
                    v[i].host.as_str(),
                    ws.current_dir.as_str(),
                    ws.home.as_str(),
                );
                let ghost before = volumes_view(out@);
                let item = Volume { container: v[i].container.clone(), host };
                assert(item@ == want[i as int]) by {
                    assert(volumes_view(v@)[i as int] == v@[i as int]@);
                }
                out.push(item);
                assert(volumes_view(out@) =~= before.push(item@));
                assert(want.take(i + 1) =~= want.take(i as int).push(want[i as int]));
                i = i + 1;
            }
            assert(want.take(n as int) =~= want);
            assert(given.take(n as int) =~= given);
        },
    }
    (out, sources)
}

/// The port mappings as a list, in the order of host ports.
fn list_ports(ports: Option<&StrMap<String>>) -> (r: Vec<PortPair>)
    ensures
        pairs_view(r@) == pairs_of(
            match ports {
                Some(m) => Some(entries_view(m@)),
                None => None,
            },
        ),
{
    let mut out: Vec<PortPair> = Vec::new();
    match ports {
        None => {
            assert(pairs_view(out@) =~= Seq::<(Seq<char>, Seq<char>)>::empty());
        },
        Some(m) => {
            let n: usize = m.len();
            let mut i: usize = 0;
            let ghost want = entries_view(m@);
            assert(pairs_view(out@) =~= want.take(0));
            while i < n
                invariant
                    n == m@.len(),
                    i <= n,
                    want == entries_view(m@),
                    pairs_view(out@) == want.take(i as int),
                decreases n - i,
            {
                let ghost before = pairs_view(out@);
                let item = PortPair {
                    host_port: String::from_str(m.key_at(i)),
                    container_port: m.value_at(i).clone(),
                };
                assert((item.host_port@, item.container_port@) == want[i as int]);
                out.push(item);
                assert(pairs_view(out@) =~= before.push((item.host_port@, item.container_port@)));
                assert(want.take(i + 1) =~= want.take(i as int).push(want[i as int]));
                i = i + 1;
            }
            assert(want.take(n as int) =~= want);
        },
    }
    out
}

impl Config {
    /// Resolves what a run in the workspace `ws` uses: a shell, or with
    /// `serve` the service's serve command.
    pub fn run_target(
        &self,
        serve: bool,
        environment_name: Option<&str>,
        container_image: Option<&str>,
        ws: &Workspace,
    ) -> (r: Result<RunTarget, ConfigError>)
        ensures
            match target_of(self@, serve, str_of(environment_name), str_of(container_image), ws@) {
                Ok(t) => r is Ok && r->Ok_0@ == t,
                Err(e) => r is Err && r->Err_0@ == e,
            },
    {
        let env: Option<&Environment> = match environment_name {
            Some(n) => match &self.environments {
                Some(envs) => {
                    envs.ordered();
                    proof {
                        lemma_lookup_view(envs@, n@);
                    }
                    envs.get(n)
                },
                None => None,
            },
            None => None,
        };
        if serve && env.is_none() {
            let mut detail = String::from_str("Environment '");
            match environment_name {
                Some(n) => {
                    detail.append(n);
                },
                None => {
                    assert(detail@ + Seq::<char>::empty() =~= detail@);
                },
            }
            detail.append("' does not exist.");
            return Err(unmet(Entity::Environment, detail.as_str()));
        }
        let found: Option<&Domain> = match &self.domains {
            Some(d) => {
                d.ordered();
                proof {
                    lemma_lookup_view(d@, ws@.parent_key);
                }
                d.get(ws.parent_key.as_str())
            },
            None => None,
        };
        let domain = match found {
            Some(d) => d,
            None => {
                return Err(not_found(Entity::DomainLocation, ws.parent_key.as_str()));
            },
        };
        let svc: Option<&Service> = match &domain.services {
            Some(s) => {
                s.ordered();
                proof {
                    lemma_lookup_view(s@, ws@.folder);
                }
                s.get(ws.folder.as_str())
            },
            None => None,
        };
        let cmd = resolve_setting(svc, env, Setting::ServeCommand);
        if serve && cmd.is_none() {
            let name: &str = match environment_name {
                Some(n) => n,
                None => "",
            };
            let detail = serve_advice_text(domain.name.as_str(), ws.folder.as_str(), name);
            return Err(unmet(Entity::ServeCommand, detail.as_str()));
        }
        let serve_command = if serve {
            match cmd {
                Some(c) => Some(c.clone()),
                None => None,
            }
        } else {
            None
        };
        let platform = match resolve_setting(svc, env, Setting::Platform) {
            Some(p) => Some(p.clone()),
            None => None,
        };
        let image = match container_image {
            Some(given) => Some(self.resolve_image_name(env, svc, given)),
            None => match resolve_setting(svc, env, Setting::DefaultContainerImage) {
                Some(default) => Some(self.resolve_image_name(env, svc, default.as_str())),
                None => None,
            },
        };
        let environment = match environment_name {
            Some(n) => Some(String::from_str(n)),
            None => None,
        };
        let (mounts, mount_sources) = fill_mounts(self, resolve_volumes(svc, env), ws);
        let ports = list_ports(resolve_ports(svc, env));
        Ok(
            RunTarget {
                domain: domain.name.clone(),
                folder: ws.folder.clone(),
                environment,
                mounts,
                mount_sources,
                ports,
                platform,
                serve_command,
                image,
            },
        )
    }
}

} // verus!
