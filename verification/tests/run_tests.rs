use darp::commands::ConfigCommand;
use darp::edit::Edit;
use darp::model::Setting;
use darp::containers::{
    lists_container, masq_args, podman_machine_running, restarts_on, reverse_proxy_args, running_darps,
    split_lines, stop_args,
};
use darp::text::trim_line;
use darp::engine::EngineKind;
use darp::error::{unmet, ConfigError, Entity};
use darp::hosts::mirror_hosts;
use darp::model::{Config, Volume};
use darp::paths::DarpPaths;
use darp::run::{add_platform_args, PortPair, RunTarget, Workspace};
use darp::shellrc::{completion_plan, detect_shell, ensure_rc_block, remove_rc_block};

fn names(v: &[&str]) -> Vec<String> {
    v.iter().map(|s| s.to_string()).collect()
}

fn ws() -> Workspace {
    Workspace {
        current_dir: "/srv/shop/web".to_string(),
        folder: "web".to_string(),
        parent_key: "/srv/shop".to_string(),
        home: "/home/u".to_string(),
    }
}

fn store() -> Config {
    let mut c = Config::default();
    c.add_domain("Shop", "/srv/shop").unwrap();
    c.add_volume("dev", "/cache", "{home}/.cache").unwrap();
    c.add_env_portmap("dev", "9000", "9000").unwrap();
    c.add_env_portmap("dev", "3000", "3000").unwrap();
    c.set_serve_command("dev", "npm start").unwrap();
    c.set_default_container_image("dev", "node:20").unwrap();
    c.set_image_repository("dev", "reg/env").unwrap();
    c.set_platform("dev", "linux/amd64").unwrap();
    c
}

const SHELL_SCRIPT: &str = "if command -v nginx >/dev/null 2>&1; then\n    echo \"Starting nginx...\"; nginx;\nelse\n    echo \"nginx not found, skipping\";\nfi;\necho \"\";\necho \"To leave this shell and stop the container, type: $(printf '\\033[33m')exit$(printf '\\033[0m')\"\necho \"\";\ncd /app; exec sh";

const SERVE_PREFIX: &str = "if command -v nginx >/dev/null 2>&1; then\n    echo \"Starting nginx...\"; nginx;\nelse\n    echo \"nginx not found, skipping\";\nfi;\ncd /app; ";

#[test]
fn serve_resolves_from_the_environment() {
    let t = store().run_target(true, Some("dev"), None, &ws()).unwrap();
    assert_eq!(t.domain, "shop");
    assert_eq!(t.folder, "web");
    assert_eq!(t.environment, Some("dev".to_string()));
    assert_eq!(t.mounts, vec![Volume { container: "/cache".to_string(), host: "/home/u/.cache".to_string() }]);
    assert_eq!(t.mount_sources, vec!["{home}/.cache".to_string()]);
    assert_eq!(
        t.ports,
        vec![
            PortPair { host_port: "3000".to_string(), container_port: "3000".to_string() },
            PortPair { host_port: "9000".to_string(), container_port: "9000".to_string() },
        ]
    );
    assert_eq!(t.platform, Some("linux/amd64".to_string()));
    assert_eq!(t.serve_command, Some("npm start".to_string()));
    assert_eq!(t.image, Some("reg/env:node:20".to_string()));
    assert_eq!(t.container_name(), "darp_shop_web");
    assert_eq!(t.inner_script(), format!("{}npm start", SERVE_PREFIX));
}

#[test]
fn service_overrides_field_by_field() {
    let mut c = store();
    c.add_service_volume("shop", "web", "/data", "{pwd}/data").unwrap();
    c.set_service_serve_command("shop", "web", "yarn dev").unwrap();
    c.set_service_image_repository("shop", "web", "reg/svc").unwrap();
    let t = c.run_target(true, Some("dev"), Some("bun:1"), &ws()).unwrap();
    assert_eq!(t.mounts, vec![Volume { container: "/data".to_string(), host: "/srv/shop/web/data".to_string() }]);
    // The service has no port mappings of its own: the environment's apply.
    assert_eq!(t.ports.len(), 2);
    assert_eq!(t.serve_command, Some("yarn dev".to_string()));
    assert_eq!(t.platform, Some("linux/amd64".to_string()));
    assert_eq!(t.image, Some("reg/svc:bun:1".to_string()));
}

#[test]
fn serve_wants_the_environment() {
    let r = store().run_target(true, Some("prod"), None, &ws());
    assert_eq!(r, Err(unmet(Entity::Environment, "Environment 'prod' does not exist.")));
    let r = store().run_target(true, None, None, &ws());
    assert_eq!(r, Err(unmet(Entity::Environment, "Environment '' does not exist.")));
}

#[test]
fn serve_wants_a_serve_command() {
    let mut c = store();
    c.rm_serve_command("dev").unwrap();
    let r = c.run_target(true, Some("dev"), None, &ws());
    assert_eq!(
        r,
        Err(unmet(
            Entity::ServeCommand,
            "Neither service 'shop.web' nor environment 'dev' has a serve_command configured.\nUse 'darp config set svc serve-command shop web <cmd>' or 'darp config set env serve-command dev <cmd>' first."
        ))
    );
}

#[test]
fn run_wants_the_domain_at_the_directory_above() {
    let mut w = ws();
    w.parent_key = "/srv/other".to_string();
    let want = Err(ConfigError::NotFound { entity: Entity::DomainLocation, key: "/srv/other".to_string() });
    assert_eq!(store().run_target(false, Some("dev"), None, &w), want);
    assert_eq!(store().run_target(true, Some("dev"), None, &w), want);
    // The name of the domain is no location.
    w.parent_key = "shop".to_string();
    assert!(store().run_target(false, None, None, &w).is_err());
}

#[test]
fn shell_goes_on_without_an_environment() {
    let t = store().run_target(false, Some("prod"), None, &ws()).unwrap();
    assert_eq!(t.mounts, vec![]);
    assert_eq!(t.ports, vec![]);
    assert_eq!(t.platform, None);
    assert_eq!(t.serve_command, None);
    assert_eq!(t.image, None);
    assert_eq!(t.inner_script(), SHELL_SCRIPT);
    let t = store().run_target(false, None, Some("alpine"), &ws()).unwrap();
    assert_eq!(t.image, Some("alpine".to_string()));
}

#[test]
fn shell_never_carries_a_serve_command() {
    let t = store().run_target(false, Some("dev"), None, &ws()).unwrap();
    assert_eq!(t.serve_command, None);
    assert_eq!(t.image, Some("reg/env:node:20".to_string()));
}

#[test]
fn serve_command_line() {
    let t = store().run_target(true, Some("dev"), None, &ws()).unwrap();
    let paths = DarpPaths::from_root("/r");
    let cmd = t.command(EngineKind::Docker, &paths, "/srv/shop/web", Some(50100)).unwrap();
    assert_eq!(cmd.program, "docker");
    let script = format!("{}npm start", SERVE_PREFIX);
    assert_eq!(
        cmd.args,
        names(&[
            "run", "--rm", "--name", "darp_shop_web",
            "-v", "/srv/shop/web:/app",
            "-v", "/r/hosts_container:/etc/hosts",
            "-v", "/r/nginx.conf:/etc/nginx/nginx.conf",
            "-v", "/r/vhost_container.conf:/etc/nginx/http.d/vhost_container.conf",
            "-v", "/home/u/.cache:/cache",
            "-p", "3000:3000",
            "-p", "9000:9000",
            "--platform", "linux/amd64",
            "-p", "50100:8000",
            "reg/env:node:20", "sh", "-c", &script,
        ])
    );
}

#[test]
fn shell_command_line() {
    let t = store().run_target(false, None, Some("alpine"), &ws()).unwrap();
    let paths = DarpPaths::from_root("/r");
    let cmd = t.command(EngineKind::Podman, &paths, "/srv/shop/web", Some(50123)).unwrap();
    assert_eq!(cmd.program, "podman");
    assert_eq!(
        cmd.args,
        names(&[
            "run", "--rm", "-it", "--name", "darp_shop_web",
            "-v", "/srv/shop/web:/app",
            "-v", "/r/hosts_container:/etc/hosts",
            "-v", "/r/nginx.conf:/etc/nginx/nginx.conf",
            "-v", "/r/vhost_container.conf:/etc/nginx/http.d/vhost_container.conf",
            "-p", "50123:8000",
            "alpine", "sh", "-c", SHELL_SCRIPT,
        ])
    );
}

#[test]
fn command_reports_what_is_missing() {
    let paths = DarpPaths::from_root("/r");
    let t = store().run_target(false, None, None, &ws()).unwrap();
    assert_eq!(
        t.command(EngineKind::Unset, &paths, "/x", None),
        Err(unmet(
            Entity::Engine,
            "No container engine is configured.\nUse 'darp set engine podman' or 'darp set engine docker'."
        ))
    );
    assert_eq!(
        t.command(EngineKind::Docker, &paths, "/x", None),
        Err(ConfigError::NotFound { entity: Entity::Port, key: "web".to_string() })
    );
    assert_eq!(
        t.command(EngineKind::Docker, &paths, "/x", Some(1)),
        Err(unmet(
            Entity::Image,
            "No container image provided for 'shop.web'.\nEither pass an explicit image to 'darp shell' or configure a default_container_image:\ndarp config set svc default-container-image shop web <image>\nor\ndarp config set env default-container-image <env> <image>"
        ))
    );
    let mut c = store();
    c.rm_default_container_image("dev").unwrap();
    let t = c.run_target(true, Some("dev"), None, &ws()).unwrap();
    assert_eq!(
        t.command(EngineKind::Docker, &paths, "/x", Some(1)).unwrap_err().message(),
        "No container image provided for 'shop.web' in environment 'dev'.\nEither pass an explicit image to 'darp serve' or configure a default_container_image:\ndarp config set svc default-container-image shop web <image>\nor\ndarp config set env default-container-image dev <image>"
    );
}

#[test]
fn platform_arguments_differ_by_engine() {
    let run = |kind: EngineKind, p: &str| {
        let mut args = names(&["x"]);
        add_platform_args(&mut args, kind, p);
        args
    };
    assert_eq!(run(EngineKind::Docker, "linux/amd64"), names(&["x", "--platform", "linux/amd64"]));
    assert_eq!(run(EngineKind::Podman, "linux/amd64"), names(&["x", "--os", "linux", "--arch", "amd64"]));
    assert_eq!(run(EngineKind::Podman, "linux/arm/v7"), names(&["x", "--os", "linux", "--arch", "arm"]));
    assert_eq!(run(EngineKind::Podman, "arm64"), names(&["x", "--arch", "arm64"]));
    assert_eq!(run(EngineKind::Podman, "linux/"), names(&["x", "--os", "linux", "--arch", ""]));
    assert_eq!(run(EngineKind::Podman, "/amd64"), names(&["x", "--os", "", "--arch", "amd64"]));
    assert_eq!(run(EngineKind::Unset, "linux/amd64"), names(&["x"]));
}

#[test]
fn target_is_plain_data() {
    let t = RunTarget {
        domain: "d".to_string(),
        folder: "f".to_string(),
        environment: None,
        mounts: vec![],
        mount_sources: vec![],
        ports: vec![],
        platform: None,
        serve_command: None,
        image: Some("i".to_string()),
    };
    let cmd = t.command(EngineKind::Docker, &DarpPaths::from_root("/r"), "/c", Some(0)).unwrap();
    assert_eq!(cmd.args[3], "--name");
    assert_eq!(cmd.args[4], "darp_d_f");
    assert_eq!(cmd.args[13], "-p");
    assert_eq!(cmd.args[14], "0:8000");
}

#[test]
fn mirror_into_an_empty_hosts_file() {
    let lines = names(&["0.0.0.0   web.blog.test\n", "0.0.0.0   api.blog.test\n"]);
    assert_eq!(
        mirror_hosts("", &lines),
        "\n# --- DARP HOSTS START ---\n127.0.0.1   web.blog.test\n127.0.0.1   api.blog.test\n# --- DARP HOSTS END ---\n"
    );
}

#[test]
fn mirror_appends_to_what_is_there() {
    let lines = names(&["0.0.0.0   web.blog.test\n"]);
    assert_eq!(
        mirror_hosts("127.0.0.1 localhost\n\n\n", &lines),
        "127.0.0.1 localhost\n\n# --- DARP HOSTS START ---\n127.0.0.1   web.blog.test\n# --- DARP HOSTS END ---\n"
    );
}

#[test]
fn mirror_replaces_the_block() {
    let current = "127.0.0.1 localhost\n\n# --- DARP HOSTS START ---\n127.0.0.1   old.blog.test\n# --- DARP HOSTS END ---\n\n::1 localhost\n";
    let lines = names(&["0.0.0.0   new.blog.test\n"]);
    assert_eq!(
        mirror_hosts(current, &lines),
        "127.0.0.1 localhost\n\n# --- DARP HOSTS START ---\n127.0.0.1   new.blog.test\n# --- DARP HOSTS END ---\n\n::1 localhost\n\n"
    );
}

#[test]
fn mirror_unifies_line_ends_and_skips_short_lines() {
    let lines = names(&["0.0.0.0   a.b.test\n", "justoneword\n", "", "  x   y   z "]);
    assert_eq!(
        mirror_hosts("one\r\ntwo\r\n", &lines),
        "one\ntwo\n\n# --- DARP HOSTS START ---\n127.0.0.1   a.b.test\n127.0.0.1   y\n# --- DARP HOSTS END ---\n"
    );
}

#[test]
fn mirror_with_an_open_block_appends() {
    let current = "a\n# --- DARP HOSTS START ---\nleft open\n";
    assert_eq!(
        mirror_hosts(current, &names(&[])),
        "a\n# --- DARP HOSTS START ---\nleft open\n\n# --- DARP HOSTS START ---\n# --- DARP HOSTS END ---\n"
    );
}

#[test]
fn lines_are_split_at_line_feeds() {
    assert_eq!(split_lines(""), names(&[]));
    assert_eq!(split_lines("a"), names(&["a"]));
    assert_eq!(split_lines("a\n"), names(&["a"]));
    assert_eq!(split_lines("a\nb"), names(&["a", "b"]));
    assert_eq!(split_lines("a\n\nb\n"), names(&["a", "", "b"]));
    assert_eq!(split_lines("\n"), names(&[""]));
    assert_eq!(trim_line("  a b \t\r"), "a b");
    assert_eq!(trim_line("   "), "");
}

#[test]
fn container_lists_are_read() {
    let out = "darp_shop_web\n  darp-reverse-proxy \nother\r\ndarp_blog_api\n";
    assert!(lists_container(out, "darp-reverse-proxy"));
    assert!(lists_container(out, "other"));
    assert!(!lists_container(out, "darp"));
    assert!(!lists_container("", "x"));
    assert_eq!(running_darps(out), names(&["darp_shop_web", "darp_blog_api"]));
    assert_eq!(running_darps("nothing\n"), names(&[]));
}

#[test]
fn podman_machines_are_read() {
    let out = "podman-machine-default* true\nvm false\nbox TRUE\nodd true extra\n";
    assert!(podman_machine_running(out, None));
    assert!(podman_machine_running(out, Some("podman-machine-default")));
    assert!(podman_machine_running(out, Some("box")));
    assert!(!podman_machine_running(out, Some("vm")));
    assert!(!podman_machine_running(out, Some("odd")));
    assert!(!podman_machine_running(out, Some("missing")));
    assert!(!podman_machine_running("", None));
    assert!(!podman_machine_running("podman-machine-default* truex\n", None));
}

#[test]
fn restart_follows_the_exit_code() {
    assert!(restarts_on(Some(3), &vec![1, 3]));
    assert!(!restarts_on(Some(2), &vec![1, 3]));
    assert!(!restarts_on(None, &vec![1, 3]));
    assert!(!restarts_on(Some(0), &vec![]));
}

#[test]
fn helper_containers_have_their_commands() {
    let p = DarpPaths::from_root("/r");
    assert_eq!(
        reverse_proxy_args(&p, false, false),
        Some(names(&[
            "run", "-d", "--rm", "--name", "darp-reverse-proxy", "-p", "80:80", "-v",
            "/r/vhost_container.conf:/etc/nginx/conf.d/vhost_container.conf", "nginx",
        ]))
    );
    assert_eq!(reverse_proxy_args(&p, false, true), reverse_proxy_args(&p, false, false));
    assert_eq!(reverse_proxy_args(&p, true, true), Some(names(&["restart", "darp-reverse-proxy"])));
    assert_eq!(reverse_proxy_args(&p, true, false), None);
    assert_eq!(
        masq_args(&p, false),
        Some(names(&[
            "run", "-d", "--rm", "--name", "darp-masq", "-p", "53:53/udp", "-p", "53:53/tcp", "-v",
            "/r/dnsmasq.d:/etc/dnsmasq.d", "--cap-add=NET_ADMIN", "dockurr/dnsmasq",
        ]))
    );
    assert_eq!(masq_args(&p, true), None);
    assert_eq!(stop_args("darp_a_b"), names(&["stop", "darp_a_b"]));
}

#[test]
fn shells_are_told_from_their_path() {
    assert_eq!(detect_shell("/bin/zsh"), Some("zsh"));
    assert_eq!(detect_shell("/usr/bin/bash"), Some("bash"));
    assert_eq!(detect_shell("/usr/local/bin/fish"), Some("fish"));
    assert_eq!(detect_shell("/usr/bin/pwsh"), Some("powershell"));
    assert_eq!(detect_shell("powershell"), Some("powershell"));
    assert_eq!(detect_shell("/usr/bin/elvish"), Some("elvish"));
    assert_eq!(detect_shell("/bin/sh"), None);
    assert_eq!(detect_shell(""), None);
}

#[test]
fn completions_have_their_places() {
    let b = completion_plan("bash", "/home/u").unwrap();
    assert_eq!(b.dir, "/home/u/.local/share/bash-completion/completions");
    assert_eq!(b.file, "/home/u/.local/share/bash-completion/completions/darp");
    assert_eq!(b.rc_path, Some("/home/u/.bashrc".to_string()));
    assert!(b.rc_body.unwrap().contains("bash-completion/completions/darp"));
    let z = completion_plan("zsh", "/home/u").unwrap();
    assert_eq!(z.file, "/home/u/.zfunc/_darp");
    assert_eq!(z.rc_path, Some("/home/u/.zshrc".to_string()));
    assert!(z.rc_body.unwrap().contains("compinit"));
    let f = completion_plan("fish", "/home/u").unwrap();
    assert_eq!(f.file, "/home/u/.config/fish/completions/darp.fish");
    assert_eq!(f.rc_path, None);
    assert_eq!(f.rc_body, None);
    assert_eq!(completion_plan("powershell", "/home/u"), None);
    assert_eq!(completion_plan("elvish", "/home/u"), None);
}

#[test]
fn rc_block_is_added_once() {
    let start = "# >>> darp completion start >>>";
    let end = "# <<< darp completion end <<<";
    assert_eq!(ensure_rc_block("", "body"), Some(format!("{}\nbody\n{}\n", start, end)));
    assert_eq!(ensure_rc_block("x=1", "body\n"), Some(format!("x=1\n{}\nbody\n{}\n", start, end)));
    assert_eq!(ensure_rc_block("x=1\n", ""), Some(format!("x=1\n{}\n\n{}\n", start, end)));
    let has = format!("x\n{}\nold\n{}\n", start, end);
    assert_eq!(ensure_rc_block(&has, "body"), None);
}

#[test]
fn rc_block_is_removed() {
    let start = "# >>> darp completion start >>>";
    let end = "# <<< darp completion end <<<";
    assert_eq!(remove_rc_block("x=1\n"), None);
    assert_eq!(remove_rc_block(&format!("{}\nb\n{}\n", start, end)), Some("".to_string()));
    assert_eq!(remove_rc_block(&format!("x=1\n\n{}\nb\n{}\n", start, end)), Some("x=1\n".to_string()));
    assert_eq!(
        remove_rc_block(&format!("x=1\n{}\nb\n{}\n\ny=2\n", start, end)),
        Some("x=1\n\ny=2\n\n".to_string())
    );
    assert_eq!(remove_rc_block(&format!("{}\nb\n{}\ny=2", start, end)), Some("y=2\n".to_string()));
    assert_eq!(remove_rc_block(&format!("x=1\n{}\nleft open", start)), Some("x=1\n".to_string()));
}

#[test]
fn rc_block_added_is_rc_block_removed() {
    let with = ensure_rc_block("x=1\n", "body").unwrap();
    assert_eq!(remove_rc_block(&with), Some("x=1\n".to_string()));
}

#[test]
fn commands_say_what_they_did() {
    let mut c = Config::default();
    let say = |cmd: &ConfigCommand, c: &Config| cmd.notice("/r/config.json", c);
    let cmd = ConfigCommand::AddDomain { label: "My Shop".to_string(), location: "/srv/My Shop".to_string() };
    assert_eq!(say(&cmd, &c), Some("created 'my-shop' at /srv/My Shop".to_string()));
    let cmd = ConfigCommand::RemoveDomain { name: "my-shop".to_string() };
    assert_eq!(say(&cmd, &c), Some("removed 'my-shop'".to_string()));
    let cmd = ConfigCommand::SetEngine { engine: "docker".to_string() };
    assert_eq!(say(&cmd, &c), Some("Engine set. New Darp invocations will use this container engine.".to_string()));
    let cmd = ConfigCommand::SetPodmanMachine { name: "vm".to_string() };
    assert_eq!(say(&cmd, &c), Some("PODMAN_MACHINE set to 'vm' in config (/r/config.json).".to_string()));
    assert_eq!(say(&ConfigCommand::RemovePodmanMachine, &c), None);
    let cmd = ConfigCommand::SetUrlsInHosts { value: "yes".to_string() };
    assert_eq!(
        say(&cmd, &c),
        Some("urls_in_hosts has been disabled (stored in /r/config.json). Next 'darp deploy' will sync /etc/hosts accordingly.".to_string())
    );
    c.execute(cmd.clone()).unwrap();
    assert_eq!(
        say(&cmd, &c),
        Some("urls_in_hosts has been enabled (stored in /r/config.json). Next 'darp deploy' will sync /etc/hosts accordingly.".to_string())
    );
    let env = |edit: Edit| ConfigCommand::EditEnvironment { name: "dev".to_string(), edit };
    let svc = |edit: Edit| ConfigCommand::EditService { domain: "shop".to_string(), service: "web".to_string(), edit };
    let t = |s: &str| s.to_string();
    assert_eq!(
        say(&env(Edit::Assign { which: Setting::ImageRepository, value: t("reg") }), &c),
        Some(t("Set image_repository for environment 'dev' to:\n  reg"))
    );
    assert_eq!(
        say(&svc(Edit::Assign { which: Setting::DefaultContainerImage, value: t("img") }), &c),
        Some(t("Set default_container_image for service 'shop.web' to:\n  img"))
    );
    assert_eq!(say(&env(Edit::Clear { which: Setting::Platform }), &c), None);
    assert_eq!(say(&svc(Edit::Clear { which: Setting::ServeCommand }), &c), None);
    assert_eq!(
        say(&env(Edit::AddPort { host_port: t("8080"), container_port: t("80") }), &c),
        Some(t("Created portmapping for environment 'dev' (8080:80)"))
    );
    assert_eq!(
        say(&svc(Edit::AddPort { host_port: t("8080"), container_port: t("80") }), &c),
        Some(t("Created portmapping for 'shop.web' (8080:80)"))
    );
    assert_eq!(
        say(&env(Edit::RemovePort { host_port: t("8080") }), &c),
        Some(t("Removed portmapping for environment 'dev' (8080:____)"))
    );
    assert_eq!(
        say(&svc(Edit::RemovePort { host_port: t("8080") }), &c),
        Some(t("Removed portmapping for 'shop.web' (8080:____)"))
    );
    assert_eq!(
        say(&env(Edit::AddVolume { container: t("/app"), host: t("/x") }), &c),
        Some(t("Added volume to environment 'dev': /x -> /app"))
    );
    assert_eq!(
        say(&svc(Edit::AddVolume { container: t("/app"), host: t("/x") }), &c),
        Some(t("Added volume to service 'shop.web': /x -> /app"))
    );
    assert_eq!(
        say(&env(Edit::RemoveVolume { container: t("/app"), host: t("/x") }), &c),
        Some(t("Removed volume from environment 'dev': /x -> /app"))
    );
    assert_eq!(
        say(&svc(Edit::RemoveVolume { container: t("/app"), host: t("/x") }), &c),
        Some(t("Removed volume from service 'shop.web': /x -> /app"))
    );
}
