use darp::commands::ConfigCommand;
use darp::edit::Edit;
use darp::engine::{kind_of_word, Engine, EngineKind};
use darp::error::{ConfigError, Entity, Grammar};
use darp::model::{Config, Environment, Service, Setting, Volume};
use darp::paths::{join, DarpPaths};
use darp::resolve::{read_flag, resolve_base_image, resolve_ports, resolve_setting, resolve_volumes};
use darp::strmap::StrMap;

fn base(cli: Option<&str>, e: Option<&Environment>, s: Option<&Service>) -> Result<String, ConfigError> {
    resolve_base_image(cli, e, s, Some("dev"), "shop", "web", "serve")
}

fn env_with_repo(repo: &str) -> Environment {
    let mut e = Environment::default();
    e.image_repository = Some(repo.to_string());
    e
}

#[test]
fn parse_bool_reads_true_words() {
    let c = Config::default();
    for w in ["true", "1", "yes", "y", "on", "TRUE", "Yes", "  on  ", "\tY\n"] {
        assert_eq!(c.parse_bool(w), Ok(true));
    }
}

#[test]
fn parse_bool_reads_false_words() {
    let c = Config::default();
    for w in ["false", "0", "no", "n", "off", "FALSE", " No ", "OFF"] {
        assert_eq!(c.parse_bool(w), Ok(false));
    }
}

#[test]
fn parse_bool_rejects_other_words() {
    let c = Config::default();
    for w in ["", "maybe", "2", "tru e", "yess"] {
        assert_eq!(c.parse_bool(w), Err(ConfigError::InvalidInput { value: w.to_string(), grammar: Grammar::Flag }));
    }
}

#[test]
fn read_flag_wants_a_normalised_word() {
    assert_eq!(read_flag("yes", "given"), Ok(true));
    assert_eq!(read_flag("off", "given"), Ok(false));
    assert_eq!(read_flag("YES", "given"), Err(ConfigError::InvalidInput { value: "given".to_string(), grammar: Grammar::Flag }));
    assert_eq!(read_flag(" yes", " yes"), Err(ConfigError::InvalidInput { value: " yes".to_string(), grammar: Grammar::Flag }));
}

#[test]
fn host_path_fills_pwd_in() {
    let c = Config::default();
    assert_eq!(c.resolve_host_path("{pwd}/data", "/work/app", "/home/u"), "/work/app/data");
}

#[test]
fn host_path_fills_home_in() {
    let c = Config::default();
    assert_eq!(c.resolve_host_path("{home}/.cache", "/work/app", "/home/u"), "/home/u/.cache");
}

#[test]
fn host_path_without_tokens_is_unchanged() {
    let c = Config::default();
    assert_eq!(c.resolve_host_path("/var/data", "/work/app", "/home/u"), "/var/data");
    assert_eq!(c.resolve_host_path("{pw}/x{}", "/work/app", "/home/u"), "{pw}/x{}");
}

#[test]
fn host_path_fills_both_tokens_everywhere() {
    let c = Config::default();
    assert_eq!(c.resolve_host_path("{home}{pwd}:{pwd}", "/w", "/h"), "/h/w:/w");
}

#[test]
fn image_name_falls_back_to_the_environment() {
    let c = Config::default();
    let e = env_with_repo("reg/env");
    let s = Service::default();
    assert_eq!(c.resolve_image_name(Some(&e), Some(&s), "node:20"), "reg/env:node:20");
    assert_eq!(c.resolve_image_name(Some(&e), None, "node"), "reg/env:node");
}

#[test]
fn image_name_prefers_the_service() {
    let c = Config::default();
    let e = env_with_repo("reg/env");
    let mut s = Service::default();
    s.image_repository = Some("reg/svc".to_string());
    assert_eq!(c.resolve_image_name(Some(&e), Some(&s), "node"), "reg/svc:node");
    assert_eq!(c.resolve_image_name(None, Some(&s), "node"), "reg/svc:node");
}

#[test]
fn image_name_without_repository_is_the_tag() {
    let c = Config::default();
    assert_eq!(c.resolve_image_name(None, None, "node"), "node");
    assert_eq!(c.resolve_image_name(Some(&Environment::default()), Some(&Service::default()), "node"), "node");
}

#[test]
fn base_image_from_the_command_line_wins() {
    let mut e = Environment::default();
    e.default_container_image = Some("env-image".to_string());
    let mut s = Service::default();
    s.default_container_image = Some("svc-image".to_string());
    assert_eq!(base(Some("cli"), Some(&e), Some(&s)), Ok("cli".to_string()));
    assert_eq!(base(Some("cli"), None, None), Ok("cli".to_string()));
}

#[test]
fn base_image_of_the_service_beats_the_environment() {
    let mut e = Environment::default();
    e.default_container_image = Some("env-image".to_string());
    let mut s = Service::default();
    s.default_container_image = Some("svc-image".to_string());
    assert_eq!(base(None, Some(&e), Some(&s)), Ok("svc-image".to_string()));
    assert_eq!(base(None, Some(&e), Some(&Service::default())), Ok("env-image".to_string()));
    assert_eq!(base(None, Some(&e), None), Ok("env-image".to_string()));
}

#[test]
fn base_image_missing_everywhere_is_an_error() {
    let want = "No container image provided for 'shop.web' in environment 'dev'.\nEither pass an explicit image to 'darp serve' or configure a default_container_image:\ndarp config set svc default-container-image shop web <image>\nor\ndarp config set env default-container-image dev <image>";
    let r = base(None, None, None);
    assert_eq!(r, Err(ConfigError::PreconditionFailed { entity: Entity::Image, detail: want.to_string() }));
    assert_eq!(r.unwrap_err().message(), want);
    assert_eq!(base(None, Some(&Environment::default()), Some(&Service::default())).unwrap_err().message(), want);
    let r = resolve_base_image(None, None, None, None, "shop", "web", "shell");
    assert_eq!(
        r.unwrap_err().message(),
        "No container image provided for 'shop.web'.\nEither pass an explicit image to 'darp shell' or configure a default_container_image:\ndarp config set svc default-container-image shop web <image>\nor\ndarp config set env default-container-image <env> <image>"
    );
}

#[test]
fn settings_resolve_tier_by_tier() {
    let mut e = Environment::default();
    e.serve_command = Some("env-cmd".to_string());
    e.platform = Some("env-platform".to_string());
    let mut s = Service::default();
    s.serve_command = Some("svc-cmd".to_string());
    assert_eq!(resolve_setting(Some(&s), Some(&e), Setting::ServeCommand), Some(&"svc-cmd".to_string()));
    assert_eq!(resolve_setting(Some(&s), Some(&e), Setting::Platform), Some(&"env-platform".to_string()));
    assert_eq!(resolve_setting(Some(&s), Some(&e), Setting::ImageRepository), None);
    assert_eq!(resolve_setting(None, Some(&e), Setting::ServeCommand), Some(&"env-cmd".to_string()));
    assert_eq!(resolve_setting(Some(&s), None, Setting::Platform), None);
    assert_eq!(resolve_setting(None, None, Setting::Platform), None);
}

#[test]
fn volumes_of_the_service_hide_the_environments() {
    let v = |c: &str, h: &str| Volume { container: c.to_string(), host: h.to_string() };
    let mut e = Environment::default();
    e.volumes = Some(vec![v("/e", "/env")]);
    let mut s = Service::default();
    assert_eq!(resolve_volumes(Some(&s), Some(&e)), Some(&vec![v("/e", "/env")]));
    s.volumes = Some(vec![]);
    assert_eq!(resolve_volumes(Some(&s), Some(&e)), Some(&vec![]));
    s.volumes = Some(vec![v("/s", "/svc")]);
    assert_eq!(resolve_volumes(Some(&s), Some(&e)), Some(&vec![v("/s", "/svc")]));
    assert_eq!(resolve_volumes(None, Some(&e)), Some(&vec![v("/e", "/env")]));
    assert_eq!(resolve_volumes(Some(&Service::default()), None), None);
}

#[test]
fn ports_resolve_apart_from_volumes() {
    let (env_ports, _) = StrMap::new().insert("1".to_string(), "2".to_string());
    let mut e = Environment::default();
    e.host_portmappings = Some(env_ports.clone());
    let mut s = Service::default();
    s.volumes = Some(vec![]);
    assert_eq!(resolve_ports(Some(&s), Some(&e)), Some(&env_ports));
    let (svc_ports, _) = StrMap::new().insert("3".to_string(), "4".to_string());
    s.host_portmappings = Some(svc_ports.clone());
    assert_eq!(resolve_ports(Some(&s), Some(&e)), Some(&svc_ports));
    assert_eq!(resolve_ports(None, None), None);
}

#[test]
fn engine_kind_comes_from_the_store() {
    let mut c = Config::default();
    assert_eq!(EngineKind::from_config(&c), EngineKind::Unset);
    c.engine = Some("Docker".to_string());
    assert_eq!(EngineKind::from_config(&c), EngineKind::Docker);
    c.engine = Some("PODMAN".to_string());
    assert_eq!(EngineKind::from_config(&c), EngineKind::Podman);
    c.engine = Some("containerd".to_string());
    assert_eq!(EngineKind::from_config(&c), EngineKind::Unset);
    assert_eq!(kind_of_word("docker"), EngineKind::Docker);
    assert_eq!(kind_of_word("Docker"), EngineKind::Unset);
}

#[test]
fn engine_binaries_and_gateways() {
    assert_eq!(EngineKind::Podman.bin(), Some("podman"));
    assert_eq!(EngineKind::Docker.bin(), Some("docker"));
    assert_eq!(EngineKind::Unset.bin(), None);
    assert_eq!(EngineKind::Podman.host_gateway(), "host.containers.internal");
    assert_eq!(EngineKind::Docker.host_gateway(), "host.docker.internal");
    assert_eq!(EngineKind::Unset.host_gateway(), "localhost");
    let mut c = Config::default();
    c.podman_machine = Some("vm".to_string());
    let e = Engine::new(EngineKind::Podman, &c).unwrap();
    assert_eq!(e.kind, EngineKind::Podman);
    assert_eq!(e.bin, Some("podman"));
    assert_eq!(e.podman_machine, Some("vm".to_string()));
    assert_eq!(e.host_gateway(), "host.containers.internal");
    let t = |v: &[&str]| v.iter().map(|s| s.to_string()).collect::<Vec<String>>();
    assert_eq!(e.base_run_interactive("darp_a_b"), t(&["run", "--rm", "-it", "--name", "darp_a_b"]));
    assert_eq!(e.base_run_noninteractive("darp_a_b"), t(&["run", "--rm", "--name", "darp_a_b"]));
}

#[test]
fn paths_lie_below_the_root() {
    let p = DarpPaths::from_root("/home/u/.darp");
    assert_eq!(p._darp_root, "/home/u/.darp");
    assert_eq!(p.config_path, "/home/u/.darp/config.json");
    assert_eq!(p.portmap_path, "/home/u/.darp/portmap.json");
    assert_eq!(p.dnsmasq_dir, "/home/u/.darp/dnsmasq.d");
    assert_eq!(p.vhost_container_conf, "/home/u/.darp/vhost_container.conf");
    assert_eq!(p.hosts_container_path, "/home/u/.darp/hosts_container");
    assert_eq!(p.nginx_conf_path, "/home/u/.darp/nginx.conf");
}

#[test]
fn paths_default_to_dot_darp_in_home() {
    assert_eq!(DarpPaths::from_home("/home/u", None), DarpPaths::from_root("/home/u/.darp"));
    assert_eq!(DarpPaths::from_home("/home/u", Some("/opt/darp")), DarpPaths::from_root("/opt/darp"));
}

#[test]
fn join_agrees_with_path_join() {
    for (dir, name) in [("/a", "b"), ("/a/", "b"), ("", "b"), ("/", "b"), ("rel", ".x")] {
        let want = std::path::Path::new(dir).join(name).to_string_lossy().into_owned();
        assert_eq!(join(dir, name), want);
    }
}

#[test]
fn set_engine_takes_the_two_engines_in_any_case() {
    let mut c = Config::default();
    assert_eq!(c.set_engine("Docker"), Ok(()));
    assert_eq!(c.engine, Some("docker".to_string()));
    assert_eq!(c.set_engine("podman"), Ok(()));
    assert_eq!(c.engine, Some("podman".to_string()));
    assert_eq!(c.set_engine("lxc"), Err(ConfigError::InvalidInput { value: "lxc".to_string(), grammar: Grammar::EngineName }));
    assert_eq!(c.engine, Some("podman".to_string()));
}

#[test]
fn podman_machine_is_set_and_removed() {
    let mut c = Config::default();
    c.set_podman_machine("vm");
    assert_eq!(c.podman_machine, Some("vm".to_string()));
    c.rm_podman_machine();
    assert_eq!(c.podman_machine, None);
}

#[test]
fn urls_in_hosts_is_read_as_a_flag() {
    let mut c = Config::default();
    assert!(!c.mirrors_urls());
    assert_eq!(c.set_urls_in_hosts(" Yes "), Ok(true));
    assert_eq!(c.urls_in_hosts, Some(true));
    assert!(c.mirrors_urls());
    assert_eq!(c.set_urls_in_hosts("off"), Ok(false));
    assert_eq!(c.urls_in_hosts, Some(false));
    assert!(!c.mirrors_urls());
    assert_eq!(c.set_urls_in_hosts("perhaps"), Err(ConfigError::InvalidInput { value: "perhaps".to_string(), grammar: Grammar::Flag }));
    assert_eq!(c.urls_in_hosts, Some(false));
}

#[test]
fn commands_are_the_operations() {
    let mut a = Config::default();
    let mut b = Config::default();
    a.execute(ConfigCommand::SetEngine { engine: "Docker".to_string() }).unwrap();
    b.set_engine("Docker").unwrap();
    a.execute(ConfigCommand::SetPodmanMachine { name: "vm".to_string() }).unwrap();
    b.set_podman_machine("vm");
    a.execute(ConfigCommand::SetUrlsInHosts { value: "on".to_string() }).unwrap();
    b.set_urls_in_hosts("on").unwrap();
    a.execute(ConfigCommand::AddDomain { label: "One".to_string(), location: "/one".to_string() }).unwrap();
    b.add_domain("One", "/one").unwrap();
    a.execute(ConfigCommand::AddDomain { label: "Two".to_string(), location: "/two".to_string() }).unwrap();
    b.add_domain("Two", "/two").unwrap();
    a.execute(ConfigCommand::RemoveDomain { name: "two".to_string() }).unwrap();
    b.rm_domain("two").unwrap();
    a.execute(ConfigCommand::EditEnvironment {
        name: "dev".to_string(),
        edit: Edit::AddVolume { container: "/app".to_string(), host: "{pwd}".to_string() },
    })
    .unwrap();
    b.add_volume("dev", "/app", "{pwd}").unwrap();
    a.execute(ConfigCommand::EditService {
        domain: "one".to_string(),
        service: "web".to_string(),
        edit: Edit::AddPort { host_port: "8080".to_string(), container_port: "80".to_string() },
    })
    .unwrap();
    b.add_portmap("one", "web", "8080", "80").unwrap();
    assert_eq!(a, b);
    a.execute(ConfigCommand::RemovePodmanMachine).unwrap();
    assert_eq!(a.podman_machine, None);
}

#[test]
fn a_failed_command_changes_nothing() {
    let mut c = Config::default();
    c.add_domain("One", "/one").unwrap();
    let before = c.clone();
    assert_eq!(
        c.execute(ConfigCommand::SetEngine { engine: "lxc".to_string() }),
        Err(ConfigError::InvalidInput { value: "lxc".to_string(), grammar: Grammar::EngineName })
    );
    assert_eq!(
        c.execute(ConfigCommand::SetUrlsInHosts { value: "x".to_string() }),
        Err(ConfigError::InvalidInput { value: "x".to_string(), grammar: Grammar::Flag })
    );
    assert_eq!(
        c.execute(ConfigCommand::EditEnvironment {
            name: "dev".to_string(),
            edit: Edit::Clear { which: Setting::Platform },
        }),
        Err(ConfigError::NotFound { entity: Entity::Environment, key: "dev".to_string() })
    );
    assert_eq!(
        c.execute(ConfigCommand::AddDomain { label: "one".to_string(), location: "/other".to_string() }),
        Err(ConfigError::AlreadyExists { entity: Entity::DomainName, key: "one".to_string() })
    );
    assert_eq!(c, before);
}

#[test]
fn errors_have_their_messages() {
    let nf = |entity: Entity, key: &str| ConfigError::NotFound { entity, key: key.to_string() }.message();
    assert_eq!(nf(Entity::Domains, "x"), "No domains configured");
    assert_eq!(nf(Entity::Domain, "x"), "domain, x, does not exist");
    assert_eq!(nf(Entity::DomainLocation, "/p"), "domain location '/p' does not exist in darp's domain configuration.");
    assert_eq!(nf(Entity::DefaultEnvironment, "x"), "Domain 'x' has no default_environment.");
    assert_eq!(nf(Entity::Environments, "x"), "No environments configured");
    assert_eq!(nf(Entity::Environment, "dev"), "Environment 'dev' does not exist.");
    assert_eq!(nf(Entity::Services, "x"), "No services configured for domain x");
    assert_eq!(nf(Entity::Service, "web"), "service, web, does not exist");
    assert_eq!(nf(Entity::PortMappings, "web"), "No host_portmappings configured for 'web'");
    assert_eq!(nf(Entity::PortMapping, "8080"), "Portmapping on host side (8080:____) does not exist");
    assert_eq!(nf(Entity::Volumes, "web"), "No volumes configured for 'web'");
    assert_eq!(nf(Entity::Volume, "/app"), "No matching volume found for container '/app'");
    assert_eq!(nf(Entity::ServeCommand, "dev"), "'dev' has no custom serve_command.");
    assert_eq!(nf(Entity::ImageRepository, "dev"), "'dev' has no custom image_repository.");
    assert_eq!(nf(Entity::Platform, "dev"), "'dev' has no custom platform.");
    assert_eq!(nf(Entity::DefaultContainerImage, "dev"), "'dev' has no default_container_image.");
    assert_eq!(nf(Entity::Port, "web"), "port not yet assigned to web, run 'darp deploy'");
    let ae = |entity: Entity, key: &str| ConfigError::AlreadyExists { entity, key: key.to_string() }.message();
    assert_eq!(ae(Entity::DomainLocation, "/p"), "Domain with location '/p' already exists.");
    assert_eq!(ae(Entity::DomainName, "shop"), "Domain name 'shop' already exists. Domain names must be unique.");
    assert_eq!(ae(Entity::PortMapping, "8080"), "Portmapping on host side (8080:____) already exists");
    assert_eq!(ae(Entity::Volume, "/app"), "Volume mapping already exists for container '/app'");
    assert_eq!(ae(Entity::Service, "web"), "'web' already exists");
    assert_eq!(
        ConfigError::InvalidInput { value: "perhaps".to_string(), grammar: Grammar::Flag }.message(),
        "Invalid boolean value: perhaps (expected TRUE/FALSE/yes/no/1/0)"
    );
    assert_eq!(
        ConfigError::InvalidInput { value: "lxc".to_string(), grammar: Grammar::EngineName }.message(),
        "engine must be 'podman' or 'docker'"
    );
    assert_eq!(
        ConfigError::PreconditionFailed { entity: Entity::Domains, detail: "Please configure a domain.".to_string() }.message(),
        "Please configure a domain."
    );
}
