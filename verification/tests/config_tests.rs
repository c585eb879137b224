use darp::edit::Edit;
use darp::error::{ConfigError, Entity};
use darp::model::{Config, Domain, Environment, Service, Setting, Volume};
use darp::strmap::StrMap;

fn not_found(entity: Entity, key: &str) -> ConfigError {
    ConfigError::NotFound { entity, key: key.to_string() }
}

fn taken(entity: Entity, key: &str) -> ConfigError {
    ConfigError::AlreadyExists { entity, key: key.to_string() }
}

fn env<'a>(c: &'a Config, name: &str) -> &'a Environment {
    c.environments.as_ref().unwrap().get(name).unwrap()
}

fn service<'a>(c: &'a Config, location: &str, name: &str) -> &'a Service {
    c.domains.as_ref().unwrap().get(location).unwrap().services.as_ref().unwrap().get(name).unwrap()
}

fn with_domain() -> Config {
    let mut c = Config::default();
    c.add_domain("My App!", "/srv/my app").unwrap();
    c
}

#[test]
fn default_store_is_empty() {
    let c = Config::default();
    assert_eq!(c.engine, None);
    assert_eq!(c.podman_machine, None);
    assert_eq!(c.domains, None);
    assert_eq!(c.environments, None);
    assert_eq!(c.urls_in_hosts, None);
}

#[test]
fn add_domain_registers_under_its_slug() {
    let c = with_domain();
    let domains = c.domains.as_ref().unwrap();
    assert_eq!(domains.len(), 1);
    assert_eq!(domains.key_at(0), "/srv/my app");
    let d = domains.value_at(0);
    assert_eq!(d.name, "my-app");
    assert_eq!(d.services, None);
    assert_eq!(d.default_environment, None);
}

#[test]
fn add_domain_twice_at_one_location_fails() {
    let mut c = with_domain();
    let before = c.clone();
    assert_eq!(c.add_domain("other", "/srv/my app"), Err(taken(Entity::DomainLocation, "/srv/my app")));
    assert_eq!(c, before);
}

#[test]
fn add_domain_with_a_taken_name_fails() {
    let mut c = with_domain();
    let before = c.clone();
    assert_eq!(c.add_domain("my_app", "/elsewhere/my_app"), Err(taken(Entity::DomainName, "my-app")));
    assert_eq!(c, before);
}

#[test]
fn add_domain_keeps_locations_in_order() {
    let mut c = Config::default();
    c.add_domain("b", "/z/b").unwrap();
    c.add_domain("a", "/y/a").unwrap();
    c.add_domain("c", "/x/c").unwrap();
    assert_eq!(c.domain_locations(), vec!["/x/c".to_string(), "/y/a".to_string(), "/z/b".to_string()]);
}

#[test]
fn rm_domain_by_name() {
    let mut c = with_domain();
    assert_eq!(c.rm_domain("my-app"), Ok(()));
    assert_eq!(c.domains.as_ref().unwrap().len(), 0);
}

#[test]
fn rm_domain_by_location() {
    let mut c = with_domain();
    c.add_domain("second", "/srv/second").unwrap();
    assert_eq!(c.rm_domain("/srv/second"), Ok(()));
    assert_eq!(c.domain_locations(), vec!["/srv/my app".to_string()]);
}

#[test]
fn rm_domain_unknown_name_fails() {
    let mut c = with_domain();
    let before = c.clone();
    assert_eq!(c.rm_domain("nope"), Err(not_found(Entity::Domain, "nope")));
    assert_eq!(c, before);
}

#[test]
fn rm_domain_without_domains_fails() {
    let mut c = Config::default();
    assert_eq!(c.rm_domain("x"), Err(not_found(Entity::Domains, "x")));
    assert_eq!(c, Config::default());
}

#[test]
fn rm_domain_takes_the_first_that_answers() {
    let mut c = Config::default();
    // A domain at "/b" named "x", and a domain whose location is "x".
    c.add_domain("x", "/b").unwrap();
    c.add_domain("other", "x").unwrap();
    assert_eq!(c.domain_locations(), vec!["/b".to_string(), "x".to_string()]);
    assert_eq!(c.rm_domain("x"), Ok(()));
    assert_eq!(c.domain_locations(), vec!["x".to_string()]);
}

#[test]
fn default_environment_needs_the_environment() {
    let mut c = with_domain();
    assert_eq!(
        c.set_domain_default_environment("my-app", "dev"),
        Err(not_found(Entity::Environment, "dev"))
    );
    c.add_volume("dev", "/app", "/x").unwrap();
    assert_eq!(c.set_domain_default_environment("my-app", "dev"), Ok(()));
    assert_eq!(c.domains.as_ref().unwrap().value_at(0).default_environment, Some("dev".to_string()));
}

#[test]
fn default_environment_needs_the_domain() {
    let mut c = Config::default();
    c.add_volume("dev", "/app", "/x").unwrap();
    assert_eq!(
        c.set_domain_default_environment("my-app", "dev"),
        Err(not_found(Entity::Domains, "my-app"))
    );
    c.add_domain("other", "/o").unwrap();
    assert_eq!(
        c.set_domain_default_environment("my-app", "dev"),
        Err(not_found(Entity::Domain, "my-app"))
    );
}

#[test]
fn default_environment_is_removed_once() {
    let mut c = with_domain();
    assert_eq!(
        c.rm_domain_default_environment("my-app"),
        Err(not_found(Entity::DefaultEnvironment, "my-app"))
    );
    c.add_volume("dev", "/app", "/x").unwrap();
    c.set_domain_default_environment("my-app", "dev").unwrap();
    assert_eq!(c.rm_domain_default_environment("my-app"), Ok(()));
    assert_eq!(c.domains.as_ref().unwrap().value_at(0).default_environment, None);
    assert_eq!(
        c.rm_domain_default_environment("my-app"),
        Err(not_found(Entity::DefaultEnvironment, "my-app"))
    );
    assert_eq!(c.rm_domain_default_environment("zz"), Err(not_found(Entity::Domain, "zz")));
}

#[test]
fn environment_settings_need_the_environment() {
    let mut c = Config::default();
    assert_eq!(c.set_serve_command("dev", "run"), Err(not_found(Entity::Environment, "dev")));
    assert_eq!(c.set_image_repository("dev", "r"), Err(not_found(Entity::Environment, "dev")));
    assert_eq!(c.set_platform("dev", "p"), Err(not_found(Entity::Environment, "dev")));
    assert_eq!(c.set_default_container_image("dev", "i"), Err(not_found(Entity::Environment, "dev")));
    assert_eq!(c.rm_serve_command("dev"), Err(not_found(Entity::Environment, "dev")));
    assert_eq!(c, Config::default());
    c.add_env_portmap("other", "1", "2").unwrap();
    assert_eq!(c.set_serve_command("dev", "run"), Err(not_found(Entity::Environment, "dev")));
}

#[test]
fn environment_settings_are_set_and_removed() {
    let mut c = Config::default();
    c.add_env_portmap("dev", "8080", "80").unwrap();
    c.set_serve_command("dev", "npm start").unwrap();
    c.set_image_repository("dev", "reg/env").unwrap();
    c.set_platform("dev", "linux/amd64").unwrap();
    c.set_default_container_image("dev", "node:20").unwrap();
    let e = env(&c, "dev");
    assert_eq!(e.serve_command, Some("npm start".to_string()));
    assert_eq!(e.image_repository, Some("reg/env".to_string()));
    assert_eq!(e.platform, Some("linux/amd64".to_string()));
    assert_eq!(e.default_container_image, Some("node:20".to_string()));
    c.rm_image_repository("dev").unwrap();
    c.rm_platform("dev").unwrap();
    c.rm_default_container_image("dev").unwrap();
    let e = env(&c, "dev");
    assert_eq!(e.serve_command, Some("npm start".to_string()));
    assert_eq!(e.image_repository, None);
    assert_eq!(e.platform, None);
    assert_eq!(e.default_container_image, None);
    assert_eq!(c.rm_image_repository("dev"), Err(not_found(Entity::ImageRepository, "dev")));
    assert_eq!(c.rm_platform("dev"), Err(not_found(Entity::Platform, "dev")));
    assert_eq!(
        c.rm_default_container_image("dev"),
        Err(not_found(Entity::DefaultContainerImage, "dev"))
    );
}

#[test]
fn serve_command_that_was_never_set_cannot_be_removed() {
    let mut c = Config::default();
    c.add_volume("dev", "/app", "/x").unwrap();
    assert_eq!(c.rm_serve_command("dev"), Err(not_found(Entity::ServeCommand, "dev")));
    c.set_serve_command("dev", "run").unwrap();
    assert_eq!(c.rm_serve_command("dev"), Ok(()));
    assert_eq!(c.rm_serve_command("dev"), Err(not_found(Entity::ServeCommand, "dev")));
}

#[test]
fn environment_ports_are_keyed_by_host_port() {
    let mut c = Config::default();
    assert_eq!(c.add_env_portmap("dev", "8080", "80"), Ok(()));
    let before = c.clone();
    assert_eq!(c.add_env_portmap("dev", "8080", "81"), Err(taken(Entity::PortMapping, "8080")));
    assert_eq!(c, before);
    assert_eq!(c.add_env_portmap("dev", "8081", "80"), Ok(()));
    let ports = env(&c, "dev").host_portmappings.as_ref().unwrap();
    assert_eq!(ports.len(), 2);
    assert_eq!(ports.get("8080"), Some(&"80".to_string()));
    assert_eq!(ports.get("8081"), Some(&"80".to_string()));
}

#[test]
fn environment_ports_are_removed() {
    let mut c = Config::default();
    assert_eq!(c.rm_env_portmap("dev", "1"), Err(not_found(Entity::Environments, "dev")));
    c.add_volume("dev", "/a", "/b").unwrap();
    assert_eq!(c.rm_env_portmap("zz", "1"), Err(not_found(Entity::Environment, "zz")));
    assert_eq!(c.rm_env_portmap("dev", "1"), Err(not_found(Entity::PortMappings, "dev")));
    c.add_env_portmap("dev", "1", "2").unwrap();
    assert_eq!(c.rm_env_portmap("dev", "9"), Err(not_found(Entity::PortMapping, "9")));
    assert_eq!(c.rm_env_portmap("dev", "1"), Ok(()));
    assert_eq!(env(&c, "dev").host_portmappings.as_ref().unwrap().len(), 0);
    assert_eq!(c.rm_env_portmap("dev", "1"), Err(not_found(Entity::PortMapping, "1")));
}

#[test]
fn environment_volumes_are_keyed_by_the_pair() {
    let mut c = Config::default();
    assert_eq!(c.add_volume("dev", "/app", "/x"), Ok(()));
    let before = c.clone();
    assert_eq!(c.add_volume("dev", "/app", "/x"), Err(taken(Entity::Volume, "/app")));
    assert_eq!(c, before);
    assert_eq!(c.add_volume("dev", "/other", "/x"), Ok(()));
    assert_eq!(c.add_volume("dev", "/app", "/y"), Ok(()));
    let vols = env(&c, "dev").volumes.as_ref().unwrap();
    assert_eq!(
        *vols,
        vec![
            Volume { container: "/app".to_string(), host: "/x".to_string() },
            Volume { container: "/other".to_string(), host: "/x".to_string() },
            Volume { container: "/app".to_string(), host: "/y".to_string() },
        ]
    );
}

#[test]
fn environment_volumes_are_removed() {
    let mut c = Config::default();
    assert_eq!(c.rm_volume("dev", "/a", "/b"), Err(not_found(Entity::Environments, "dev")));
    c.add_env_portmap("dev", "1", "2").unwrap();
    assert_eq!(c.rm_volume("zz", "/a", "/b"), Err(not_found(Entity::Environment, "zz")));
    assert_eq!(c.rm_volume("dev", "/a", "/b"), Err(not_found(Entity::Volumes, "dev")));
    c.add_volume("dev", "/a", "/b").unwrap();
    c.add_volume("dev", "/c", "/d").unwrap();
    assert_eq!(c.rm_volume("dev", "/a", "/d"), Err(not_found(Entity::Volume, "/a")));
    assert_eq!(c.rm_volume("dev", "/a", "/b"), Ok(()));
    assert_eq!(
        *env(&c, "dev").volumes.as_ref().unwrap(),
        vec![Volume { container: "/c".to_string(), host: "/d".to_string() }]
    );
}

#[test]
fn removing_a_volume_takes_every_copy() {
    let v = || Volume { container: "/a".to_string(), host: "/b".to_string() };
    let w = Volume { container: "/c".to_string(), host: "/d".to_string() };
    let mut e = Environment::default();
    e.volumes = Some(vec![v(), w.clone(), v()]);
    let (envs, _) = StrMap::new().insert("dev".to_string(), e);
    let mut c = Config::default();
    c.environments = Some(envs);
    assert_eq!(c.rm_volume("dev", "/a", "/b"), Ok(()));
    assert_eq!(*env(&c, "dev").volumes.as_ref().unwrap(), vec![w]);
}

#[test]
fn service_operations_need_the_domain() {
    let mut c = Config::default();
    assert_eq!(c.add_portmap("d", "s", "1", "2"), Err(not_found(Entity::Domains, "d")));
    assert_eq!(c.add_service_volume("d", "s", "/a", "/b"), Err(not_found(Entity::Domains, "d")));
    assert_eq!(c.set_service_serve_command("d", "s", "x"), Err(not_found(Entity::Domains, "d")));
    assert_eq!(c.rm_service_platform("d", "s"), Err(not_found(Entity::Domains, "d")));
    let mut c = with_domain();
    let before = c.clone();
    assert_eq!(c.add_portmap("d", "s", "1", "2"), Err(not_found(Entity::Domain, "d")));
    assert_eq!(c.rm_portmap("d", "s", "1"), Err(not_found(Entity::Domain, "d")));
    assert_eq!(c.set_service_platform("d", "s", "x"), Err(not_found(Entity::Domain, "d")));
    assert_eq!(c, before);
}

#[test]
fn service_is_found_by_the_domains_name_not_its_location() {
    let mut c = with_domain();
    assert_eq!(c.add_portmap("/srv/my app", "web", "1", "2"), Err(not_found(Entity::Domain, "/srv/my app")));
    assert_eq!(c.add_portmap("my-app", "web", "1", "2"), Ok(()));
}

#[test]
fn service_ports_are_keyed_by_host_port() {
    let mut c = with_domain();
    assert_eq!(c.add_portmap("my-app", "web", "8080", "80"), Ok(()));
    let before = c.clone();
    assert_eq!(c.add_portmap("my-app", "web", "8080", "81"), Err(taken(Entity::PortMapping, "8080")));
    assert_eq!(c, before);
    assert_eq!(c.add_portmap("my-app", "web", "8081", "80"), Ok(()));
    let ports = service(&c, "/srv/my app", "web").host_portmappings.as_ref().unwrap();
    assert_eq!(ports.len(), 2);
    assert_eq!(ports.get("8080"), Some(&"80".to_string()));
    assert_eq!(ports.get("8081"), Some(&"80".to_string()));
    // Another service of the same domain has its own table.
    assert_eq!(c.add_portmap("my-app", "api", "8080", "81"), Ok(()));
}

#[test]
fn service_ports_are_removed() {
    let mut c = with_domain();
    assert_eq!(c.rm_portmap("my-app", "web", "1"), Err(not_found(Entity::Services, "my-app")));
    c.add_service_volume("my-app", "web", "/a", "/b").unwrap();
    assert_eq!(c.rm_portmap("my-app", "api", "1"), Err(not_found(Entity::Service, "api")));
    assert_eq!(c.rm_portmap("my-app", "web", "1"), Err(not_found(Entity::PortMappings, "web")));
    c.add_portmap("my-app", "web", "1", "2").unwrap();
    assert_eq!(c.rm_portmap("my-app", "web", "9"), Err(not_found(Entity::PortMapping, "9")));
    assert_eq!(c.rm_portmap("my-app", "web", "1"), Ok(()));
    assert_eq!(service(&c, "/srv/my app", "web").host_portmappings.as_ref().unwrap().len(), 0);
}

#[test]
fn service_volumes_are_keyed_by_the_pair() {
    let mut c = with_domain();
    assert_eq!(c.add_service_volume("my-app", "web", "/app", "/x"), Ok(()));
    assert_eq!(c.add_service_volume("my-app", "web", "/app", "/x"), Err(taken(Entity::Volume, "/app")));
    assert_eq!(c.add_service_volume("my-app", "web", "/other", "/x"), Ok(()));
    assert_eq!(service(&c, "/srv/my app", "web").volumes.as_ref().unwrap().len(), 2);
}

#[test]
fn service_volumes_are_removed() {
    let mut c = with_domain();
    assert_eq!(c.rm_service_volume("my-app", "web", "/a", "/b"), Err(not_found(Entity::Services, "my-app")));
    c.add_portmap("my-app", "web", "1", "2").unwrap();
    assert_eq!(c.rm_service_volume("my-app", "api", "/a", "/b"), Err(not_found(Entity::Service, "api")));
    assert_eq!(c.rm_service_volume("my-app", "web", "/a", "/b"), Err(not_found(Entity::Volumes, "web")));
    c.add_service_volume("my-app", "web", "/a", "/b").unwrap();
    assert_eq!(c.rm_service_volume("my-app", "web", "/a", "/z"), Err(not_found(Entity::Volume, "/a")));
    assert_eq!(c.rm_service_volume("my-app", "web", "/a", "/b"), Ok(()));
    assert_eq!(service(&c, "/srv/my app", "web").volumes.as_ref().unwrap().len(), 0);
}

#[test]
fn service_settings_create_the_service() {
    let mut c = with_domain();
    c.set_service_serve_command("my-app", "web", "npm start").unwrap();
    c.set_service_image_repository("my-app", "web", "reg/svc").unwrap();
    c.set_service_platform("my-app", "web", "linux/arm64").unwrap();
    c.set_service_default_container_image("my-app", "web", "node:20").unwrap();
    let s = service(&c, "/srv/my app", "web");
    assert_eq!(s.serve_command, Some("npm start".to_string()));
    assert_eq!(s.image_repository, Some("reg/svc".to_string()));
    assert_eq!(s.platform, Some("linux/arm64".to_string()));
    assert_eq!(s.default_container_image, Some("node:20".to_string()));
    assert_eq!(s.volumes, None);
    assert_eq!(s.host_portmappings, None);
}

#[test]
fn service_settings_are_removed_once() {
    let mut c = with_domain();
    assert_eq!(c.rm_service_serve_command("my-app", "web"), Err(not_found(Entity::Services, "my-app")));
    c.set_service_platform("my-app", "web", "p").unwrap();
    assert_eq!(c.rm_service_serve_command("my-app", "api"), Err(not_found(Entity::Service, "api")));
    assert_eq!(c.rm_service_serve_command("my-app", "web"), Err(not_found(Entity::ServeCommand, "web")));
    assert_eq!(c.rm_service_image_repository("my-app", "web"), Err(not_found(Entity::ImageRepository, "web")));
    assert_eq!(
        c.rm_service_default_container_image("my-app", "web"),
        Err(not_found(Entity::DefaultContainerImage, "web"))
    );
    assert_eq!(c.rm_service_platform("my-app", "web"), Ok(()));
    assert_eq!(c.rm_service_platform("my-app", "web"), Err(not_found(Entity::Platform, "web")));
    c.set_service_serve_command("my-app", "web", "x").unwrap();
    c.set_service_image_repository("my-app", "web", "x").unwrap();
    c.set_service_default_container_image("my-app", "web", "x").unwrap();
    assert_eq!(c.rm_service_serve_command("my-app", "web"), Ok(()));
    assert_eq!(c.rm_service_image_repository("my-app", "web"), Ok(()));
    assert_eq!(c.rm_service_default_container_image("my-app", "web"), Ok(()));
    let s = service(&c, "/srv/my app", "web");
    assert_eq!(*s, Service::default());
}

#[test]
fn service_edit_touches_the_first_domain_of_that_name() {
    // Two domains with one name can only come from a file written by hand.
    let d = |n: &str| Domain { name: n.to_string(), services: None, default_environment: None };
    let (m, _) = StrMap::new().insert("/b".to_string(), d("twin"));
    let (m, _) = m.insert("/a".to_string(), d("twin"));
    let mut c = Config::default();
    c.domains = Some(m);
    c.set_service_platform("twin", "web", "p").unwrap();
    let domains = c.domains.as_ref().unwrap();
    assert!(domains.get("/a").unwrap().services.is_some());
    assert!(domains.get("/b").unwrap().services.is_none());
}

#[test]
fn edits_apply_to_settings() {
    let mut e = Environment::default();
    assert_eq!(e.apply(Edit::Assign { which: Setting::Platform, value: "p".to_string() }, "dev"), Ok(()));
    assert_eq!(e.platform, Some("p".to_string()));
    assert!(e.has_setting(Setting::Platform));
    assert!(!e.has_setting(Setting::ServeCommand));
    assert_eq!(e.setting(Setting::Platform), Some(&"p".to_string()));
    assert_eq!(e.apply(Edit::Clear { which: Setting::Platform }, "dev"), Ok(()));
    assert_eq!(e.apply(Edit::Clear { which: Setting::Platform }, "dev"), Err(not_found(Entity::Platform, "dev")));
    let mut s = Service::default();
    assert_eq!(
        s.apply(Edit::RemovePort { host_port: "1".to_string() }, "web"),
        Err(not_found(Entity::PortMappings, "web"))
    );
    assert_eq!(
        s.apply(Edit::AddPort { host_port: "1".to_string(), container_port: "2".to_string() }, "web"),
        Ok(())
    );
    assert_eq!(
        s.apply(Edit::AddPort { host_port: "1".to_string(), container_port: "3".to_string() }, "web"),
        Err(taken(Entity::PortMapping, "1"))
    );
    assert_eq!(s.apply(Edit::RemovePort { host_port: "1".to_string() }, "web"), Ok(()));
}

#[test]
fn every_store_is_valid() {
    let mut c = with_domain();
    c.add_portmap("my-app", "web", "2", "2").unwrap();
    c.add_portmap("my-app", "web", "1", "1").unwrap();
    c.add_env_portmap("dev", "9", "9").unwrap();
    c.ordered();
    let ports = service(&c, "/srv/my app", "web").host_portmappings.as_ref().unwrap();
    assert_eq!(ports.key_at(0), "1");
    assert_eq!(ports.key_at(1), "2");
}
