use darp::deploy::{hosts_line_text, ordered_folders, site_url_text, vhost_block_text, Assignment, FIRST_PORT};
use darp::error::{unmet, Entity};
use darp::json::{folder_table, lookup_port, port_table};
use darp::model::{Config, Domain};
use darp::strmap::StrMap;

fn names(v: &[&str]) -> Vec<String> {
    v.iter().map(|s| s.to_string()).collect()
}

fn two_domains() -> Config {
    let mut c = Config::default();
    c.add_domain("Shop", "/srv/shop").unwrap();
    c.add_domain("Blog", "/srv/blog").unwrap();
    c
}

fn num(n: u64) -> serde_json::Value {
    serde_json::Value::Number(serde_json::Number::from(n))
}

fn obj(entries: Vec<(&str, serde_json::Value)>) -> serde_json::Value {
    let mut m = serde_json::Map::new();
    for (k, v) in entries {
        m.insert(k.to_string(), v);
    }
    serde_json::Value::Object(m)
}

#[test]
fn first_port_is_50100() {
    assert_eq!(FIRST_PORT, 50100);
}

#[test]
fn deploy_assigns_ports_in_order() {
    let c = two_domains();
    // Locations are ordered: /srv/blog before /srv/shop.
    let listing = vec![names(&["web", "api"]), names(&["front", "back"])];
    let plan = c.plan_deploy(&listing, "host.docker.internal").unwrap();
    let a = |d: &str, f: &str, p: u16| Assignment { domain: d.to_string(), folder: f.to_string(), port: p };
    assert_eq!(
        plan.assignments,
        vec![a("blog", "web", 50100), a("blog", "api", 50101), a("shop", "front", 50102), a("shop", "back", 50103)]
    );
}

#[test]
fn deploy_writes_one_hosts_line_for_each_folder() {
    let c = two_domains();
    let listing = vec![names(&["web", "api"]), names(&["front", "back"])];
    let plan = c.plan_deploy(&listing, "host.docker.internal").unwrap();
    assert_eq!(
        plan.hosts_lines,
        vec![
            "0.0.0.0   web.blog.test\n".to_string(),
            "0.0.0.0   api.blog.test\n".to_string(),
            "0.0.0.0   front.shop.test\n".to_string(),
            "0.0.0.0   back.shop.test\n".to_string(),
        ]
    );
}

#[test]
fn deploy_writes_one_server_block_for_each_folder() {
    let c = two_domains();
    let listing = vec![names(&["web", "api"]), names(&["front", "back"])];
    let plan = c.plan_deploy(&listing, "host.docker.internal").unwrap();
    assert_eq!(plan.vhost.matches("server {").count(), 4);
    let first = "server {\n    listen 80;\n    server_name web.blog.test;\n    location / {\n        proxy_pass http://host.docker.internal:50100/;\n        proxy_set_header Host $host;\n    }\n}\n";
    assert!(plan.vhost.starts_with(first));
    let last = "server {\n    listen 80;\n    server_name back.shop.test;\n    location / {\n        proxy_pass http://host.docker.internal:50103/;\n        proxy_set_header Host $host;\n    }\n}\n";
    assert!(plan.vhost.ends_with(last));
    let mut whole = String::new();
    for (url, port) in [("web.blog.test", 50100), ("api.blog.test", 50101), ("front.shop.test", 50102), ("back.shop.test", 50103)] {
        whole.push_str(&vhost_block_text(url, "host.docker.internal", port));
    }
    assert_eq!(plan.vhost, whole);
}

#[test]
fn deploy_writes_the_port_map() {
    let c = two_domains();
    let listing = vec![names(&["web", "api"]), names(&["front", "back"])];
    let plan = c.plan_deploy(&listing, "localhost").unwrap();
    assert_eq!(plan.portmap.len(), 2);
    let blog = plan.portmap.get("blog").unwrap().as_object().unwrap();
    assert_eq!(blog.len(), 2);
    assert_eq!(blog.get("web").unwrap().as_u64(), Some(50100));
    assert_eq!(blog.get("api").unwrap().as_u64(), Some(50101));
    let shop = plan.portmap.get("shop").unwrap().as_object().unwrap();
    assert_eq!(shop.len(), 2);
    assert_eq!(shop.get("front").unwrap().as_u64(), Some(50102));
    assert_eq!(shop.get("back").unwrap().as_u64(), Some(50103));
    let text = serde_json::to_string(&plan.portmap).unwrap();
    assert_eq!(text, "{\"blog\":{\"api\":50101,\"web\":50100},\"shop\":{\"back\":50103,\"front\":50102}}");
}

#[test]
fn deploy_and_lookup_agree() {
    let c = two_domains();
    let listing = vec![names(&["web", "api"]), names(&["front", "back"])];
    let plan = c.plan_deploy(&listing, "localhost").unwrap();
    let doc = serde_json::Value::Object(plan.portmap);
    for a in plan.assignments.iter() {
        assert_eq!(lookup_port(&doc, &a.domain, &a.folder), Some(a.port as u64));
    }
    assert_eq!(lookup_port(&doc, "blog", "front"), None);
    assert_eq!(lookup_port(&doc, "nope", "web"), None);
}

#[test]
fn deploy_keeps_a_domain_without_folders() {
    let c = two_domains();
    let listing = vec![names(&[]), names(&["only"])];
    let plan = c.plan_deploy(&listing, "localhost").unwrap();
    assert_eq!(plan.assignments.len(), 1);
    assert_eq!(plan.assignments[0].port, 50100);
    assert_eq!(plan.assignments[0].domain, "shop");
    assert_eq!(plan.portmap.len(), 2);
    assert_eq!(plan.portmap.get("blog").unwrap().as_object().unwrap().len(), 0);
}

#[test]
fn deploy_wants_a_domain() {
    let c = Config::default();
    let r = c.plan_deploy(&vec![], "localhost");
    assert_eq!(r.unwrap_err(), unmet(Entity::Domains, "Please configure a domain."));
    let mut c = Config::default();
    c.add_domain("a", "/a").unwrap();
    c.rm_domain("a").unwrap();
    let r = c.plan_deploy(&vec![], "localhost");
    assert_eq!(r.unwrap_err(), unmet(Entity::Domains, "Please configure a domain."));
}

#[test]
fn deploy_wants_a_list_for_each_domain() {
    let c = two_domains();
    let r = c.plan_deploy(&vec![names(&["web"])], "localhost");
    assert_eq!(r.unwrap_err(), unmet(Entity::Listing, "Each domain needs the list of its folders."));
    let r = c.plan_deploy(&vec![names(&[]), names(&[]), names(&[])], "localhost");
    assert_eq!(r.unwrap_err(), unmet(Entity::Listing, "Each domain needs the list of its folders."));
}

#[test]
fn deploy_runs_out_of_ports() {
    let mut c = Config::default();
    c.add_domain("big", "/big").unwrap();
    let many: Vec<String> = (0..15436).map(|i| format!("f{}", i)).collect();
    let plan = c.plan_deploy(&vec![many.clone()], "localhost").unwrap();
    assert_eq!(plan.assignments.len(), 15436);
    assert_eq!(plan.assignments[15435].port, 65535);
    let mut more = many;
    more.push("one-too-many".to_string());
    let r = c.plan_deploy(&vec![more], "localhost");
    assert_eq!(r.unwrap_err(), unmet(Entity::Port, "There are more folders than ports."));
}

#[test]
fn deploy_of_twins_keeps_the_later_entry() {
    let d = |n: &str| Domain { name: n.to_string(), services: None, default_environment: None };
    let (m, _) = StrMap::new().insert("/a".to_string(), d("twin"));
    let (m, _) = m.insert("/b".to_string(), d("twin"));
    let mut c = Config::default();
    c.domains = Some(m);
    let plan = c.plan_deploy(&vec![names(&["x"]), names(&["y"])], "localhost").unwrap();
    assert_eq!(plan.assignments.len(), 2);
    assert_eq!(plan.portmap.len(), 1);
    let twin = plan.portmap.get("twin").unwrap().as_object().unwrap();
    assert_eq!(twin.len(), 1);
    assert_eq!(twin.get("y").unwrap().as_u64(), Some(50101));
}

#[test]
fn urls_and_lines_have_their_form() {
    assert_eq!(site_url_text("web", "blog"), "web.blog.test");
    assert_eq!(hosts_line_text("web.blog.test"), "0.0.0.0   web.blog.test\n");
    assert_eq!(
        vhost_block_text("a.b.test", "gw", 7),
        "server {\n    listen 80;\n    server_name a.b.test;\n    location / {\n        proxy_pass http://gw:7/;\n        proxy_set_header Host $host;\n    }\n}\n"
    );
}

#[test]
fn folders_are_put_in_order() {
    assert_eq!(ordered_folders(&names(&["web", "api", "db"])), names(&["api", "db", "web"]));
    assert_eq!(ordered_folders(&names(&["b", "a", "b"])), names(&["a", "b"]));
    assert_eq!(ordered_folders(&names(&[])), names(&[]));
}

#[test]
fn lookup_port_reads_two_levels() {
    let doc = obj(vec![("blog", obj(vec![("web", num(50100)), ("bad", serde_json::Value::Null)]))]);
    assert_eq!(lookup_port(&doc, "blog", "web"), Some(50100));
    assert_eq!(lookup_port(&doc, "blog", "bad"), None);
    assert_eq!(lookup_port(&doc, "blog", "api"), None);
    assert_eq!(lookup_port(&doc, "shop", "web"), None);
    assert_eq!(lookup_port(&num(3), "blog", "web"), None);
    assert_eq!(lookup_port(&obj(vec![("blog", num(1))]), "blog", "web"), None);
    let negative = serde_json::Value::Number(serde_json::Number::from(-5));
    assert_eq!(lookup_port(&obj(vec![("blog", obj(vec![("web", negative)]))]), "blog", "web"), None);
}

#[test]
fn port_table_orders_domains_and_folders() {
    let doc = obj(vec![
        ("shop", obj(vec![("front", num(50102)), ("back", num(50103))])),
        ("blog", obj(vec![("web", num(50100)), ("odd", serde_json::Value::Bool(true))])),
        ("flat", num(1)),
    ]);
    let t = port_table(&doc);
    assert_eq!(t.len(), 3);
    assert_eq!(t.key_at(0), "blog");
    assert_eq!(t.key_at(1), "flat");
    assert_eq!(t.key_at(2), "shop");
    let blog = t.value_at(0);
    assert_eq!(blog.len(), 2);
    assert_eq!(blog.key_at(0), "odd");
    assert_eq!(*blog.value_at(0), 0);
    assert_eq!(blog.key_at(1), "web");
    assert_eq!(*blog.value_at(1), 50100);
    assert_eq!(t.value_at(1).len(), 0);
    let shop = t.value_at(2);
    assert_eq!(shop.key_at(0), "back");
    assert_eq!(*shop.value_at(0), 50103);
    assert_eq!(shop.key_at(1), "front");
    assert_eq!(port_table(&num(1)).len(), 0);
    assert_eq!(folder_table(&serde_json::Value::Null).len(), 0);
}
