//! What holds of the operations taken together.

use vstd::prelude::*;
use crate::deploy::{assignments, folder_assignments, folder_ports, hosts_fragment, port_tables};
use crate::json::{JsonView, port_in};
use crate::domains::{
    answers_to, answering_at, domain_added, domain_removed, fresh_domain, has_answering,
};
use crate::edit::EditView;
use crate::environments::{
    environment_port_added, environment_setting_cleared, environment_setting_set,
    environment_volume_added,
};
use crate::error::{ConfigError, Entity, ErrorView, is_already_exists, is_not_found};
use crate::model::{
    ConfigView, DomainView, Setting, SettingsView, VolumeView, first_named, has_named, named_at,
};
use crate::resolve::{base_image, effective_setting, host_path};
use crate::services::{lemma_first_named, lemma_has_named, service_port_added, service_volume_added};
use crate::slug::{ascii_lower, fallback_name, is_ascii_alnum, slug, slug_body, slug_step};
use crate::strmap::{
    has_key, index_of, lemma_index_of, lemma_put_sorted, lemma_rank_exists, lookup, rank,
};
use crate::text::{occurs, occurs_at, replaced};

verus! {

/// A character of a slug: a lower-case letter, a digit or a hyphen.
pub open spec fn is_slug_char(c: char) -> bool {
    ('a' <= c && c <= 'z') || ('0' <= c && c <= '9') || c == '-'
}

/// Lower-case letters and digits joined by single hyphens, and not empty.
pub open spec fn is_slug_form(s: Seq<char>) -> bool {
    &&& s.len() > 0
    &&& forall|i: int| 0 <= i < s.len() ==> is_slug_char(#[trigger] s[i])
    &&& s[0] != '-'
    &&& s.last() != '-'
    &&& forall|i: int| 0 <= i < s.len() - 1 ==> !(#[trigger] s[i] == '-' && s[i + 1] == '-')
}

proof fn lemma_slug_body(s: Seq<char>)
    ensures
        forall|i: int| 0 <= i < slug_body(s).len() ==> is_slug_char(#[trigger] slug_body(s)[i]),
        slug_body(s).len() > 0 ==> slug_body(s)[0] != '-',
        forall|i: int|
            0 <= i < slug_body(s).len() - 1 ==> !(#[trigger] slug_body(s)[i] == '-' && slug_body(
                s,
            )[i + 1] == '-'),
    decreases s.len(),
{
    if s.len() > 0 {
        lemma_slug_body(s.drop_last());
        let prev = slug_body(s.drop_last());
        let c = s.last();
        let next = slug_step(prev, c);
        assert(slug_body(s) == next);
        if is_ascii_alnum(c) {
            assert(is_slug_char(ascii_lower(c)));
            assert(ascii_lower(c) != '-');
        }
        assert forall|i: int| 0 <= i < next.len() implies is_slug_char(#[trigger] next[i]) by {
            if i < prev.len() {
                assert(next[i] == prev[i]);
            }
        }
        assert forall|i: int| 0 <= i < next.len() - 1 implies !(#[trigger] next[i] == '-' && next[i
            + 1] == '-') by {
            if i + 1 < prev.len() {
                assert(next[i] == prev[i] && next[i + 1] == prev[i + 1]);
            } else if i + 1 == prev.len() {
                assert(next[i] == prev[i]);
            }
        }
        if next.len() > 0 {
            if prev.len() > 0 {
                assert(next[0] == prev[0]);
            }
        }
    }
}

/// Every name that `slugify_name` gives has the form of a slug.
pub proof fn law_slug_form(s: Seq<char>)
    ensures
        is_slug_form(slug(s)),
{
    lemma_slug_body(s);
    let b = slug_body(s);
    let t = if b.len() > 0 && b.last() == '-' {
        b.drop_last()
    } else {
        b
    };
    if t.len() == 0 {
        reveal_strlit("domain");
        let f = fallback_name();
        assert(f.len() == 6);
        assert(f[0] == 'd' && f[1] == 'o' && f[2] == 'm' && f[3] == 'a' && f[4] == 'i' && f[5]
            == 'n');
        assert forall|i: int| 0 <= i < f.len() implies is_slug_char(#[trigger] f[i]) by {}
    } else {
        assert forall|i: int| 0 <= i < t.len() implies is_slug_char(#[trigger] t[i]) by {
            assert(t[i] == b[i]);
        }
        assert(t[0] == b[0]);
        if b.len() > 0 && b.last() == '-' {
            let k: int = b.len() - 2;
            assert(!(b[k] == '-' && b[k + 1] == '-'));
            assert(t.last() == b[k]);
        }
        assert forall|i: int| 0 <= i < t.len() - 1 implies !(#[trigger] t[i] == '-' && t[i + 1]
            == '-') by {
            assert(t[i] == b[i] && t[i + 1] == b[i + 1]);
        }
    }
}

/// A location is registered once: adding a domain at a location that a first
/// add has just taken is rejected, whatever its label, and changes nothing.
pub proof fn law_location_registered_once(
    pre: ConfigView,
    mid: ConfigView,
    post: ConfigView,
    first: Result<(), ConfigError>,
    second: Result<(), ConfigError>,
    label1: Seq<char>,
    label2: Seq<char>,
    location: Seq<char>,
)
    requires
        pre.wf(),
        domain_added(pre, mid, first, label1, location),
        first is Ok,
        domain_added(mid, post, second, label2, location),
    ensures
        is_already_exists(second, Entity::DomainLocation, location),
        post == mid,
{
    lemma_put_sorted(pre.doms(), location, fresh_domain(slug(label1)));
}

/// A name is given once: after a domain has been added, a directory at
/// another location whose label gives the same name is rejected, and
/// nothing changes.
pub proof fn law_name_given_once(
    pre: ConfigView,
    mid: ConfigView,
    post: ConfigView,
    first: Result<(), ConfigError>,
    second: Result<(), ConfigError>,
    label1: Seq<char>,
    label2: Seq<char>,
    location1: Seq<char>,
    location2: Seq<char>,
)
    requires
        pre.wf(),
        domain_added(pre, mid, first, label1, location1),
        first is Ok,
        location1 != location2,
        slug(label1) == slug(label2),
        domain_added(mid, post, second, label2, location2),
    ensures
        post == mid,
        is_already_exists(second, Entity::DomainLocation, location2) || is_already_exists(
            second,
            Entity::DomainName,
            slug(label2),
        ),
        !has_key(pre.doms(), location2) ==> is_already_exists(
            second,
            Entity::DomainName,
            slug(label2),
        ),
{
    let d = fresh_domain(slug(label1));
    lemma_put_sorted(pre.doms(), location1, d);
    let m = mid.doms();
    assert(has_key(m, location1));
    let i = index_of(m, location1);
    lemma_index_of(m, i);
    assert(lookup(m, location1) == Some(d));
    assert(m[i].1.name == slug(label2));
    assert(has_named(m, slug(label2)));
}

/// A domain can be removed by the name that its label gave it; the caller
/// need not know its location.
pub proof fn law_removed_by_name(
    pre: ConfigView,
    mid: ConfigView,
    post: ConfigView,
    added: Result<(), ConfigError>,
    removed: Result<(), ConfigError>,
    label: Seq<char>,
    location: Seq<char>,
)
    requires
        pre.wf(),
        domain_added(pre, mid, added, label, location),
        added is Ok,
        domain_removed(mid, post, removed, slug(label)),
    ensures
        removed is Ok,
        post.doms().len() == mid.doms().len() - 1,
{
    let d = fresh_domain(slug(label));
    lemma_put_sorted(pre.doms(), location, d);
    let m = mid.doms();
    let i = index_of(m, location);
    lemma_index_of(m, i);
    assert(lookup(m, location) == Some(d));
    assert(answers_to(m[i], slug(label)));
    assert(has_answering(m, slug(label)));
    lemma_least_answering(m, slug(label), i);
}

proof fn lemma_least_answering(d: Seq<(Seq<char>, DomainView)>, name: Seq<char>, w: int)
    requires
        0 <= w < d.len(),
        answers_to(d[w], name),
    ensures
        exists|i: int| answering_at(d, name, i),
    decreases w,
{
    if exists|j: int| 0 <= j < w && answers_to(#[trigger] d[j], name) {
        let j = choose|j: int| 0 <= j < w && answers_to(#[trigger] d[j], name);
        lemma_least_answering(d, name, j);
    } else {
        assert(answering_at(d, name, w));
    }
}

/// Removing a name that no domain answers to is reported as not found and
/// changes nothing.
pub proof fn law_unknown_domain_not_removed(
    pre: ConfigView,
    post: ConfigView,
    removed: Result<(), ConfigError>,
    name: Seq<char>,
)
    requires
        domain_removed(pre, post, removed, name),
        !has_answering(pre.doms(), name),
    ensures
        removed is Err,
        is_not_found(removed, Entity::Domains, name) || is_not_found(removed, Entity::Domain, name),
        post == pre,
{
}

/// Port mappings are keyed by the host port alone. Once a host port is
/// mapped, mapping it again is rejected whatever the container port; another
/// host port is accepted exactly where it was free before, even to the same
/// container port.
pub proof fn law_ports_keyed_by_host_port(
    s: SettingsView,
    owner: Seq<char>,
    host_port: Seq<char>,
    container_port: Seq<char>,
    other_host_port: Seq<char>,
    other_container_port: Seq<char>,
)
    requires
        s.wf(),
        s.edited(EditView::AddPort { host_port, container_port }, owner) is Ok,
    ensures
        ({
            let t = s.edited(EditView::AddPort { host_port, container_port }, owner)->Ok_0;
            &&& t.wf()
            &&& t.edited(
                EditView::AddPort { host_port, container_port: other_container_port },
                owner,
            ) == Err::<SettingsView, ErrorView>(
                ErrorView::AlreadyExists { entity: Entity::PortMapping, key: host_port },
            )
            &&& other_host_port != host_port ==> (t.edited(
                EditView::AddPort {
                    host_port: other_host_port,
                    container_port: other_container_port,
                },
                owner,
            ) is Ok <==> !s.has_port(other_host_port))
        }),
{
    lemma_put_sorted(s.ports(), host_port, container_port);
}

/// Volumes are keyed by the pair of paths. The same pair twice is rejected;
/// a pair that differs in either path is accepted exactly where it was not
/// listed before.
pub proof fn law_volumes_keyed_by_pair(
    s: SettingsView,
    owner: Seq<char>,
    container: Seq<char>,
    host: Seq<char>,
    other_container: Seq<char>,
    other_host: Seq<char>,
)
    requires
        s.edited(EditView::AddVolume { container, host }, owner) is Ok,
    ensures
        ({
            let t = s.edited(EditView::AddVolume { container, host }, owner)->Ok_0;
            &&& t.edited(EditView::AddVolume { container, host }, owner) == Err::<
                SettingsView,
                ErrorView,
            >(ErrorView::AlreadyExists { entity: Entity::Volume, key: container })
            &&& (other_container != container || other_host != host) ==> (t.edited(
                EditView::AddVolume { container: other_container, host: other_host },
                owner,
            ) is Ok <==> !s.has_volume(other_container, other_host))
        }),
{
    let v = VolumeView { container, host };
    let o = VolumeView { container: other_container, host: other_host };
    let t = s.with_volume(container, host);
    let before = s.vols();
    let after = t.vols();
    assert(after == before.push(v));
    assert(after[after.len() - 1] == v);
    assert(after.contains(v));
    if other_container != container || other_host != host {
        if before.contains(o) {
            let i = choose|i: int| 0 <= i < before.len() && before[i] == o;
            assert(after[i] == o);
        }
        if after.contains(o) {
            let i = choose|i: int| 0 <= i < after.len() && after[i] == o;
            assert(i < before.len());
            assert(before[i] == o);
        }
    }
}

/// The store after an environment's port mapping has been added rejects the
/// same host port for that environment.
pub proof fn law_environment_port_once(
    pre: ConfigView,
    mid: ConfigView,
    post: ConfigView,
    first: Result<(), ConfigError>,
    second: Result<(), ConfigError>,
    name: Seq<char>,
    host_port: Seq<char>,
    container_port: Seq<char>,
    other_container_port: Seq<char>,
)
    requires
        pre.wf(),
        environment_port_added(pre, mid, first, name, host_port, container_port),
        first is Ok,
        environment_port_added(mid, post, second, name, host_port, other_container_port),
    ensures
        is_already_exists(second, Entity::PortMapping, host_port),
        post == mid,
{
    lemma_env_wf(pre, name);
    let e = pre.env(name).with_port(host_port, container_port);
    lemma_put_sorted(pre.envs(), name, e);
    lemma_put_sorted(pre.env(name).ports(), host_port, container_port);
    assert(mid.env(name) == e);
}

/// In a valid store every environment is valid, the missing ones too.
proof fn lemma_env_wf(c: ConfigView, name: Seq<char>)
    requires
        c.wf(),
    ensures
        c.env(name).wf(),
{
    if has_key(c.envs(), name) {
        let i = index_of(c.envs(), name);
        assert(c.envs()[i].1.wf());
    }
}

/// In a valid domain every service is valid, the missing ones too.
proof fn lemma_svc_wf(d: DomainView, name: Seq<char>)
    requires
        d.wf(),
    ensures
        d.svc(name).wf(),
{
    if has_key(d.svcs(), name) {
        let i = index_of(d.svcs(), name);
        assert(d.svcs()[i].1.wf());
    }
}

/// The store after a service's port mapping has been added rejects the same
/// host port for that service, whatever the container port.
pub proof fn law_service_port_once(
    pre: ConfigView,
    mid: ConfigView,
    post: ConfigView,
    first: Result<(), ConfigError>,
    second: Result<(), ConfigError>,
    domain: Seq<char>,
    service: Seq<char>,
    host_port: Seq<char>,
    container_port: Seq<char>,
    other_container_port: Seq<char>,
)
    requires
        pre.wf(),
        service_port_added(pre, mid, first, domain, service, host_port, container_port),
        first is Ok,
        service_port_added(mid, post, second, domain, service, host_port, other_container_port),
    ensures
        is_already_exists(second, Entity::PortMapping, host_port),
        post == mid,
{
    lemma_has_named(pre.doms(), domain);
    let i = first_named(pre.doms(), domain);
    let d = pre.doms()[i].1;
    assert(d.wf());
    lemma_svc_wf(d, service);
    let s1 = d.svc(service).with_port(host_port, container_port);
    let d1 = d.with_svc(service, s1);
    lemma_put_sorted(d.svcs(), service, s1);
    lemma_put_sorted(d.svc(service).ports(), host_port, container_port);
    assert(named_at(mid.doms(), domain, i)) by {
        assert forall|j: int| 0 <= j < i implies (#[trigger] mid.doms()[j]).1.name != domain by {
            assert(mid.doms()[j] == pre.doms()[j]);
        }
    }
    lemma_first_named(mid.doms(), domain, i);
    assert(mid.domain(domain) == d1);
    assert(d1.svc(service) == s1);
}

/// The store after a service's volume has been added rejects the same pair
/// of paths for that service.
pub proof fn law_service_volume_once(
    pre: ConfigView,
    mid: ConfigView,
    post: ConfigView,
    first: Result<(), ConfigError>,
    second: Result<(), ConfigError>,
    domain: Seq<char>,
    service: Seq<char>,
    container: Seq<char>,
    host: Seq<char>,
)
    requires
        pre.wf(),
        service_volume_added(pre, mid, first, domain, service, container, host),
        first is Ok,
        service_volume_added(mid, post, second, domain, service, container, host),
    ensures
        is_already_exists(second, Entity::Volume, container),
        post == mid,
{
    lemma_has_named(pre.doms(), domain);
    let i = first_named(pre.doms(), domain);
    let d = pre.doms()[i].1;
    assert(d.wf());
    let s1 = d.svc(service).with_volume(container, host);
    let d1 = d.with_svc(service, s1);
    lemma_put_sorted(d.svcs(), service, s1);
    assert(named_at(mid.doms(), domain, i)) by {
        assert forall|j: int| 0 <= j < i implies (#[trigger] mid.doms()[j]).1.name != domain by {
            assert(mid.doms()[j] == pre.doms()[j]);
        }
    }
    lemma_first_named(mid.doms(), domain, i);
    assert(mid.domain(domain) == d1);
    assert(d1.svc(service) == s1);
    let v = VolumeView { container, host };
    assert(s1.vols()[s1.vols().len() - 1] == v);
}

/// The store after an environment's volume has been added rejects the same
/// pair of paths for that environment.
pub proof fn law_environment_volume_once(
    pre: ConfigView,
    mid: ConfigView,
    post: ConfigView,
    first: Result<(), ConfigError>,
    second: Result<(), ConfigError>,
    name: Seq<char>,
    container: Seq<char>,
    host: Seq<char>,
)
    requires
        pre.wf(),
        environment_volume_added(pre, mid, first, name, container, host),
        first is Ok,
        environment_volume_added(mid, post, second, name, container, host),
    ensures
        is_already_exists(second, Entity::Volume, container),
        post == mid,
{
    let e = pre.env(name).with_volume(container, host);
    lemma_put_sorted(pre.envs(), name, e);
    assert(mid.env(name) == e);
    let v = VolumeView { container, host };
    assert(e.vols()[e.vols().len() - 1] == v);
}

/// A setting that was never set cannot be cleared; once set it can be
/// cleared once, and not a second time.
pub proof fn law_setting_cleared_once(
    pre: ConfigView,
    set: ConfigView,
    cleared: ConfigView,
    post: ConfigView,
    r1: Result<(), ConfigError>,
    r2: Result<(), ConfigError>,
    r3: Result<(), ConfigError>,
    name: Seq<char>,
    which: Setting,
    value: Seq<char>,
)
    requires
        pre.wf(),
        pre.has_env(name),
        environment_setting_set(pre, set, r1, name, which, value),
        environment_setting_cleared(set, cleared, r2, name, which),
        environment_setting_cleared(cleared, post, r3, name, which),
    ensures
        r1 is Ok,
        r2 is Ok,
        is_not_found(r3, which.entity(), name),
        post == cleared,
{
    let e1 = pre.env(name).with_setting(which, Some(value));
    lemma_put_sorted(pre.envs(), name, e1);
    assert(set.env(name) == e1);
    let e2 = e1.with_setting(which, None);
    lemma_put_sorted(set.envs(), name, e2);
    assert(cleared.env(name) == e2);
}

/// Clearing a setting that has no value is reported as not found.
pub proof fn law_unset_setting_not_cleared(
    pre: ConfigView,
    post: ConfigView,
    r: Result<(), ConfigError>,
    name: Seq<char>,
    which: Setting,
)
    requires
        pre.has_env(name),
        pre.env(name).setting(which) is None,
        environment_setting_cleared(pre, post, r, name, which),
    ensures
        is_not_found(r, which.entity(), name),
        post == pre,
{
}

/// The service overrides the environment: a setting that the service has is
/// the effective one whatever the environment says, and one that the service
/// lacks falls through to the environment.
pub proof fn law_service_overrides_environment(
    service: SettingsView,
    environment: SettingsView,
    which: Setting,
)
    ensures
        service.setting(which) is Some ==> effective_setting(
            Some(service),
            Some(environment),
            which,
        ) == service.setting(which),
        service.setting(which) is None ==> effective_setting(
            Some(service),
            Some(environment),
            which,
        ) == environment.setting(which),
        effective_setting(None, Some(environment), which) == environment.setting(which),
        effective_setting(Some(service), None, which) == service.setting(which),
{
}

/// The image given on the command line always wins; without it the
/// service's default wins over the environment's; with none of the three
/// there is no base image.
pub proof fn law_base_image_precedence(
    given: Option<Seq<char>>,
    service: SettingsView,
    environment: SettingsView,
)
    ensures
        given is Some ==> base_image(given, Some(service), Some(environment)) == given,
        given is None && service.default_container_image is Some ==> base_image(
            given,
            Some(service),
            Some(environment),
        ) == service.default_container_image,
        given is None && service.default_container_image is None ==> base_image(
            given,
            Some(service),
            Some(environment),
        ) == environment.default_container_image,
        base_image(given, Some(service), Some(environment)) is None <==> (given is None
            && service.default_container_image is None && environment.default_container_image
            is None),
{
}

/// The ports of the assignment count up from `start` one by one, so no two
/// folders share a port, and there is one assignment for every folder.
pub proof fn law_ports_consecutive(
    names: Seq<Seq<char>>,
    listing: Seq<Seq<Seq<char>>>,
    start: int,
)
    requires
        names.len() == listing.len(),
    ensures
        forall|k: int|
            0 <= k < assignments(names, listing, start).len() ==> (#[trigger] assignments(
                names,
                listing,
                start,
            )[k]).port == start + k,
        hosts_fragment(assignments(names, listing, start)).len() == assignments(
            names,
            listing,
            start,
        ).len(),
        assignments(names, listing, start).len() == total_folders(listing),
    decreases names.len(),
{
    if names.len() > 0 {
        law_ports_consecutive(names.drop_last(), listing.drop_last(), start);
        let head = assignments(names.drop_last(), listing.drop_last(), start);
        let tail = folder_assignments(names.last(), listing.last(), start + head.len());
        let all = assignments(names, listing, start);
        assert(all == head + tail);
        assert forall|k: int| 0 <= k < all.len() implies (#[trigger] all[k]).port == start + k by {
            if k < head.len() {
                assert(all[k] == head[k]);
            } else {
                assert(all[k] == tail[k - head.len()]);
            }
        }
    }
}

/// The number of folders in all the lists.
pub open spec fn total_folders(listing: Seq<Seq<Seq<char>>>) -> int
    decreases listing.len(),
{
    if listing.len() == 0 {
        0
    } else {
        total_folders(listing.drop_last()) + listing.last().len()
    }
}

/// Where `from` does not occur, replacing it changes nothing.
pub proof fn lemma_replaced_absent(s: Seq<char>, from: Seq<char>, to: Seq<char>)
    requires
        !occurs(s, from),
    ensures
        replaced(s, from, to) == s,
    decreases s.len(),
{
    if from.len() > 0 && s.len() > 0 {
        if from.is_prefix_of(s) {
            assert(s.subrange(0, from.len() as int) =~= from);
            assert(occurs_at(s, from, 0));
        }
        let rest = s.drop_first();
        if occurs(rest, from) {
            let i = choose|i: int| occurs_at(rest, from, i);
            assert(s.subrange(i + 1, i + 1 + from.len()) =~= rest.subrange(i, i + from.len()));
            assert(occurs_at(s, from, i + 1));
        }
        lemma_replaced_absent(rest, from, to);
        assert(seq![s[0]] + rest =~= s);
    }
}

/// A host path without either token is used as it stands.
pub proof fn law_plain_host_path_unchanged(
    template: Seq<char>,
    current_dir: Seq<char>,
    home: Seq<char>,
)
    requires
        !occurs(template, "{pwd}"@),
        !occurs(template, "{home}"@),
    ensures
        host_path(template, current_dir, home) == template,
{
    lemma_replaced_absent(template, "{pwd}"@, current_dir);
    lemma_replaced_absent(template, "{home}"@, home);
}

/// No text occurs twice in the list.
pub open spec fn distinct(names: Seq<Seq<char>>) -> bool {
    forall|i: int, j: int| 0 <= i < j < names.len() ==> names[i] != names[j]
}

proof fn lemma_folder_ports(folders: Seq<Seq<char>>, start: int, j: int)
    requires
        distinct(folders),
        0 <= j < folders.len(),
    ensures
        folder_ports(folders, start).contains_key(folders[j]),
        folder_ports(folders, start)[folders[j]] == JsonView::Unsigned((start + j) as u64),
    decreases folders.len(),
{
    if j < folders.len() - 1 {
        let head = folders.drop_last();
        assert(distinct(head)) by {
            assert forall|a: int, b: int| 0 <= a < b < head.len() implies head[a] != head[b] by {
                assert(head[a] == folders[a] && head[b] == folders[b]);
            }
        }
        lemma_folder_ports(head, start, j);
        assert(head[j] == folders[j]);
        assert(folders[j] != folders.last());
    }
}

proof fn lemma_port_tables(
    names: Seq<Seq<char>>,
    listing: Seq<Seq<Seq<char>>>,
    start: int,
    i: int,
)
    requires
        names.len() == listing.len(),
        distinct(names),
        0 <= i < names.len(),
    ensures
        port_tables(names, listing, start).contains_key(names[i]),
        port_tables(names, listing, start)[names[i]] == JsonView::Object(
            folder_ports(
                listing[i],
                start + assignments(names.take(i), listing.take(i), start).len(),
            ),
        ),
    decreases names.len(),
{
    let last: int = names.len() - 1;
    if i < last {
        let hn = names.drop_last();
        let hl = listing.drop_last();
        assert(distinct(hn)) by {
            assert forall|a: int, b: int| 0 <= a < b < hn.len() implies hn[a] != hn[b] by {
                assert(hn[a] == names[a] && hn[b] == names[b]);
            }
        }
        lemma_port_tables(hn, hl, start, i);
        assert(hn[i] == names[i] && hl[i] == listing[i]);
        assert(hn.take(i) =~= names.take(i));
        assert(hl.take(i) =~= listing.take(i));
        assert(names[i] != names.last());
    } else {
        assert(names.take(i) =~= names.drop_last());
        assert(listing.take(i) =~= listing.drop_last());
    }
}

/// What the pass assigns, a run finds: where no two domains share a name
/// and no folder is listed twice, the port map holds for folder `j` of
/// domain `i` the port that was assigned to it.
pub proof fn law_assigned_port_found(
    names: Seq<Seq<char>>,
    listing: Seq<Seq<Seq<char>>>,
    start: int,
    i: int,
    j: int,
)
    requires
        names.len() == listing.len(),
        distinct(names),
        0 <= i < names.len(),
        distinct(listing[i]),
        0 <= j < listing[i].len(),
        0 <= start,
        start + assignments(names, listing, start).len() <= u64::MAX,
    ensures
        ({
            let k = assignments(names.take(i), listing.take(i), start).len() + j;
            &&& k < assignments(names, listing, start).len()
            &&& assignments(names, listing, start)[k].domain == names[i]
            &&& assignments(names, listing, start)[k].folder == listing[i][j]
            &&& port_in(
                JsonView::Object(port_tables(names, listing, start)),
                names[i],
                listing[i][j],
            ) == Some(assignments(names, listing, start)[k].port as u64)
        }),
{
    lemma_port_tables(names, listing, start, i);
    let base = assignments(names.take(i), listing.take(i), start).len() as int;
    lemma_folder_ports(listing[i], start + base, j);
    lemma_assignment_at(names, listing, start, i, j);
    law_ports_consecutive(names, listing, start);
}

/// Folder `j` of domain `i` stands in the assignment behind all folders of
/// the domains before.
proof fn lemma_assignment_at(
    names: Seq<Seq<char>>,
    listing: Seq<Seq<Seq<char>>>,
    start: int,
    i: int,
    j: int,
)
    requires
        names.len() == listing.len(),
        0 <= i < names.len(),
        0 <= j < listing[i].len(),
    ensures
        ({
            let k = assignments(names.take(i), listing.take(i), start).len() + j;
            &&& k < assignments(names, listing, start).len()
            &&& assignments(names, listing, start)[k].domain == names[i]
            &&& assignments(names, listing, start)[k].folder == listing[i][j]
        }),
    decreases names.len(),
{
    let last: int = names.len() - 1;
    let hn = names.drop_last();
    let hl = listing.drop_last();
    let head = assignments(hn, hl, start);
    let tail = folder_assignments(names.last(), listing.last(), start + head.len());
    assert(assignments(names, listing, start) == head + tail);
    if i < last {
        lemma_assignment_at(hn, hl, start, i, j);
        assert(hn[i] == names[i] && hl[i] == listing[i]);
        assert(hn.take(i) =~= names.take(i));
        assert(hl.take(i) =~= listing.take(i));
        let k = assignments(names.take(i), listing.take(i), start).len() + j;
        assert((head + tail)[k] == head[k]);
    } else {
        assert(names.take(i) =~= hn);
        assert(listing.take(i) =~= hl);
        let k = head.len() + j;
        assert((head + tail)[k] == tail[j]);
    }
}

/// No two domains share a name.
pub open spec fn names_unique(d: Seq<(Seq<char>, DomainView)>) -> bool {
    forall|i: int, j: int|
        0 <= i < j < d.len() ==> (#[trigger] d[i]).1.name != (#[trigger] d[j]).1.name
}

/// Adding domains never makes two domains share a name: where the names
/// were unique before an add, they are unique after it.
pub proof fn law_names_stay_unique(
    pre: ConfigView,
    post: ConfigView,
    r: Result<(), ConfigError>,
    label: Seq<char>,
    location: Seq<char>,
)
    requires
        pre.wf(),
        names_unique(pre.doms()),
        domain_added(pre, post, r, label, location),
    ensures
        names_unique(post.doms()),
        post.wf(),
{
    if r is Ok {
        let d = fresh_domain(slug(label));
        let s = pre.doms();
        let t = post.doms();
        lemma_put_sorted(s, location, d);
        lemma_rank_exists(s, location);
        let p = rank(s, location);
        assert(t == s.insert(p, (location, d)));
        assert forall|i: int, j: int| 0 <= i < j < t.len() implies (#[trigger] t[i]).1.name != (
        #[trigger] t[j]).1.name by {
            let a = if i < p { i } else { i - 1 };
            let b = if j < p { j } else { j - 1 };
            if i == p {
                assert(t[j] == s[b]);
                assert(s[b].1.name != slug(label));
            } else if j == p {
                assert(t[i] == s[a]);
                assert(s[a].1.name != slug(label));
            } else {
                assert(t[i] == s[a] && t[j] == s[b]);
            }
        }
        assert forall|i: int| 0 <= i < t.len() implies (#[trigger] t[i]).1.wf() by {
            if i < p {
                assert(t[i] == s[i]);
            } else if i > p {
                assert(t[i] == s[i - 1]);
            }
        }
    }
}

/// After a service's port mapping has been added, another host port of that
/// service is accepted exactly where it was free before, whatever container
/// port it leads to.
pub proof fn law_service_other_port(
    pre: ConfigView,
    mid: ConfigView,
    post: ConfigView,
    first: Result<(), ConfigError>,
    second: Result<(), ConfigError>,
    domain: Seq<char>,
    service: Seq<char>,
    host_port: Seq<char>,
    container_port: Seq<char>,
    other_host_port: Seq<char>,
    other_container_port: Seq<char>,
)
    requires
        pre.wf(),
        service_port_added(pre, mid, first, domain, service, host_port, container_port),
        first is Ok,
        other_host_port != host_port,
        service_port_added(
            mid,
            post,
            second,
            domain,
            service,
            other_host_port,
            other_container_port,
        ),
    ensures
        second is Ok <==> !pre.domain(domain).svc(service).has_port(other_host_port),
{
    lemma_has_named(pre.doms(), domain);
    let i = first_named(pre.doms(), domain);
    let d = pre.doms()[i].1;
    assert(d.wf());
    lemma_svc_wf(d, service);
    let s1 = d.svc(service).with_port(host_port, container_port);
    let d1 = d.with_svc(service, s1);
    lemma_put_sorted(d.svcs(), service, s1);
    lemma_put_sorted(d.svc(service).ports(), host_port, container_port);
    assert(named_at(mid.doms(), domain, i)) by {
        assert forall|j: int| 0 <= j < i implies (#[trigger] mid.doms()[j]).1.name != domain by {
            assert(mid.doms()[j] == pre.doms()[j]);
        }
    }
    lemma_first_named(mid.doms(), domain, i);
    assert(mid.domain(domain) == d1);
    assert(d1.svc(service) == s1);
}

/// After a service's volume has been added, a volume that differs in either
/// path is accepted exactly where it was not listed before.
pub proof fn law_service_other_volume(
    pre: ConfigView,
    mid: ConfigView,
    post: ConfigView,
    first: Result<(), ConfigError>,
    second: Result<(), ConfigError>,
    domain: Seq<char>,
    service: Seq<char>,
    container: Seq<char>,
    host: Seq<char>,
    other_container: Seq<char>,
    other_host: Seq<char>,
)
    requires
        pre.wf(),
        service_volume_added(pre, mid, first, domain, service, container, host),
        first is Ok,
        other_container != container || other_host != host,
        service_volume_added(mid, post, second, domain, service, other_container, other_host),
    ensures
        second is Ok <==> !pre.domain(domain).svc(service).has_volume(other_container, other_host),
{
    lemma_has_named(pre.doms(), domain);
    let i = first_named(pre.doms(), domain);
    let d = pre.doms()[i].1;
    assert(d.wf());
    let s0 = d.svc(service);
    let s1 = s0.with_volume(container, host);
    let d1 = d.with_svc(service, s1);
    lemma_put_sorted(d.svcs(), service, s1);
    assert(named_at(mid.doms(), domain, i)) by {
        assert forall|j: int| 0 <= j < i implies (#[trigger] mid.doms()[j]).1.name != domain by {
            assert(mid.doms()[j] == pre.doms()[j]);
        }
    }
    lemma_first_named(mid.doms(), domain, i);
    assert(mid.domain(domain) == d1);
    assert(d1.svc(service) == s1);
    law_volumes_keyed_by_pair(s0, service, container, host, other_container, other_host);
}

/// The port map has an entry for each domain name and for nothing else,
/// and a domain's entry has a member for each of its folders and for nothing
/// else.
pub proof fn law_port_map_keys(names: Seq<Seq<char>>, listing: Seq<Seq<Seq<char>>>, start: int)
    requires
        names.len() == listing.len(),
    ensures
        forall|k: Seq<char>|
            port_tables(names, listing, start).contains_key(k) <==> names.contains(k),
    decreases names.len(),
{
    if names.len() > 0 {
        let hn = names.drop_last();
        law_port_map_keys(hn, listing.drop_last(), start);
        assert forall|k: Seq<char>| port_tables(names, listing, start).contains_key(k)
            <==> names.contains(k) by {
            if hn.contains(k) {
                let i = choose|i: int| 0 <= i < hn.len() && hn[i] == k;
                assert(names[i] == k);
            }
            if names.contains(k) {
                let i = choose|i: int| 0 <= i < names.len() && names[i] == k;
                if i < hn.len() {
                    assert(hn[i] == k);
                }
            }
            assert(names[names.len() - 1] == names.last());
        }
    }
}

/// A domain's entry of the port map has a member for each of its folders
/// and for nothing else.
pub proof fn law_folder_ports_keys(folders: Seq<Seq<char>>, start: int)
    ensures
        forall|k: Seq<char>| folder_ports(folders, start).contains_key(k) <==> folders.contains(k),
    decreases folders.len(),
{
    if folders.len() > 0 {
        let head = folders.drop_last();
        law_folder_ports_keys(head, start);
        assert forall|k: Seq<char>| folder_ports(folders, start).contains_key(k)
            <==> folders.contains(k) by {
            if head.contains(k) {
                let i = choose|i: int| 0 <= i < head.len() && head[i] == k;
                assert(folders[i] == k);
            }
            if folders.contains(k) {
                let i = choose|i: int| 0 <= i < folders.len() && folders[i] == k;
                if i < head.len() {
                    assert(head[i] == k);
                }
            }
            assert(folders[folders.len() - 1] == folders.last());
        }
    }
}

} // verus!
