//! The generation pass: a port for every service folder of every domain, and
//! the three artifacts that are derived from the assignment.

use vstd::prelude::*;
use vstd::string::StringExecFns;
use crate::error::{ConfigError, Entity, is_unmet, unmet};
use crate::json::{JsonView, json_members, new_object, number_value, object_insert, object_value};
use crate::model::{Config, DomainView, entries_view};
use crate::strmap::{StrMap, among, has_key, keys_are, lemma_keys_grow, lemma_put_sorted, sorted};
use crate::text::{str_lt, texts};
use crate::text::{concat3, decimal, decimal_text, replace_all, replaced};

verus! {

/// The first port that is given out.
pub const FIRST_PORT: u16 = 50100;

/// One service folder with the port that the reverse proxy reaches it on.
#[derive(Clone, Debug, PartialEq, Eq)]
pub struct Assignment {
    pub domain: String,
    pub folder: String,
    pub port: u16,
}

/// An assignment with its texts as sequences of characters.
pub struct AssignmentView {
    pub domain: Seq<char>,
    pub folder: Seq<char>,
    pub port: int,
}

impl View for Assignment {
    type V = AssignmentView;

    open spec fn view(&self) -> AssignmentView {
        AssignmentView { domain: self.domain@, folder: self.folder@, port: self.port as int }
    }
}

/// What the pass generates.
#[derive(Debug)]
pub struct DeployPlan {
    /// Every service folder with its port, in the order of assignment.
    pub assignments: Vec<Assignment>,
    /// The lines of the hosts fragment, one for each assignment.
    pub hosts_lines: Vec<String>,
    /// The reverse proxy's configuration: one server block for each
    /// assignment.
    pub vhost: String,
    /// The port map: domain name to folder name to port.
    pub portmap: serde_json::Map<String, serde_json::Value>,
}

/// The host name under which a service folder is reached.
pub open spec fn site_url(folder: Seq<char>, domain: Seq<char>) -> Seq<char> {
    folder + "."@ + domain + ".test"@
}

/// The line of the hosts fragment for a host name.
pub open spec fn hosts_line(url: Seq<char>) -> Seq<char> {
    "0.0.0.0   "@ + url + "\n"@
}

/// The server block with its three tokens still in it.
pub open spec fn vhost_template() -> Seq<char> {
    "server {\n    listen 80;\n    server_name {url};\n    location / {\n        proxy_pass http://{host_gateway}:{port}/;\n        proxy_set_header Host $host;\n    }\n}\n"@
}

/// The server block that proxies `url` to `port` on the host: the template
/// with `{url}`, then `{host_gateway}`, then `{port}` filled in.
pub open spec fn vhost_block(url: Seq<char>, gateway: Seq<char>, port: int) -> Seq<char> {
    replaced(
        replaced(replaced(vhost_template(), "{url}"@, url), "{host_gateway}"@, gateway),
        "{port}"@,
        decimal(port as nat),
    )
}

/// The folders of one domain with consecutive ports from `start` on.
pub open spec fn folder_assignments(domain: Seq<char>, folders: Seq<Seq<char>>, start: int) -> Seq<
    AssignmentView,
> {
    Seq::new(
        folders.len(),
        |j: int| AssignmentView { domain, folder: folders[j], port: start + j },
    )
}

/// The assignment for the domains called `names`, domain `i` having the
/// folders `listing[i]`: the domains in their order, each domain's folders in
/// the order listed, the ports counting up from `start` without a gap.
pub open spec fn assignments(
    names: Seq<Seq<char>>,
    listing: Seq<Seq<Seq<char>>>,
    start: int,
) -> Seq<AssignmentView>
    recommends
        names.len() == listing.len(),
    decreases names.len(),
{
    if names.len() == 0 || listing.len() == 0 {
        Seq::empty()
    } else {
        let head = assignments(names.drop_last(), listing.drop_last(), start);
        head + folder_assignments(names.last(), listing.last(), start + head.len())
    }
}

/// The lines of the hosts fragment, one for each assignment.
pub open spec fn hosts_fragment(a: Seq<AssignmentView>) -> Seq<Seq<char>> {
    Seq::new(a.len(), |k: int| hosts_line(site_url(a[k].folder, a[k].domain)))
}

/// The server blocks of the assignments, one after the other.
pub open spec fn vhost_text(a: Seq<AssignmentView>, gateway: Seq<char>) -> Seq<char>
    decreases a.len(),
{
    if a.len() == 0 {
        Seq::empty()
    } else {
        vhost_text(a.drop_last(), gateway) + vhost_block(
            site_url(a.last().folder, a.last().domain),
            gateway,
            a.last().port,
        )
    }
}

/// One domain's entry of the port map: each folder bound to its port. A
/// folder listed twice keeps the port it got last.
pub open spec fn folder_ports(folders: Seq<Seq<char>>, start: int) -> Map<Seq<char>, JsonView>
    decreases folders.len(),
{
    if folders.len() == 0 {
        Map::empty()
    } else {
        folder_ports(folders.drop_last(), start).insert(
            folders.last(),
            JsonView::Unsigned((start + folders.len() - 1) as u64),
        )
    }
}

/// The port map: each domain's name bound to its folders' ports. Of two
/// domains with one name the later one is kept.
pub open spec fn port_tables(
    names: Seq<Seq<char>>,
    listing: Seq<Seq<Seq<char>>>,
    start: int,
) -> Map<Seq<char>, JsonView>
    recommends
        names.len() == listing.len(),
    decreases names.len(),
{
    if names.len() == 0 || listing.len() == 0 {
        Map::empty()
    } else {
        let head = assignments(names.drop_last(), listing.drop_last(), start);
        port_tables(names.drop_last(), listing.drop_last(), start).insert(
            names.last(),
            JsonView::Object(folder_ports(listing.last(), start + head.len())),
        )
    }
}

/// The folder names of each list.
pub open spec fn listing_view(l: Seq<Vec<String>>) -> Seq<Seq<Seq<char>>> {
    Seq::new(l.len(), |i: int| texts(l[i]@))
}

/// The assignments of a list, by their views.
pub open spec fn assignments_view(v: Seq<Assignment>) -> Seq<AssignmentView> {
    Seq::new(v.len(), |i: int| v[i]@)
}

/// The names of the domains, in the order of their locations.
pub open spec fn domain_names(doms: Seq<(Seq<char>, DomainView)>) -> Seq<Seq<char>> {
    Seq::new(doms.len(), |i: int| doms[i].1.name)
}

/// The number of ports from `FIRST_PORT` up to the last one there is.
pub open spec fn port_capacity() -> int {
    65536 - FIRST_PORT
}

impl DeployPlan {
    /// The plan is what the pass generates for `names` and `listing`.
    pub open spec fn is_for(
        self,
        names: Seq<Seq<char>>,
        listing: Seq<Seq<Seq<char>>>,
        gateway: Seq<char>,
    ) -> bool {
        let a = assignments(names, listing, FIRST_PORT as int);
        &&& assignments_view(self.assignments@) == a
        &&& texts(self.hosts_lines@) == hosts_fragment(a)
        &&& self.vhost@ == vhost_text(a, gateway)
        &&& json_members(self.portmap) == port_tables(names, listing, FIRST_PORT as int)
    }
}

/// Writes the host name of a service folder.
pub fn site_url_text(folder: &str, domain: &str) -> (r: String)
    ensures
        r@ == site_url(folder@, domain@),
{
    let mut out = String::from_str(folder);
    out.append(".");
    out.append(domain);
    out.append(".test");
    out
}

/// Writes the line of the hosts fragment for a host name.
pub fn hosts_line_text(url: &str) -> (r: String)
    ensures
        r@ == hosts_line(url@),
{
    concat3("0.0.0.0   ", url, "\n")
}

/// Writes the server block that proxies `url` to `port` on the host.
pub fn vhost_block_text(url: &str, gateway: &str, port: u16) -> (r: String)
    ensures
        r@ == vhost_block(url@, gateway@, port as int),
{
    let number = decimal_text(port as u64);
    let a = replace_all(
        "server {\n    listen 80;\n    server_name {url};\n    location / {\n        proxy_pass http://{host_gateway}:{port}/;\n        proxy_set_header Host $host;\n    }\n}\n",
        "{url}",
        url,
    );
    let b = replace_all(a.as_str(), "{host_gateway}", gateway);
    replace_all(b.as_str(), "{port}", number.as_str())
}

proof fn lemma_assignments_step(
    names: Seq<Seq<char>>,
    listing: Seq<Seq<Seq<char>>>,
    start: int,
    i: int,
)
    requires
        0 <= i < names.len(),
        names.len() == listing.len(),
    ensures
        assignments(names.take(i + 1), listing.take(i + 1), start) == assignments(
            names.take(i),
            listing.take(i),
            start,
        ) + folder_assignments(
            names[i],
            listing[i],
            start + assignments(names.take(i), listing.take(i), start).len(),
        ),
        port_tables(names.take(i + 1), listing.take(i + 1), start) == port_tables(
            names.take(i),
            listing.take(i),
            start,
        ).insert(
            names[i],
            JsonView::Object(
                folder_ports(
                    listing[i],
                    start + assignments(names.take(i), listing.take(i), start).len(),
                ),
            ),
        ),
{
    assert(names.take(i + 1).drop_last() =~= names.take(i));
    assert(listing.take(i + 1).drop_last() =~= listing.take(i));
    assert(names.take(i + 1).last() == names[i]);
    assert(listing.take(i + 1).last() == listing[i]);
}

/// The assignment for the first `i` domains is the beginning of the
/// assignment for all of them.
proof fn lemma_assignments_prefix(
    names: Seq<Seq<char>>,
    listing: Seq<Seq<Seq<char>>>,
    start: int,
    i: int,
)
    requires
        0 <= i <= names.len(),
        names.len() == listing.len(),
    ensures
        assignments(names.take(i), listing.take(i), start).len() <= assignments(
            names,
            listing,
            start,
        ).len(),
    decreases names.len() - i,
{
    if i == names.len() {
        assert(names.take(i) =~= names);
        assert(listing.take(i) =~= listing);
    } else {
        lemma_assignments_step(names, listing, start, i);
        lemma_assignments_prefix(names, listing, start, i + 1);
    }
}

impl Config {
    /// Runs the generation pass. `listing` holds, for each domain in the
    /// order of locations, the names of its service folders; ports are given
    /// out in that order. The pass wants at least one domain, a list of
    /// folders for each domain, and no more folders than there are ports.
    pub fn plan_deploy(&self, listing: &Vec<Vec<String>>, host_gateway: &str) -> (r: Result<
        DeployPlan,
        ConfigError,
    >)
        ensures
            self@.doms().len() == 0 ==> is_unmet(r, Entity::Domains, "Please configure a domain."@),
            self@.doms().len() > 0 && listing@.len() != self@.doms().len() ==> is_unmet(
                r,
                Entity::Listing,
                "Each domain needs the list of its folders."@,
            ),
            self@.doms().len() > 0 && listing@.len() == self@.doms().len() && assignments(
                domain_names(self@.doms()),
                listing_view(listing@),
                FIRST_PORT as int,
            ).len() > port_capacity() ==> is_unmet(
                r,
                Entity::Port,
                "There are more folders than ports."@,
            ),
            self@.doms().len() > 0 && listing@.len() == self@.doms().len() && assignments(
                domain_names(self@.doms()),
                listing_view(listing@),
                FIRST_PORT as int,
            ).len() <= port_capacity() ==> r is Ok && r->Ok_0.is_for(
                domain_names(self@.doms()),
                listing_view(listing@),
                host_gateway@,
            ),
    {
        let domains = match &self.domains {
            Some(d) => d,
            None => {
                return Err(unmet(Entity::Domains, "Please configure a domain."));
            },
        };
        let n: usize = domains.len();
        if n == 0 {
            return Err(unmet(Entity::Domains, "Please configure a domain."));
        }
        if listing.len() != n {
            return Err(unmet(Entity::Listing, "Each domain needs the list of its folders."));
        }
        let ghost names = domain_names(self@.doms());
        let ghost lists = listing_view(listing@);
        let ghost first = FIRST_PORT as int;
        let mut plan_assignments: Vec<Assignment> = Vec::new();
        let mut lines: Vec<String> = Vec::new();
        let mut vhost = String::new();
        let mut portmap = new_object();
        let mut next: u32 = 50100;
        let mut i: usize = 0;
        proof {
            assert(entries_view(domains@) =~= self@.doms());
            assert(names.take(0) =~= Seq::<Seq<char>>::empty());
            assert(assignments_view(plan_assignments@) =~= Seq::<AssignmentView>::empty());
            assert(texts(lines@) =~= hosts_fragment(Seq::<AssignmentView>::empty()));
        }
        while i < n
            invariant
                n == domains@.len(),
                n == listing@.len(),
                n > 0,
                self@.doms() == entries_view(domains@),
                names == domain_names(entries_view(domains@)),
                names.len() == n,
                lists == listing_view(listing@),
                lists.len() == n,
                first == 50100,
                i <= n,
                assignments_view(plan_assignments@) == assignments(
                    names.take(i as int),
                    lists.take(i as int),
                    first,
                ),
                texts(lines@) == hosts_fragment(assignments_view(plan_assignments@)),
                vhost@ == vhost_text(assignments_view(plan_assignments@), host_gateway@),
                json_members(portmap) == port_tables(
                    names.take(i as int),
                    lists.take(i as int),
                    first,
                ),
                next == first + plan_assignments@.len(),
                next <= 65536,
            decreases n - i,
        {
            let domain = domains.value_at(i);
            let folders = &listing[i];
            let m: usize = folders.len();
            let ghost head = assignments_view(plan_assignments@);
            let ghost start = next as int;
            let ghost name = names[i as int];
            let ghost fs = lists[i as int];
            assert(name == domain.name@);
            assert(fs == texts(folders@));
            let mut table = new_object();
            let mut j: usize = 0;
            proof {
                lemma_assignments_step(names, lists, first, i as int);
                lemma_assignments_prefix(names, lists, first, i + 1);
                assert(head + folder_assignments(name, fs.take(0), start) =~= head);
                assert(fs.take(m as int) =~= fs);
            }
            while j < m
                invariant
                    m == folders@.len(),
                    fs == texts(folders@),
                    name == domain.name@,
                    j <= m,
                    start == first + head.len(),
                    first == 50100,
                    assignments_view(plan_assignments@) == head + folder_assignments(
                        name,
                        fs.take(j as int),
                        start,
                    ),
                    texts(lines@) == hosts_fragment(assignments_view(plan_assignments@)),
                    vhost@ == vhost_text(assignments_view(plan_assignments@), host_gateway@),
                    json_members(table) == folder_ports(fs.take(j as int), start),
                    next == start + j,
                    next <= 65536,
                    names == domain_names(self@.doms()),
                    lists == listing_view(listing@),
                    names.len() == lists.len(),
                    names.len() > 0,
                    assignments(names, lists, first).len() >= head.len() + m,
                decreases m - j,
            {
                if next > 65535 {
                    return Err(unmet(Entity::Port, "There are more folders than ports."));
                }
                let port: u16 = next as u16;
                let folder = &folders[j];
                let url = site_url_text(folder.as_str(), domain.name.as_str());
                let line = hosts_line_text(url.as_str());
                let block = vhost_block_text(url.as_str(), host_gateway, port);
                let ghost before = assignments_view(plan_assignments@);
                let ghost lines_before = texts(lines@);
                let ghost item = AssignmentView { domain: name, folder: fs[j as int], port: next as int };
                object_insert(&mut table, folder.clone(), number_value(port));
                plan_assignments.push(
                    Assignment { domain: domain.name.clone(), folder: folder.clone(), port },
                );
                lines.push(line);
                vhost.append(block.as_str());
                proof {
                    let after = assignments_view(plan_assignments@);
                    assert(after =~= before.push(item));
                    assert(after.drop_last() =~= before);
                    assert(after.last() == item);
                    assert(fs.take(j + 1).drop_last() =~= fs.take(j as int));
                    assert(fs.take(j + 1).last() == fs[j as int]);
                    assert(after =~= head + folder_assignments(name, fs.take(j + 1), start));
                    assert(texts(lines@) =~= lines_before.push(line@));
                    assert(texts(lines@) =~= hosts_fragment(after));
                }
                next = next + 1;
                j = j + 1;
            }
            proof {
                assert(fs.take(m as int) =~= fs);
            }
            object_insert(&mut portmap, domain.name.clone(), object_value(table));
            i = i + 1;
        }
        proof {
            assert(names.take(n as int) =~= names);
            assert(lists.take(n as int) =~= lists);
            assert(entries_view(domains@) =~= self@.doms());
        }
        Ok(DeployPlan { assignments: plan_assignments, hosts_lines: lines, vhost, portmap })
    }
}

/// The folder names in the order of keys, each of them once.
pub fn ordered_folders(names: &Vec<String>) -> (r: Vec<String>)
    ensures
        forall|i: int, j: int|
            0 <= i < j < r@.len() ==> str_lt(#[trigger] texts(r@)[i], #[trigger] texts(r@)[j]),
        forall|t: Seq<char>| texts(r@).contains(t) <==> texts(names@).contains(t),
{
    let mut seen: StrMap<bool> = StrMap::new();
    let n: usize = names.len();
    let mut i: usize = 0;
    while i < n
        invariant
            n == names@.len(),
            i <= n,
            sorted(seen@),
            keys_are(seen@, names@, i as int),
        decreases n - i,
    {
        let ghost before = seen@;
        proof {
            lemma_put_sorted(before, names@[i as int]@, true);
        }
        let (next, _) = seen.insert(names[i].clone(), true);
        seen = next;
        proof {
            lemma_keys_grow(before, seen@, names@, i as int);
        }
        i = i + 1;
    }
    let m: usize = seen.len();
    let mut out: Vec<String> = Vec::new();
    let mut k: usize = 0;
    while k < m
        invariant
            m == seen@.len(),
            k <= m,
            out@.len() == k,
            forall|a: int| 0 <= a < k ==> (#[trigger] out@[a])@ == seen@[a].0,
        decreases m - k,
    {
        out.push(String::from_str(seen.key_at(k)));
        k = k + 1;
    }
    proof {
        assert forall|a: int, b: int| 0 <= a < b < out@.len() implies str_lt(
            #[trigger] texts(out@)[a],
            #[trigger] texts(out@)[b],
        ) by {
            assert(texts(out@)[a] == seen@[a].0 && texts(out@)[b] == seen@[b].0);
        }
        assert forall|t: Seq<char>| texts(out@).contains(t) <==> texts(names@).contains(t) by {
            if texts(out@).contains(t) {
                let a = choose|a: int| 0 <= a < texts(out@).len() && texts(out@)[a] == t;
                assert(seen@[a].0 == t);
                assert(has_key(seen@, t));
                assert(among(names@, n as int, t));
                let j = choose|j: int| 0 <= j < n && (#[trigger] names@[j])@ == t;
                assert(texts(names@)[j] == t);
            }
            if texts(names@).contains(t) {
                let j = choose|j: int| 0 <= j < texts(names@).len() && texts(names@)[j] == t;
                assert(names@[j]@ == t);
                assert(among(names@, n as int, t));
                assert(has_key(seen@, t));
                let a = choose|a: int| 0 <= a < seen@.len() && (#[trigger] seen@[a]).0 == t;
                assert(texts(out@)[a] == t);
            }
        }
    }
    out
}

impl Config {
    /// The locations of the domains, in their order: the directories whose
    /// folders the generation pass wants listed.
    pub fn domain_locations(&self) -> (r: Vec<String>)
        ensures
            r@.len() == self@.doms().len(),
            forall|i: int| 0 <= i < r@.len() ==> (#[trigger] r@[i])@ == self@.doms()[i].0,
    {
        let mut out: Vec<String> = Vec::new();
        match &self.domains {
            None => {},
            Some(d) => {
                let n: usize = d.len();
                let mut i: usize = 0;
                while i < n
                    invariant
                        n == d@.len(),
                        i <= n,
                        out@.len() == i,
                        forall|j: int| 0 <= j < i ==> (#[trigger] out@[j])@ == d@[j].0,
                    decreases n - i,
                {
                    out.push(String::from_str(d.key_at(i)));
                    i = i + 1;
                }
            },
        }
        out
    }
}

} // verus!
