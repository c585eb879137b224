//! Reading what the engine reports, and the commands for the two helper
//! containers.

use vstd::prelude::*;

use crate::paths::DarpPaths;
use crate::run::pair_arg;
use crate::slug::ascii_lower;
use crate::text::{
    chars_of, concat3, push_text, same_text, skip_blank, skip_blank_index, starts_with,
    strip_end, strip_end_index, take_until, text_of_range, texts, trim_blank, trim_line, until,
    word, word_end,
};

verus! {

/// The lines of `s`: the pieces between line feeds, the last of which may
/// lack its line feed.
pub open spec fn lines_of(s: Seq<char>) -> Seq<Seq<char>>
    decreases s.len(),
{
    if s.len() == 0 {
        Seq::empty()
    } else {
        let l = until(s, '\n');
        if l.len() < s.len() {
            seq![l] + lines_of(s.skip(l.len() as int + 1))
        } else {
            seq![l]
        }
    }
}

/// Splits a text into its lines.
pub fn split_lines(s: &str) -> (r: Vec<String>)
    ensures
        texts(r@) == lines_of(s@),
{
    let text = chars_of(s);
    let n: usize = text.len();
    let mut out: Vec<String> = Vec::new();
    let mut i: usize = 0;
    assert(text@.skip(0) =~= text@);
    assert(texts(out@) + lines_of(text@.skip(0)) =~= lines_of(s@));
    while i < n
        invariant
            n == text@.len(),
            text@ == s@,
            i <= n,
            texts(out@) + lines_of(text@.skip(i as int)) == lines_of(s@),
        decreases n - i,
    {
        let line = take_until(&text, i, '\n');
        let len: usize = line.as_str().unicode_len();
        let ghost before = texts(out@);
        let ghost rest = text@.skip(i as int);
        out.push(line);
        proof {
            assert(texts(out@) =~= before.push(until(rest, '\n')));
            if len < rest.len() {
                assert(rest.skip(len as int + 1) =~= text@.skip(i + len + 1));
                assert(texts(out@) + lines_of(text@.skip(i + len + 1)) =~= before + lines_of(rest));
            } else {
                assert(text@.skip(n as int).len() == 0);
                assert(texts(out@) + lines_of(text@.skip(n as int)) =~= before + lines_of(rest));
            }
        }
        if len < n - i {
            i = i + len + 1;
        } else {
            i = n;
        }
    }
    assert(texts(out@) + lines_of(text@.skip(n as int)) =~= texts(out@));
    out
}

/// A line of the engine's list of containers names `name`, white space
/// around it aside.
pub open spec fn names_container(lines: Seq<Seq<char>>, name: Seq<char>) -> bool {
    exists|i: int| 0 <= i < lines.len() && trim_blank(#[trigger] lines[i]) == name
}

/// Whether the engine's list of running containers, one name on each line,
/// holds `name`.
pub fn lists_container(ps_output: &str, name: &str) -> (r: bool)
    ensures
        r == names_container(lines_of(ps_output@), name@),
{
    let lines = split_lines(ps_output);
    let n: usize = lines.len();
    let mut i: usize = 0;
    while i < n
        invariant
            n == lines@.len(),
            texts(lines@) == lines_of(ps_output@),
            i <= n,
            forall|j: int| 0 <= j < i ==> trim_blank(#[trigger] lines_of(ps_output@)[j]) != name@,
        decreases n - i,
    {
        let t = trim_line(lines[i].as_str());
        assert(texts(lines@)[i as int] == lines@[i as int]@);
        if same_text(t.as_str(), name) {
            return true;
        }
        i = i + 1;
    }
    false
}

/// The prefix of the names of the containers that runs start.
pub open spec fn run_prefix() -> Seq<char> {
    "darp_"@
}

/// The names among `lines`, white space around them aside, that begin with
/// the prefix, in their order.
pub open spec fn darps_among(lines: Seq<Seq<char>>) -> Seq<Seq<char>>
    decreases lines.len(),
{
    if lines.len() == 0 {
        Seq::empty()
    } else {
        let head = darps_among(lines.drop_last());
        let name = trim_blank(lines.last());
        if run_prefix().is_prefix_of(name) {
            head.push(name)
        } else {
            head
        }
    }
}

/// The containers to stop: those of the engine's list whose name begins with
/// `darp_`.
pub fn running_darps(ps_output: &str) -> (r: Vec<String>)
    ensures
        texts(r@) == darps_among(lines_of(ps_output@)),
{
    let lines = split_lines(ps_output);
    let prefix = chars_of("darp_");
    let n: usize = lines.len();
    let mut out: Vec<String> = Vec::new();
    let mut i: usize = 0;
    let ghost all = lines_of(ps_output@);
    assert(all.take(0) =~= Seq::<Seq<char>>::empty());
    assert(texts(out@) =~= darps_among(all.take(0)));
    while i < n
        invariant
            n == lines@.len(),
            all == texts(lines@),
            prefix@ == run_prefix(),
            i <= n,
            texts(out@) == darps_among(all.take(i as int)),
        decreases n - i,
    {
        let t = trim_line(lines[i].as_str());
        let tc = chars_of(t.as_str());
        let ghost before = texts(out@);
        proof {
            assert(all.take(i + 1).drop_last() =~= all.take(i as int));
            assert(all.take(i + 1).last() == lines@[i as int]@);
        }
        if starts_with(&tc, &prefix) {
            out.push(t);
            assert(texts(out@) =~= before.push(t@));
        }
        i = i + 1;
    }
    assert(all.take(n as int) =~= all);
    out
}

/// `w` is `true` in any mix of upper and lower case.
pub open spec fn says_true(w: Seq<char>) -> bool {
    &&& w.len() == 4
    &&& ascii_lower(w[0]) == 't'
    &&& ascii_lower(w[1]) == 'r'
    &&& ascii_lower(w[2]) == 'u'
    &&& ascii_lower(w[3]) == 'e'
}

/// The line has exactly two words, the machine `machine`, with or without
/// the stars that mark the default, and `true`.
pub open spec fn reports_running(line: Seq<char>, machine: Seq<char>) -> bool {
    let a = skip_blank(line);
    let first = word(a);
    let b = skip_blank(a.skip(first.len() as int));
    let second = word(b);
    let c = skip_blank(b.skip(second.len() as int));
    &&& first.len() > 0
    &&& second.len() > 0
    &&& c.len() == 0
    &&& strip_end(first, '*') == machine
    &&& says_true(second)
}

/// The name of the podman machine where the store names none.
pub open spec fn default_machine() -> Seq<char> {
    "podman-machine-default"@
}

/// The machine that is meant: the one named, else the default.
pub open spec fn machine_name(given: Option<Seq<char>>) -> Seq<char> {
    match given {
        Some(m) => m,
        None => default_machine(),
    }
}

fn lower_ascii(c: char) -> (r: char)
    ensures
        r == ascii_lower(c),
{
    if 'A' <= c && c <= 'Z' {
        ((c as u8) + 32) as char
    } else {
        c
    }
}

fn line_reports_running(line: &str, machine: &str) -> (r: bool)
    ensures
        r == reports_running(line@, machine@),
{
    let s = chars_of(line);
    let n: usize = s.len();
    assert(s@.skip(0) =~= s@);
    let a: usize = skip_blank_index(&s, 0);
    let b: usize = word_end(&s, a);
    let c: usize = skip_blank_index(&s, b);
    let d: usize = word_end(&s, c);
    let e: usize = skip_blank_index(&s, d);
    proof {
        let la = skip_blank(line@);
        assert(la == s@.skip(a as int));
        assert(word(la).len() == b - a);
        assert(la.skip(b - a) =~= s@.skip(b as int));
        let lb = skip_blank(la.skip((b - a) as int));
        assert(lb == s@.skip(c as int));
        assert(word(lb).len() == d - c);
        assert(lb.skip(d - c) =~= s@.skip(d as int));
    }
    if b == a || d == c || e < n {
        return false;
    }
    let star_end: usize = strip_end_index(&s, a, b, '*');
    let name = text_of_range(&s, a, star_end);
    if !same_text(name.as_str(), machine) {
        return false;
    }
    let ghost second = s@.subrange(c as int, d as int);
    if d - c != 4 {
        return false;
    }
    assert(second[0] == s@[c as int] && second[1] == s@[c + 1] && second[2] == s@[c + 2]
        && second[3] == s@[c + 3]);
    lower_ascii(s[c]) == 't' && lower_ascii(s[c + 1]) == 'r' && lower_ascii(s[c + 2]) == 'u'
        && lower_ascii(s[c + 3]) == 'e'
}

/// Whether podman's list of machines, a name and a truth value on each line,
/// reports the machine as running. Without a name the default machine is
/// meant.
pub fn podman_machine_running(listing: &str, machine: Option<&str>) -> (r: bool)
    ensures
        r == exists|i: int|
            0 <= i < lines_of(listing@).len() && reports_running(
                #[trigger] lines_of(listing@)[i],
                machine_name(
                    match machine {
                        Some(m) => Some(m@),
                        None => None,
                    },
                ),
            ),
{
    let name: &str = match machine {
        Some(m) => m,
        None => "podman-machine-default",
    };
    let ghost want = machine_name(
        match machine {
            Some(m) => Some(m@),
            None => None,
        },
    );
    let lines = split_lines(listing);
    let n: usize = lines.len();
    let mut i: usize = 0;
    while i < n
        invariant
            n == lines@.len(),
            texts(lines@) == lines_of(listing@),
            name@ == want,
            want == machine_name(
                match machine {
                    Some(m) => Some(m@),
                    None => None,
                },
            ),
            i <= n,
            forall|j: int| 0 <= j < i ==> !reports_running(#[trigger] lines_of(listing@)[j], want),
        decreases n - i,
    {
        assert(texts(lines@)[i as int] == lines@[i as int]@);
        if line_reports_running(lines[i].as_str(), name) {
            assert(reports_running(lines_of(listing@)[i as int], want));
            return true;
        }
        i = i + 1;
    }
    false
}

/// Whether a container that ended with `code` is started again.
pub fn restarts_on(code: Option<i32>, restart_on: &Vec<i32>) -> (r: bool)
    ensures
        r == (code is Some && restart_on@.contains(code->0)),
{
    match code {
        None => false,
        Some(c) => {
            let n: usize = restart_on.len();
            let mut i: usize = 0;
            while i < n
                invariant
                    n == restart_on@.len(),
                    code == Some(c),
                    i <= n,
                    forall|j: int| 0 <= j < i ==> restart_on@[j] != c,
                decreases n - i,
            {
                if restart_on[i] == c {
                    assert(restart_on@[i as int] == c);
                    return true;
                }
                i = i + 1;
            }
            false
        },
    }
}

/// The reverse proxy's container.
pub open spec fn reverse_proxy_name() -> Seq<char> {
    "darp-reverse-proxy"@
}

/// The name server's container.
pub open spec fn masq_name() -> Seq<char> {
    "darp-masq"@
}

/// The arguments that start the reverse proxy in the background, on port
/// 80, with the generated configuration mounted.
pub open spec fn reverse_proxy_start(paths: DarpPaths) -> Seq<Seq<char>> {
    seq!["run"@, "-d"@, "--rm"@, "--name"@, reverse_proxy_name(), "-p"@, "80:80"@] + pair_arg(
        "-v"@,
        paths.vhost_container_conf@,
        "/etc/nginx/conf.d/vhost_container.conf"@,
    ) + seq!["nginx"@]
}

/// The arguments that start the name server in the background, on port 53,
/// with its configuration directory mounted.
pub open spec fn masq_start(paths: DarpPaths) -> Seq<Seq<char>> {
    seq![
        "run"@,
        "-d"@,
        "--rm"@,
        "--name"@,
        masq_name(),
        "-p"@,
        "53:53/udp"@,
        "-p"@,
        "53:53/tcp"@,
    ] + pair_arg("-v"@, paths.dnsmasq_dir@, "/etc/dnsmasq.d"@) + seq![
        "--cap-add=NET_ADMIN"@,
        "dockurr/dnsmasq"@,
    ]
}

/// What to tell the engine about the reverse proxy: nothing where it runs
/// and need not start anew, a restart where it runs and must, a start where
/// it does not run.
pub open spec fn reverse_proxy_action(paths: DarpPaths, running: bool, anew: bool) -> Option<
    Seq<Seq<char>>,
> {
    if !running {
        Some(reverse_proxy_start(paths))
    } else if anew {
        Some(seq!["restart"@, reverse_proxy_name()])
    } else {
        None
    }
}

/// The arguments for the reverse proxy, if the engine is to be told
/// anything.
pub fn reverse_proxy_args(paths: &DarpPaths, running: bool, anew: bool) -> (r: Option<Vec<String>>)
    ensures
        match reverse_proxy_action(*paths, running, anew) {
            Some(a) => r is Some && texts(r->0@) == a,
            None => r is None,
        },
{
    let mut args: Vec<String> = Vec::new();
    assert(texts(args@) =~= Seq::<Seq<char>>::empty());
    if !running {
        push_text(&mut args, "run");
        push_text(&mut args, "-d");
        push_text(&mut args, "--rm");
        push_text(&mut args, "--name");
        push_text(&mut args, "darp-reverse-proxy");
        push_text(&mut args, "-p");
        push_text(&mut args, "80:80");
        push_text(&mut args, "-v");
        let mount = concat3(
            paths.vhost_container_conf.as_str(),
            ":",
            "/etc/nginx/conf.d/vhost_container.conf",
        );
        push_text(&mut args, mount.as_str());
        push_text(&mut args, "nginx");
        assert(texts(args@) =~= reverse_proxy_start(*paths));
        Some(args)
    } else if anew {
        push_text(&mut args, "restart");
        push_text(&mut args, "darp-reverse-proxy");
        assert(texts(args@) =~= seq!["restart"@, reverse_proxy_name()]);
        Some(args)
    } else {
        None
    }
}

/// The arguments that start the name server, unless it runs.
pub fn masq_args(paths: &DarpPaths, running: bool) -> (r: Option<Vec<String>>)
    ensures
        running ==> r is None,
        !running ==> r is Some && texts(r->0@) == masq_start(*paths),
{
    if running {
        return None;
    }
    let mut args: Vec<String> = Vec::new();
    assert(texts(args@) =~= Seq::<Seq<char>>::empty());
    push_text(&mut args, "run");
    push_text(&mut args, "-d");
    push_text(&mut args, "--rm");
    push_text(&mut args, "--name");
    push_text(&mut args, "darp-masq");
    push_text(&mut args, "-p");
    push_text(&mut args, "53:53/udp");
    push_text(&mut args, "-p");
    push_text(&mut args, "53:53/tcp");
    push_text(&mut args, "-v");
    let mount = concat3(paths.dnsmasq_dir.as_str(), ":", "/etc/dnsmasq.d");
    push_text(&mut args, mount.as_str());
    push_text(&mut args, "--cap-add=NET_ADMIN");
    push_text(&mut args, "dockurr/dnsmasq");
    assert(texts(args@) =~= masq_start(*paths));
    Some(args)
}

/// The arguments that stop the container `name`.
pub fn stop_args(name: &str) -> (r: Vec<String>)
    ensures
        texts(r@) == seq!["stop"@, name@],
{
    let mut args: Vec<String> = Vec::new();
    assert(texts(args@) =~= Seq::<Seq<char>>::empty());
    push_text(&mut args, "stop");
    push_text(&mut args, name);
    assert(texts(args@) =~= seq!["stop"@, name@]);
    args
}

} // verus!
