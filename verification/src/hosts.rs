//! Mirroring the generated host names into the system's hosts file: a block
//! between two marker lines that is replaced as a whole.

use vstd::prelude::*;
use vstd::string::StringExecFns;
use crate::text::{
    chars_of, find_from, found_at, push_range, replace_all, replaced, skip_blank,
    skip_blank_index, strip_end, strip_end_index, strip_start, strip_start_index, texts, word,
    word_end,
};

verus! {

/// The line that opens the block.
pub open spec fn block_header() -> Seq<char> {
    "# --- DARP HOSTS START ---"@
}

/// The line that closes the block.
pub open spec fn block_footer() -> Seq<char> {
    "# --- DARP HOSTS END ---"@
}

/// The second of the words of `line` that white space separates; empty where
/// the line has fewer than two.
pub open spec fn second_word(line: Seq<char>) -> Seq<char> {
    let a = skip_blank(line);
    word(skip_blank(a.skip(word(a).len() as int)))
}

/// The line that maps `host` to this machine.
pub open spec fn local_line(host: Seq<char>) -> Seq<char> {
    "127.0.0.1   "@ + host + "\n"@
}

/// A line for the host name of each line of the hosts fragment; a line
/// without a host name gives none.
pub open spec fn local_lines(lines: Seq<Seq<char>>) -> Seq<char>
    decreases lines.len(),
{
    if lines.len() == 0 {
        Seq::empty()
    } else {
        local_lines(lines.drop_last()) + if second_word(lines.last()).len() > 0 {
            local_line(second_word(lines.last()))
        } else {
            Seq::empty()
        }
    }
}

/// The block without the line break at its end.
pub open spec fn block(lines: Seq<Seq<char>>) -> Seq<char> {
    block_header() + "\n"@ + local_lines(lines) + block_footer()
}

/// What stands before and behind the block in `text`, without the line
/// breaks next to it. Where the block is missing or not closed, all of
/// `text` stands before it.
pub open spec fn around_block(text: Seq<char>) -> (Seq<char>, Seq<char>) {
    match found_at(text, block_header()) {
        Some(s) => match found_at(text.skip(s), block_footer()) {
            Some(e) => (
                strip_end(text.take(s), '\n'),
                strip_start(text.skip(s + e + block_footer().len()), '\n'),
            ),
            None => (strip_end(text, '\n'), Seq::empty()),
        },
        None => (strip_end(text, '\n'), Seq::empty()),
    }
}

/// The hosts file with its block replaced by one for `lines`: what stood
/// before the block, an empty line, the block, and, after another empty
/// line, what stood behind it. Line ends of two characters become one first.
pub open spec fn mirrored(current: Seq<char>, lines: Seq<Seq<char>>) -> Seq<char> {
    let text = replaced(current, "\r\n"@, "\n"@);
    let (before, after) = around_block(text);
    (if before.len() > 0 {
        before + "\n"@
    } else {
        Seq::empty()
    }) + "\n"@ + block(lines) + "\n"@ + (if after.len() > 0 {
        "\n"@ + after + "\n"@
    } else {
        Seq::empty()
    })
}

/// Appends the line for the host name of `line`, if it has one.
fn push_local_line(out: &mut String, line: &str)
    ensures
        final(out)@ == old(out)@ + if second_word(line@).len() > 0 {
            local_line(second_word(line@))
        } else {
            Seq::empty()
        },
{
    let ghost start = out@;
    let s = chars_of(line);
    assert(s@.skip(0) =~= s@);
    let a: usize = skip_blank_index(&s, 0);
    let b: usize = word_end(&s, a);
    let c: usize = skip_blank_index(&s, b);
    let d: usize = word_end(&s, c);
    proof {
        let first = skip_blank(line@);
        assert(first == s@.skip(a as int));
        assert(word(first).len() == b - a);
        assert(first.skip(b - a) =~= s@.skip(b as int));
        assert(second_word(line@) == s@.subrange(c as int, d as int));
    }
    if d > c {
        out.append("127.0.0.1   ");
        push_range(out, &s, c, d);
        out.append("\n");
        assert(out@ =~= start + local_line(second_word(line@)));
    } else {
        assert(out@ =~= start + Seq::<char>::empty());
    }
}

/// Writes the system's hosts file anew: `current` with its block replaced by
/// one that maps the host name of each line of the hosts fragment to this
/// machine.
pub fn mirror_hosts(current: &str, hosts_lines: &Vec<String>) -> (r: String)
    ensures
        r@ == mirrored(current@, texts(hosts_lines@)),
{
    let unified = replace_all(current, "\r\n", "\n");
    let text = chars_of(unified.as_str());
    let header = chars_of("# --- DARP HOSTS START ---");
    let footer = chars_of("# --- DARP HOSTS END ---");
    let n: usize = text.len();
    assert(text@.skip(0) =~= text@);
    assert(text@.subrange(0, n as int) =~= text@);
    // The parts before and behind the block, as ranges of `text`.
    let mut before_end: usize = strip_end_index(&text, 0, n, '\n');
    let mut after_start: usize = n;
    match find_from(&text, &header, 0) {
        Some(s) => {
            match find_from(&text, &footer, s) {
                Some(e) => {
                    let end: usize = s + e + footer.len();
                    assert(text@.subrange(0, s as int) =~= text@.take(s as int));
                    assert(text@.subrange(end as int, n as int) =~= text@.skip(end as int));
                    before_end = strip_end_index(&text, 0, s, '\n');
                    after_start = strip_start_index(&text, end, n, '\n');
                },
                None => {},
            }
        },
        None => {},
    }
    let ghost parts = around_block(text@);
    assert(text@.subrange(n as int, n as int) =~= Seq::<char>::empty());
    assert(parts.0 == text@.subrange(0, before_end as int));
    assert(parts.1 == text@.subrange(after_start as int, n as int));
    let mut out = String::new();
    if before_end > 0 {
        push_range(&mut out, &text, 0, before_end);
        out.append("\n");
    }
    let ghost lead = out@;
    out.append("\n");
    out.append("# --- DARP HOSTS START ---");
    out.append("\n");
    let ghost opened = out@;
    let m: usize = hosts_lines.len();
    let mut i: usize = 0;
    let ghost lines = texts(hosts_lines@);
    assert(lines.take(0) =~= Seq::<Seq<char>>::empty());
    assert(opened + local_lines(lines.take(0)) =~= opened);
    while i < m
        invariant
            m == hosts_lines@.len(),
            i <= m,
            lines == texts(hosts_lines@),
            out@ == opened + local_lines(lines.take(i as int)),
        decreases m - i,
    {
        let ghost prev = out@;
        push_local_line(&mut out, hosts_lines[i].as_str());
        proof {
            assert(lines.take(i + 1).drop_last() =~= lines.take(i as int));
            assert(lines.take(i + 1).last() == hosts_lines@[i as int]@);
            assert(out@ =~= opened + local_lines(lines.take(i + 1)));
        }
        i = i + 1;
    }
    assert(lines.take(m as int) =~= lines);
    out.append("# --- DARP HOSTS END ---");
    out.append("\n");
    let ghost closed = out@;
    assert(closed =~= lead + "\n"@ + block(lines) + "\n"@);
    if after_start < n {
        out.append("\n");
        push_range(&mut out, &text, after_start, n);
        out.append("\n");
    }
    assert(out@ =~= mirrored(current@, lines));
    out
}

} // verus!
