//! Shell completion: which shell the user has, where its completions go, and
//! the block in the shell's start-up file that loads them.

use vstd::prelude::*;
use vstd::string::StringExecFns;
use crate::paths::{join, joined};
use crate::text::{
    chars_of, ends_with, find_from, found_at, occurs, push_range, same_text, strip_end,
    strip_end_index, strip_start, strip_start_index,
};

verus! {

/// The shell that a path to a shell's program names.
pub open spec fn shell_of(path: Seq<char>) -> Option<Seq<char>> {
    if "zsh"@.is_suffix_of(path) {
        Some("zsh"@)
    } else if "bash"@.is_suffix_of(path) {
        Some("bash"@)
    } else if "fish"@.is_suffix_of(path) {
        Some("fish"@)
    } else if "pwsh"@.is_suffix_of(path) || "powershell"@.is_suffix_of(path) {
        Some("powershell"@)
    } else if "elvish"@.is_suffix_of(path) {
        Some("elvish"@)
    } else {
        None
    }
}

/// Tells the shell from the path of its program.
pub fn detect_shell(shell_path: &str) -> (r: Option<&'static str>)
    ensures
        match r {
            Some(s) => shell_of(shell_path@) == Some(s@),
            None => shell_of(shell_path@) is None,
        },
{
    let p = chars_of(shell_path);
    if ends_with(&p, &chars_of("zsh")) {
        Some("zsh")
    } else if ends_with(&p, &chars_of("bash")) {
        Some("bash")
    } else if ends_with(&p, &chars_of("fish")) {
        Some("fish")
    } else if ends_with(&p, &chars_of("pwsh")) || ends_with(&p, &chars_of("powershell")) {
        Some("powershell")
    } else if ends_with(&p, &chars_of("elvish")) {
        Some("elvish")
    } else {
        None
    }
}

/// Where a shell's completions are installed.
#[derive(Clone, Debug, PartialEq, Eq)]
pub struct CompletionPlan {
    /// The directory of the completion file.
    pub dir: String,
    /// The completion file.
    pub file: String,
    /// The start-up file that gets the block, for a shell that needs one.
    pub rc_path: Option<String>,
    /// What the block holds.
    pub rc_body: Option<String>,
}

/// What bash's block holds.
pub open spec fn bash_body() -> Seq<char> {
    "if command -v darp >/dev/null 2>&1; then\n  source \"${XDG_DATA_HOME:-$HOME/.local/share}/bash-completion/completions/darp\"\nfi"@
}

/// What zsh's block holds.
pub open spec fn zsh_body() -> Seq<char> {
    "if command -v darp >/dev/null 2>&1; then\n  fpath+=(\"$HOME/.zfunc\")\n  autoload -Uz compinit\n  compinit\nfi"@
}

impl CompletionPlan {
    /// The plan is the one for `shell` below the home directory `home`.
    pub open spec fn is_for(self, shell: Seq<char>, home: Seq<char>) -> bool {
        if shell == "bash"@ {
            &&& self.dir@ == joined(home, ".local/share/bash-completion/completions"@)
            &&& self.file@ == joined(self.dir@, "darp"@)
            &&& crate::model::text_opt(self.rc_path) == Some(joined(home, ".bashrc"@))
            &&& crate::model::text_opt(self.rc_body) == Some(bash_body())
        } else if shell == "zsh"@ {
            &&& self.dir@ == joined(home, ".zfunc"@)
            &&& self.file@ == joined(self.dir@, "_darp"@)
            &&& crate::model::text_opt(self.rc_path) == Some(joined(home, ".zshrc"@))
            &&& crate::model::text_opt(self.rc_body) == Some(zsh_body())
        } else {
            &&& shell == "fish"@
            &&& self.dir@ == joined(home, ".config/fish/completions"@)
            &&& self.file@ == joined(self.dir@, "darp.fish"@)
            &&& self.rc_path is None
            &&& self.rc_body is None
        }
    }
}

/// Completions are installed for bash, zsh and fish.
pub open spec fn has_completions(shell: Seq<char>) -> bool {
    shell == "bash"@ || shell == "zsh"@ || shell == "fish"@
}

/// Where the completions of `shell` go, for the shells that get any.
pub fn completion_plan(shell: &str, home: &str) -> (r: Option<CompletionPlan>)
    ensures
        has_completions(shell@) ==> r is Some && r->0.is_for(shell@, home@),
        !has_completions(shell@) ==> r is None,
{
    if same_text(shell, "bash") {
        let dir = join(home, ".local/share/bash-completion/completions");
        let file = join(dir.as_str(), "darp");
        Some(
            CompletionPlan {
                dir,
                file,
                rc_path: Some(join(home, ".bashrc")),
                rc_body: Some(
                    String::from_str(
                        "if command -v darp >/dev/null 2>&1; then\n  source \"${XDG_DATA_HOME:-$HOME/.local/share}/bash-completion/completions/darp\"\nfi",
                    ),
                ),
            },
        )
    } else if same_text(shell, "zsh") {
        let dir = join(home, ".zfunc");
        let file = join(dir.as_str(), "_darp");
        Some(
            CompletionPlan {
                dir,
                file,
                rc_path: Some(join(home, ".zshrc")),
                rc_body: Some(
                    String::from_str(
                        "if command -v darp >/dev/null 2>&1; then\n  fpath+=(\"$HOME/.zfunc\")\n  autoload -Uz compinit\n  compinit\nfi",
                    ),
                ),
            },
        )
    } else if same_text(shell, "fish") {
        let dir = join(home, ".config/fish/completions");
        let file = join(dir.as_str(), "darp.fish");
        Some(CompletionPlan { dir, file, rc_path: None, rc_body: None })
    } else {
        None
    }
}

/// The line that opens the block.
pub open spec fn rc_start() -> Seq<char> {
    "# >>> darp completion start >>>"@
}

/// The line that closes the block.
pub open spec fn rc_end() -> Seq<char> {
    "# <<< darp completion end <<<"@
}

/// `s` with a line feed at its end, unless it is empty or has one.
pub open spec fn closed_text(s: Seq<char>) -> Seq<char> {
    if s.len() > 0 && s.last() != '\n' {
        s + "\n"@
    } else {
        s
    }
}

/// `s` with a line feed at its end, unless it has one.
pub open spec fn closed_line(s: Seq<char>) -> Seq<char> {
    if s.len() > 0 && s.last() == '\n' {
        s
    } else {
        s + "\n"@
    }
}

/// The start-up file with the block for `body` at its end; a file that has
/// a block already stays as it is.
pub open spec fn with_block(contents: Seq<char>, body: Seq<char>) -> Option<Seq<char>> {
    if occurs(contents, rc_start()) {
        None
    } else {
        Some(closed_text(contents) + rc_start() + "\n"@ + closed_line(body) + rc_end() + "\n"@)
    }
}

/// Adds the block to a start-up file that has none; `None` says that the
/// file needs no change.
pub fn ensure_rc_block(contents: &str, body: &str) -> (r: Option<String>)
    ensures
        match with_block(contents@, body@) {
            Some(t) => r is Some && r->0@ == t,
            None => r is None,
        },
{
    let text = chars_of(contents);
    let start = chars_of("# >>> darp completion start >>>");
    assert(text@.skip(0) =~= text@);
    match find_from(&text, &start, 0) {
        Some(_) => {
            return None;
        },
        None => {},
    }
    let n: usize = text.len();
    let mut out = String::from_str(contents);
    if n > 0 && text[n - 1] != '\n' {
        out.append("\n");
    }
    out.append("# >>> darp completion start >>>");
    out.append("\n");
    out.append(body);
    let b = chars_of(body);
    let m: usize = b.len();
    if !(m > 0 && b[m - 1] == '\n') {
        out.append("\n");
    }
    out.append("# <<< darp completion end <<<");
    out.append("\n");
    assert(out@ =~= with_block(contents@, body@)->0);
    Some(out)
}

/// The start-up file without its block and without the empty lines that
/// the block leaves behind. A block that is not closed reaches to the end.
pub open spec fn without_block(contents: Seq<char>) -> Option<Seq<char>> {
    match found_at(contents, rc_start()) {
        None => None,
        Some(s) => {
            let end = match found_at(contents.skip(s), rc_end()) {
                Some(e) => s + e + rc_end().len(),
                None => contents.len() as int,
            };
            let head = strip_end(contents.take(s), '\n');
            let tail = strip_start(contents.skip(end), '\n');
            Some(
                (if head.len() > 0 {
                    head + "\n"@
                } else {
                    Seq::empty()
                }) + (if tail.len() > 0 {
                    (if head.len() > 0 {
                        "\n"@
                    } else {
                        Seq::empty()
                    }) + tail + "\n"@
                } else {
                    Seq::empty()
                }),
            )
        },
    }
}

/// Takes the block out of a start-up file; `None` says that the file has no
/// block.
pub fn remove_rc_block(contents: &str) -> (r: Option<String>)
    ensures
        match without_block(contents@) {
            Some(t) => r is Some && r->0@ == t,
            None => r is None,
        },
{
    let text = chars_of(contents);
    let n: usize = text.len();
    let start = chars_of("# >>> darp completion start >>>");
    let end_marker = chars_of("# <<< darp completion end <<<");
    assert(text@.skip(0) =~= text@);
    let s: usize = match find_from(&text, &start, 0) {
        Some(s) => s,
        None => {
            return None;
        },
    };
    let end: usize = match find_from(&text, &end_marker, s) {
        Some(e) => s + e + end_marker.len(),
        None => n,
    };
    assert(text@.subrange(0, s as int) =~= text@.take(s as int));
    assert(text@.subrange(end as int, n as int) =~= text@.skip(end as int));
    let head_end: usize = strip_end_index(&text, 0, s, '\n');
    let tail_start: usize = strip_start_index(&text, end, n, '\n');
    let mut out = String::new();
    if head_end > 0 {
        push_range(&mut out, &text, 0, head_end);
        out.append("\n");
    }
    if tail_start < n {
        if head_end > 0 {
            out.append("\n");
        }
        push_range(&mut out, &text, tail_start, n);
        out.append("\n");
    }
    assert(out@ =~= without_block(contents@)->0);
    Some(out)
}

} // verus!
