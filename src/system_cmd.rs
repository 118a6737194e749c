use vstd::prelude::*;
use crate::pipeline::Pipeline;
use crate::project::Branch;

verus! {

/// What `regex` reports for every successive non-overlapping match of a pattern
/// in a text: each match as its capture groups in order (group 0 is the whole
/// match, a group that took no part is `None`); `None` where the pattern does not
/// compile.
pub uninterp spec fn regex_captures(pattern: Seq<char>, text: Seq<char>) -> Option<
    Seq<Seq<Option<Seq<char>>>>,
>;

/// The words of a command line under POSIX shell word splitting; `None` where the
/// line cannot be split (an unterminated quote).
pub uninterp spec fn shell_split(line: Seq<char>) -> Option<Seq<Seq<char>>>;

pub open spec fn opt_view(o: Option<String>) -> Option<Seq<char>> {
    match o {
        Some(s) => Some(s@),
        None => None,
    }
}

pub open spec fn match_view(m: Vec<Option<String>>) -> Seq<Option<Seq<char>>> {
    m@.map_values(|g: Option<String>| opt_view(g))
}

pub open spec fn captures_view(r: Option<Vec<Vec<Option<String>>>>) -> Option<
    Seq<Seq<Option<Seq<char>>>>,
> {
    match r {
        Some(v) => Some(v@.map_values(|m: Vec<Option<String>>| match_view(m))),
        None => None,
    }
}

pub open spec fn words_view(r: Option<Vec<String>>) -> Option<Seq<Seq<char>>> {
    match r {
        Some(v) => Some(v@.map_values(|w: String| w@)),
        None => None,
    }
}

/// Relies on `regex::Regex::new` (compiles the pattern, failing on bad syntax)
/// and `Regex::captures_iter` with `Captures::iter` (each match's groups).
#[verifier::external_body]
fn captures_all(pattern: &str, text: &str) -> (r: Option<Vec<Vec<Option<String>>>>)
    ensures
        captures_view(r) == regex_captures(pattern@, text@),
{
    match regex::Regex::new(pattern) {
        Ok(re) => Some(
            re.captures_iter(text).map(
                |c| c.iter().map(|g| g.map(|m| m.as_str().to_string())).collect(),
            ).collect(),
        ),
        Err(_) => None,
    }
}

/// Relies on `shell_words::split`: the words of a line under POSIX shell rules.
#[verifier::external_body]
fn split_words(line: &str) -> (r: Option<Vec<String>>)
    ensures
        words_view(r) == shell_split(line@),
{
    shell_words::split(line).ok()
}

/// The pieces of `s` between newline characters, in order: one more piece than
/// there are newlines, an empty text giving one empty piece.
pub open spec fn lines_of(s: Seq<char>) -> Seq<Seq<char>>
    decreases s.len(),
{
    if s.len() == 0 {
        seq![seq![]]
    } else {
        let prev = lines_of(s.drop_last());
        if s.last() == '\n' {
            prev.push(seq![])
        } else {
            prev.update(prev.len() - 1, prev.last().push(s.last()))
        }
    }
}

/// Relies on `str::split` with the pattern `'\n'`: the pieces between newlines.
#[verifier::external_body]
fn split_lines(s: &str) -> (r: Vec<String>)
    ensures
        r@.map_values(|l: String| l@) == lines_of(s@),
{
    s.split('\n').map(|l| l.to_string()).collect()
}

/// One line of `git ls-remote --heads`: a hexadecimal hash, blanks, and
/// `refs/heads/` followed by the branch name.
pub open spec fn head_line_pattern() -> Seq<char> {
    "^([0-9a-fA-F]+)\\s+refs/heads/(\\S+)$"@
}

/// A repository URL: scheme, separator, host, owner and name, with an optional
/// `.git`; the fifth group is the name.
pub open spec fn repository_pattern() -> Seq<char> {
    "^(https|git)(://|@)([^/:]+)[/:]([^/:]+)/([^.]*)(\\.git)?$"@
}

pub open spec fn branch_view(b: Branch) -> (Seq<char>, Seq<char>) {
    (b.name@, b.latest_commit_hash@)
}

pub open spec fn opt_branch_view(b: Option<Branch>) -> Option<(Seq<char>, Seq<char>)> {
    match b {
        Some(b) => Some(branch_view(b)),
        None => None,
    }
}

/// The (name, hash) that the first match of a head line gives, if it has both
/// groups.
pub open spec fn head_of(caps: Option<Seq<Seq<Option<Seq<char>>>>>) -> Option<(Seq<char>, Seq<char>)> {
    match caps {
        Some(ms) => if ms.len() > 0 && ms[0].len() > 2 && ms[0][1] is Some && ms[0][2] is Some {
            Some((ms[0][2]->Some_0, ms[0][1]->Some_0))
        } else {
            None
        },
        None => None,
    }
}

/// A non-empty line that is not a branch head.
pub open spec fn is_bad_line(line: Seq<char>) -> bool {
    line.len() > 0 && head_of(regex_captures(head_line_pattern(), line)) is None
}

/// The heads of the non-empty lines, in order; `None` where one of them is not
/// a head line.
pub open spec fn heads_of_lines(lines: Seq<Seq<char>>) -> Option<Seq<(Seq<char>, Seq<char>)>>
    decreases lines.len(),
{
    if lines.len() == 0 {
        Some(seq![])
    } else {
        match heads_of_lines(lines.drop_last()) {
            None => None,
            Some(prev) => if lines.last().len() == 0 {
                Some(prev)
            } else {
                match head_of(regex_captures(head_line_pattern(), lines.last())) {
                    Some(h) => Some(prev.push(h)),
                    None => None,
                }
            },
        }
    }
}

proof fn lemma_heads_of_lines_fails(lines: Seq<Seq<char>>)
    ensures
        heads_of_lines(lines) is None <==> exists|i: int|
            0 <= i < lines.len() && #[trigger] is_bad_line(lines[i]),
    decreases lines.len(),
{
    if lines.len() > 0 {
        let init = lines.drop_last();
        lemma_heads_of_lines_fails(init);
        if exists|i: int| 0 <= i < init.len() && #[trigger] is_bad_line(init[i]) {
            let i = choose|i: int| 0 <= i < init.len() && #[trigger] is_bad_line(init[i]);
            assert(lines[i] == init[i]);
        }
        if exists|i: int| 0 <= i < lines.len() && #[trigger] is_bad_line(lines[i]) {
            let i = choose|i: int| 0 <= i < lines.len() && #[trigger] is_bad_line(lines[i]);
            if i < init.len() {
                assert(lines[i] == init[i]);
            }
        }
        if is_bad_line(lines.last()) {
            assert(is_bad_line(lines[lines.len() - 1]));
        }
    }
}

pub open spec fn heads_view(v: Vec<Branch>) -> Seq<(Seq<char>, Seq<char>)> {
    v@.map_values(|b: Branch| branch_view(b))
}

/// The branch head that `regex` found on one line of `git ls-remote` output:
/// the first match's second group is the name, its first the commit.
pub fn head_from_captures(caps: &Option<Vec<Vec<Option<String>>>>) -> (r: Option<Branch>)
    ensures
        opt_branch_view(r) == head_of(captures_view(*caps)),
{
    match caps {
        Some(ms) => {
            if ms.len() > 0 && ms[0].len() > 2 {
                proof {
                    assert(captures_view(*caps)->Some_0[0] == match_view(ms@[0]));
                    assert(match_view(ms@[0])[1] == opt_view(ms@[0]@[1]));
                    assert(match_view(ms@[0])[2] == opt_view(ms@[0]@[2]));
                }
                match (&ms[0][1], &ms[0][2]) {
                    (Some(hash), Some(name)) => Some(
                        Branch { name: name.clone(), latest_commit_hash: hash.clone() },
                    ),
                    _ => None,
                }
            } else {
                None
            }
        },
        None => None,
    }
}

/// The branch heads listed in the output of `git ls-remote --heads`, one per
/// non-empty line, in order; `None` where a non-empty line is not a head line.
pub fn parse_remote_heads(output: &str) -> (r: Option<Vec<Branch>>)
    ensures
        r is None <==> exists|i: int|
            0 <= i < lines_of(output@).len() && #[trigger] is_bad_line(lines_of(output@)[i]),
        r matches Some(v) ==> heads_of_lines(lines_of(output@)) == Some(heads_view(v)),
{
    let lines = split_lines(output);
    let ghost ls = lines_of(output@);
    let mut branches: Vec<Branch> = Vec::new();
    let mut i: usize = 0;
    while i < lines.len()
        invariant
            i <= lines@.len(),
            ls == lines_of(output@),
            ls == lines@.map_values(|l: String| l@),
            heads_of_lines(ls.subrange(0, i as int)) == Some(heads_view(branches)),
        decreases lines@.len() - i,
    {
        proof {
            assert(ls.subrange(0, i as int + 1).drop_last() =~= ls.subrange(0, i as int));
            assert(ls[i as int] == lines@[i as int]@);
        }
        if !lines[i].as_str().is_empty() {
            let caps = captures_all("^([0-9a-fA-F]+)\\s+refs/heads/(\\S+)$", lines[i].as_str());
            match head_from_captures(&caps) {
                Some(b) => {
                    let ghost before = branches@;
                    branches.push(b);
                    proof {
                        assert(heads_view(branches) =~= before.map_values(
                            |b: Branch| branch_view(b),
                        ).push(branch_view(b)));
                    }
                },
                None => {
                    proof {
                        assert(is_bad_line(ls[i as int]));
                        lemma_heads_of_lines_fails(ls);
                    }
                    return None;
                },
            }
        }
        i = i + 1;
    }
    proof {
        assert(ls.subrange(0, i as int) =~= ls);
        lemma_heads_of_lines_fails(ls);
    }
    Some(branches)
}

/// The name of a repository as its URL gives it (`x` in `https://host/owner/x.git`).
pub fn repository_name(url: &str) -> (r: Option<String>)
    ensures
        opt_view(r) == match regex_captures(repository_pattern(), url@) {
            Some(caps) => if caps.len() > 0 && caps[0].len() > 5 {
                caps[0][5]
            } else {
                None
            },
            None => None,
        },
{
    let caps = match captures_all(
        "^(https|git)(://|@)([^/:]+)[/:]([^/:]+)/([^.]*)(\\.git)?$",
        url,
    ) {
        Some(c) => c,
        None => return None,
    };
    if caps.len() > 0 && caps[0].len() > 5 {
        proof {
            assert(match_view(caps@[0])[5] == opt_view(caps@[0]@[5]));
        }
        match &caps[0][5] {
            Some(name) => Some(name.clone()),
            None => None,
        }
    } else {
        None
    }
}

/// `a/b`.
pub fn join_path(a: &str, b: &str) -> (r: String)
    ensures
        r@ == a@ + seq!['/'] + b@,
{
    let mut r = String::from_str(a);
    r.append("/");
    r.append(b);
    proof {
        reveal_strlit("/");
    }
    r
}

/// The directory a pipeline deploys to: its own, else the default.
pub fn deploy_path<'a>(pipeline: &'a Pipeline, default_deploy_path: &'a String) -> (r: &'a String)
    ensures
        pipeline.deploy_path matches Some(p) ==> r == p,
        pipeline.deploy_path is None ==> r == default_deploy_path,
{
    match &pipeline.deploy_path {
        Some(p) => p,
        None => default_deploy_path,
    }
}

pub open spec fn slash(a: Seq<char>, b: Seq<char>) -> Seq<char> {
    a + seq!['/'] + b
}

/// The directory that holds a pipeline's clones, `{base}/{repository}/{pipeline}`,
/// and the working copy of one branch in it, `{pipeline directory}/{branch}`.
pub fn workspace_paths(base: &str, repository: &str, pipeline_name: &str, branch: &str) -> (r: (
    String,
    String,
))
    ensures
        r.0@ == slash(slash(base@, repository@), pipeline_name@),
        r.1@ == slash(r.0@, branch@),
{
    let repo_dir = join_path(base, repository);
    let pipeline_dir = join_path(repo_dir.as_str(), pipeline_name);
    let working_dir = join_path(pipeline_dir.as_str(), branch);
    (pipeline_dir, working_dir)
}

/// `git ls-remote --heads {url}`.
pub fn list_heads_command(url: &str) -> (r: String)
    ensures
        r@ == "git ls-remote --heads "@ + url@,
{
    let mut r = String::from_str("git ls-remote --heads ");
    r.append(url);
    r
}

/// `git clone --single-branch --branch {branch} {url} {branch}`.
pub fn clone_command(url: &str, branch: &str) -> (r: String)
    ensures
        r@ == "git clone --single-branch --branch "@ + branch@ + seq![' '] + url@ + seq![' ']
            + branch@,
{
    let mut r = String::from_str("git clone --single-branch --branch ");
    r.append(branch);
    r.append(" ");
    r.append(url);
    r.append(" ");
    r.append(branch);
    proof {
        reveal_strlit(" ");
    }
    r
}

/// `git pull origin {branch}`.
pub fn pull_command(branch: &str) -> (r: String)
    ensures
        r@ == "git pull origin "@ + branch@,
{
    let mut r = String::from_str("git pull origin ");
    r.append(branch);
    r
}

/// The program and arguments that shell words stand for: the first word is the
/// program, the rest its arguments. `None` where there are no words, or the line
/// could not be split.
pub fn invocation_from_words(words: Option<Vec<String>>) -> (r: Option<(String, Vec<String>)>)
    ensures
        r is None <==> (words_view(words) is None || words_view(words)->Some_0.len() == 0),
        r matches Some((program, args)) ==> (words_view(words) matches Some(ws) && program@ == ws[0]
            && args@.map_values(|a: String| a@) == ws.subrange(1, ws.len() as int)),
{
    match words {
        None => None,
        Some(mut words) => {
            if words.len() == 0 {
                None
            } else {
                let ghost all = words@;
                let program = words.remove(0);
                proof {
                    assert(words@.map_values(|a: String| a@) =~= all.map_values(|w: String| w@).subrange(
                        1,
                        all.len() as int,
                    ));
                }
                Some((program, words))
            }
        },
    }
}

/// The program and arguments that run a command line: on Windows `cmd /C line`;
/// elsewhere the line's shell words, the first being the program. `None` where
/// the line cannot be split or has no word.
pub fn command_invocation(line: &str, windows: bool) -> (r: Option<(String, Vec<String>)>)
    ensures
        windows ==> (r matches Some((program, args)) && program@ == "cmd"@ && args@.len() == 2
            && args@[0]@ == "/C"@ && args@[1]@ == line@),
        !windows ==> (r is None <==> (shell_split(line@) is None || shell_split(line@)->Some_0.len()
            == 0)),
        !windows ==> (r matches Some((program, args)) ==> (shell_split(line@) matches Some(words)
            && words.len() > 0 && program@ == words[0] && args@.map_values(|a: String| a@)
            == words.subrange(1, words.len() as int))),
{
    if windows {
        let mut args: Vec<String> = Vec::new();
        args.push(String::from_str("/C"));
        args.push(String::from_str(line));
        return Some((String::from_str("cmd"), args));
    }
    invocation_from_words(split_words(line))
}

/// What preparing a workspace does next.
#[derive(Clone, Copy, Debug, PartialEq, Eq, Structural)]
pub enum WorkspaceStep {
    /// Update the existing clone with `git pull`.
    Pull,
    /// The working copy is ready.
    Ready,
    /// Neither a clone nor a pull succeeded.
    Failed,
}

/// The step after the clone attempt (and, where one was made, the pull
/// attempt): a clone that failed is followed by a pull, and only a failed pull
/// after it fails the preparation.
pub fn workspace_step(clone_ok: bool, pull_ok: Option<bool>) -> (r: WorkspaceStep)
    ensures
        clone_ok ==> r == WorkspaceStep::Ready,
        !clone_ok && pull_ok is None ==> r == WorkspaceStep::Pull,
        !clone_ok && pull_ok == Some(true) ==> r == WorkspaceStep::Ready,
        !clone_ok && pull_ok == Some(false) ==> r == WorkspaceStep::Failed,
{
    if clone_ok {
        WorkspaceStep::Ready
    } else {
        match pull_ok {
            None => WorkspaceStep::Pull,
            Some(true) => WorkspaceStep::Ready,
            Some(false) => WorkspaceStep::Failed,
        }
    }
}

} // verus!
