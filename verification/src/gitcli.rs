//! The command lines of the command-line git backend: what each operation
//! asks git, which environment variables carry the author and committer,
//! and how git's output and failures are read.
use vstd::prelude::*;
use crate::giterror::{Error, ErrSrc};
use crate::gitoptions::{BranchCreateOptions, FetchOptions, PullOptions, PushOptions, ResetKind, ResetOptions};
use crate::gittypes::{Resolution, Upstream};
use crate::scan::{spec_lines, lines, spec_trim, trim_chars};
use crate::text::{str_chars, string_from_chars};

verus! {

/// The text of a list of strings.
pub open spec fn spec_texts(v: Seq<String>) -> Seq<Seq<char>> {
    v.map_values(|s: String| s@)
}

fn push_text(v: &mut Vec<String>, s: &str)
    ensures
        spec_texts(final(v)@) == spec_texts(old(v)@).push(s@),
{
    let ghost before = spec_texts(v@);
    v.push(String::from_str(s));
    proof {
        assert(spec_texts(v@) =~= before.push(s@));
    }
}

fn args_of(parts: &[&str]) -> (r: Vec<String>)
    ensures
        spec_texts(r@) == parts@.map_values(|s: &str| s@),
{
    let mut r: Vec<String> = Vec::new();
    let mut i: usize = 0;
    while i < parts.len()
        invariant
            i <= parts@.len(),
            spec_texts(r@) == parts@.take(i as int).map_values(|s: &str| s@),
        decreases parts@.len() - i,
    {
        push_text(&mut r, parts[i]);
        i = i + 1;
        proof {
            assert(parts@.take(i as int).map_values(|s: &str| s@) =~= parts@.take(i - 1).map_values(
                |s: &str| s@,
            ).push(parts@[i - 1]@));
        }
    }
    proof {
        assert(parts@.take(parts@.len() as int) =~= parts@);
    }
    r
}

/// `git add <pathspec>`.
pub fn add_args(pathspec: &str) -> (r: Vec<String>)
    ensures
        spec_texts(r@) == seq!["add"@, pathspec@],
{
    let r = args_of(&["add", pathspec]);
    proof {
        assert(spec_texts(r@) =~= seq!["add"@, pathspec@]);
    }
    r
}

/// `git branch [--orphan] [<start-point>] <branch>`.
pub fn branch_create_args(branch_name: &str, options: &Option<BranchCreateOptions>) -> (r: Vec<String>)
    ensures
        spec_texts(r@) == seq!["branch"@] + (match options {
            Some(o) => (if o.orphan { seq!["--orphan"@] } else { Seq::empty() }) + (match o.start_point {
                Some(p) => seq![p@],
                None => Seq::empty(),
            }),
            None => Seq::empty(),
        }) + seq![branch_name@],
{
    let mut r: Vec<String> = Vec::new();
    push_text(&mut r, "branch");
    let ghost mid = spec_texts(r@);
    match options {
        Some(o) => {
            if o.orphan {
                push_text(&mut r, "--orphan");
            }
            let ghost mid2 = spec_texts(r@);
            match &o.start_point {
                Some(p) => {
                    push_text(&mut r, p.as_str());
                },
                None => {},
            }
            proof {
                assert(spec_texts(r@) =~= seq!["branch"@] + (if o.orphan { seq!["--orphan"@] } else { Seq::empty() }) + (match o.start_point {
                    Some(p) => seq![p@],
                    None => Seq::<Seq<char>>::empty(),
                }));
            }
        },
        None => {},
    }
    let ghost before = spec_texts(r@);
    push_text(&mut r, branch_name);
    proof {
        assert(spec_texts(r@) =~= before.push(branch_name@));
        match options {
            Some(o) => {},
            None => {
                assert(before =~= seq!["branch"@]);
            },
        }
        assert(spec_texts(r@) =~= seq!["branch"@] + (match options {
            Some(o) => (if o.orphan { seq!["--orphan"@] } else { Seq::empty() }) + (match o.start_point {
                Some(p) => seq![p@],
                None => Seq::empty(),
            }),
            None => Seq::empty(),
        }) + seq![branch_name@]);
    }
    r
}

/// The upstream as `<remote>/<branch>`.
pub open spec fn spec_upstream_text(u: (Seq<char>, Seq<char>)) -> Seq<char> {
    u.0 + seq!['/'] + u.1
}

/// `git branch --set-upstream-to <remote>/<branch>`.
pub fn branch_set_upstream_args(upstream: &Upstream) -> (r: Vec<String>)
    ensures
        spec_texts(r@) == seq!["branch"@, "--set-upstream-to"@, spec_upstream_text(upstream@)],
{
    let mut r = args_of(&["branch", "--set-upstream-to"]);
    let mut u = String::from_str(upstream.remote_name());
    u.append("/");
    u.append(upstream.remote_branch_name());
    proof {
        reveal_strlit("/");
        assert(u@ =~= spec_upstream_text(upstream@));
    }
    let ghost before = spec_texts(r@);
    r.push(u);
    proof {
        assert(spec_texts(r@) =~= before.push(spec_upstream_text(upstream@)));
        assert(spec_texts(r@) =~= seq!["branch"@, "--set-upstream-to"@, spec_upstream_text(upstream@)]);
    }
    r
}

/// `git commit -m <message>`, the message trimmed.
pub fn commit_args(message: &str) -> (r: Vec<String>)
    ensures
        spec_texts(r@) == seq!["commit"@, "-m"@, spec_trim(message@)],
{
    let mut r = args_of(&["commit", "-m"]);
    let m = string_from_chars(trim_chars(&str_chars(message)).as_slice());
    let ghost before = spec_texts(r@);
    proof {
        assert(before =~= seq!["commit"@, "-m"@]);
    }
    r.push(m);
    proof {
        assert(spec_texts(r@) =~= before.push(m@));
        assert(spec_texts(r@) =~= seq!["commit"@, "-m"@, spec_trim(message@)]);
    }
    r
}

/// `git diff --name-status <lhs> <rhs>`.
pub fn diff_revision_statuses_args(rev_lhs: &str, rev_rhs: &str) -> (r: Vec<String>)
    ensures
        spec_texts(r@) == seq!["diff"@, "--name-status"@, rev_lhs@, rev_rhs@],
{
    let r = args_of(&["diff", "--name-status", rev_lhs, rev_rhs]);
    proof {
        assert(spec_texts(r@) =~= seq!["diff"@, "--name-status"@, rev_lhs@, rev_rhs@]);
    }
    r
}

/// `git fetch [--all] [--prune]`.
pub fn fetch_args(options: &Option<FetchOptions>) -> (r: Vec<String>)
    ensures
        spec_texts(r@) == seq!["fetch"@] + (match options {
            Some(o) => (if o.all { seq!["--all"@] } else { Seq::empty() }) + (if o.prune {
                seq!["--prune"@]
            } else {
                Seq::empty()
            }),
            None => Seq::empty(),
        }),
{
    let mut r: Vec<String> = Vec::new();
    push_text(&mut r, "fetch");
    match options {
        Some(o) => {
            if o.all {
                push_text(&mut r, "--all");
            }
            if o.prune {
                push_text(&mut r, "--prune");
            }
            proof {
                assert(spec_texts(r@) =~= seq!["fetch"@] + ((if o.all { seq!["--all"@] } else { Seq::empty() }) + (if o.prune {
                    seq!["--prune"@]
                } else {
                    Seq::empty()
                })));
            }
        },
        None => {
            proof {
                assert(spec_texts(r@) =~= seq!["fetch"@] + Seq::<Seq<char>>::empty());
            }
        },
    }
    r
}

/// `git merge --quiet --no-commit [--ff-only] <source>`.
pub fn merge_args(source_rev: &str, fast_forward_only: bool) -> (r: Vec<String>)
    ensures
        spec_texts(r@) == seq!["merge"@, "--quiet"@, "--no-commit"@] + (if fast_forward_only {
            seq!["--ff-only"@]
        } else {
            Seq::empty()
        }) + seq![source_rev@],
{
    let mut r = args_of(&["merge", "--quiet", "--no-commit"]);
    if fast_forward_only {
        push_text(&mut r, "--ff-only");
    }
    let ghost before = spec_texts(r@);
    push_text(&mut r, source_rev);
    proof {
        assert(spec_texts(r@) =~= seq!["merge"@, "--quiet"@, "--no-commit"@] + (if fast_forward_only {
            seq!["--ff-only"@]
        } else {
            Seq::empty()
        }) + seq![source_rev@]);
    }
    r
}

/// `git merge --abort`.
pub fn merge_abort_args() -> (r: Vec<String>)
    ensures
        spec_texts(r@) == seq!["merge"@, "--abort"@],
{
    let r = args_of(&["merge", "--abort"]);
    proof {
        assert(spec_texts(r@) =~= seq!["merge"@, "--abort"@]);
    }
    r
}

/// `git pull [--rebase | --ff-only]`: a rebase wins over a fast-forward.
pub fn pull_args(options: &PullOptions) -> (r: Vec<String>)
    ensures
        spec_texts(r@) == seq!["pull"@] + (if options.rebase {
            seq!["--rebase"@]
        } else if options.fast_forward_only {
            seq!["--ff-only"@]
        } else {
            Seq::empty()
        }),
{
    let mut r: Vec<String> = Vec::new();
    push_text(&mut r, "pull");
    if options.rebase {
        push_text(&mut r, "--rebase");
    } else if options.fast_forward_only {
        push_text(&mut r, "--ff-only");
    }
    proof {
        assert(spec_texts(r@) =~= seq!["pull"@] + (if options.rebase {
            seq!["--rebase"@]
        } else if options.fast_forward_only {
            seq!["--ff-only"@]
        } else {
            Seq::empty()
        }));
    }
    r
}

/// `git push [<remote> <branch> | -u <remote> <branch> | -u origin <current>]`:
/// an upstream first, then an upstream to set, then `origin` and the
/// current branch where the upstream is set automatically.
pub fn push_args(options: &PushOptions, current_branch: &str) -> (r: Vec<String>)
    ensures
        spec_texts(r@) == seq!["push"@] + (match options.upstream {
            Some(u) => seq![u@.0, u@.1],
            None => match options.set_upstream {
                Some(u) => seq!["-u"@, u@.0, u@.1],
                None => if options.auto_set_upstream {
                    seq!["-u"@, "origin"@, current_branch@]
                } else {
                    Seq::empty()
                },
            },
        }),
{
    let mut r: Vec<String> = Vec::new();
    push_text(&mut r, "push");
    match &options.upstream {
        Some(u) => {
            push_text(&mut r, u.remote_name());
            push_text(&mut r, u.remote_branch_name());
        },
        None => match &options.set_upstream {
            Some(u) => {
                push_text(&mut r, "-u");
                push_text(&mut r, u.remote_name());
                push_text(&mut r, u.remote_branch_name());
            },
            None => {
                if options.auto_set_upstream {
                    push_text(&mut r, "-u");
                    push_text(&mut r, "origin");
                    push_text(&mut r, current_branch);
                }
            },
        },
    }
    proof {
        assert(spec_texts(r@) =~= seq!["push"@] + (match options.upstream {
            Some(u) => seq![u@.0, u@.1],
            None => match options.set_upstream {
                Some(u) => seq!["-u"@, u@.0, u@.1],
                None => if options.auto_set_upstream {
                    seq!["-u"@, "origin"@, current_branch@]
                } else {
                    Seq::empty()
                },
            },
        }));
    }
    r
}

/// Whether a push needs the current branch: only to set the upstream
/// automatically, with no upstream given.
pub fn push_needs_current_branch(options: &PushOptions) -> (b: bool)
    ensures
        b == (options.upstream is None && options.set_upstream is None && options.auto_set_upstream),
{
    options.upstream.is_none() && options.set_upstream.is_none() && options.auto_set_upstream
}

/// `git rebase`.
pub fn rebase_args() -> (r: Vec<String>)
    ensures
        spec_texts(r@) == seq!["rebase"@],
{
    let r = args_of(&["rebase"]);
    proof {
        assert(spec_texts(r@) =~= seq!["rebase"@]);
    }
    r
}

/// `git reset [--hard | --soft] [<rev>]`.
pub fn reset_args(options: &ResetOptions) -> (r: Vec<String>)
    ensures
        spec_texts(r@) == seq!["reset"@] + (match options.kind {
            ResetKind::Hard => seq!["--hard"@],
            ResetKind::Soft => seq!["--soft"@],
            ResetKind::Default => Seq::empty(),
        }) + (match options.to_rev {
            Some(rev) => seq![rev@],
            None => Seq::empty(),
        }),
{
    let mut r: Vec<String> = Vec::new();
    push_text(&mut r, "reset");
    match options.kind {
        ResetKind::Hard => {
            push_text(&mut r, "--hard");
        },
        ResetKind::Soft => {
            push_text(&mut r, "--soft");
        },
        ResetKind::Default => {},
    }
    match &options.to_rev {
        Some(rev) => {
            push_text(&mut r, rev.as_str());
        },
        None => {},
    }
    proof {
        assert(spec_texts(r@) =~= seq!["reset"@] + (match options.kind {
            ResetKind::Hard => seq!["--hard"@],
            ResetKind::Soft => seq!["--soft"@],
            ResetKind::Default => Seq::empty(),
        }) + (match options.to_rev {
            Some(rev) => seq![rev@],
            None => Seq::empty(),
        }));
    }
    r
}

/// `git status --porcelain`.
pub fn status_args() -> (r: Vec<String>)
    ensures
        spec_texts(r@) == seq!["status"@, "--porcelain"@],
{
    let r = args_of(&["status", "--porcelain"]);
    proof {
        assert(spec_texts(r@) =~= seq!["status"@, "--porcelain"@]);
    }
    r
}

/// `git switch <branch>`.
pub fn switch_branch_args(branch_name: &str) -> (r: Vec<String>)
    ensures
        spec_texts(r@) == seq!["switch"@, branch_name@],
{
    let r = args_of(&["switch", branch_name]);
    proof {
        assert(spec_texts(r@) =~= seq!["switch"@, branch_name@]);
    }
    r
}

/// `git branch (-D | -d) <branch> [-r]`.
pub fn branch_delete_args(branch_name: &str, force: bool, delete_remote: bool) -> (r: Vec<String>)
    ensures
        spec_texts(r@) == seq!["branch"@, (if force { "-D"@ } else { "-d"@ }), branch_name@] + (if delete_remote {
            seq!["-r"@]
        } else {
            Seq::empty()
        }),
{
    let mut r = args_of(&["branch", if force { "-D" } else { "-d" }, branch_name]);
    if delete_remote {
        push_text(&mut r, "-r");
    }
    proof {
        assert(spec_texts(r@) =~= seq!["branch"@, (if force { "-D"@ } else { "-d"@ }), branch_name@] + (if delete_remote {
            seq!["-r"@]
        } else {
            Seq::empty()
        }));
    }
    r
}

/// `git branch --no-color`.
pub fn branch_list_args() -> (r: Vec<String>)
    ensures
        spec_texts(r@) == seq!["branch"@, "--no-color"@],
{
    let r = args_of(&["branch", "--no-color"]);
    proof {
        assert(spec_texts(r@) =~= seq!["branch"@, "--no-color"@]);
    }
    r
}

/// `git branch --show-current`.
pub fn branch_current_args() -> (r: Vec<String>)
    ensures
        spec_texts(r@) == seq!["branch"@, "--show-current"@],
{
    let r = args_of(&["branch", "--show-current"]);
    proof {
        assert(spec_texts(r@) =~= seq!["branch"@, "--show-current"@]);
    }
    r
}

/// `git mv <from> <to>`.
pub fn move_rename_args(from: &str, to: &str) -> (r: Vec<String>)
    ensures
        spec_texts(r@) == seq!["mv"@, from@, to@],
{
    let r = args_of(&["mv", from, to]);
    proof {
        assert(spec_texts(r@) =~= seq!["mv"@, from@, to@]);
    }
    r
}

/// `git show <rev>:<path>`.
pub fn show_rev_file_args(rev: &str, filepath: &str) -> (r: Vec<String>)
    ensures
        spec_texts(r@) == seq!["show"@, rev@ + seq![':'] + filepath@],
{
    let mut r = args_of(&["show"]);
    let mut rev_path = String::from_str(rev);
    rev_path.append(":");
    rev_path.append(filepath);
    proof {
        reveal_strlit(":");
    }
    let ghost before = spec_texts(r@);
    proof {
        assert(before =~= seq!["show"@]);
        assert(rev_path@ =~= rev@ + seq![':'] + filepath@);
    }
    r.push(rev_path);
    proof {
        assert(spec_texts(r@) =~= before.push(rev@ + seq![':'] + filepath@));
        assert(spec_texts(r@) =~= seq!["show"@, rev@ + seq![':'] + filepath@]);
    }
    r
}

/// `git clone <repository> <dir>`.
pub fn clone_args(repository: &str, top_dir: &str) -> (r: Vec<String>)
    ensures
        spec_texts(r@) == seq!["clone"@, repository@, top_dir@],
{
    let r = args_of(&["clone", repository, top_dir]);
    proof {
        assert(spec_texts(r@) =~= seq!["clone"@, repository@, top_dir@]);
    }
    r
}

/// `git init -b <branch> <dir>`.
pub fn init_args(initial_branch_name: &str, top_dir: &str) -> (r: Vec<String>)
    ensures
        spec_texts(r@) == seq!["init"@, "-b"@, initial_branch_name@, top_dir@],
{
    let r = args_of(&["init", "-b", initial_branch_name, top_dir]);
    proof {
        assert(spec_texts(r@) =~= seq!["init"@, "-b"@, initial_branch_name@, top_dir@]);
    }
    r
}

/// `git init --bare -b <branch> <dir>`.
pub fn init_bare_args(initial_branch_name: &str, top_dir: &str) -> (r: Vec<String>)
    ensures
        spec_texts(r@) == seq!["init"@, "--bare"@, "-b"@, initial_branch_name@, top_dir@],
{
    let r = args_of(&["init", "--bare", "-b", initial_branch_name, top_dir]);
    proof {
        assert(spec_texts(r@) =~= seq!["init"@, "--bare"@, "-b"@, initial_branch_name@, top_dir@]);
    }
    r
}

/// The environment variables of a git command: the author's name, email
/// and date, then the committer's name, email and date, each where it is
/// set. The committer's email is taken from the author's email.
pub open spec fn spec_env_vars(
    author_name: Option<Seq<char>>,
    author_email: Option<Seq<char>>,
    author_date: Option<Seq<char>>,
    committer_name: Option<Seq<char>>,
    committer_date: Option<Seq<char>>,
) -> Seq<(Seq<char>, Seq<char>)> {
    let one = |k: Seq<char>, v: Option<Seq<char>>|
        match v {
            Some(x) => seq![(k, x)],
            None => Seq::<(Seq<char>, Seq<char>)>::empty(),
        };
    one("GIT_AUTHOR_NAME"@, author_name) + one("GIT_AUTHOR_EMAIL"@, author_email) + one(
        "GIT_AUTHOR_DATE"@,
        author_date,
    ) + one("GIT_COMMITTER_NAME"@, committer_name) + one("GIT_COMMITTER_EMAIL"@, author_email) + one(
        "GIT_COMMITTER_DATE"@,
        committer_date,
    )
}

/// The text of an optional string slice.
pub open spec fn spec_opt_text(o: Option<&str>) -> Option<Seq<char>> {
    match o {
        Some(s) => Some(s@),
        None => None,
    }
}

/// The text of an optional string.
pub open spec fn spec_opt_string(o: Option<String>) -> Option<Seq<char>> {
    match o {
        Some(s) => Some(s@),
        None => None,
    }
}

/// The text of name and value pairs.
pub open spec fn spec_pairs(v: Seq<(String, String)>) -> Seq<(Seq<char>, Seq<char>)> {
    v.map_values(|p: (String, String)| (p.0@, p.1@))
}

fn push_var(v: &mut Vec<(String, String)>, k: &str, val: Option<&str>)
    ensures
        spec_pairs(final(v)@) == spec_pairs(old(v)@) + match val {
            Some(x) => seq![(k@, x@)],
            None => Seq::<(Seq<char>, Seq<char>)>::empty(),
        },
{
    let ghost before = spec_pairs(v@);
    match val {
        Some(x) => {
            v.push((String::from_str(k), String::from_str(x)));
            proof {
                assert(spec_pairs(v@) =~= before + seq![(k@, x@)]);
            }
        },
        None => {
            proof {
                assert(spec_pairs(v@) =~= before + Seq::<(Seq<char>, Seq<char>)>::empty());
            }
        },
    }
}

fn opt_slice(o: &Option<String>) -> (r: Option<&str>)
    ensures
        spec_opt_text(r) == spec_opt_string(*o),
{
    match o {
        Some(s) => Some(s.as_str()),
        None => None,
    }
}

/// The environment variables of a git command.
pub fn env_vars(
    author_name: Option<&str>,
    author_email: Option<&str>,
    author_datestamp: Option<String>,
    committer_name: Option<&str>,
    committer_datestamp: Option<String>,
) -> (r: Vec<(String, String)>)
    ensures
        spec_pairs(r@) == spec_env_vars(
            spec_opt_text(author_name),
            spec_opt_text(author_email),
            spec_opt_string(author_datestamp),
            spec_opt_text(committer_name),
            spec_opt_string(committer_datestamp),
        ),
{
    let mut v: Vec<(String, String)> = Vec::new();
    push_var(&mut v, "GIT_AUTHOR_NAME", author_name);
    push_var(&mut v, "GIT_AUTHOR_EMAIL", author_email);
    push_var(&mut v, "GIT_AUTHOR_DATE", opt_slice(&author_datestamp));
    push_var(&mut v, "GIT_COMMITTER_NAME", committer_name);
    push_var(&mut v, "GIT_COMMITTER_EMAIL", author_email);
    push_var(&mut v, "GIT_COMMITTER_DATE", opt_slice(&committer_datestamp));
    proof {
        assert(spec_pairs(Seq::<(String, String)>::empty()) =~= Seq::<(Seq<char>, Seq<char>)>::empty());
        assert(spec_pairs(v@) =~= spec_env_vars(
            spec_opt_text(author_name),
            spec_opt_text(author_email),
            spec_opt_string(author_datestamp),
            spec_opt_text(committer_name),
            spec_opt_string(committer_datestamp),
        ));
    }
    v
}

/// A line of `git branch` without its marks: trimmed, then every leading
/// `* ` taken off.
pub open spec fn spec_branch_name(line: Seq<char>) -> Seq<char> {
    crate::gittypes::spec_strip_prefixes(spec_trim(line), "* "@)
}

fn strip_star_prefixes(s: &Vec<char>) -> (r: Vec<char>)
    ensures
        r@ == crate::gittypes::spec_strip_prefixes(s@, "* "@),
{
    proof {
        reveal_strlit("* ");
    }
    let mut start: usize = 0;
    proof {
        assert(s@.skip(0) =~= s@);
    }
    while s.len() - start >= 2 && s[start] == '*' && s[start + 1] == ' '
        invariant
            start <= s@.len(),
            "* "@ == seq!['*', ' '],
            crate::gittypes::spec_strip_prefixes(s@, "* "@) == crate::gittypes::spec_strip_prefixes(
                s@.skip(start as int),
                "* "@,
            ),
        decreases s@.len() - start,
    {
        proof {
            let t = s@.skip(start as int);
            assert(t.take(2) =~= "* "@);
            assert(t.skip(2) =~= s@.skip(start + 2));
        }
        start = start + 2;
    }
    proof {
        let t = s@.skip(start as int);
        if t.len() >= 2 && t.take(2) == "* "@ {
            assert(t.take(2)[0] == s@[start as int]);
            assert(t.take(2)[1] == s@[start + 1]);
        }
    }
    let mut r: Vec<char> = Vec::new();
    let mut j: usize = start;
    while j < s.len()
        invariant
            start <= j <= s@.len(),
            r@ == s@.subrange(start as int, j as int),
        decreases s@.len() - j,
    {
        r.push(s[j]);
        j = j + 1;
        proof {
            assert(r@ =~= s@.subrange(start as int, j as int));
        }
    }
    proof {
        assert(r@ =~= s@.skip(start as int));
    }
    r
}

/// The branches that `git branch --no-color` lists, one a line.
pub fn branch_list_from_cli(stdout: &str) -> (r: Vec<String>)
    ensures
        spec_texts(r@) == spec_lines(stdout@).map_values(|l: Seq<char>| spec_branch_name(l)),
{
    let ls = lines(&str_chars(stdout));
    let ghost lv = ls@.map_values(|l: Vec<char>| l@);
    let mut r: Vec<String> = Vec::new();
    let mut i: usize = 0;
    while i < ls.len()
        invariant
            i <= ls@.len(),
            lv == ls@.map_values(|l: Vec<char>| l@),
            lv == spec_lines(stdout@),
            spec_texts(r@) == lv.take(i as int).map_values(|l: Seq<char>| spec_branch_name(l)),
        decreases ls@.len() - i,
    {
        let t = trim_chars(&ls[i]);
        let b = string_from_chars(strip_star_prefixes(&t).as_slice());
        let ghost before = spec_texts(r@);
        r.push(b);
        proof {
            assert(ls@[i as int]@ == lv[i as int]);
            assert(lv.take(i + 1).map_values(|l: Seq<char>| spec_branch_name(l)) =~= lv.take(
                i as int,
            ).map_values(|l: Seq<char>| spec_branch_name(l)).push(spec_branch_name(lv[i as int])));
            assert(spec_texts(r@) =~= before.push(b@));
        }
        i = i + 1;
    }
    proof {
        assert(lv.take(ls@.len() as int) =~= lv);
    }
    r
}

/// The current branch that `git branch --show-current` prints: the output
/// trimmed.
pub fn branch_current_from_cli(stdout: &str) -> (r: String)
    ensures
        r@ == spec_trim(stdout@),
{
    string_from_chars(trim_chars(&str_chars(stdout)).as_slice())
}

/// The error of a git command that exited with a failure: its exit code
/// (0 where there is none) and its error output, trimmed.
pub fn command_failure(code: Option<i32>, stderr: &str) -> (e: Error)
    ensures
        e matches Error::GitCmd(c, Some(m)) && c == (match code {
            Some(x) => x,
            None => 0,
        }) && m@ == spec_trim(stderr@),
{
    let c = match code {
        Some(x) => x,
        None => 0,
    };
    Error::GitCmd(c, Some(string_from_chars(trim_chars(&str_chars(stderr)).as_slice())))
}

/// The error of a git command run for its exit status alone that failed:
/// its exit code, 1 where there is none.
pub fn status_failure(code: Option<i32>) -> (e: Error)
    ensures
        e matches Error::GitCmd(c, None) && c == (match code {
            Some(x) => x,
            None => 1,
        }),
{
    let c = match code {
        Some(x) => x,
        None => 1,
    };
    Error::GitCmd(c, None)
}


/// What a merge through the command line does once it knows how the merge
/// ended.
pub enum CliMergeNext {
    /// Answers with this.
    Return(Result<Resolution, Error>),
    /// Aborts the merge, then answers as `cli_merge_aborted` says.
    Abort,
}

/// The next step of a merge of `source_rev` through the command line,
/// after the outcome that the resolution check gave: a failed check is the
/// merge aborted with that cause; an unresolved merge is aborted where only
/// an automatic resolution is asked for; any other resolution is the
/// answer.
pub fn cli_merge_next(auto_resolve_only: bool, source_rev: &str, outcome: Result<Resolution, Error>) -> (r: CliMergeNext)
    ensures
        match outcome {
            Err(e) => r matches CliMergeNext::Return(Err(Error::MergeAborted(s, ErrSrc::Lib(b), None))) && s@
                == source_rev@ && *b == e,
            Ok(res) => if res is Unresolved && auto_resolve_only {
                r is Abort
            } else {
                r matches CliMergeNext::Return(Ok(x)) && x == res
            },
        },
{
    match outcome {
        Err(e) => CliMergeNext::Return(Err(Error::MergeAborted(String::from_str(source_rev), ErrSrc::Lib(Box::new(e)), None))),
        Ok(res) => {
            let unresolved = match &res {
                Resolution::Unresolved(_) => true,
                _ => false,
            };
            if unresolved && auto_resolve_only {
                CliMergeNext::Abort
            } else {
                CliMergeNext::Return(Ok(res))
            }
        },
    }
}

/// The answer of a merge of `source_rev` that was aborted: the merge
/// aborted where the abort succeeded, the merge left unaborted with the
/// abort's failure otherwise.
pub fn cli_merge_aborted(source_rev: &str, abort_result: Result<(), Error>) -> (r: Error)
    ensures
        match abort_result {
            Ok(_) => r matches Error::MergeAborted(s, ErrSrc::NoSource, None) && s@ == source_rev@,
            Err(e) => r matches Error::MergeUnaborted(s, ErrSrc::Lib(b), Some(m)) && s@ == source_rev@ && *b == e
                && m@ == "Failed to abort problematic merge"@,
        },
{
    match abort_result {
        Ok(_) => Error::MergeAborted(String::from_str(source_rev), ErrSrc::NoSource, None),
        Err(e) => Error::MergeUnaborted(
            String::from_str(source_rev),
            ErrSrc::Lib(Box::new(e)),
            Some(String::from_str("Failed to abort problematic merge")),
        ),
    }
}

} // verus!
