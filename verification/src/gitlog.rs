//! The history of a repository as a git backend reads it commit by commit:
//! object ids from their 20 bytes, each user once, messages trimmed.
use vstd::prelude::*;
use crate::giterror::Error;
use crate::gitoptions::LogOptions;
use crate::gittypes::GitOID;
use crate::scan::{spec_trim, trim_chars};
use crate::text::{str_chars, string_from_chars};

verus! {

/// An author or committer: name and email.
#[derive(Debug)]
pub struct GitUser {
    pub name: String,
    pub email: String,
}

/// The name and email of a user.
pub open spec fn spec_user(u: GitUser) -> (Seq<char>, Seq<char>) {
    (u.name@, u.email@)
}

/// A commit as the repository gives it: the bytes of its id, of its tree's
/// id and of its parents' ids, its author and committer with their times in
/// seconds, and its message.
#[derive(Debug)]
pub struct CommitRecord {
    pub oid: Vec<u8>,
    pub tree: Vec<u8>,
    pub parents: Vec<Vec<u8>>,
    pub author: GitUser,
    pub author_seconds: i64,
    pub committer: GitUser,
    pub committer_seconds: i64,
    pub message: Option<String>,
}

/// A commit of a log; its author and committer are places in the log's
/// users.
#[derive(Debug)]
pub struct Commit {
    pub commit_oid: GitOID,
    pub tree_oid: GitOID,
    pub parent_oid: Vec<GitOID>,
    pub author: usize,
    pub author_time: i64,
    pub committer: usize,
    pub committer_time: i64,
    pub message: Option<String>,
}

/// The commits of a history, in the order they were walked, and the users
/// that they name, each once.
#[derive(Debug)]
pub struct Log {
    pub commits: Vec<Commit>,
    pub users: Vec<GitUser>,
}

/// Whether every id of a commit record is 20 bytes long.
pub open spec fn spec_record_ids_ok(c: CommitRecord) -> bool {
    &&& c.oid@.len() == 20
    &&& c.tree@.len() == 20
    &&& forall|k: int| 0 <= k < c.parents@.len() ==> (#[trigger] c.parents@[k])@.len() == 20
}

/// The users of a log, by name and email.
pub open spec fn spec_users(us: Seq<GitUser>) -> Seq<(Seq<char>, Seq<char>)> {
    us.map_values(|u: GitUser| spec_user(u))
}

/// The message a log keeps of a commit: trimmed where messages are shown,
/// none otherwise.
pub open spec fn spec_log_message(show: bool, m: Option<String>) -> Option<Seq<char>> {
    if show {
        match m {
            Some(t) => Some(spec_trim(t@)),
            None => None,
        }
    } else {
        None
    }
}

/// Whether `c` is the log's commit of the record `rec`.
pub open spec fn spec_commit_of(show: bool, users: Seq<(Seq<char>, Seq<char>)>, c: Commit, rec: CommitRecord) -> bool {
    &&& c.commit_oid.0@ == rec.oid@
    &&& c.tree_oid.0@ == rec.tree@
    &&& c.parent_oid@.len() == rec.parents@.len()
    &&& forall|k: int| 0 <= k < rec.parents@.len() ==> (#[trigger] c.parent_oid@[k]).0@ == rec.parents@[k]@
    &&& c.author < users.len() && users[c.author as int] == spec_user(rec.author)
    &&& c.committer < users.len() && users[c.committer as int] == spec_user(rec.committer)
    &&& c.author_time == rec.author_seconds
    &&& c.committer_time == rec.committer_seconds
    &&& (match c.message {
        Some(t) => Some(t@),
        None => None,
    }) == spec_log_message(show, rec.message)
}

/// Whether `u` is the author or committer of one of the records.
pub open spec fn spec_named(cs: Seq<CommitRecord>, u: (Seq<char>, Seq<char>)) -> bool {
    exists|i: int| 0 <= i < cs.len() && (spec_user(#[trigger] cs[i].author) == u || spec_user(cs[i].committer) == u)
}

fn str_eq(a: &String, b: &String) -> (r: bool)
    ensures
        r == (a@ == b@),
{
    crate::inlined::chars_equal(&str_chars(a.as_str()), &str_chars(b.as_str()))
}

fn copy_user(u: &GitUser) -> (r: GitUser)
    ensures
        spec_user(r) == spec_user(*u),
{
    GitUser { name: String::from_str(u.name.as_str()), email: String::from_str(u.email.as_str()) }
}

/// The place of `u` among `users`, added at the end where it is not there.
fn user_index(users: &mut Vec<GitUser>, u: &GitUser) -> (i: usize)
    requires
        spec_users(old(users)@).no_duplicates(),
        old(users)@.len() < usize::MAX,
    ensures
        spec_users(final(users)@).no_duplicates(),
        i < final(users)@.len(),
        spec_users(final(users)@)[i as int] == spec_user(*u),
        spec_users(old(users)@).contains(spec_user(*u)) ==> spec_users(final(users)@) == spec_users(old(users)@),
        !spec_users(old(users)@).contains(spec_user(*u)) ==> spec_users(final(users)@) == spec_users(old(users)@).push(
            spec_user(*u),
        ),
{
    let mut k: usize = 0;
    while k < users.len()
        invariant
            k <= users@.len(),
            users@ == old(users)@,
            spec_users(old(users)@).no_duplicates(),
            old(users)@.len() < usize::MAX,
            forall|j: int| 0 <= j < k ==> spec_users(users@)[j] != spec_user(*u),
        decreases users@.len() - k,
    {
        if str_eq(&users[k].name, &u.name) && str_eq(&users[k].email, &u.email) {
            proof {
                assert(spec_users(users@)[k as int] == spec_user(*u));
            }
            return k;
        }
        proof {
            assert(spec_users(users@)[k as int] == spec_user(users@[k as int]));
        }
        k = k + 1;
    }
    let ghost before = spec_users(users@);
    proof {
        assert(!before.contains(spec_user(*u)));
    }
    let n = users.len();
    users.push(copy_user(u));
    proof {
        assert(spec_users(users@) =~= before.push(spec_user(*u)));
    }
    n
}

fn oid_of(bytes: &Vec<u8>) -> (r: Result<GitOID, Error>)
    ensures
        match r {
            Ok(o) => bytes@.len() == 20 && o.0@ == bytes@,
            Err(e) => bytes@.len() != 20 && e is FromStr,
        },
{
    GitOID::try_from_bytes(bytes.as_slice())
}

fn parent_oids(parents: &Vec<Vec<u8>>) -> (r: Result<Vec<GitOID>, Error>)
    ensures
        match r {
            Ok(v) => v@.len() == parents@.len() && forall|k: int| 0 <= k < parents@.len() ==> (#[trigger] parents@[k])@.len() == 20 && v@[k].0@ == parents@[k]@,
            Err(e) => e is FromStr && exists|k: int| 0 <= k < parents@.len() && (#[trigger] parents@[k])@.len() != 20,
        },
{
    let mut out: Vec<GitOID> = Vec::new();
    let mut k: usize = 0;
    while k < parents.len()
        invariant
            k <= parents@.len(),
            out@.len() == k,
            forall|j: int| 0 <= j < k ==> (#[trigger] parents@[j])@.len() == 20 && out@[j].0@ == parents@[j]@,
        decreases parents@.len() - k,
    {
        match oid_of(&parents[k]) {
            Ok(o) => out.push(o),
            Err(e) => {
                proof {
                    assert(parents@[k as int]@.len() != 20);
                }
                return Err(e);
            },
        }
        k = k + 1;
    }
    Ok(out)
}

fn log_message(show: bool, m: &Option<String>) -> (r: Option<String>)
    ensures
        (match r {
            Some(t) => Some(t@),
            None => None,
        }) == spec_log_message(show, *m),
{
    if !show {
        return None;
    }
    match m {
        Some(t) => Some(string_from_chars(trim_chars(&str_chars(t.as_str())).as_slice())),
        None => None,
    }
}

/// The log of commit records in walk order: every id must be 20 bytes;
/// each user is kept once and commits name users by their place; messages
/// are kept, trimmed, only where they are shown.
pub fn log_from_commits(o: LogOptions, cs: Vec<CommitRecord>) -> (r: Result<Log, Error>)
    requires
        2 * cs@.len() < usize::MAX,
    ensures
        r is Ok <==> forall|i: int| 0 <= i < cs@.len() ==> spec_record_ids_ok(#[trigger] cs@[i]),
        r matches Err(e) ==> e is FromStr,
        r matches Ok(log) ==> {
            &&& log.commits@.len() == cs@.len()
            &&& forall|i: int| 0 <= i < cs@.len() ==> spec_commit_of(o.show_message, spec_users(log.users@), #[trigger] log.commits@[i], cs@[i])
            &&& spec_users(log.users@).no_duplicates()
            &&& forall|k: int| 0 <= k < log.users@.len() ==> spec_named(cs@, #[trigger] spec_users(log.users@)[k])
        },
{
    let o = match o.validate() {
        Ok(o) => o,
        Err(e) => return Err(e),
    };
    let mut commits: Vec<Commit> = Vec::new();
    let mut users: Vec<GitUser> = Vec::new();
    let mut i: usize = 0;
    while i < cs.len()
        invariant
            i <= cs@.len(),
            2 * cs@.len() < usize::MAX,
            commits@.len() == i,
            users@.len() <= 2 * i,
            spec_users(users@).no_duplicates(),
            forall|j: int| 0 <= j < i ==> spec_record_ids_ok(#[trigger] cs@[j]),
            forall|j: int| 0 <= j < i ==> spec_commit_of(o.show_message, spec_users(users@), #[trigger] commits@[j], cs@[j]),
            forall|k: int| 0 <= k < users@.len() ==> spec_named(cs@, #[trigger] spec_users(users@)[k]),
        decreases cs@.len() - i,
    {
        let rec = &cs[i];
        let commit_oid = match oid_of(&rec.oid) {
            Ok(x) => x,
            Err(e) => return Err(e),
        };
        let tree_oid = match oid_of(&rec.tree) {
            Ok(x) => x,
            Err(e) => return Err(e),
        };
        let parent_oid = match parent_oids(&rec.parents) {
            Ok(x) => x,
            Err(e) => return Err(e),
        };
        let ghost u0 = spec_users(users@);
        let author = user_index(&mut users, &rec.author);
        let ghost u1 = spec_users(users@);
        let committer = user_index(&mut users, &rec.committer);
        let ghost u2 = spec_users(users@);
        let message = log_message(o.show_message, &rec.message);
        let c = Commit {
            commit_oid,
            tree_oid,
            parent_oid,
            author,
            author_time: rec.author_seconds,
            committer,
            committer_time: rec.committer_seconds,
            message,
        };
        proof {
            assert(u0.is_prefix_of(u1));
            assert(u1.is_prefix_of(u2));
            assert(u2[author as int] == u1[author as int]);
            assert forall|j: int| 0 <= j < i implies spec_commit_of(o.show_message, u2, #[trigger] commits@[j], cs@[j]) by {
                assert(spec_commit_of(o.show_message, u0, commits@[j], cs@[j]));
                assert(u2[commits@[j].author as int] == u0[commits@[j].author as int]);
                assert(u2[commits@[j].committer as int] == u0[commits@[j].committer as int]);
            }
            assert forall|k: int| 0 <= k < u2.len() implies spec_named(cs@, #[trigger] u2[k]) by {
                if k < u0.len() {
                    assert(u2[k] == u0[k]);
                } else if k < u1.len() {
                    assert(u2[k] == spec_user(cs@[i as int].author));
                    assert(spec_user(cs@[i as int].author) == u2[k]);
                } else {
                    assert(u2[k] == spec_user(cs@[i as int].committer));
                }
            }
            assert(spec_commit_of(o.show_message, u2, c, cs@[i as int]));
        }
        let ghost prev = commits@;
        commits.push(c);
        proof {
            assert forall|j: int| 0 <= j < i + 1 implies spec_commit_of(o.show_message, spec_users(users@), #[trigger] commits@[j], cs@[j]) by {
                if j < i {
                    assert(commits@[j] == prev[j]);
                }
            }
        }
        i = i + 1;
    }
    Ok(Log { commits, users })
}

} // verus!
