//! The status of a working tree and the differences between two revisions,
//! read from what `git status --porcelain` and `git diff --name-status` print.
//! Changes are kept per path: a later line about a path replaces an earlier one.
use vstd::prelude::*;
use crate::giterror::Error;
use crate::scan::{spec_lines, lines, spec_trim, trim_chars, spec_words, split_words};
use crate::text::{str_chars, string_from_chars};

verus! {

/// The change of a path in the index or the working tree.
#[derive(Debug, Copy, Clone, PartialEq, Eq, Structural, Hash)]
pub enum StatusCode {
    Added,
    Deleted,
    Ignored,
    Modified,
    Renamed,
    TypeChanged,
    Unmerged,
    Untracked,
}

/// The code of a status letter: `None` for a letter that git does not print
/// in these outputs, `Some(None)` for a blank (no change).
pub open spec fn spec_status_code(c: char) -> Option<Option<StatusCode>> {
    if c == 'A' || c == 'C' {
        Some(Some(StatusCode::Added))
    } else if c == 'D' {
        Some(Some(StatusCode::Deleted))
    } else if c == 'I' {
        Some(Some(StatusCode::Ignored))
    } else if c == 'M' {
        Some(Some(StatusCode::Modified))
    } else if c == 'R' {
        Some(Some(StatusCode::Renamed))
    } else if c == 'T' {
        Some(Some(StatusCode::TypeChanged))
    } else if c == 'U' {
        Some(Some(StatusCode::Unmerged))
    } else if c == '?' {
        Some(Some(StatusCode::Untracked))
    } else if c == ' ' {
        Some(None)
    } else {
        None
    }
}

/// Each porcelain letter reads as its git meaning: `A` and `C` added, `D`
/// deleted, `I` ignored, `M` modified, `R` renamed, `T` type changed, `U`
/// unmerged, `?` untracked, a blank no change, and no other letter reads.
pub proof fn law_status_letters(c: char)
    ensures
        spec_status_code(c) == Some(Some(StatusCode::Added)) <==> (c == 'A' || c == 'C'),
        spec_status_code(c) == Some(Some(StatusCode::Deleted)) <==> c == 'D',
        spec_status_code(c) == Some(Some(StatusCode::Ignored)) <==> c == 'I',
        spec_status_code(c) == Some(Some(StatusCode::Modified)) <==> c == 'M',
        spec_status_code(c) == Some(Some(StatusCode::Renamed)) <==> c == 'R',
        spec_status_code(c) == Some(Some(StatusCode::TypeChanged)) <==> c == 'T',
        spec_status_code(c) == Some(Some(StatusCode::Unmerged)) <==> c == 'U',
        spec_status_code(c) == Some(Some(StatusCode::Untracked)) <==> c == '?',
        spec_status_code(c) == Some(None::<StatusCode>) <==> c == ' ',
        spec_status_code(c) is None <==> !(c == 'A' || c == 'C' || c == 'D' || c == 'I' || c == 'M' || c == 'R'
            || c == 'T' || c == 'U' || c == '?' || c == ' '),
{
}

impl StatusCode {
    /// Reads a status letter; a blank means no change.
    pub fn try_from_char(c: char) -> (r: Result<Option<StatusCode>, Error>)
        ensures
            match r {
                Ok(v) => spec_status_code(c) == Some(v),
                Err(e) => spec_status_code(c) is None && e is GitStatusParse,
            },
    {
        match c {
            'A' => Ok(Some(StatusCode::Added)),
            'C' => Ok(Some(StatusCode::Added)),
            'D' => Ok(Some(StatusCode::Deleted)),
            'I' => Ok(Some(StatusCode::Ignored)),
            'M' => Ok(Some(StatusCode::Modified)),
            'R' => Ok(Some(StatusCode::Renamed)),
            'T' => Ok(Some(StatusCode::TypeChanged)),
            'U' => Ok(Some(StatusCode::Unmerged)),
            '?' => Ok(Some(StatusCode::Untracked)),
            ' ' => Ok(None),
            _ => Err(Error::GitStatusParse),
        }
    }
}

fn is_unmerged(c: Option<StatusCode>) -> (b: bool)
    ensures
        b == (c == Some(StatusCode::Unmerged)),
{
    match c {
        Some(StatusCode::Unmerged) => true,
        _ => false,
    }
}

/// A change is a conflict where either side is unmerged.
pub open spec fn spec_conflicted(x: Option<StatusCode>, y: Option<StatusCode>) -> bool {
    y == Some(StatusCode::Unmerged) || x == Some(StatusCode::Unmerged)
}

/// The text of an optional string.
pub open spec fn spec_opt_view(o: Option<String>) -> Option<Seq<char>> {
    match o {
        Some(s) => Some(s@),
        None => None,
    }
}

/// The text of an optional string slice.
pub open spec fn spec_opt_str(o: Option<&str>) -> Option<Seq<char>> {
    match o {
        Some(s) => Some(s@),
        None => None,
    }
}

fn copy_opt_string(o: &Option<String>) -> (r: Option<String>)
    ensures
        spec_opt_view(r) == spec_opt_view(*o),
{
    match o {
        Some(s) => Some(s.clone()),
        None => None,
    }
}

fn opt_as_str(o: &Option<String>) -> (r: Option<&str>)
    ensures
        spec_opt_str(r) == spec_opt_view(*o),
{
    match o {
        Some(s) => Some(s.as_str()),
        None => None,
    }
}

/// What a status line says of one path.
pub trait PathStatusTrait {
    spec fn spec_path(&self) -> Seq<char>;

    spec fn spec_code_x(&self) -> Option<StatusCode>;

    spec fn spec_code_y(&self) -> Option<StatusCode>;

    spec fn spec_original_path(&self) -> Option<Seq<char>>;

    fn path(&self) -> (r: &str)
        ensures
            r@ == self.spec_path(),
    ;

    fn code_x(&self) -> (r: Option<StatusCode>)
        ensures
            r == self.spec_code_x(),
    ;

    fn code_y(&self) -> (r: Option<StatusCode>)
        ensures
            r == self.spec_code_y(),
    ;

    fn original_path(&self) -> (r: Option<&str>)
        ensures
            spec_opt_str(r) == self.spec_original_path(),
    ;

    /// Whether the path is in conflict: either code is `Unmerged`.
    fn is_conflicted(&self) -> (r: bool)
        ensures
            r == spec_conflicted(self.spec_code_x(), self.spec_code_y()),
    {
        let y = self.code_y();
        let x = self.code_x();
        is_unmerged(y) || is_unmerged(x)
    }
}

/// The keys of `s` are pairwise distinct.
pub open spec fn spec_distinct_keys<M>(s: Seq<M>, key: spec_fn(M) -> Seq<char>) -> bool {
    forall|i: int, j: int| 0 <= i < j < s.len() ==> key(#[trigger] s[i]) != key(#[trigger] s[j])
}

/// `d` with `m` in place of the entry of the same key, or `m` appended
/// where no entry has its key.
pub open spec fn spec_upsert<M>(d: Seq<M>, m: M, key: spec_fn(M) -> Seq<char>) -> Seq<M> {
    if exists|j: int| 0 <= j < d.len() && key(#[trigger] d[j]) == key(m) {
        d.update(choose|j: int| 0 <= j < d.len() && key(#[trigger] d[j]) == key(m), m)
    } else {
        d.push(m)
    }
}

/// The entries of `s` put in one by one, a later entry replacing an
/// earlier one of the same key.
pub open spec fn spec_upsert_all<M>(s: Seq<M>, key: spec_fn(M) -> Seq<char>) -> Seq<M>
    decreases s.len(),
{
    if s.len() == 0 {
        Seq::empty()
    } else {
        spec_upsert(spec_upsert_all(s.drop_last(), key), s.last(), key)
    }
}

proof fn lemma_upsert_distinct<M>(d: Seq<M>, m: M, key: spec_fn(M) -> Seq<char>)
    requires
        spec_distinct_keys(d, key),
    ensures
        spec_distinct_keys(spec_upsert(d, m, key), key),
{
    let r = spec_upsert(d, m, key);
    if exists|j: int| 0 <= j < d.len() && key(#[trigger] d[j]) == key(m) {
        let j = choose|j: int| 0 <= j < d.len() && key(#[trigger] d[j]) == key(m);
        assert forall|a: int, b: int| 0 <= a < b < r.len() implies key(#[trigger] r[a]) != key(
            #[trigger] r[b],
        ) by {
            if a == j {
                assert(key(d[b]) != key(d[j]));
            } else if b == j {
                assert(key(d[a]) != key(d[j]));
            } else {
                assert(key(d[a]) != key(d[b]));
            }
        }
    } else {
        assert forall|a: int, b: int| 0 <= a < b < r.len() implies key(#[trigger] r[a]) != key(
            #[trigger] r[b],
        ) by {
            if b == d.len() {
                assert(key(d[a]) != key(m));
            } else {
                assert(key(d[a]) != key(d[b]));
            }
        }
    }
}

/// The fields of a path status: path, index code, working-tree code, and
/// the path it was renamed or copied from.
pub type PathStatusModel = (Seq<char>, Option<StatusCode>, Option<StatusCode>, Option<Seq<char>>);

/// The path of a path status.
pub open spec fn status_key(m: PathStatusModel) -> Seq<char> {
    m.0
}

/// The status of one path.
#[derive(Debug, Clone)]
pub struct PathStatus {
    path: String,
    x: Option<StatusCode>,
    y: Option<StatusCode>,
    original_path: Option<String>,
}

impl View for PathStatus {
    type V = PathStatusModel;

    closed spec fn view(&self) -> PathStatusModel {
        (self.path@, self.x, self.y, spec_opt_view(self.original_path))
    }
}

/// The path status that the tokens after the two codes of a status line
/// give: one token is the path; three are the original path, an arrow, and
/// the path; any other count is no status.
pub open spec fn spec_status_from_tokens(
    x: Option<StatusCode>,
    y: Option<StatusCode>,
    tokens: Seq<Seq<char>>,
) -> Option<PathStatusModel> {
    if tokens.len() == 1 {
        Some((tokens[0], x, y, None))
    } else if tokens.len() == 3 {
        Some((tokens[2], x, y, Some(tokens[0])))
    } else {
        None
    }
}

/// The tokens of `s`, split at blanks outside double quotes, with the quotes
/// around a token taken off, as `splitty::split_unquoted_whitespace` with
/// `unwrap_quotes(true)` yields them.
pub uninterp spec fn spec_split_unquoted_whitespace(s: Seq<char>) -> Seq<Seq<char>>;

/// Calls `splitty::split_unquoted_whitespace(s).unwrap_quotes(true)` and
/// collects the tokens; they are named by [spec_split_unquoted_whitespace],
/// a function of the text alone.
#[verifier::external_body]
fn split_unquoted_whitespace(s: &str) -> (r: Vec<String>)
    ensures
        r@.map_values(|t: String| t@) == spec_split_unquoted_whitespace(s@),
{
    splitty::split_unquoted_whitespace(s).unwrap_quotes(true).map(|t| t.to_string()).collect()
}

/// The path status of a line of `git status --porcelain`: two code letters,
/// a separator, then the path, or the original path, an arrow and the path.
pub open spec fn spec_path_status_from_cli(line: Seq<char>) -> Option<PathStatusModel> {
    if line.len() >= 3 && spec_status_code(line[0]) is Some && spec_status_code(line[1]) is Some {
        spec_status_from_tokens(
            spec_status_code(line[0])->Some_0,
            spec_status_code(line[1])->Some_0,
            spec_split_unquoted_whitespace(spec_trim(line.skip(2))),
        )
    } else {
        None
    }
}

/// The codes of a status line are those of its first two letters: the
/// index's and the working tree's (see `law_status_letters`).
pub proof fn law_status_line_codes(line: Seq<char>)
    ensures
        spec_path_status_from_cli(line) matches Some(m) ==> spec_status_code(line[0]) == Some(m.1)
            && spec_status_code(line[1]) == Some(m.2),
{
}

impl PathStatus {
    pub fn new(
        path: String,
        code_index: Option<StatusCode>,
        code_working_tree: Option<StatusCode>,
        original_path: Option<String>,
    ) -> (r: Self)
        ensures
            r@ == (path@, code_index, code_working_tree, spec_opt_view(original_path)),
    {
        PathStatus { path, x: code_index, y: code_working_tree, original_path }
    }

    /// A copy of the path status.
    pub fn copy(&self) -> (r: Self)
        ensures
            r@ == self@,
    {
        PathStatus {
            path: self.path.clone(),
            x: self.x,
            y: self.y,
            original_path: copy_opt_string(&self.original_path),
        }
    }

    pub fn code_index(&self) -> (r: Option<StatusCode>)
        ensures
            r == self@.1,
    {
        self.x
    }

    pub fn code_working_tree(&self) -> (r: Option<StatusCode>)
        ensures
            r == self@.2,
    {
        self.y
    }

    /// The path status that the tokens after the codes of a status line give.
    pub fn from_cli_tokens(
        x: Option<StatusCode>,
        y: Option<StatusCode>,
        tokens: Vec<String>,
    ) -> (r: Result<PathStatus, Error>)
        ensures
            match r {
                Ok(p) => spec_status_from_tokens(x, y, tokens@.map_values(|t: String| t@)) == Some(
                    p@,
                ),
                Err(e) => spec_status_from_tokens(x, y, tokens@.map_values(|t: String| t@)) is None
                    && e is GitStatusParse,
            },
    {
        let ghost tv = tokens@.map_values(|t: String| t@);
        if tokens.len() == 1 {
            let path = tokens[0].clone();
            Ok(PathStatus { path, x, y, original_path: None })
        } else if tokens.len() == 3 {
            let path = tokens[2].clone();
            let original = tokens[0].clone();
            Ok(PathStatus { path, x, y, original_path: Some(original) })
        } else {
            Err(Error::GitStatusParse)
        }
    }

    /// Reads a line of `git status --porcelain`.
    pub fn from_cli(line: &str) -> (r: Result<PathStatus, Error>)
        ensures
            match r {
                Ok(p) => spec_path_status_from_cli(line@) == Some(p@),
                Err(e) => spec_path_status_from_cli(line@) is None && e is GitStatusParse,
            },
    {
        let cs = str_chars(line);
        if cs.len() < 3 {
            return Err(Error::GitStatusParse);
        }
        let x = match StatusCode::try_from_char(cs[0]) {
            Ok(v) => v,
            Err(e) => {
                return Err(e);
            },
        };
        let y = match StatusCode::try_from_char(cs[1]) {
            Ok(v) => v,
            Err(e) => {
                return Err(e);
            },
        };
        let mut rest: Vec<char> = Vec::new();
        let mut i: usize = 2;
        while i < cs.len()
            invariant
                2 <= i <= cs@.len(),
                rest@ == cs@.subrange(2, i as int),
            decreases cs@.len() - i,
        {
            rest.push(cs[i]);
            i = i + 1;
            proof {
                assert(rest@ =~= cs@.subrange(2, i as int));
            }
        }
        proof {
            assert(rest@ =~= line@.skip(2));
        }
        let trimmed = string_from_chars(trim_chars(&rest).as_slice());
        let tokens = split_unquoted_whitespace(trimmed.as_str());
        PathStatus::from_cli_tokens(x, y, tokens)
    }
}

impl PathStatusTrait for PathStatus {
    open spec fn spec_path(&self) -> Seq<char> {
        self@.0
    }

    open spec fn spec_code_x(&self) -> Option<StatusCode> {
        self@.1
    }

    open spec fn spec_code_y(&self) -> Option<StatusCode> {
        self@.2
    }

    open spec fn spec_original_path(&self) -> Option<Seq<char>> {
        self@.3
    }

    fn path(&self) -> (r: &str) {
        self.path.as_str()
    }

    fn code_x(&self) -> (r: Option<StatusCode>) {
        self.x
    }

    fn code_y(&self) -> (r: Option<StatusCode>) {
        self.y
    }

    fn original_path(&self) -> (r: Option<&str>) {
        opt_as_str(&self.original_path)
    }
}

/// The models of a sequence of path statuses.
pub open spec fn status_models(s: Seq<PathStatus>) -> Seq<PathStatusModel> {
    s.map_values(|p: PathStatus| p@)
}

/// Whether a path status is in conflict.
pub open spec fn model_conflicted(m: PathStatusModel) -> bool {
    spec_conflicted(m.1, m.2)
}

/// Puts `m` into `d`, replacing the entry of the same path.
fn upsert_path_status(d: &mut Vec<PathStatus>, m: PathStatus)
    requires
        spec_distinct_keys(status_models(old(d)@), |k: PathStatusModel| status_key(k)),
    ensures
        status_models(final(d)@) == spec_upsert(
            status_models(old(d)@),
            m@,
            |k: PathStatusModel| status_key(k),
        ),
        spec_distinct_keys(status_models(final(d)@), |k: PathStatusModel| status_key(k)),
{
    let ghost key = |k: PathStatusModel| status_key(k);
    let ghost dm = status_models(d@);
    let mut j: usize = 0;
    while j < d.len()
        invariant
            j <= d@.len(),
            d@ == old(d)@,
            dm == status_models(d@),
            key == (|k: PathStatusModel| status_key(k)),
            spec_distinct_keys(dm, key),
            forall|a: int| 0 <= a < j ==> key(#[trigger] dm[a]) != key(m@),
        decreases d@.len() - j,
    {
        if d[j].path == m.path {
            proof {
                assert(key(dm[j as int]) == key(m@));
                assert forall|a: int| 0 <= a < dm.len() && key(#[trigger] dm[a]) == key(m@) implies a
                    == j by {
                    if a != j {
                        if a < j {
                        } else {
                            assert(key(dm[j as int]) != key(dm[a]));
                        }
                    }
                }
                lemma_upsert_distinct(dm, m@, key);
                assert(exists|a: int| 0 <= a < dm.len() && key(#[trigger] dm[a]) == key(m@));
                let c = choose|a: int| 0 <= a < dm.len() && key(#[trigger] dm[a]) == key(m@);
                assert(c == j);
                assert(spec_upsert(dm, m@, key) == dm.update(j as int, m@));
            }
            d.set(j, m);
            proof {
                assert(status_models(d@) =~= dm.update(j as int, m@));
            }
            return;
        }
        j = j + 1;
    }
    proof {
        lemma_upsert_distinct(dm, m@, key);
    }
    d.push(m);
    proof {
        assert(status_models(d@) =~= dm.push(m@));
    }
}

/// The status of a working tree: the changed paths, each once.
#[derive(Debug)]
pub struct Status {
    changes: Vec<PathStatus>,
}

impl View for Status {
    type V = Seq<PathStatusModel>;

    closed spec fn view(&self) -> Seq<PathStatusModel> {
        status_models(self.changes@)
    }
}

/// The statuses that the lines of `git status --porcelain` give, where each
/// line reads.
pub open spec fn spec_status_lines(ls: Seq<Seq<char>>) -> Option<Seq<PathStatusModel>> {
    if forall|i: int| 0 <= i < ls.len() ==> (#[trigger] spec_path_status_from_cli(ls[i])) is Some {
        Some(ls.map_values(|l: Seq<char>| spec_path_status_from_cli(l)->Some_0))
    } else {
        None
    }
}

impl Status {
    #[verifier::type_invariant]
    closed spec fn paths_distinct(self) -> bool {
        spec_distinct_keys(status_models(self.changes@), |k: PathStatusModel| status_key(k))
    }

    /// The status of `changes`, a later change of a path replacing an
    /// earlier one.
    pub fn new(changes: Vec<PathStatus>) -> (r: Self)
        ensures
            r@ == spec_upsert_all(status_models(changes@), |k: PathStatusModel| status_key(k)),
    {
        let ghost key = |k: PathStatusModel| status_key(k);
        let ghost cm = status_models(changes@);
        let mut d: Vec<PathStatus> = Vec::new();
        let mut i: usize = 0;
        proof {
            assert(cm.take(0) =~= Seq::<PathStatusModel>::empty());
            assert(status_models(d@) =~= Seq::<PathStatusModel>::empty());
        }
        while i < changes.len()
            invariant
                i <= changes@.len(),
                cm == status_models(changes@),
                key == (|k: PathStatusModel| status_key(k)),
                status_models(d@) == spec_upsert_all(cm.take(i as int), key),
                spec_distinct_keys(status_models(d@), key),
            decreases changes@.len() - i,
        {
            let m = changes[i].copy();
            proof {
                assert(cm.take(i + 1).drop_last() =~= cm.take(i as int));
                assert(cm.take(i + 1).last() == m@);
            }
            upsert_path_status(&mut d, m);
            i = i + 1;
        }
        proof {
            assert(cm.take(changes@.len() as int) =~= cm);
        }
        Status { changes: d }
    }

    /// The conflicted changes, or `None` where there are none.
    pub fn into_conflicts(self) -> (r: Option<Self>)
        ensures
            match r {
                Some(s) => s@ == self@.filter(|m: PathStatusModel| model_conflicted(m)) && s@.len()
                    > 0,
                None => self@.filter(|m: PathStatusModel| model_conflicted(m)).len() == 0,
            },
    {
        proof {
            use_type_invariant(&self);
        }
        let ghost key = |k: PathStatusModel| status_key(k);
        let ghost pred = |m: PathStatusModel| model_conflicted(m);
        let ghost sm = status_models(self.changes@);
        let mut kept: Vec<PathStatus> = Vec::new();
        let mut i: usize = 0;
        proof {
            assert(sm.take(0) =~= Seq::<PathStatusModel>::empty());
            assert(status_models(kept@) =~= Seq::<PathStatusModel>::empty());
        }
        while i < self.changes.len()
            invariant
                i <= self.changes@.len(),
                sm == status_models(self.changes@),
                key == (|k: PathStatusModel| status_key(k)),
                pred == (|m: PathStatusModel| model_conflicted(m)),
                spec_distinct_keys(sm, key),
                status_models(kept@) == sm.take(i as int).filter(pred),
                forall|a: int|
                    0 <= a < kept@.len() ==> exists|b: int|
                        0 <= b < i && #[trigger] status_models(kept@)[a] == sm[b],
                spec_distinct_keys(status_models(kept@), key),
            decreases self.changes@.len() - i,
        {
            let c = &self.changes[i];
            proof {
                assert(sm.take(i + 1).drop_last() =~= sm.take(i as int));
                assert(sm.take(i + 1).last() == sm[i as int]);
                assert(sm[i as int] == c@);
            }
            let ghost tk = sm.take(i + 1);
            proof {
                reveal(Seq::filter);
                assert(tk.filter(pred) == (if pred(tk.last()) {
                    tk.drop_last().filter(pred).push(tk.last())
                } else {
                    tk.drop_last().filter(pred)
                }));
            }
            if c.is_conflicted() {
                let ghost km = status_models(kept@);
                kept.push(c.copy());
                proof {
                    assert(status_models(kept@) =~= km.push(c@));
                    assert forall|a: int|
                        0 <= a < kept@.len() implies exists|b: int|
                        0 <= b < i + 1 && #[trigger] status_models(kept@)[a] == sm[b] by {
                        if a < km.len() {
                            assert(status_models(kept@)[a] == km[a]);
                            let b = choose|b: int| 0 <= b < i && km[a] == sm[b];
                            assert(status_models(kept@)[a] == sm[b]);
                        } else {
                            assert(status_models(kept@)[a] == sm[i as int]);
                        }
                    }
                    assert forall|a: int, b: int|
                        0 <= a < b < status_models(kept@).len() implies key(
                        #[trigger] status_models(kept@)[a],
                    ) != key(#[trigger] status_models(kept@)[b]) by {
                        if b == km.len() {
                            assert(status_models(kept@)[a] == km[a]);
                            let e = choose|e: int| 0 <= e < i && km[a] == sm[e];
                            assert(key(sm[e]) != key(sm[i as int]));
                        } else {
                            assert(status_models(kept@)[a] == km[a]);
                            assert(status_models(kept@)[b] == km[b]);
                        }
                    }
                }
            }
            i = i + 1;
        }
        proof {
            assert(sm.take(self.changes@.len() as int) =~= sm);
        }
        if kept.len() == 0 {
            None
        } else {
            Some(Status { changes: kept })
        }
    }

    /// Whether any change is a conflict.
    pub fn has_conflicts(&self) -> (b: bool)
        ensures
            b == exists|i: int| 0 <= i < self@.len() && model_conflicted(#[trigger] self@[i]),
    {
        let ghost sm = status_models(self.changes@);
        let mut i: usize = 0;
        while i < self.changes.len()
            invariant
                i <= self.changes@.len(),
                sm == status_models(self.changes@),
                sm == self@,
                forall|a: int| 0 <= a < i ==> !model_conflicted(#[trigger] sm[a]),
            decreases self.changes@.len() - i,
        {
            proof {
                assert(sm[i as int] == self.changes@[i as int]@);
            }
            if self.changes[i].is_conflicted() {
                return true;
            }
            i = i + 1;
        }
        false
    }

    /// Whether there are no changes.
    pub fn is_unmodified(&self) -> (b: bool)
        ensures
            b == (self@.len() == 0),
    {
        self.changes.len() == 0
    }

    /// Reads the output of `git status --porcelain`.
    pub fn from_cli(s: &str) -> (r: Result<Self, Error>)
        ensures
            match r {
                Ok(st) => spec_status_lines(spec_lines(s@)) matches Some(ms) && st@ == spec_upsert_all(
                    ms,
                    |k: PathStatusModel| status_key(k),
                ),
                Err(e) => spec_status_lines(spec_lines(s@)) is None && e is GitStatusParse,
            },
    {
        let cs = str_chars(s);
        let ls = lines(&cs);
        let ghost lv = ls@.map_values(|l: Vec<char>| l@);
        let mut items: Vec<PathStatus> = Vec::new();
        let mut i: usize = 0;
        while i < ls.len()
            invariant
                i <= ls@.len(),
                lv == ls@.map_values(|l: Vec<char>| l@),
                lv == spec_lines(s@),
                items@.len() == i,
                forall|a: int|
                    0 <= a < i ==> spec_path_status_from_cli(#[trigger] lv[a]) == Some(
                        items@[a]@,
                    ),
            decreases ls@.len() - i,
        {
            let line = string_from_chars(ls[i].as_slice());
            proof {
                assert(line@ == lv[i as int]);
            }
            match PathStatus::from_cli(line.as_str()) {
                Ok(p) => {
                    items.push(p);
                },
                Err(e) => {
                    proof {
                        assert(!(spec_path_status_from_cli(lv[i as int]) is Some));
                    }
                    return Err(e);
                },
            }
            i = i + 1;
        }
        proof {
            assert(forall|a: int| 0 <= a < lv.len() ==> (#[trigger] spec_path_status_from_cli(
                lv[a],
            )) is Some);
            assert(status_models(items@) =~= lv.map_values(
                |l: Seq<char>| spec_path_status_from_cli(l)->Some_0,
            ));
        }
        Ok(Status::new(items))
    }
}

/// The changes of a status, one per path.
pub trait StatusTrait<T> {
    fn into_changes(self) -> Vec<T>;

    fn changes(&self) -> &Vec<T>;
}

impl StatusTrait<PathStatus> for Status {
    fn into_changes(self) -> (r: Vec<PathStatus>)
        ensures
            status_models(r@) == self@,
    {
        self.changes
    }

    fn changes(&self) -> (r: &Vec<PathStatus>)
        ensures
            status_models(r@) == self@,
    {
        &self.changes
    }
}

/// The fields of a path's difference: path, code, and the path it was
/// renamed or copied from.
pub type PathDiffModel = (Seq<char>, StatusCode, Option<Seq<char>>);

/// The path of a path difference.
pub open spec fn diff_key(m: PathDiffModel) -> Seq<char> {
    m.0
}

/// The difference of one path between two revisions.
#[derive(Debug, Clone)]
pub struct PathDiffStatus {
    path: String,
    code: StatusCode,
    original_path: Option<String>,
}

impl View for PathDiffStatus {
    type V = PathDiffModel;

    closed spec fn view(&self) -> PathDiffModel {
        (self.path@, self.code, spec_opt_view(self.original_path))
    }
}

impl PathDiffStatus {
    pub fn new(path: String, code: StatusCode, original_path: Option<String>) -> (r: Self)
        ensures
            r@ == (path@, code, spec_opt_view(original_path)),
    {
        PathDiffStatus { path, code, original_path }
    }

    /// A copy of the path difference.
    pub fn copy(&self) -> (r: Self)
        ensures
            r@ == self@,
    {
        PathDiffStatus {
            path: self.path.clone(),
            code: self.code,
            original_path: copy_opt_string(&self.original_path),
        }
    }

    pub fn code(&self) -> (r: StatusCode)
        ensures
            r == self@.1,
    {
        self.code
    }
}

impl PathStatusTrait for PathDiffStatus {
    open spec fn spec_path(&self) -> Seq<char> {
        self@.0
    }

    open spec fn spec_code_x(&self) -> Option<StatusCode> {
        Some(self@.1)
    }

    open spec fn spec_code_y(&self) -> Option<StatusCode> {
        None
    }

    open spec fn spec_original_path(&self) -> Option<Seq<char>> {
        self@.2
    }

    fn path(&self) -> (r: &str) {
        self.path.as_str()
    }

    fn code_x(&self) -> (r: Option<StatusCode>) {
        Some(self.code)
    }

    fn code_y(&self) -> (r: Option<StatusCode>) {
        None
    }

    fn original_path(&self) -> (r: Option<&str>) {
        opt_as_str(&self.original_path)
    }
}

/// The models of a sequence of path differences.
pub open spec fn diff_models(s: Seq<PathDiffStatus>) -> Seq<PathDiffModel> {
    s.map_values(|p: PathDiffStatus| p@)
}

fn upsert_path_diff(d: &mut Vec<PathDiffStatus>, m: PathDiffStatus)
    requires
        spec_distinct_keys(diff_models(old(d)@), |k: PathDiffModel| diff_key(k)),
    ensures
        diff_models(final(d)@) == spec_upsert(
            diff_models(old(d)@),
            m@,
            |k: PathDiffModel| diff_key(k),
        ),
        spec_distinct_keys(diff_models(final(d)@), |k: PathDiffModel| diff_key(k)),
{
    let ghost key = |k: PathDiffModel| diff_key(k);
    let ghost dm = diff_models(d@);
    let mut j: usize = 0;
    while j < d.len()
        invariant
            j <= d@.len(),
            d@ == old(d)@,
            dm == diff_models(d@),
            key == (|k: PathDiffModel| diff_key(k)),
            spec_distinct_keys(dm, key),
            forall|a: int| 0 <= a < j ==> key(#[trigger] dm[a]) != key(m@),
        decreases d@.len() - j,
    {
        if d[j].path == m.path {
            proof {
                assert(key(dm[j as int]) == key(m@));
                assert forall|a: int| 0 <= a < dm.len() && key(#[trigger] dm[a]) == key(m@) implies a
                    == j by {
                    if a != j {
                        if a < j {
                        } else {
                            assert(key(dm[j as int]) != key(dm[a]));
                        }
                    }
                }
                lemma_upsert_distinct(dm, m@, key);
                assert(exists|a: int| 0 <= a < dm.len() && key(#[trigger] dm[a]) == key(m@));
                let c = choose|a: int| 0 <= a < dm.len() && key(#[trigger] dm[a]) == key(m@);
                assert(c == j);
                assert(spec_upsert(dm, m@, key) == dm.update(j as int, m@));
            }
            d.set(j, m);
            proof {
                assert(diff_models(d@) =~= dm.update(j as int, m@));
            }
            return;
        }
        j = j + 1;
    }
    proof {
        lemma_upsert_distinct(dm, m@, key);
    }
    d.push(m);
    proof {
        assert(diff_models(d@) =~= dm.push(m@));
    }
}

/// The differences between two revisions: the changed paths, each once.
#[derive(Debug)]
pub struct DiffStatus {
    changes: Vec<PathDiffStatus>,
}

impl View for DiffStatus {
    type V = Seq<PathDiffModel>;

    closed spec fn view(&self) -> Seq<PathDiffModel> {
        diff_models(self.changes@)
    }
}

impl DiffStatus {
    #[verifier::type_invariant]
    closed spec fn paths_distinct(self) -> bool {
        spec_distinct_keys(diff_models(self.changes@), |k: PathDiffModel| diff_key(k))
    }

    /// The differences of `changes`, a later one of a path replacing an
    /// earlier one.
    pub fn new(changes: Vec<PathDiffStatus>) -> (r: Self)
        ensures
            r@ == spec_upsert_all(diff_models(changes@), |k: PathDiffModel| diff_key(k)),
    {
        let ghost key = |k: PathDiffModel| diff_key(k);
        let ghost cm = diff_models(changes@);
        let mut d: Vec<PathDiffStatus> = Vec::new();
        let mut i: usize = 0;
        proof {
            assert(cm.take(0) =~= Seq::<PathDiffModel>::empty());
            assert(diff_models(d@) =~= Seq::<PathDiffModel>::empty());
        }
        while i < changes.len()
            invariant
                i <= changes@.len(),
                cm == diff_models(changes@),
                key == (|k: PathDiffModel| diff_key(k)),
                diff_models(d@) == spec_upsert_all(cm.take(i as int), key),
                spec_distinct_keys(diff_models(d@), key),
            decreases changes@.len() - i,
        {
            let m = changes[i].copy();
            proof {
                assert(cm.take(i + 1).drop_last() =~= cm.take(i as int));
                assert(cm.take(i + 1).last() == m@);
            }
            upsert_path_diff(&mut d, m);
            i = i + 1;
        }
        proof {
            assert(cm.take(changes@.len() as int) =~= cm);
        }
        DiffStatus { changes: d }
    }

    /// Whether any path differs.
    pub fn has_changes(&self) -> (b: bool)
        ensures
            b == (self@.len() > 0),
    {
        self.changes.len() > 0
    }
}

impl StatusTrait<PathDiffStatus> for DiffStatus {
    fn into_changes(self) -> (r: Vec<PathDiffStatus>)
        ensures
            diff_models(r@) == self@,
    {
        self.changes
    }

    fn changes(&self) -> (r: &Vec<PathDiffStatus>)
        ensures
            diff_models(r@) == self@,
    {
        &self.changes
    }
}

/// A double or single quote.
pub open spec fn spec_is_quote(c: char) -> bool {
    c == '"' || c == '\''
}

/// `s` without leading quotes.
pub open spec fn spec_trim_start_quotes(s: Seq<char>) -> Seq<char>
    decreases s.len(),
{
    if s.len() > 0 && spec_is_quote(s[0]) {
        spec_trim_start_quotes(s.drop_first())
    } else {
        s
    }
}

/// `s` without trailing quotes.
pub open spec fn spec_trim_end_quotes(s: Seq<char>) -> Seq<char>
    decreases s.len(),
{
    if s.len() > 0 && spec_is_quote(s.last()) {
        spec_trim_end_quotes(s.drop_last())
    } else {
        s
    }
}

/// A word of a diff line without the quotes around it.
pub open spec fn spec_unquote(s: Seq<char>) -> Seq<char> {
    spec_trim_end_quotes(spec_trim_start_quotes(s))
}

proof fn lemma_trim_start_quotes_skip(s: Seq<char>, i: int)
    requires
        0 <= i <= s.len(),
        forall|j: int| 0 <= j < i ==> spec_is_quote(#[trigger] s[j]),
    ensures
        spec_trim_start_quotes(s) == spec_trim_start_quotes(s.skip(i)),
    decreases i,
{
    if i > 0 {
        assert(s.drop_first().skip(i - 1) =~= s.skip(i));
        lemma_trim_start_quotes_skip(s.drop_first(), i - 1);
    } else {
        assert(s.skip(0) =~= s);
    }
}

proof fn lemma_trim_end_quotes_take(s: Seq<char>, k: int)
    requires
        0 <= k <= s.len(),
        forall|j: int| k <= j < s.len() ==> spec_is_quote(#[trigger] s[j]),
    ensures
        spec_trim_end_quotes(s) == spec_trim_end_quotes(s.take(k)),
    decreases s.len() - k,
{
    if k < s.len() {
        assert(s.drop_last().take(k) =~= s.take(k));
        lemma_trim_end_quotes_take(s.drop_last(), k);
    } else {
        assert(s.take(k) =~= s);
    }
}

fn unquote(s: &Vec<char>) -> (r: Vec<char>)
    ensures
        r@ == spec_unquote(s@),
{
    let mut i: usize = 0;
    while i < s.len() && (s[i] == '"' || s[i] == '\'')
        invariant
            i <= s@.len(),
            forall|j: int| 0 <= j < i ==> spec_is_quote(#[trigger] s@[j]),
        decreases s@.len() - i,
    {
        i = i + 1;
    }
    proof {
        lemma_trim_start_quotes_skip(s@, i as int);
        if i < s@.len() {
            assert(s@.skip(i as int)[0] == s@[i as int]);
        } else {
            assert(s@.skip(i as int) =~= Seq::<char>::empty());
        }
    }
    let ghost t = s@.skip(i as int);
    let mut k: usize = s.len();
    while k > i && (s[k - 1] == '"' || s[k - 1] == '\'')
        invariant
            i <= k <= s@.len(),
            t == s@.skip(i as int),
            forall|j: int| k - i <= j < t.len() ==> spec_is_quote(#[trigger] t[j]),
        decreases k,
    {
        k = k - 1;
    }
    proof {
        lemma_trim_end_quotes_take(t, k - i);
        if k > i {
            assert(t.take(k - i).last() == s@[k - 1]);
        } else {
            assert(t.take(0) =~= Seq::<char>::empty());
        }
    }
    let mut r: Vec<char> = Vec::new();
    let mut j: usize = i;
    while j < k
        invariant
            i <= j <= k <= s@.len(),
            r@ == s@.subrange(i as int, j as int),
        decreases k - j,
    {
        r.push(s[j]);
        j = j + 1;
        proof {
            assert(r@ =~= s@.subrange(i as int, j as int));
        }
    }
    proof {
        assert(r@ =~= t.take(k - i));
    }
    r
}

/// The path difference of a line of `git diff --name-status`: a code (with
/// a score after it, ignored), then the path, or the original path and the
/// path; quotes around the words are dropped.
pub open spec fn spec_path_diff_from_cli(line: Seq<char>) -> Option<PathDiffModel> {
    let items = spec_words(line).map_values(|w: Seq<char>| spec_unquote(w));
    if items.len() < 2 || items[0].len() == 0 {
        None
    } else {
        match spec_status_code(items[0][0]) {
            Some(Some(code)) => if items.len() == 2 {
                Some((items[1], code, None))
            } else if items.len() == 3 {
                Some((items[2], code, Some(items[1])))
            } else {
                None
            },
            _ => None,
        }
    }
}

/// The differences that the lines of `git diff --name-status` give, where
/// each line reads.
pub open spec fn spec_diff_lines(ls: Seq<Seq<char>>) -> Option<Seq<PathDiffModel>> {
    if forall|i: int| 0 <= i < ls.len() ==> (#[trigger] spec_path_diff_from_cli(ls[i])) is Some {
        Some(ls.map_values(|l: Seq<char>| spec_path_diff_from_cli(l)->Some_0))
    } else {
        None
    }
}

/// Reads a line of `git diff --name-status`.
pub fn path_diff_status_from_cli(line: &str) -> (r: Result<PathDiffStatus, Error>)
    ensures
        match r {
            Ok(p) => spec_path_diff_from_cli(line@) == Some(p@),
            Err(e) => spec_path_diff_from_cli(line@) is None && e is GitStatusParse,
        },
{
    let cs = str_chars(line);
    let words = split_words(&cs);
    let ghost wv = words@.map_values(|w: Vec<char>| w@);
    let ghost items = spec_words(line@).map_values(|w: Seq<char>| spec_unquote(w));
    let mut unq: Vec<Vec<char>> = Vec::new();
    let mut i: usize = 0;
    while i < words.len()
        invariant
            i <= words@.len(),
            wv == words@.map_values(|w: Vec<char>| w@),
            wv == spec_words(line@),
            items == spec_words(line@).map_values(|w: Seq<char>| spec_unquote(w)),
            unq@.len() == i,
            forall|a: int| 0 <= a < i ==> (#[trigger] unq@[a])@ == items[a],
        decreases words@.len() - i,
    {
        proof {
            assert(words@[i as int]@ == wv[i as int]);
        }
        unq.push(unquote(&words[i]));
        i = i + 1;
    }
    if unq.len() < 2 || unq[0].len() == 0 {
        return Err(Error::GitStatusParse);
    }
    let code = match StatusCode::try_from_char(unq[0][0]) {
        Ok(Some(c)) => c,
        _ => {
            return Err(Error::GitStatusParse);
        },
    };
    if unq.len() == 2 {
        let path = string_from_chars(unq[1].as_slice());
        Ok(PathDiffStatus { path, code, original_path: None })
    } else if unq.len() == 3 {
        let path = string_from_chars(unq[2].as_slice());
        let original = string_from_chars(unq[1].as_slice());
        Ok(PathDiffStatus { path, code, original_path: Some(original) })
    } else {
        Err(Error::GitStatusParse)
    }
}

/// Reads the output of `git diff --name-status`.
pub fn diff_status_from_cli(s: &str) -> (r: Result<DiffStatus, Error>)
    ensures
        match r {
            Ok(st) => spec_diff_lines(spec_lines(s@)) matches Some(ms) && st@ == spec_upsert_all(
                ms,
                |k: PathDiffModel| diff_key(k),
            ),
            Err(e) => spec_diff_lines(spec_lines(s@)) is None && e is GitStatusParse,
        },
{
    let cs = str_chars(s);
    let ls = lines(&cs);
    let ghost lv = ls@.map_values(|l: Vec<char>| l@);
    let mut items: Vec<PathDiffStatus> = Vec::new();
    let mut i: usize = 0;
    while i < ls.len()
        invariant
            i <= ls@.len(),
            lv == ls@.map_values(|l: Vec<char>| l@),
            lv == spec_lines(s@),
            items@.len() == i,
            forall|a: int|
                0 <= a < i ==> spec_path_diff_from_cli(#[trigger] lv[a]) == Some(items@[a]@),
        decreases ls@.len() - i,
    {
        let line = string_from_chars(ls[i].as_slice());
        proof {
            assert(line@ == lv[i as int]);
        }
        match path_diff_status_from_cli(line.as_str()) {
            Ok(p) => {
                items.push(p);
            },
            Err(e) => {
                proof {
                    assert(!(spec_path_diff_from_cli(lv[i as int]) is Some));
                }
                return Err(e);
            },
        }
        i = i + 1;
    }
    proof {
        assert(forall|a: int| 0 <= a < lv.len() ==> (#[trigger] spec_path_diff_from_cli(lv[a]))
            is Some);
        assert(diff_models(items@) =~= lv.map_values(
            |l: Seq<char>| spec_path_diff_from_cli(l)->Some_0,
        ));
    }
    Ok(DiffStatus::new(items))
}


/// Putting entries in one by one keeps, for each key, the last entry given
/// with that key.
pub proof fn law_later_change_wins<M>(s: Seq<M>, key: spec_fn(M) -> Seq<char>, i: int)
    requires
        0 <= i < s.len(),
        forall|j: int| i < j < s.len() ==> key(#[trigger] s[j]) != key(s[i]),
    ensures
        spec_upsert_all(s, key).contains(s[i]),
    decreases s.len(),
{
    let p = s.drop_last();
    let u = spec_upsert_all(p, key);
    let m = s.last();
    if i == s.len() - 1 {
        if exists|j: int| 0 <= j < u.len() && key(#[trigger] u[j]) == key(m) {
            let j = choose|j: int| 0 <= j < u.len() && key(#[trigger] u[j]) == key(m);
            assert(u.update(j, m)[j] == m);
        } else {
            assert(u.push(m)[u.len() as int] == m);
        }
    } else {
        assert forall|j: int| i < j < p.len() implies key(#[trigger] p[j]) != key(p[i]) by {
            assert(p[j] == s[j]);
            assert(p[i] == s[i]);
        }
        law_later_change_wins(p, key, i);
        assert(p[i] == s[i]);
        let a = choose|a: int| 0 <= a < u.len() && u[a] == s[i];
        assert(key(m) != key(s[i])) by {
            assert(m == s[s.len() - 1]);
        }
        if exists|j: int| 0 <= j < u.len() && key(#[trigger] u[j]) == key(m) {
            let j = choose|j: int| 0 <= j < u.len() && key(#[trigger] u[j]) == key(m);
            assert(j != a);
            assert(u.update(j, m)[a] == s[i]);
        } else {
            assert(u.push(m)[a] == s[i]);
        }
    }
}

/// Putting entries in one by one keeps only entries that were given.
pub proof fn law_only_given_changes<M>(s: Seq<M>, key: spec_fn(M) -> Seq<char>, x: M)
    requires
        spec_upsert_all(s, key).contains(x),
    ensures
        s.contains(x),
    decreases s.len(),
{
    if s.len() > 0 {
        let p = s.drop_last();
        let u = spec_upsert_all(p, key);
        let m = s.last();
        if x != m {
            let k = choose|k: int| 0 <= k < spec_upsert_all(s, key).len() && spec_upsert_all(s, key)[k] == x;
            if exists|j: int| 0 <= j < u.len() && key(#[trigger] u[j]) == key(m) {
                let j = choose|j: int| 0 <= j < u.len() && key(#[trigger] u[j]) == key(m);
                assert(u.update(j, m)[k] == x);
                assert(k != j);
                assert(u[k] == x);
            } else {
                assert(u.push(m)[k] == x);
                assert(k < u.len());
                assert(u[k] == x);
            }
            law_only_given_changes(p, key, x);
            let b = choose|b: int| 0 <= b < p.len() && p[b] == x;
            assert(s[b] == x);
        } else {
            assert(s[s.len() - 1] == x);
        }
    }
}
} // verus!
