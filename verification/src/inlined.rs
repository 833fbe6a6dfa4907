//! Values of RON files that can be included from other RON files, the named
//! include directories that relative include paths start from, and the rules
//! that an include must meet: it stays inside its include directory, names a
//! `.ron` file, and makes no include cycle.
use vstd::prelude::*;
use crate::normalize::spec_path_join;
use crate::pathgraph::{PathGraph, PathGraphError, g_reaches, g_add_deps, is_cycle_error};
use crate::stdx::FsErrMsg;
use crate::text::{spec_split, split_chars, str_chars};

verus! {

#[verifier::external_type_specification]
#[verifier::external_body]
pub struct ExRonValue(ron::Value);

#[verifier::external_type_specification]
#[verifier::external_body]
pub struct ExDefaultHashBuilder(hashlink::DefaultHashBuilder);

#[verifier::external_type_specification]
#[verifier::external_body]
#[verifier::reject_recursive_types(K)]
#[verifier::reject_recursive_types(V)]
#[verifier::reject_recursive_types(S)]
pub struct ExLinkedHashMap<K, V, S>(hashlink::LinkedHashMap<K, V, S>);

/// The entries of a map of include directories, name and directory, in the
/// map's order.
pub uninterp spec fn spec_dir_entries(m: hashlink::LinkedHashMap<String, String>) -> Seq<(Seq<char>, Seq<char>)>;

/// `e` with `(k, v)` put in: an entry of key `k` keeps its place and takes
/// the new value; a new key goes to the back.
pub open spec fn spec_entries_replace(e: Seq<(Seq<char>, Seq<char>)>, k: Seq<char>, v: Seq<char>) -> Seq<(Seq<char>, Seq<char>)> {
    if exists|i: int| 0 <= i < e.len() && (#[trigger] e[i]).0 == k {
        let i = choose|i: int| 0 <= i < e.len() && (#[trigger] e[i]).0 == k;
        e.update(i, (e[i].0, v))
    } else {
        e.push((k, v))
    }
}

/// Calls `hashlink::LinkedHashMap::with_capacity`: an empty map.
#[verifier::external_body]
fn dirs_with_capacity(capacity: usize) -> (m: hashlink::LinkedHashMap<String, String>)
    ensures
        spec_dir_entries(m) == Seq::<(Seq<char>, Seq<char>)>::empty(),
{
    hashlink::LinkedHashMap::with_capacity(capacity)
}

/// Calls `hashlink::LinkedHashMap::replace`: an entry of the same key keeps
/// its place and takes the new value, and its old value is returned; a new
/// key goes to the back.
#[verifier::external_body]
fn dirs_replace(m: &mut hashlink::LinkedHashMap<String, String>, k: String, v: String) -> (r: Option<String>)
    ensures
        spec_dir_entries(*final(m)) == spec_entries_replace(spec_dir_entries(*old(m)), k@, v@),
        r is Some <==> exists|i: int| 0 <= i < spec_dir_entries(*old(m)).len() && (#[trigger] spec_dir_entries(*old(m))[i]).0 == k@,
{
    m.replace(k, v)
}

/// Calls `hashlink::LinkedHashMap::front`: the first entry.
#[verifier::external_body]
fn dirs_front(m: &hashlink::LinkedHashMap<String, String>) -> (r: Option<(&String, &String)>)
    ensures
        match r {
            Some(p) => spec_dir_entries(*m).len() > 0 && (p.0@, p.1@) == spec_dir_entries(*m)[0],
            None => spec_dir_entries(*m).len() == 0,
        },
{
    m.front()
}

/// Calls `hashlink::LinkedHashMap::get_key_value`: the entry of key `k`.
#[verifier::external_body]
fn dirs_get_key_value<'a>(m: &'a hashlink::LinkedHashMap<String, String>, k: &str) -> (r: Option<(&'a String, &'a String)>)
    ensures
        match r {
            Some(p) => p.0@ == k@ && exists|i: int| 0 <= i < spec_dir_entries(*m).len() && #[trigger] spec_dir_entries(*m)[i] == (p.0@, p.1@),
            None => forall|i: int| 0 <= i < spec_dir_entries(*m).len() ==> (#[trigger] spec_dir_entries(*m)[i]).0 != k@,
        },
{
    m.get_key_value(k)
}

/// Calls `std::io::Error::new` with `PermissionDenied`; the error is opaque
/// here, so nothing is stated of it.
#[verifier::external_body]
fn permission_denied(msg: &str) -> std::io::Error {
    std::io::Error::new(std::io::ErrorKind::PermissionDenied, msg.to_string())
}

/// An error of reading or resolving included RON.
#[derive(Debug)]
pub enum Error {
    Io(FsErrMsg, String, std::io::Error),
    ResolveRON(PathGraphError),
}

/// A module (include directory) and a path to read or write data from or to.
#[derive(Debug, Clone, PartialEq)]
pub struct IncludeRon(pub Option<String>, pub String);

/// An include with the data read from it.
#[derive(Debug, Clone, PartialEq)]
pub struct RonIncluded<T>(pub Option<String>, pub String, pub T);

/// Data that can be included from elsewhere on the file system.
pub enum InlinedRon<T> {
    /// A file and (optional) module to read the data from.
    Include(IncludeRon),
    /// An include with the data read from it.
    Included(RonIncluded<T>),
    /// Data not loaded from an include.
    Actual(T),
    Unresolved(ron::Value),
}

/// The data that an inlined value holds, read from an include or not.
pub open spec fn spec_inlined<T>(v: InlinedRon<T>) -> Option<T> {
    match v {
        InlinedRon::Actual(t) => Some(t),
        InlinedRon::Included(RonIncluded(_, _, t)) => Some(t),
        _ => None,
    }
}

impl<T> InlinedRon<T> {
    pub fn is_actual(&self) -> (b: bool)
        ensures
            b == (*self is Actual),
    {
        matches!(self, InlinedRon::Actual(_))
    }

    pub fn is_include(&self) -> (b: bool)
        ensures
            b == (*self is Include),
    {
        matches!(self, InlinedRon::Include(_))
    }

    pub fn is_included(&self) -> (b: bool)
        ensures
            b == (*self is Included),
    {
        matches!(self, InlinedRon::Included(_))
    }

    pub fn actual(&self) -> (r: Option<&T>)
        ensures
            match *self {
                InlinedRon::Actual(t) => r == Some(&t),
                _ => r is None,
            },
    {
        match self {
            InlinedRon::Actual(value) => Some(value),
            _ => None,
        }
    }

    pub fn included(&self) -> (r: Option<&T>)
        ensures
            match *self {
                InlinedRon::Included(RonIncluded(_, _, t)) => r == Some(&t),
                _ => r is None,
            },
    {
        match self {
            InlinedRon::Included(RonIncluded(_, _, value)) => Some(value),
            _ => None,
        }
    }

    /// The data, read from an include or not.
    pub fn inlined(&self) -> (r: Option<&T>)
        ensures
            match spec_inlined(*self) {
                Some(t) => r == Some(&t),
                None => r is None,
            },
    {
        match self {
            InlinedRon::Actual(value) => Some(value),
            InlinedRon::Included(RonIncluded(_, _, value)) => Some(value),
            _ => None,
        }
    }

    pub fn take_inlined(self) -> (r: Option<T>)
        ensures
            r == spec_inlined(self),
    {
        match self {
            InlinedRon::Actual(value) => Some(value),
            InlinedRon::Included(RonIncluded(_, _, value)) => Some(value),
            _ => None,
        }
    }

    /// The data of a resolved value.
    pub fn expect_inlined(&self) -> (r: &T)
        requires
            spec_inlined(*self) is Some,
        ensures
            *r == spec_inlined(*self)->Some_0,
    {
        match self {
            InlinedRon::Actual(value) => value,
            InlinedRon::Included(RonIncluded(_, _, value)) => value,
            _ => vstd::pervasive::unreached(),
        }
    }
}

/// The named include directories; the first is the default. A type of the
/// crate keeps at least one.
#[derive(Debug)]
pub struct InlinedRonIncludeDirs(hashlink::LinkedHashMap<String, String>);

/// The entries after putting `dirs` one by one into `e`.
pub open spec fn spec_entries_replace_all(e: Seq<(Seq<char>, Seq<char>)>, dirs: Seq<(Seq<char>, Seq<char>)>) -> Seq<(Seq<char>, Seq<char>)>
    decreases dirs.len(),
{
    if dirs.len() == 0 {
        e
    } else {
        spec_entries_replace(spec_entries_replace_all(e, dirs.drop_last()), dirs.last().0, dirs.last().1)
    }
}

/// The text of name and directory pairs.
pub open spec fn spec_pairs_view(dirs: Seq<(String, String)>) -> Seq<(Seq<char>, Seq<char>)> {
    dirs.map_values(|p: (String, String)| (p.0@, p.1@))
}

proof fn lemma_replace_keeps_first(e: Seq<(Seq<char>, Seq<char>)>, k: Seq<char>, v: Seq<char>)
    ensures
        spec_entries_replace(e, k, v).len() > 0,
        e.len() > 0 ==> spec_entries_replace(e, k, v)[0].0 == e[0].0,
{
}

/// The first entry keeps its name whatever directories are put in after
/// it: the default directory stays first.
pub proof fn law_default_dir_stays_first(name: Seq<char>, dir: Seq<char>, dirs: Seq<(Seq<char>, Seq<char>)>)
    ensures
        spec_entries_replace_all(seq![(name, dir)], dirs).len() > 0,
        spec_entries_replace_all(seq![(name, dir)], dirs)[0].0 == name,
    decreases dirs.len(),
{
    if dirs.len() > 0 {
        law_default_dir_stays_first(name, dir, dirs.drop_last());
        lemma_replace_keeps_first(spec_entries_replace_all(seq![(name, dir)], dirs.drop_last()), dirs.last().0, dirs.last().1);
    }
}

/// An entry whose key is `name`, in the order of the map.
pub open spec fn spec_has_entry(e: Seq<(Seq<char>, Seq<char>)>, name: Seq<char>, dir: Seq<char>) -> bool {
    exists|i: int| 0 <= i < e.len() && #[trigger] e[i] == (name, dir)
}

impl InlinedRonIncludeDirs {
    #[verifier::type_invariant]
    closed spec fn has_default(self) -> bool {
        spec_dir_entries(self.0).len() > 0
    }

    /// The entries, name and directory, the default first.
    pub closed spec fn entries(&self) -> Seq<(Seq<char>, Seq<char>)> {
        spec_dir_entries(self.0)
    }

    /// The default directory under its name, then `dirs` in order; a name
    /// given again takes the later directory and keeps its place, so the
    /// default stays first.
    pub fn new(default_dir_name: String, default_dir: String, dirs: Option<Vec<(String, String)>>) -> (r: Self)
        ensures
            r.entries() == spec_entries_replace_all(
                seq![(default_dir_name@, default_dir@)],
                match dirs {
                    Some(d) => spec_pairs_view(d@),
                    None => Seq::empty(),
                },
            ),
            r.entries()[0].0 == default_dir_name@,
    {
        let capacity = match &dirs {
            Some(d) => d.len().saturating_add(1),
            None => 1,
        };
        let mut map = dirs_with_capacity(capacity);
        let ghost first = (default_dir_name@, default_dir@);
        let ghost name = default_dir_name@;
        dirs_replace(&mut map, default_dir_name, default_dir);
        proof {
            assert(spec_dir_entries(map) =~= seq![first]);
        }
        match dirs {
            Some(d) => {
                let ghost dv = spec_pairs_view(d@);
                let mut i: usize = 0;
                proof {
                    assert(dv.take(0) =~= Seq::<(Seq<char>, Seq<char>)>::empty());
                }
                while i < d.len()
                    invariant
                        i <= d@.len(),
                        dv == spec_pairs_view(d@),
                        spec_dir_entries(map) == spec_entries_replace_all(seq![first], dv.take(i as int)),
                        spec_dir_entries(map).len() > 0,
                        first == (name, first.1),
                    decreases d@.len() - i,
                {
                    let k = d[i].0.clone();
                    let v = d[i].1.clone();
                    proof {
                        assert(dv.take(i + 1).drop_last() =~= dv.take(i as int));
                        assert(dv.take(i + 1).last() == (k@, v@));
                        lemma_replace_keeps_first(spec_dir_entries(map), k@, v@);
                    }
                    dirs_replace(&mut map, k, v);
                    i = i + 1;
                }
                proof {
                    assert(dv.take(d@.len() as int) =~= dv);
                    law_default_dir_stays_first(name, first.1, dv);
                }
                InlinedRonIncludeDirs(map)
            },
            None => {
                proof {
                    law_default_dir_stays_first(name, first.1, Seq::empty());
                }
                InlinedRonIncludeDirs(map)
            },
        }
    }

    /// The default directory with its name.
    pub fn default_dir(&self) -> (r: (&str, &str))
        ensures
            (r.0@, r.1@) == self.entries()[0],
    {
        proof {
            use_type_invariant(self);
        }
        match dirs_front(&self.0) {
            Some(p) => (p.0.as_str(), p.1.as_str()),
            None => {
                proof {
                    assert(false);
                }
                ("", "")
            },
        }
    }

    /// The directory of the name `name`.
    pub fn dir(&self, name: &str) -> (r: Option<(&str, &str)>)
        ensures
            match r {
                Some(p) => p.0@ == name@ && spec_has_entry(self.entries(), p.0@, p.1@),
                None => forall|i: int| 0 <= i < self.entries().len() ==> (#[trigger] self.entries()[i]).0 != name@,
            },
    {
        match dirs_get_key_value(&self.0, name) {
            Some(p) => Some((p.0.as_str(), p.1.as_str())),
            None => None,
        }
    }

    /// The include directory for `module` (the default where there is none,
    /// or none of that name), and the path that `filepath` names from there:
    /// a relative path is joined to the directory, an absolute one stands.
    pub fn include_target(&self, module: Option<&str>, filepath: &str) -> (r: CanonicalIncludePath)
        ensures
            ({
                let chosen = match module {
                    Some(m) => if exists|i: int| 0 <= i < self.entries().len() && (#[trigger] self.entries()[i]).0 == m@ {
                        r.include_dir_name@ == m@ && spec_has_entry(self.entries(), m@, r.include_dir@)
                    } else {
                        (r.include_dir_name@, r.include_dir@) == self.entries()[0]
                    },
                    None => (r.include_dir_name@, r.include_dir@) == self.entries()[0],
                };
                &&& chosen
                &&& r.filepath@ == (if filepath@.len() > 0 && filepath@[0] == '/' {
                    filepath@
                } else {
                    spec_path_join(r.include_dir@, filepath@)
                })
            }),
    {
        let (name, dir) = match module {
            Some(m) => match self.dir(m) {
                Some(p) => p,
                None => self.default_dir(),
            },
            None => self.default_dir(),
        };
        let cs = str_chars(filepath);
        let target = if cs.len() > 0 && cs[0] == '/' {
            String::from_str(filepath)
        } else {
            let d = str_chars(dir);
            let mut out = String::from_str(dir);
            if d.len() > 0 && d[d.len() - 1] != '/' {
                crate::text::push_char(&mut out, '/');
            }
            out.append(filepath);
            proof {
                if d@.len() > 0 {
                    assert(d@.last() == d@[d@.len() - 1]);
                }
                assert(out@ =~= spec_path_join(dir@, filepath@));
            }
            out
        };
        CanonicalIncludePath {
            include_dir_name: String::from_str(name),
            include_dir: String::from_str(dir),
            filepath: target,
        }
    }
}

/// An include file with the include directory it was found from.
#[derive(Debug, Clone)]
pub struct CanonicalIncludePath {
    pub include_dir_name: String,
    pub include_dir: String,
    pub filepath: String,
}

/// Where includes are read from and whether they are read at all. The
/// default include directory is named `crate`.
#[derive(Debug)]
pub struct InlinedRonConfig {
    pub include_dirs: InlinedRonIncludeDirs,
    pub resolve_includes: bool,
}

impl InlinedRonConfig {
    /// The name of the default include directory.
    pub const DEFAULT_MODULE: &'static str = "crate";

    /// Includes resolved from `default_dir` alone.
    pub fn new(default_dir: String) -> (r: Self)
        ensures
            r.resolve_includes,
            r.include_dirs.entries() == seq![("crate"@, default_dir@)],
    {
        let dirs = InlinedRonIncludeDirs::new(String::from_str("crate"), default_dir, None);
        proof {
            assert(spec_entries_replace_all(seq![("crate"@, default_dir@)], Seq::empty()) == seq![("crate"@, default_dir@)]);
        }
        InlinedRonConfig { include_dirs: dirs, resolve_includes: true }
    }

    /// Includes resolved from `default_dir` and the named `dirs`.
    pub fn new_dirs(default_dir: String, dirs: Vec<(String, String)>) -> (r: Self)
        ensures
            r.resolve_includes,
            r.include_dirs.entries() == spec_entries_replace_all(seq![("crate"@, default_dir@)], spec_pairs_view(dirs@)),
    {
        InlinedRonConfig {
            include_dirs: InlinedRonIncludeDirs::new(String::from_str("crate"), default_dir, Some(dirs)),
            resolve_includes: true,
        }
    }
}

/// The components of a path, as `Path::components` gives them: `/` for the
/// root, `.` for a leading current directory, then the names between
/// separators, empty ones and `.` left out.
pub open spec fn spec_components(p: Seq<char>) -> Seq<Seq<char>> {
    let segs = spec_split(p, '/');
    let head = if p.len() > 0 && p[0] == '/' {
        seq![seq!['/']]
    } else if segs[0] == seq!['.'] {
        seq![seq!['.']]
    } else {
        Seq::empty()
    };
    head + segs.filter(|s: Seq<char>| s.len() > 0 && s != seq!['.'])
}

/// Whether `path` lies under `base`, as `Path::strip_prefix` decides: the
/// components of `base` begin those of `path`.
pub open spec fn spec_path_starts_with(path: Seq<char>, base: Seq<char>) -> bool {
    let pc = spec_components(path);
    let bc = spec_components(base);
    bc.len() <= pc.len() && pc.take(bc.len() as int) == bc
}

/// Whether a path names a `.ron` file: its last component is a name (not
/// the root, `.` or `..`) with the extension `ron`.
pub open spec fn spec_is_ron_file(path: Seq<char>) -> bool {
    let cs = spec_components(path);
    cs.len() > 0 && {
        let f = cs.last();
        &&& f != seq!['/']
        &&& f != seq!['.']
        &&& f != seq!['.', '.']
        &&& f.len() >= 5
        &&& f.skip(f.len() - 4) == seq!['.', 'r', 'o', 'n']
    }
}

proof fn lemma_split_first(p: Seq<char>, sep: char)
    ensures
        spec_split(p, sep).len() >= 1,
    decreases p.len(),
{
    if p.len() > 0 {
        lemma_split_first(p.drop_last(), sep);
    }
}

/// The components of a path.
fn components(p: &Vec<char>) -> (r: Vec<Vec<char>>)
    ensures
        r@.map_values(|c: Vec<char>| c@) == spec_components(p@),
{
    let segs = split_chars(p, '/');
    let ghost sv = spec_split(p@, '/');
    let ghost pred = |s: Seq<char>| s.len() > 0 && s != seq!['.'];
    proof {
        lemma_split_first(p@, '/');
        assert(forall|k: int| 0 <= k < segs@.len() ==> #[trigger] segs@[k]@ == sv[k]) by {
            assert forall|k: int| 0 <= k < segs@.len() implies #[trigger] segs@[k]@ == sv[k] by {
                assert(segs@.map_values(|q: Vec<char>| q@)[k] == sv[k]);
            }
        }
    }
    let mut r: Vec<Vec<char>> = Vec::new();
    if p.len() > 0 && p[0] == '/' {
        let mut root: Vec<char> = Vec::new();
        root.push('/');
        r.push(root);
    } else if segs[0].len() == 1 && segs[0][0] == '.' {
        let mut cur: Vec<char> = Vec::new();
        cur.push('.');
        r.push(cur);
        proof {
            assert(segs@[0]@ =~= seq!['.']);
        }
    } else {
        proof {
            if sv[0] == seq!['.'] {
                assert(segs@[0]@.len() == 1 && segs@[0]@[0] == '.');
            }
        }
    }
    let ghost head = r@.map_values(|c: Vec<char>| c@);
    proof {
        if p@.len() > 0 && p@[0] == '/' {
            assert(head =~= seq![seq!['/']]);
        } else if sv[0] == seq!['.'] {
            assert(head =~= seq![seq!['.']]);
        } else {
            assert(head =~= Seq::<Seq<char>>::empty());
        }
        reveal(Seq::filter);
        assert(sv.take(0).filter(pred) =~= Seq::<Seq<char>>::empty());
        assert(r@.map_values(|c: Vec<char>| c@) =~= head + sv.take(0).filter(pred));
    }
    let mut i: usize = 0;
    while i < segs.len()
        invariant
            i <= segs@.len(),
            segs@.len() == sv.len(),
            forall|k: int| 0 <= k < segs@.len() ==> #[trigger] segs@[k]@ == sv[k],
            pred == (|s: Seq<char>| s.len() > 0 && s != seq!['.']),
            r@.map_values(|c: Vec<char>| c@) == head + sv.take(i as int).filter(pred),
        decreases segs@.len() - i,
    {
        let s = &segs[i];
        let keep = s.len() > 0 && !(s.len() == 1 && s[0] == '.');
        let ghost tk = sv.take(i + 1);
        proof {
            reveal(Seq::filter);
            assert(tk.drop_last() =~= sv.take(i as int));
            assert(tk.last() == s@);
            if s@ == seq!['.'] {
                assert(s@.len() == 1 && s@[0] == '.');
            }
            if s@.len() == 1 && s@[0] == '.' {
                assert(s@ =~= seq!['.']);
            }
            assert(keep == pred(s@));
            assert(tk.filter(pred) == (if pred(tk.last()) {
                tk.drop_last().filter(pred).push(tk.last())
            } else {
                tk.drop_last().filter(pred)
            }));
        }
        if keep {
            let ghost before = r@.map_values(|c: Vec<char>| c@);
            r.push(s.clone());
            proof {
                assert(r@.map_values(|c: Vec<char>| c@) =~= before.push(s@));
            }
        }
        i = i + 1;
    }
    proof {
        assert(sv.take(segs@.len() as int) =~= sv);
    }
    r
}

pub(crate) fn chars_equal(a: &Vec<char>, b: &Vec<char>) -> (r: bool)
    ensures
        r == (a@ == b@),
{
    if a.len() != b.len() {
        return false;
    }
    let mut i: usize = 0;
    while i < a.len()
        invariant
            a@.len() == b@.len(),
            i <= a@.len(),
            forall|j: int| 0 <= j < i ==> a@[j] == b@[j],
        decreases a@.len() - i,
    {
        if a[i] != b[i] {
            return false;
        }
        i = i + 1;
    }
    proof {
        assert(a@ =~= b@);
    }
    true
}

/// The components of the path `p`.
pub(crate) fn components_of(p: &str) -> (r: Vec<Vec<char>>)
    ensures
        r@.map_values(|c: Vec<char>| c@) == spec_components(p@),
{
    components(&str_chars(p))
}

/// Whether `path` lies under `base`.
pub fn path_starts_with(path: &str, base: &str) -> (r: bool)
    ensures
        r == spec_path_starts_with(path@, base@),
{
    let pc = components(&str_chars(path));
    let bc = components(&str_chars(base));
    let ghost pv = pc@.map_values(|c: Vec<char>| c@);
    let ghost bv = bc@.map_values(|c: Vec<char>| c@);
    if bc.len() > pc.len() {
        return false;
    }
    let mut i: usize = 0;
    while i < bc.len()
        invariant
            bc@.len() <= pc@.len(),
            pv == spec_components(path@),
            bv == spec_components(base@),
            pv == pc@.map_values(|c: Vec<char>| c@),
            bv == bc@.map_values(|c: Vec<char>| c@),
            i <= bc@.len(),
            forall|j: int| 0 <= j < i ==> pv[j] == bv[j],
        decreases bc@.len() - i,
    {
        if !chars_equal(&pc[i], &bc[i]) {
            proof {
                assert(pc@[i as int]@ == pv[i as int]);
                assert(bc@[i as int]@ == bv[i as int]);
                assert(pv.take(bv.len() as int)[i as int] != bv[i as int]);
                assert(pv.take(bv.len() as int) != bv);
            }
            return false;
        }
        i = i + 1;
    }
    proof {
        assert(pv.take(bv.len() as int) =~= bv);
    }
    true
}

/// Whether `path` names a `.ron` file.
pub fn is_ron_file(path: &str) -> (r: bool)
    ensures
        r == spec_is_ron_file(path@),
{
    let cs = components(&str_chars(path));
    let ghost cv = cs@.map_values(|c: Vec<char>| c@);
    if cs.len() == 0 {
        return false;
    }
    let f = &cs[cs.len() - 1];
    proof {
        assert(f@ == cv.last());
    }
    let n = f.len();
    if n == 1 && (f[0] == '/' || f[0] == '.') {
        proof {
            assert(f@ == seq![f@[0]]);
        }
        return false;
    }
    if n == 2 && f[0] == '.' && f[1] == '.' {
        proof {
            assert(f@ =~= seq!['.', '.']);
        }
        return false;
    }
    if n < 5 {
        return false;
    }
    let r = f[n - 4] == '.' && f[n - 3] == 'r' && f[n - 2] == 'o' && f[n - 1] == 'n';
    proof {
        let tail = f@.skip(n - 4);
        if r {
            assert(tail =~= seq!['.', 'r', 'o', 'n']);
        } else if tail == seq!['.', 'r', 'o', 'n'] {
            assert(tail[0] == f@[n - 4]);
            assert(tail[1] == f@[n - 3]);
            assert(tail[2] == f@[n - 2]);
            assert(tail[3] == f@[n - 1]);
        }
        if f@ == seq!['/'] || f@ == seq!['.'] {
            assert(f@.len() == 1);
        }
    }
    r
}

/// Why an include may not be read: it lies outside its include directory,
/// or it is no `.ron` file.
#[derive(Debug, Clone, Copy, PartialEq, Eq)]
pub enum IncludeDenied {
    OutsideIncludeDir,
    NotRon,
}

/// Whether the file `filepath`, found from `include_dir`, may be read.
pub fn check_include_access(include_dir: &str, filepath: &str) -> (r: Result<(), IncludeDenied>)
    ensures
        match r {
            Ok(()) => spec_path_starts_with(filepath@, include_dir@) && spec_is_ron_file(filepath@),
            Err(IncludeDenied::OutsideIncludeDir) => !spec_path_starts_with(filepath@, include_dir@),
            Err(IncludeDenied::NotRon) => spec_path_starts_with(filepath@, include_dir@) && !spec_is_ron_file(filepath@),
        },
{
    if !path_starts_with(filepath, include_dir) {
        return Err(IncludeDenied::OutsideIncludeDir);
    }
    if !is_ron_file(filepath) {
        return Err(IncludeDenied::NotRon);
    }
    Ok(())
}

/// The error of a denied include of `filepath`.
pub fn include_denied_error(denied: IncludeDenied, filepath: String) -> (r: Error)
    ensures
        r matches Error::Io(FsErrMsg::AccessFile(t), p, _) && t@ == "RON"@ && p@ == filepath@,
{
    match denied {
        IncludeDenied::OutsideIncludeDir => Error::Io(FsErrMsg::AccessFile("RON"), filepath, permission_denied("")),
        IncludeDenied::NotRon => Error::Io(FsErrMsg::AccessFile("RON"), filepath, permission_denied("Not a RON file")),
    }
}

/// The dependencies between RON files met while resolving includes.
pub struct InlinedRonState {
    path_graph: PathGraph,
}

impl InlinedRonState {
    /// Whether the graph is well formed.
    pub closed spec fn wf(&self) -> bool {
        self.path_graph.wf()
    }

    /// The graph of dependencies.
    pub closed spec fn graph(&self) -> PathGraph {
        self.path_graph
    }

    /// The dependencies, file to the files it includes.
    pub closed spec fn deps(&self) -> Map<Seq<char>, Set<Seq<char>>> {
        self.path_graph@
    }

    pub fn new() -> (r: Self)
        ensures
            r.wf(),
            r.deps() == Map::<Seq<char>, Set<Seq<char>>>::empty(),
    {
        InlinedRonState { path_graph: PathGraph::new() }
    }

    pub fn path_graph(&self) -> (r: &PathGraph)
        ensures
            r@ == self.deps(),
    {
        &self.path_graph
    }

    pub fn path_graph_mut(&mut self) -> (r: &mut PathGraph)
        ensures
            *r == old(self).graph(),
            final(self).graph() == *final(r),
    {
        &mut self.path_graph
    }

    /// Records that `from` includes `to`, unless `to` already leads back to
    /// `from`: that is a cycle, reported as an error.
    pub fn add_dependency(&mut self, from: &str, to: String) -> (r: Result<(), Error>)
        requires
            old(self).wf(),
        ensures
            final(self).wf(),
            r is Ok <==> !g_reaches(old(self).deps(), to@, from@),
            r is Ok ==> final(self).deps() == g_add_deps(old(self).deps(), from@, set![to@]),
            r matches Err(e) ==> final(self).deps() == old(self).deps() && (e matches Error::ResolveRON(pe) && is_cycle_error(pe, from@, to@)),
    {
        match self.path_graph.add_dependency(from, to.as_str()) {
            Ok(()) => Ok(()),
            Err(e) => Err(Error::ResolveRON(e)),
        }
    }
}

/// An argument of an include, as the reader met it: text, a unit (`None`),
/// another value that reads as a path, or a value that does not.
#[derive(Debug, Clone, PartialEq)]
pub enum IncludeArg {
    Str(String),
    Unit,
    PathLike(String),
    Other,
}

/// Why the arguments of an include were refused.
#[derive(Debug, Clone, Copy, PartialEq, Eq)]
pub enum IncludeArgError {
    /// The module is neither text nor `None`.
    ExpectedModule,
    /// The path does not read as a path.
    BadPath,
    /// No path was given.
    MissingPath,
}

/// The path that an argument gives.
pub open spec fn spec_arg_path(a: IncludeArg) -> Option<Seq<char>> {
    match a {
        IncludeArg::Str(s) => Some(s@),
        IncludeArg::PathLike(s) => Some(s@),
        _ => None,
    }
}

fn arg_path(a: IncludeArg) -> (r: Result<String, IncludeArgError>)
    ensures
        match r {
            Ok(p) => spec_arg_path(a) == Some(p@),
            Err(e) => spec_arg_path(a) is None && e == IncludeArgError::BadPath,
        },
{
    match a {
        IncludeArg::Str(s) => Ok(s),
        IncludeArg::PathLike(s) => Ok(s),
        _ => Err(IncludeArgError::BadPath),
    }
}

/// The text of an include: its module and path.
pub open spec fn spec_include_view(i: IncludeRon) -> (Option<Seq<char>>, Seq<char>) {
    (match i.0 {
        Some(m) => Some(m@),
        None => None,
    }, i.1@)
}

/// The include that the arguments of `include(..)` give: one argument is
/// the path; two are the module (text or `None`) and the path.
pub open spec fn spec_include_from_args(first: Option<IncludeArg>, second: Option<IncludeArg>) -> Result<(Option<Seq<char>>, Seq<char>), IncludeArgError> {
    match (first, second) {
        (Some(f), None) => match spec_arg_path(f) {
            Some(p) => Ok((None, p)),
            None => Err(IncludeArgError::BadPath),
        },
        (Some(f), Some(s)) => {
            let module = match f {
                IncludeArg::Str(m) => Ok(Some(m@)),
                IncludeArg::Unit => Ok(None),
                _ => Err(IncludeArgError::ExpectedModule),
            };
            match module {
                Err(e) => Err(e),
                Ok(m) => match spec_arg_path(s) {
                    Some(p) => Ok((m, p)),
                    None => Err(IncludeArgError::BadPath),
                },
            }
        },
        _ => Err(IncludeArgError::MissingPath),
    }
}

/// Reads the arguments of `include(..)`.
pub fn include_from_args(first: Option<IncludeArg>, second: Option<IncludeArg>) -> (r: Result<IncludeRon, IncludeArgError>)
    ensures
        match r {
            Ok(i) => spec_include_from_args(first, second) == Ok::<(Option<Seq<char>>, Seq<char>), IncludeArgError>(spec_include_view(i)),
            Err(e) => spec_include_from_args(first, second) == Err::<(Option<Seq<char>>, Seq<char>), IncludeArgError>(e),
        },
{
    match (first, second) {
        (Some(f), None) => match arg_path(f) {
            Ok(p) => Ok(IncludeRon(None, p)),
            Err(e) => Err(e),
        },
        (Some(f), Some(s)) => {
            let module = match f {
                IncludeArg::Str(m) => Some(m),
                IncludeArg::Unit => None,
                _ => {
                    return Err(IncludeArgError::ExpectedModule);
                },
            };
            match arg_path(s) {
                Ok(p) => Ok(IncludeRon(module, p)),
                Err(e) => Err(e),
            }
        },
        _ => Err(IncludeArgError::MissingPath),
    }
}

/// What a sequence without a tag holds.
#[derive(Debug, Clone, PartialEq)]
pub enum SeqForm {
    /// An include.
    Include(IncludeRon),
    /// Not an include: the data itself, to be read as such.
    Actual,
}

/// The form of a sequence without a tag, from its first two elements: text
/// first is a path, or a module where a path follows; `None` first is
/// followed by the path; anything else is the data itself.
pub open spec fn spec_seq_form(first: IncludeArg, second: Option<IncludeArg>) -> Result<Option<(Option<Seq<char>>, Seq<char>)>, IncludeArgError> {
    match first {
        IncludeArg::Str(s) => match second {
            Some(a) => match spec_arg_path(a) {
                Some(p) => Ok(Some((Some(s@), p))),
                None => Err(IncludeArgError::BadPath),
            },
            None => Ok(Some((None, s@))),
        },
        IncludeArg::Unit => match second {
            Some(a) => match spec_arg_path(a) {
                Some(p) => Ok(Some((None, p))),
                None => Err(IncludeArgError::BadPath),
            },
            None => Err(IncludeArgError::MissingPath),
        },
        _ => Ok(None),
    }
}

/// Reads a sequence without a tag.
pub fn seq_form(first: IncludeArg, second: Option<IncludeArg>) -> (r: Result<SeqForm, IncludeArgError>)
    ensures
        match r {
            Ok(SeqForm::Include(i)) => spec_seq_form(first, second) == Ok::<Option<(Option<Seq<char>>, Seq<char>)>, IncludeArgError>(Some(spec_include_view(i))),
            Ok(SeqForm::Actual) => spec_seq_form(first, second) == Ok::<Option<(Option<Seq<char>>, Seq<char>)>, IncludeArgError>(None),
            Err(e) => spec_seq_form(first, second) == Err::<Option<(Option<Seq<char>>, Seq<char>)>, IncludeArgError>(e),
        },
{
    match first {
        IncludeArg::Str(s) => match second {
            Some(a) => match arg_path(a) {
                Ok(p) => Ok(SeqForm::Include(IncludeRon(Some(s), p))),
                Err(e) => Err(e),
            },
            None => Ok(SeqForm::Include(IncludeRon(None, s))),
        },
        IncludeArg::Unit => match second {
            Some(a) => match arg_path(a) {
                Ok(p) => Ok(SeqForm::Include(IncludeRon(None, p))),
                Err(e) => Err(e),
            },
            None => Err(IncludeArgError::MissingPath),
        },
        _ => Ok(SeqForm::Actual),
    }
}

/// Whether a map reads as included data: exactly three keys, among them the
/// texts `0`, `1` and `2`.
pub open spec fn spec_looks_included(key_count: nat, text_keys: Seq<Seq<char>>) -> bool {
    key_count == 3 && text_keys.contains(seq!['0']) && text_keys.contains(seq!['1']) && text_keys.contains(seq!['2'])
}

fn contains_key(keys: &Vec<String>, c: char) -> (r: bool)
    ensures
        r == keys@.map_values(|k: String| k@).contains(seq![c]),
{
    let ghost kv = keys@.map_values(|k: String| k@);
    let mut i: usize = 0;
    while i < keys.len()
        invariant
            i <= keys@.len(),
            kv == keys@.map_values(|k: String| k@),
            forall|j: int| 0 <= j < i ==> kv[j] != seq![c],
        decreases keys@.len() - i,
    {
        let k = str_chars(keys[i].as_str());
        if k.len() == 1 && k[0] == c {
            proof {
                assert(kv[i as int] =~= seq![c]);
            }
            return true;
        }
        proof {
            if kv[i as int] == seq![c] {
                assert(k@.len() == 1 && k@[0] == c);
            }
        }
        i = i + 1;
    }
    false
}

/// Whether a map with `key_count` keys, whose text keys are `text_keys`,
/// reads as included data.
pub fn looks_included(key_count: usize, text_keys: &Vec<String>) -> (r: bool)
    ensures
        r == spec_looks_included(key_count as nat, text_keys@.map_values(|k: String| k@)),
{
    key_count == 3 && contains_key(text_keys, '0') && contains_key(text_keys, '1') && contains_key(text_keys, '2')
}

/// How an include is written.
#[derive(Debug, Clone, PartialEq)]
pub enum IncludeShape {
    /// `include(module, path)`.
    ModuleAndPath(String, String),
    /// The bare path.
    BarePath(String),
    /// The pair `(module, path)`, for formats that are not human readable.
    Pair(Option<String>, String),
}

/// How an include is written, the same for an include whose data was read
/// and one whose data was not: a human-readable format names the module
/// where there is one and otherwise writes the bare path; other formats
/// write the pair.
pub open spec fn spec_include_shape(human_readable: bool, inc: IncludeRon) -> IncludeShape {
    if !human_readable {
        IncludeShape::Pair(inc.0, inc.1)
    } else {
        match inc.0 {
            Some(m) => IncludeShape::ModuleAndPath(m, inc.1),
            None => IncludeShape::BarePath(inc.1),
        }
    }
}

/// How `InlinedRon` writes an include, whether or not its data was read,
/// so that what is written reads back as the same include.
pub fn include_shape(human_readable: bool, inc: IncludeRon) -> (r: IncludeShape)
    ensures
        r == spec_include_shape(human_readable, inc),
{
    let IncludeRon(module, path) = inc;
    if !human_readable {
        return IncludeShape::Pair(module, path);
    }
    match module {
        Some(m) => IncludeShape::ModuleAndPath(m, path),
        None => IncludeShape::BarePath(path),
    }
}

/// The include that a bare text reads as: the path, with no module.
pub open spec fn spec_str_form(s: Seq<char>) -> (Option<Seq<char>>, Seq<char>) {
    (None, s)
}

/// Reads a bare text as an include.
pub fn str_form(s: &str) -> (r: IncludeRon)
    ensures
        spec_include_view(r) == spec_str_form(s@),
{
    IncludeRon(None, String::from_str(s))
}

/// The argument that a written module reads as: text where there is one,
/// a unit where there is none.
pub open spec fn spec_module_arg(m: Option<String>) -> IncludeArg {
    match m {
        Some(t) => IncludeArg::Str(t),
        None => IncludeArg::Unit,
    }
}

/// What is written of an include reads back as the same include: the
/// arguments of `include(module, path)` through `include_from_args` (and,
/// as a sequence, through `seq_form`), a bare path as text, and the pair as
/// a sequence of the module and the path.
pub proof fn law_include_shape_reads_back(human_readable: bool, inc: IncludeRon)
    ensures
        match spec_include_shape(human_readable, inc) {
            IncludeShape::ModuleAndPath(m, p) => {
                &&& spec_include_from_args(Some(IncludeArg::Str(m)), Some(IncludeArg::Str(p)))
                    == Ok::<(Option<Seq<char>>, Seq<char>), IncludeArgError>(spec_include_view(inc))
                &&& spec_seq_form(IncludeArg::Str(m), Some(IncludeArg::Str(p)))
                    == Ok::<Option<(Option<Seq<char>>, Seq<char>)>, IncludeArgError>(Some(spec_include_view(inc)))
            },
            IncludeShape::BarePath(p) => spec_str_form(p@) == spec_include_view(inc),
            IncludeShape::Pair(m, p) => spec_seq_form(spec_module_arg(m), Some(IncludeArg::Str(p)))
                == Ok::<Option<(Option<Seq<char>>, Seq<char>)>, IncludeArgError>(Some(spec_include_view(inc))),
        },
{
}

} // verus!
