//! Normalization of relative paths beyond what `std::path` does: `..` is
//! resolved against the preceding components, which is useful to sanitize
//! paths from user input. Paths are `/`-separated text.
use vstd::prelude::*;
use crate::text::{str_chars, string_from_chars, spec_join, spec_split, lemma_split_single, lemma_split_append};

verus! {

/// The `/`-separated pieces of `s`, empty ones included: one more piece
/// than there are separators.
pub open spec fn spec_pieces(s: Seq<char>) -> Seq<Seq<char>>
    decreases s.len(),
{
    if s.len() == 0 {
        seq![Seq::<char>::empty()]
    } else {
        let r = spec_pieces(s.drop_last());
        if s.last() == '/' {
            r.push(Seq::empty())
        } else {
            r.update(r.len() - 1, r.last().push(s.last()))
        }
    }
}

/// Resolves the pieces in order: empty pieces and `.` are skipped, `..`
/// removes the last component kept so far (and fails if there is none),
/// anything else is kept.
pub open spec fn spec_resolve(pieces: Seq<Seq<char>>) -> Option<Seq<Seq<char>>>
    decreases pieces.len(),
{
    if pieces.len() == 0 {
        Some(Seq::empty())
    } else {
        match spec_resolve(pieces.drop_last()) {
            None => None,
            Some(kept) => {
                let c = pieces.last();
                if c.len() == 0 || c == seq!['.'] {
                    Some(kept)
                } else if c == seq!['.', '.'] {
                    if kept.len() == 0 {
                        None
                    } else {
                        Some(kept.drop_last())
                    }
                } else {
                    Some(kept.push(c))
                }
            },
        }
    }
}

/// The normalized components of a relative path; `None` for an absolute
/// path or one that climbs above its start.
pub open spec fn spec_normalize_components(path: Seq<char>) -> Option<Seq<Seq<char>>> {
    if path.len() > 0 && path[0] == '/' {
        None
    } else {
        spec_resolve(spec_pieces(path))
    }
}

/// The normalized path as text, components joined by `/`.
pub open spec fn spec_normalize_relative(path: Seq<char>) -> Option<Seq<char>> {
    match spec_normalize_components(path) {
        None => None,
        Some(cs) => Some(spec_join(cs, seq!['/'])),
    }
}

/// `rel` appended to `dir` as `PathBuf::push` does for a relative path.
pub open spec fn spec_path_join(dir: Seq<char>, rel: Seq<char>) -> Seq<char> {
    if dir.len() == 0 {
        rel
    } else if dir.last() == '/' {
        dir + rel
    } else {
        dir + seq!['/'] + rel
    }
}

fn is_dot(c: &Vec<char>) -> (b: bool)
    ensures
        b == (c@ == seq!['.']),
{
    if c.len() == 1 && c[0] == '.' {
        assert(c@ =~= seq!['.']);
        true
    } else {
        false
    }
}

fn is_dot_dot(c: &Vec<char>) -> (b: bool)
    ensures
        b == (c@ == seq!['.', '.']),
{
    if c.len() == 2 && c[0] == '.' && c[1] == '.' {
        assert(c@ =~= seq!['.', '.']);
        true
    } else {
        false
    }
}

/// The components joined by `/`.
fn join_components(cs: &Vec<Vec<char>>) -> (s: String)
    ensures
        s@ == spec_join(cs@.map_values(|c: Vec<char>| c@), seq!['/']),
{
    let ghost views = cs@.map_values(|c: Vec<char>| c@);
    let mut out: Vec<char> = Vec::new();
    let mut i: usize = 0;
    while i < cs.len()
        invariant
            i <= cs@.len(),
            views == cs@.map_values(|c: Vec<char>| c@),
            out@ == spec_join(views.subrange(0, i as int), seq!['/']),
        decreases cs@.len() - i,
    {
        proof {
            assert(views.subrange(0, i + 1).drop_last() =~= views.subrange(0, i as int));
        }
        let ghost before = out@;
        if i > 0 {
            out.push('/');
        }
        let mut t: usize = 0;
        let ghost mid = out@;
        while t < cs[i].len()
            invariant
                i < cs@.len(),
                t <= cs@[i as int]@.len(),
                out@ == mid + cs@[i as int]@.subrange(0, t as int),
            decreases cs@[i as int]@.len() - t,
        {
            out.push(cs[i][t]);
            t = t + 1;
        }
        proof {
            assert(cs@[i as int]@.subrange(0, t as int) =~= cs@[i as int]@);
            if i == 0 {
                assert(mid =~= Seq::<char>::empty());
                assert(out@ =~= views.subrange(0, 1)[0]);
            } else {
                assert(mid =~= before + seq!['/']);
            }
        }
        i = i + 1;
    }
    proof {
        assert(views.subrange(0, cs@.len() as int) =~= views);
    }
    string_from_chars(out.as_slice())
}

/// Resolves one more piece after the pieces `done`.
fn apply_piece(kept: &mut Vec<Vec<char>>, failed: &mut bool, piece: &Vec<char>, done: Ghost<Seq<Seq<char>>>)
    requires
        *old(failed) <==> spec_resolve(done@) is None,
        !*old(failed) ==> spec_resolve(done@) == Some(old(kept)@.map_values(|c: Vec<char>| c@)),
    ensures
        *final(failed) <==> spec_resolve(done@.push(piece@)) is None,
        !*final(failed) ==> spec_resolve(done@.push(piece@)) == Some(final(kept)@.map_values(|c: Vec<char>| c@)),
{
    proof {
        assert(done@.push(piece@).drop_last() =~= done@);
    }
    if *failed {
        return;
    }
    let ghost kv = kept@.map_values(|c: Vec<char>| c@);
    if piece.len() == 0 || is_dot(piece) {
    } else if is_dot_dot(piece) {
        if kept.len() == 0 {
            *failed = true;
        } else {
            kept.pop();
            proof {
                assert(kept@.map_values(|c: Vec<char>| c@) =~= kv.drop_last());
            }
        }
    } else {
        kept.push(piece.clone());
        proof {
            assert(kept@.map_values(|c: Vec<char>| c@) =~= kv.push(piece@));
        }
    }
}

/// Normalizes `.` and `..` in a relative path. `None` if the path is
/// absolute or if a `..` would climb above its start.
pub fn normalize_relative(path: &str) -> (r: Option<String>)
    ensures
        match r {
            None => spec_normalize_relative(path@) is None,
            Some(p) => spec_normalize_relative(path@) == Some(p@),
        },
{
    let s = str_chars(path);
    if s.len() > 0 && s[0] == '/' {
        return None;
    }
    let mut kept: Vec<Vec<char>> = Vec::new();
    let mut failed = false;
    let mut done: Ghost<Seq<Seq<char>>> = Ghost(Seq::empty());
    let mut cur: Vec<char> = Vec::new();
    let mut i: usize = 0;
    proof {
        assert(s@.subrange(0, 0) =~= Seq::<char>::empty());
        assert(spec_pieces(Seq::<char>::empty()) =~= done@.push(cur@));
        assert(kept@.map_values(|c: Vec<char>| c@) =~= Seq::<Seq<char>>::empty());
    }
    while i < s.len()
        invariant
            s@ == path@,
            i <= s@.len(),
            spec_pieces(s@.subrange(0, i as int)) == done@.push(cur@),
            failed <==> spec_resolve(done@) is None,
            !failed ==> spec_resolve(done@) == Some(kept@.map_values(|c: Vec<char>| c@)),
        decreases s@.len() - i,
    {
        proof {
            assert(s@.subrange(0, i + 1).drop_last() =~= s@.subrange(0, i as int));
        }
        if s[i] == '/' {
            apply_piece(&mut kept, &mut failed, &cur, done);
            proof {
                let prev = done@;
                done@ = prev.push(cur@);
                assert(spec_pieces(s@.subrange(0, i + 1)) =~= done@.push(Seq::empty()));
            }
            cur = Vec::new();
        } else {
            cur.push(s[i]);
            proof {
                assert(spec_pieces(s@.subrange(0, i + 1)) =~= done@.push(cur@));
            }
        }
        i = i + 1;
    }
    apply_piece(&mut kept, &mut failed, &cur, done);
    proof {
        assert(s@.subrange(0, s@.len() as int) =~= s@);
    }
    if failed {
        None
    } else {
        Some(join_components(&kept))
    }
}

/// Normalizes `path` as [normalize_relative] does and joins it to `dir`.
pub fn normalize_relative_to(path: &str, dir: &str) -> (r: Option<String>)
    ensures
        match r {
            None => spec_normalize_relative(path@) is None,
            Some(p) => exists|n: Seq<char>|
                spec_normalize_relative(path@) == Some(n) && p@ == spec_path_join(dir@, n),
        },
{
    match normalize_relative(path) {
        None => None,
        Some(n) => {
            let d = str_chars(dir);
            let mut out = dir.to_owned();
            if d.len() > 0 && d[d.len() - 1] != '/' {
                crate::text::push_char(&mut out, '/');
            }
            out.append(n.as_str());
            proof {
                if d@.len() > 0 {
                    assert(d@.last() == d@[d@.len() - 1]);
                }
                assert(out@ =~= spec_path_join(dir@, n@));
            }
            Some(out)
        },
    }
}

/// Normalization of relative paths.
pub trait NormalizePath {
    /// Normalizes `.` and `..`; `None` for an absolute path or one that
    /// climbs above its start.
    fn normalize_relative(&self) -> Option<String>;

    /// Normalizes as `normalize_relative` does and joins the result to `dir`.
    fn normalize_relative_to(&self, dir: &str) -> Option<String>;
}

impl NormalizePath for str {
    fn normalize_relative(&self) -> (r: Option<String>)
        ensures
            match r {
                None => spec_normalize_relative(self@) is None,
                Some(p) => spec_normalize_relative(self@) == Some(p@),
            },
    {
        normalize_relative(self)
    }

    fn normalize_relative_to(&self, dir: &str) -> (r: Option<String>)
        ensures
            match r {
                None => spec_normalize_relative(self@) is None,
                Some(p) => exists|n: Seq<char>|
                    spec_normalize_relative(self@) == Some(n) && p@ == spec_path_join(dir@, n),
            },
    {
        normalize_relative_to(self, dir)
    }
}


proof fn lemma_pieces_are_split(s: Seq<char>)
    ensures
        spec_pieces(s) == spec_split(s, '/'),
    decreases s.len(),
{
    if s.len() > 0 {
        lemma_pieces_are_split(s.drop_last());
    }
}

proof fn lemma_split_pieces_plain(s: Seq<char>)
    ensures
        spec_split(s, '/').len() >= 1,
        forall|i: int| 0 <= i < spec_split(s, '/').len() ==> !(#[trigger] spec_split(s, '/')[i]).contains('/'),
    decreases s.len(),
{
    if s.len() > 0 {
        lemma_split_pieces_plain(s.drop_last());
        let r = spec_split(s.drop_last(), '/');
        let t = spec_split(s, '/');
        if s.last() != '/' {
            assert forall|i: int| 0 <= i < t.len() implies !(#[trigger] t[i]).contains('/') by {
                if i == r.len() - 1 {
                    if t[i].contains('/') {
                        let k = choose|k: int| 0 <= k < t[i].len() && t[i][k] == '/';
                        assert(t[i] == r.last().push(s.last()));
                        if k < r.last().len() {
                            assert(r.last()[k] == '/');
                        }
                    }
                } else {
                    assert(t[i] == r[i]);
                }
            }
        } else {
            assert forall|i: int| 0 <= i < t.len() implies !(#[trigger] t[i]).contains('/') by {
                if i == r.len() {
                    assert(t[i] =~= Seq::<char>::empty());
                } else {
                    assert(t[i] == r[i]);
                }
            }
        }
    } else {
        let t = spec_split(s, '/');
        assert forall|i: int| 0 <= i < t.len() implies !(#[trigger] t[i]).contains('/') by {
            assert(t[i] =~= Seq::<char>::empty());
        }
    }
}

/// A component that normalization keeps: not empty, not `.` or `..`, and
/// free of separators.
pub open spec fn spec_plain_component(c: Seq<char>) -> bool {
    c.len() > 0 && c != seq!['.'] && c != seq!['.', '.'] && !c.contains('/')
}

proof fn lemma_resolve_plain(pieces: Seq<Seq<char>>)
    requires
        forall|i: int| 0 <= i < pieces.len() ==> !(#[trigger] pieces[i]).contains('/'),
    ensures
        spec_resolve(pieces) matches Some(kept) ==> forall|k: int| 0 <= k < kept.len() ==> spec_plain_component(#[trigger] kept[k]),
    decreases pieces.len(),
{
    if pieces.len() > 0 {
        let p = pieces.drop_last();
        assert forall|i: int| 0 <= i < p.len() implies !(#[trigger] p[i]).contains('/') by {
            assert(p[i] == pieces[i]);
        }
        lemma_resolve_plain(p);
        assert(!pieces[pieces.len() - 1].contains('/'));
    }
}

proof fn lemma_resolve_of_plain(cs: Seq<Seq<char>>)
    requires
        forall|k: int| 0 <= k < cs.len() ==> spec_plain_component(#[trigger] cs[k]),
    ensures
        spec_resolve(cs) == Some(cs),
    decreases cs.len(),
{
    if cs.len() > 0 {
        let p = cs.drop_last();
        assert forall|k: int| 0 <= k < p.len() implies spec_plain_component(#[trigger] p[k]) by {
            assert(p[k] == cs[k]);
        }
        lemma_resolve_of_plain(p);
        assert(spec_plain_component(cs[cs.len() - 1]));
        assert(p.push(cs.last()) =~= cs);
    }
}

proof fn lemma_split_of_join(cs: Seq<Seq<char>>)
    requires
        cs.len() >= 1,
        forall|k: int| 0 <= k < cs.len() ==> !(#[trigger] cs[k]).contains('/'),
    ensures
        spec_split(spec_join(cs, seq!['/']), '/') == cs,
        spec_join(cs, seq!['/']).len() >= cs[0].len(),
        forall|j: int| 0 <= j < cs[0].len() ==> spec_join(cs, seq!['/'])[j] == cs[0][j],
    decreases cs.len(),
{
    assert(!cs[0].contains('/'));
    if cs.len() == 1 {
        lemma_split_single(cs[0], '/');
        assert(seq![cs[0]] =~= cs);
    } else {
        let p = cs.drop_last();
        assert forall|k: int| 0 <= k < p.len() implies !(#[trigger] p[k]).contains('/') by {
            assert(p[k] == cs[k]);
        }
        lemma_split_of_join(p);
        assert(!cs[cs.len() - 1].contains('/'));
        lemma_split_append(spec_join(p, seq!['/']), cs.last(), '/');
        assert(p.push(cs.last()) =~= cs);
        assert(spec_join(cs, seq!['/']) == spec_join(p, seq!['/']) + seq!['/'] + cs.last());
        assert(p[0] == cs[0]);
    }
}

/// Normalizing a normalized path changes nothing.
pub proof fn law_normalize_idempotent(path: Seq<char>)
    ensures
        match spec_normalize_relative(path) {
            Some(n) => spec_normalize_relative(n) == Some(n),
            None => true,
        },
{
    if let Some(cs) = spec_normalize_components(path) {
        lemma_pieces_are_split(path);
        lemma_split_pieces_plain(path);
        lemma_resolve_plain(spec_pieces(path));
        let n = spec_join(cs, seq!['/']);
        lemma_pieces_are_split(n);
        lemma_resolve_of_plain(cs);
        if cs.len() == 0 {
            assert(n =~= Seq::<char>::empty());
            assert(spec_split(n, '/') =~= seq![Seq::<char>::empty()]);
            assert(spec_resolve(seq![Seq::<char>::empty()]) == Some(Seq::<Seq<char>>::empty())) by {
                assert(seq![Seq::<char>::empty()].drop_last() =~= Seq::<Seq<char>>::empty());
            }
        } else {
            assert forall|k: int| 0 <= k < cs.len() implies !(#[trigger] cs[k]).contains('/') by {
                assert(spec_plain_component(cs[k]));
            }
            lemma_split_of_join(cs);
            assert(spec_plain_component(cs[0]));
            assert(n[0] == cs[0][0]);
            assert(cs[0][0] != '/') by {
                if cs[0][0] == '/' {
                    assert(cs[0].contains('/'));
                }
            }
        }
    }
}

proof fn lemma_pieces_appended(p: Seq<char>, piece: Seq<char>)
    requires
        !piece.contains('/'),
    ensures
        spec_pieces(p + seq!['/'] + piece) == spec_pieces(p).push(piece),
        spec_pieces(p).push(piece).drop_last() == spec_pieces(p),
        spec_pieces(p).push(piece).last() == piece,
{
    lemma_pieces_are_split(p);
    lemma_pieces_are_split(p + seq!['/'] + piece);
    lemma_split_append(p, piece, '/');
    assert(spec_pieces(p).push(piece).drop_last() =~= spec_pieces(p));
}

/// A plain component appended to a non-empty relative path is kept after
/// the path's own normalized components.
pub proof fn law_plain_component_appended(p: Seq<char>, name: Seq<char>)
    requires
        p.len() > 0,
        p[0] != '/',
        spec_plain_component(name),
    ensures
        spec_normalize_components(p + seq!['/'] + name) == match spec_normalize_components(p) {
            Some(cs) => Some(cs.push(name)),
            None => None,
        },
{
    lemma_pieces_appended(p, name);
    assert((p + seq!['/'] + name)[0] == p[0]);
}

/// A trailing `..` removes the last component that the rest of the path
/// keeps, and fails the normalization when the rest keeps none.
pub proof fn law_dotdot_drops_last(p: Seq<char>)
    requires
        !(p.len() > 0 && p[0] == '/'),
    ensures
        spec_normalize_components(p + seq!['/', '.', '.']) == match spec_normalize_components(p) {
            Some(cs) => if cs.len() > 0 { Some(cs.drop_last()) } else { None },
            None => None,
        },
{
    let dd = seq!['.', '.'];
    assert(p + seq!['/', '.', '.'] =~= p + seq!['/'] + dd);
    if p.len() == 0 {
        assert((p + seq!['/', '.', '.'])[0] == '/');
        assert(spec_pieces(p) =~= seq![Seq::<char>::empty()]);
        let e = seq![Seq::<char>::empty()];
        assert(e.drop_last() =~= Seq::<Seq<char>>::empty());
        assert(e.last().len() == 0);
        assert(spec_resolve(Seq::<Seq<char>>::empty()) == Some(Seq::<Seq<char>>::empty()));
        assert(spec_resolve(e) == Some(Seq::<Seq<char>>::empty()));
    } else {
        assert(!dd.contains('/')) by {
            if dd.contains('/') {
                let k = choose|k: int| 0 <= k < dd.len() && dd[k] == '/';
            }
        }
        lemma_pieces_appended(p, dd);
        assert((p + seq!['/'] + dd)[0] == p[0]);
    }
}

/// `name/..` cancels out: appending a plain component and then `..` to a
/// non-empty relative path normalizes to what the path alone does.
pub proof fn law_dotdot_cancels(p: Seq<char>, name: Seq<char>)
    requires
        p.len() > 0,
        p[0] != '/',
        spec_plain_component(name),
    ensures
        spec_normalize_components(p + seq!['/'] + name + seq!['/', '.', '.']) == spec_normalize_components(p),
        spec_normalize_relative(p + seq!['/'] + name + seq!['/', '.', '.']) == spec_normalize_relative(p),
{
    let q = p + seq!['/'] + name;
    law_plain_component_appended(p, name);
    assert(q[0] == p[0]);
    law_dotdot_drops_last(q);
    if let Some(cs) = spec_normalize_components(p) {
        assert(cs.push(name).drop_last() =~= cs);
    }
}
} // verus!
