//! Tenants of `.repo` directories: where a tenant's directories are, how
//! one is opened or created, and walks that look for directories holding a
//! tenant, by the designator kinds and designators that a directory must
//! show all of, or any of.
use vstd::prelude::*;
use crate::dotrepo::{init_top_dir, Definition, DesignatedDefinition, RepoError};
use crate::normalize::spec_path_join;
use crate::scan::{spec_trim, trim_chars};
use crate::text::{push_char, str_chars};

verus! {

/// The sets of a tenant walk, each optional. `SK` and `K` are the standard
/// and the tenant's own designator kinds, `SD` and `D` the standard and the
/// tenant's own designators. An `all_*` set asks that every member be found
/// in a directory, an `any_*` set that at least one be.
#[derive(Debug)]
pub struct TenantSets<SK, K, SD, D> {
    pub all_standard_kind: Option<Vec<SK>>,
    pub all_kind: Option<Vec<K>>,
    pub all_standard: Option<Vec<SD>>,
    pub all: Option<Vec<D>>,
    pub any_standard_kind: Option<Vec<SK>>,
    pub any_kind: Option<Vec<K>>,
    pub any_standard: Option<Vec<SD>>,
    pub any: Option<Vec<D>>,
}

impl<SK, K, SD, D> TenantSets<SK, K, SD, D> {
    /// Whether any set is given.
    pub open spec fn any_given(&self) -> bool {
        ||| self.all_standard_kind is Some
        ||| self.all_kind is Some
        ||| self.all_standard is Some
        ||| self.all is Some
        ||| self.any_standard_kind is Some
        ||| self.any_kind is Some
        ||| self.any_standard is Some
        ||| self.any is Some
    }

    /// No set given.
    pub open spec fn spec_none() -> Self {
        TenantSets {
            all_standard_kind: None,
            all_kind: None,
            all_standard: None,
            all: None,
            any_standard_kind: None,
            any_kind: None,
            any_standard: None,
            any: None,
        }
    }

    fn none() -> (r: Self)
        ensures
            r == Self::spec_none(),
    {
        TenantSets {
            all_standard_kind: None,
            all_kind: None,
            all_standard: None,
            all: None,
            any_standard_kind: None,
            any_kind: None,
            any_standard: None,
            any: None,
        }
    }
}

/// Builds the options of a tenant walk; a set that is not given stays
/// unset.
#[derive(Debug)]
pub struct TenantWalkOffBuilder<SK, K, SD, D> {
    pub sets: TenantSets<SK, K, SD, D>,
}

impl<SK, K, SD, D> Default for TenantWalkOffBuilder<SK, K, SD, D> {
    fn default() -> (r: Self)
        ensures
            r.sets == TenantSets::<SK, K, SD, D>::spec_none(),
    {
        TenantWalkOffBuilder { sets: TenantSets::none() }
    }
}

impl<SK, K, SD, D> TenantWalkOffBuilder<SK, K, SD, D> {
    /// Every standard kind of `set` must be found.
    pub fn all_standard_kind(self, set: Vec<SK>) -> (r: Self)
        ensures
            r.sets == spec_apply_call(self.sets, TenantSetCall::AllStandardKind(set)),
    {
        TenantWalkOffBuilder { sets: TenantSets { all_standard_kind: Some(set), ..self.sets } }
    }

    /// Every tenant kind of `set` must be found.
    pub fn all_kind(self, set: Vec<K>) -> (r: Self)
        ensures
            r.sets == spec_apply_call(self.sets, TenantSetCall::AllKind(set)),
    {
        TenantWalkOffBuilder { sets: TenantSets { all_kind: Some(set), ..self.sets } }
    }

    /// At least one standard kind of `set` must be found.
    pub fn any_standard_kind(self, set: Vec<SK>) -> (r: Self)
        ensures
            r.sets == spec_apply_call(self.sets, TenantSetCall::AnyStandardKind(set)),
    {
        TenantWalkOffBuilder { sets: TenantSets { any_standard_kind: Some(set), ..self.sets } }
    }

    /// At least one tenant kind of `set` must be found.
    pub fn any_kind(self, set: Vec<K>) -> (r: Self)
        ensures
            r.sets == spec_apply_call(self.sets, TenantSetCall::AnyKind(set)),
    {
        TenantWalkOffBuilder { sets: TenantSets { any_kind: Some(set), ..self.sets } }
    }

    /// Every standard designator of `set` must be found.
    pub fn all_standard(self, set: Vec<SD>) -> (r: Self)
        ensures
            r.sets == spec_apply_call(self.sets, TenantSetCall::AllStandard(set)),
    {
        TenantWalkOffBuilder { sets: TenantSets { all_standard: Some(set), ..self.sets } }
    }

    /// Every tenant designator of `set` must be found.
    pub fn all(self, set: Vec<D>) -> (r: Self)
        ensures
            r.sets == spec_apply_call(self.sets, TenantSetCall::All(set)),
    {
        TenantWalkOffBuilder { sets: TenantSets { all: Some(set), ..self.sets } }
    }

    /// At least one standard designator of `set` must be found.
    pub fn any_standard(self, set: Vec<SD>) -> (r: Self)
        ensures
            r.sets == spec_apply_call(self.sets, TenantSetCall::AnyStandard(set)),
    {
        TenantWalkOffBuilder { sets: TenantSets { any_standard: Some(set), ..self.sets } }
    }

    /// At least one tenant designator of `set` must be found.
    pub fn any(self, set: Vec<D>) -> (r: Self)
        ensures
            r.sets == spec_apply_call(self.sets, TenantSetCall::Any(set)),
    {
        TenantWalkOffBuilder { sets: TenantSets { any: Some(set), ..self.sets } }
    }

    /// The options, which filter exactly when a set was given.
    pub fn build(self) -> (r: Result<TenantWalkOff<SK, K, SD, D>, RepoError>)
        ensures
            r matches Ok(w) && w.spec_sets() == self.sets && w.spec_is_some() == self.sets.any_given(),
    {
        let is_some = self.sets.all.is_some() || self.sets.any.is_some() || self.sets.all_standard.is_some()
            || self.sets.any_standard.is_some() || self.sets.all_kind.is_some() || self.sets.any_kind.is_some()
            || self.sets.all_standard_kind.is_some() || self.sets.any_standard_kind.is_some();
        Ok(TenantWalkOff { sets: self.sets, is_some })
    }
}

/// A call of one of the setters of `TenantWalkOffBuilder`, with the set it
/// was given.
pub enum TenantSetCall<SK, K, SD, D> {
    AllStandardKind(Vec<SK>),
    AllKind(Vec<K>),
    AllStandard(Vec<SD>),
    All(Vec<D>),
    AnyStandardKind(Vec<SK>),
    AnyKind(Vec<K>),
    AnyStandard(Vec<SD>),
    Any(Vec<D>),
}

/// The sets after one setter call, as that setter's `ensures` states.
pub open spec fn spec_apply_call<SK, K, SD, D>(s: TenantSets<SK, K, SD, D>, c: TenantSetCall<SK, K, SD, D>) -> TenantSets<SK, K, SD, D> {
    match c {
        TenantSetCall::AllStandardKind(v) => TenantSets { all_standard_kind: Some(v), ..s },
        TenantSetCall::AllKind(v) => TenantSets { all_kind: Some(v), ..s },
        TenantSetCall::AllStandard(v) => TenantSets { all_standard: Some(v), ..s },
        TenantSetCall::All(v) => TenantSets { all: Some(v), ..s },
        TenantSetCall::AnyStandardKind(v) => TenantSets { any_standard_kind: Some(v), ..s },
        TenantSetCall::AnyKind(v) => TenantSets { any_kind: Some(v), ..s },
        TenantSetCall::AnyStandard(v) => TenantSets { any_standard: Some(v), ..s },
        TenantSetCall::Any(v) => TenantSets { any: Some(v), ..s },
    }
}

/// The sets after a sequence of setter calls, in order.
pub open spec fn spec_apply_calls<SK, K, SD, D>(s: TenantSets<SK, K, SD, D>, calls: Seq<TenantSetCall<SK, K, SD, D>>) -> TenantSets<SK, K, SD, D>
    decreases calls.len(),
{
    if calls.len() == 0 {
        s
    } else {
        spec_apply_call(spec_apply_calls(s, calls.drop_last()), calls.last())
    }
}

/// The set given by the last call that `pick` reads a set from, if any.
pub open spec fn spec_last_given<C, T>(calls: Seq<C>, pick: spec_fn(C) -> Option<T>) -> Option<T>
    decreases calls.len(),
{
    if calls.len() == 0 {
        None
    } else if pick(calls.last()) is Some {
        pick(calls.last())
    } else {
        spec_last_given(calls.drop_last(), pick)
    }
}

/// After any sequence of setter calls on a new builder, each set is the
/// one given to its setter's last call, and unset where its setter was not
/// called; sets are given where any setter was called.
pub proof fn law_builder_keeps_last_sets<SK, K, SD, D>(calls: Seq<TenantSetCall<SK, K, SD, D>>)
    ensures
        ({
            let s = spec_apply_calls(TenantSets::<SK, K, SD, D>::spec_none(), calls);
            &&& s.all_standard_kind == spec_last_given(calls, |c: TenantSetCall<SK, K, SD, D>| match c {
                TenantSetCall::AllStandardKind(v) => Some(v),
                _ => None,
            })
            &&& s.all_kind == spec_last_given(calls, |c: TenantSetCall<SK, K, SD, D>| match c {
                TenantSetCall::AllKind(v) => Some(v),
                _ => None,
            })
            &&& s.all_standard == spec_last_given(calls, |c: TenantSetCall<SK, K, SD, D>| match c {
                TenantSetCall::AllStandard(v) => Some(v),
                _ => None,
            })
            &&& s.all == spec_last_given(calls, |c: TenantSetCall<SK, K, SD, D>| match c {
                TenantSetCall::All(v) => Some(v),
                _ => None,
            })
            &&& s.any_standard_kind == spec_last_given(calls, |c: TenantSetCall<SK, K, SD, D>| match c {
                TenantSetCall::AnyStandardKind(v) => Some(v),
                _ => None,
            })
            &&& s.any_kind == spec_last_given(calls, |c: TenantSetCall<SK, K, SD, D>| match c {
                TenantSetCall::AnyKind(v) => Some(v),
                _ => None,
            })
            &&& s.any_standard == spec_last_given(calls, |c: TenantSetCall<SK, K, SD, D>| match c {
                TenantSetCall::AnyStandard(v) => Some(v),
                _ => None,
            })
            &&& s.any == spec_last_given(calls, |c: TenantSetCall<SK, K, SD, D>| match c {
                TenantSetCall::Any(v) => Some(v),
                _ => None,
            })
            &&& s.any_given() == (calls.len() > 0)
        }),
    decreases calls.len(),
{
    if calls.len() > 0 {
        law_builder_keeps_last_sets(calls.drop_last());
    }
}

/// The options of a tenant walk: its sets, and whether any was given.
#[derive(Debug)]
pub struct TenantWalkOff<SK, K, SD, D> {
    sets: TenantSets<SK, K, SD, D>,
    is_some: bool,
}

impl<SK, K, SD, D> TenantWalkOff<SK, K, SD, D> {
    #[verifier::type_invariant]
    spec fn inv(&self) -> bool {
        self.is_some == self.sets.any_given()
    }

    pub closed spec fn spec_sets(&self) -> TenantSets<SK, K, SD, D> {
        self.sets
    }

    pub closed spec fn spec_is_some(&self) -> bool {
        self.is_some
    }

    /// A builder with no set given.
    pub fn builder() -> (r: TenantWalkOffBuilder<SK, K, SD, D>)
        ensures
            r.sets == TenantSets::<SK, K, SD, D>::spec_none(),
    {
        TenantWalkOffBuilder::default()
    }

    /// The sets of the walk.
    pub fn sets(&self) -> (r: &TenantSets<SK, K, SD, D>)
        ensures
            *r == self.spec_sets(),
    {
        &self.sets
    }

    /// Whether any set was given; a walk with none keeps every directory
    /// that holds the tenant.
    pub fn is_some(&self) -> (b: bool)
        ensures
            b == self.spec_is_some(),
            b == self.spec_sets().any_given(),
    {
        proof {
            use_type_invariant(self);
        }
        self.is_some
    }
}

impl<SK, K, SD, D> Default for TenantWalkOff<SK, K, SD, D> {
    fn default() -> (r: Self)
        ensures
            r.spec_sets() == TenantSets::<SK, K, SD, D>::spec_none(),
            !r.spec_is_some(),
    {
        TenantWalkOff { sets: TenantSets::none(), is_some: false }
    }
}


/// The indices, in order, of the members that were found.
pub open spec fn spec_found_indices(p: Seq<bool>) -> Seq<usize>
    decreases p.len(),
{
    if p.len() == 0 {
        Seq::empty()
    } else {
        let rest = spec_found_indices(p.drop_last());
        if p.last() {
            rest.push((p.len() - 1) as usize)
        } else {
            rest
        }
    }
}

/// An `all_*` set of kinds or designators: unset, it matches nothing and
/// keeps the directory; set, it keeps the directory only where every member
/// was found, and then matches them all.
pub open spec fn spec_all_group<T>(set: Option<Vec<T>>, found: Seq<bool>) -> Option<Seq<usize>> {
    match set {
        None => Some(Seq::empty()),
        Some(v) => if forall|i: int| 0 <= i < v@.len() ==> #[trigger] found[i] {
            Some(Seq::new(v@.len(), |i: int| i as usize))
        } else {
            None
        },
    }
}

/// An `any_*` set of kinds: set, it keeps the directory only where a member
/// was found, and then matches every member found.
pub open spec fn spec_any_kind_group<T>(set: Option<Vec<T>>, found: Seq<bool>) -> Option<Seq<usize>> {
    match set {
        None => Some(Seq::empty()),
        Some(v) => {
            let f = spec_found_indices(found);
            if f.len() > 0 {
                Some(f)
            } else {
                None
            }
        },
    }
}

/// An `any_*` set of designators: set, it keeps the directory only where a
/// member was found, and then matches the first member found.
pub open spec fn spec_any_designator_group<T>(set: Option<Vec<T>>, found: Seq<bool>) -> Option<Seq<usize>> {
    match set {
        None => Some(Seq::empty()),
        Some(v) => {
            let f = spec_found_indices(found);
            if f.len() > 0 {
                Some(seq![f[0]])
            } else {
                None
            }
        },
    }
}

/// What a look into a directory's designators found, member by member and
/// in the order of each set: for a kind, whether its file is there; for a
/// designator, whether it was found (see `designator_found`).
#[derive(Debug)]
pub struct TenantProbes {
    pub all_standard_kind: Vec<bool>,
    pub all_kind: Vec<bool>,
    pub all_standard: Vec<bool>,
    pub all: Vec<bool>,
    pub any_standard_kind: Vec<bool>,
    pub any_kind: Vec<bool>,
    pub any_standard: Vec<bool>,
    pub any: Vec<bool>,
}

/// Which members of each set a kept directory matched, by their index in
/// the set.
#[derive(Debug)]
pub struct TenantMatch {
    pub all_standard_kind: Vec<usize>,
    pub all_kind: Vec<usize>,
    pub all_standard: Vec<usize>,
    pub all: Vec<usize>,
    pub any_standard_kind: Vec<usize>,
    pub any_kind: Vec<usize>,
    pub any_standard: Vec<usize>,
    pub any: Vec<usize>,
}

/// Whether each set that is given has one probe per member.
pub open spec fn spec_probes_fit<SK, K, SD, D>(s: TenantSets<SK, K, SD, D>, p: TenantProbes) -> bool {
    &&& (s.all_standard_kind matches Some(v) ==> p.all_standard_kind@.len() == v@.len())
    &&& (s.all_kind matches Some(v) ==> p.all_kind@.len() == v@.len())
    &&& (s.all_standard matches Some(v) ==> p.all_standard@.len() == v@.len())
    &&& (s.all matches Some(v) ==> p.all@.len() == v@.len())
    &&& (s.any_standard_kind matches Some(v) ==> p.any_standard_kind@.len() == v@.len())
    &&& (s.any_kind matches Some(v) ==> p.any_kind@.len() == v@.len())
    &&& (s.any_standard matches Some(v) ==> p.any_standard@.len() == v@.len())
    &&& (s.any matches Some(v) ==> p.any@.len() == v@.len())
}

/// Whether a directory that holds the tenant is kept: every set lets it
/// pass.
pub open spec fn spec_tenant_kept<SK, K, SD, D>(s: TenantSets<SK, K, SD, D>, p: TenantProbes) -> bool {
    &&& spec_all_group(s.all_standard_kind, p.all_standard_kind@) is Some
    &&& spec_all_group(s.all_kind, p.all_kind@) is Some
    &&& spec_all_group(s.all_standard, p.all_standard@) is Some
    &&& spec_all_group(s.all, p.all@) is Some
    &&& spec_any_kind_group(s.any_standard_kind, p.any_standard_kind@) is Some
    &&& spec_any_kind_group(s.any_kind, p.any_kind@) is Some
    &&& spec_any_designator_group(s.any_standard, p.any_standard@) is Some
    &&& spec_any_designator_group(s.any, p.any@) is Some
}

fn found_indices(p: &Vec<bool>) -> (r: Vec<usize>)
    ensures
        r@ == spec_found_indices(p@),
{
    let mut out: Vec<usize> = Vec::new();
    let mut i: usize = 0;
    while i < p.len()
        invariant
            i <= p@.len(),
            out@ == spec_found_indices(p@.take(i as int)),
        decreases p@.len() - i,
    {
        proof {
            assert(p@.take(i + 1).drop_last() =~= p@.take(i as int));
        }
        if p[i] {
            out.push(i);
        }
        i = i + 1;
    }
    proof {
        assert(p@.take(p@.len() as int) =~= p@);
    }
    out
}

fn all_group<T>(set: &Option<Vec<T>>, found: &Vec<bool>) -> (r: Option<Vec<usize>>)
    requires
        set matches Some(v) ==> found@.len() == v@.len(),
    ensures
        r is Some <==> spec_all_group(*set, found@) is Some,
        r matches Some(m) ==> spec_all_group(*set, found@) == Some(m@),
{
    match set {
        None => Some(Vec::new()),
        Some(v) => {
            let mut out: Vec<usize> = Vec::new();
            let mut i: usize = 0;
            while i < found.len()
                invariant
                    i <= found@.len(),
                    found@.len() == v@.len(),
                    *set == Some(*v),
                    out@ == Seq::new(i as nat, |j: int| j as usize),
                    forall|j: int| 0 <= j < i ==> #[trigger] found@[j],
                decreases found@.len() - i,
            {
                if !found[i] {
                    proof {
                        assert(!found@[i as int] && 0 <= i < v@.len());
                    }
                    return None;
                }
                out.push(i);
                proof {
                    assert(out@ =~= Seq::new((i + 1) as nat, |j: int| j as usize));
                }
                i = i + 1;
            }
            Some(out)
        },
    }
}

fn any_kind_group<T>(set: &Option<Vec<T>>, found: &Vec<bool>) -> (r: Option<Vec<usize>>)
    ensures
        r is Some <==> spec_any_kind_group(*set, found@) is Some,
        r matches Some(m) ==> spec_any_kind_group(*set, found@) == Some(m@),
{
    match set {
        None => Some(Vec::new()),
        Some(_) => {
            let f = found_indices(found);
            if f.len() > 0 {
                Some(f)
            } else {
                None
            }
        },
    }
}

fn any_designator_group<T>(set: &Option<Vec<T>>, found: &Vec<bool>) -> (r: Option<Vec<usize>>)
    ensures
        r is Some <==> spec_any_designator_group(*set, found@) is Some,
        r matches Some(m) ==> spec_any_designator_group(*set, found@) == Some(m@),
{
    match set {
        None => Some(Vec::new()),
        Some(_) => {
            let f = found_indices(found);
            if f.len() > 0 {
                let mut one: Vec<usize> = Vec::new();
                one.push(f[0]);
                proof {
                    assert(one@ =~= seq![f@[0]]);
                }
                Some(one)
            } else {
                None
            }
        },
    }
}

/// Whether a directory that holds the tenant is kept by a walk, and what it
/// matched: every `all_*` set must have each member found and matches them
/// all; an `any_*` set of kinds must have a member found and matches every
/// member found; an `any_*` set of designators must have a member found and
/// matches the first one found. A walk with no set keeps the directory and
/// matches nothing.
pub fn tenant_match<SK, K, SD, D>(walkoff: &TenantWalkOff<SK, K, SD, D>, probes: &TenantProbes) -> (r: Option<TenantMatch>)
    requires
        spec_probes_fit(walkoff.spec_sets(), *probes),
    ensures
        r is Some <==> spec_tenant_kept(walkoff.spec_sets(), *probes),
        r matches Some(m) ==> {
            let s = walkoff.spec_sets();
            &&& spec_all_group(s.all_standard_kind, probes.all_standard_kind@) == Some(m.all_standard_kind@)
            &&& spec_all_group(s.all_kind, probes.all_kind@) == Some(m.all_kind@)
            &&& spec_all_group(s.all_standard, probes.all_standard@) == Some(m.all_standard@)
            &&& spec_all_group(s.all, probes.all@) == Some(m.all@)
            &&& spec_any_kind_group(s.any_standard_kind, probes.any_standard_kind@) == Some(m.any_standard_kind@)
            &&& spec_any_kind_group(s.any_kind, probes.any_kind@) == Some(m.any_kind@)
            &&& spec_any_designator_group(s.any_standard, probes.any_standard@) == Some(m.any_standard@)
            &&& spec_any_designator_group(s.any, probes.any@) == Some(m.any@)
        },
{
    let s = walkoff.sets();
    if !walkoff.is_some() {
        return Some(
            TenantMatch {
                all_standard_kind: Vec::new(),
                all_kind: Vec::new(),
                all_standard: Vec::new(),
                all: Vec::new(),
                any_standard_kind: Vec::new(),
                any_kind: Vec::new(),
                any_standard: Vec::new(),
                any: Vec::new(),
            },
        );
    }
    let all_standard_kind = match all_group(&s.all_standard_kind, &probes.all_standard_kind) {
        Some(m) => m,
        None => return None,
    };
    let all_kind = match all_group(&s.all_kind, &probes.all_kind) {
        Some(m) => m,
        None => return None,
    };
    let all_standard = match all_group(&s.all_standard, &probes.all_standard) {
        Some(m) => m,
        None => return None,
    };
    let all = match all_group(&s.all, &probes.all) {
        Some(m) => m,
        None => return None,
    };
    let any_standard_kind = match any_kind_group(&s.any_standard_kind, &probes.any_standard_kind) {
        Some(m) => m,
        None => return None,
    };
    let any_kind = match any_kind_group(&s.any_kind, &probes.any_kind) {
        Some(m) => m,
        None => return None,
    };
    let any_standard = match any_designator_group(&s.any_standard, &probes.any_standard) {
        Some(m) => m,
        None => return None,
    };
    let any = match any_designator_group(&s.any, &probes.any) {
        Some(m) => m,
        None => return None,
    };
    Some(
        TenantMatch {
            all_standard_kind,
            all_kind,
            all_standard,
            all,
            any_standard_kind,
            any_kind,
            any_standard,
            any,
        },
    )
}

/// The view of an optional string.
pub open spec fn spec_opt_str(o: Option<&str>) -> Option<Seq<char>> {
    match o {
        Some(s) => Some(s@),
        None => None,
    }
}

/// Whether a designator's file shows the designator: the file is there
/// and, where the designator has an identifier, its content, trimmed, is
/// that identifier. `content` is `None` where the file could not be read.
pub open spec fn spec_designator_found(is_file: bool, identifier: Option<Seq<char>>, content: Option<Seq<char>>) -> bool {
    is_file && match identifier {
        None => true,
        Some(id) => match content {
            Some(c) => spec_trim(c) == id,
            None => false,
        },
    }
}

/// Whether a designator's file shows the designator.
pub fn designator_found(is_file: bool, identifier: Option<&str>, content: Option<&str>) -> (r: bool)
    ensures
        r == spec_designator_found(is_file, spec_opt_str(identifier), spec_opt_str(content)),
{
    if !is_file {
        return false;
    }
    match identifier {
        None => true,
        Some(id) => match content {
            Some(c) => {
                let t = trim_chars(&str_chars(c));
                crate::inlined::chars_equal(&t, &str_chars(id))
            },
            None => false,
        },
    }
}


/// A path joined to a directory, as `Path::join` does it: an absolute
/// `rel` stands alone; otherwise it follows `dir`, after a separator where
/// `dir` is not empty and does not end with one.
pub open spec fn spec_join_path(dir: Seq<char>, rel: Seq<char>) -> Seq<char> {
    if rel.len() > 0 && rel[0] == '/' {
        rel
    } else {
        spec_path_join(dir, rel)
    }
}

/// A path joined to a directory.
pub fn join_path(dir: &str, rel: &str) -> (r: String)
    ensures
        r@ == spec_join_path(dir@, rel@),
{
    let rc = str_chars(rel);
    if rc.len() > 0 && rc[0] == '/' {
        return String::from_str(rel);
    }
    let dc = str_chars(dir);
    let mut out = String::from_str(dir);
    if dc.len() > 0 && dc[dc.len() - 1] != '/' {
        push_char(&mut out, '/');
    }
    out.append(rel);
    proof {
        if dir@.len() > 0 && dir@.last() != '/' {
            assert(out@ =~= dir@ + seq!['/'] + rel@);
        } else {
            assert(out@ =~= dir@ + rel@);
        }
    }
    out
}

/// The `.repo` directory of a directory, the current one.
#[derive(Debug)]
pub struct DotRepoDir {
    current_dir: String,
    path: String,
}

impl DotRepoDir {
    #[verifier::type_invariant]
    spec fn inv(&self) -> bool {
        self.path@ == spec_join_path(self.current_dir@, seq!['.', 'r', 'e', 'p', 'o'])
    }

    pub closed spec fn spec_current_dir(&self) -> Seq<char> {
        self.current_dir@
    }

    pub closed spec fn spec_path(&self) -> Seq<char> {
        self.path@
    }

    /// The `.repo` directory of `current_dir`.
    pub fn new(current_dir: String) -> (r: Self)
        ensures
            r.spec_current_dir() == current_dir@,
            r.spec_path() == spec_join_path(current_dir@, ".repo"@),
    {
        let path = join_path(current_dir.as_str(), ".repo");
        proof {
            reveal_strlit(".repo");
            assert(".repo"@ =~= seq!['.', 'r', 'e', 'p', 'o']);
        }
        DotRepoDir { current_dir, path }
    }

    /// The directory that holds the `.repo` directory.
    pub fn current_dir(&self) -> (r: &str)
        ensures
            r@ == self.spec_current_dir(),
    {
        self.current_dir.as_str()
    }

    /// The `.repo` directory itself.
    pub fn path(&self) -> (r: &str)
        ensures
            r@ == self.spec_path(),
            r@ == spec_join_path(self.spec_current_dir(), ".repo"@),
    {
        proof {
            use_type_invariant(self);
            reveal_strlit(".repo");
            assert(".repo"@ =~= seq!['.', 'r', 'e', 'p', 'o']);
        }
        self.path.as_str()
    }

    /// A path under the `.repo` directory.
    pub fn join(&self, rel: &str) -> (r: String)
        ensures
            r@ == spec_join_path(self.spec_path(), rel@),
    {
        join_path(self.path.as_str(), rel)
    }
}

/// Where a tenant keeps its reserved directories, relative to its own
/// directory: its exclude files, its state, and its designator files.
#[derive(Debug, Clone)]
pub struct ReservedDirs {
    pub exclude: String,
    pub state: String,
    pub designator: String,
}

/// A tenant of a `.repo` directory: where its own directory is, the top
/// directory of the repository, and its definition.
#[derive(Debug)]
pub struct DotRepo<DK: 'static> {
    dotrepo_dir: DotRepoDir,
    tenant_dir: String,
    top_dir: String,
    definition: &'static Definition<DK>,
}

impl<DK: 'static> DotRepo<DK> {
    pub closed spec fn spec_dotrepo_dir(&self) -> DotRepoDir {
        self.dotrepo_dir
    }

    pub closed spec fn spec_tenant_dir(&self) -> Seq<char> {
        self.tenant_dir@
    }

    pub closed spec fn spec_top_dir(&self) -> Seq<char> {
        self.top_dir@
    }

    pub closed spec fn spec_definition(&self) -> Definition<DK> {
        *self.definition
    }

    /// The tenant of `definition` in a `.repo` directory; `found_top` is the
    /// top directory found from the current one, and without one the
    /// tenant is topless.
    pub fn new(dotrepo_dir: DotRepoDir, found_top: Option<String>, definition: &'static Definition<DK>) -> (r: Result<
        Self,
        RepoError,
    >)
        ensures
            found_top is None ==> (r matches Err(RepoError::Topless(p)) && p@ == dotrepo_dir.spec_current_dir()),
            found_top matches Some(t) ==> (r matches Ok(d) && d.spec_top_dir() == t@
                && d.spec_dotrepo_dir() == dotrepo_dir && d.spec_definition() == *definition
                && d.spec_tenant_dir() == spec_join_path(dotrepo_dir.spec_path(), definition.spec_subdir())),
    {
        let tenant_dir = dotrepo_dir.join(definition.tenant_path());
        match found_top {
            Some(top_dir) => Ok(DotRepo { dotrepo_dir, tenant_dir, top_dir, definition }),
            None => Err(RepoError::Topless(String::from_str(dotrepo_dir.current_dir()))),
        }
    }

    /// The tenant of `definition` being created in a `.repo` directory,
    /// designated the top or not; `found_top` is the top directory found
    /// from the current one. A new top must have none above it, and any
    /// other directory one. The directories and files of the tenant are
    /// made by the caller.
    pub fn init(dotrepo_dir: DotRepoDir, definition: &'static Definition<DK>, is_top: bool, found_top: Option<String>) -> (r:
        Result<Self, RepoError>)
        ensures
            is_top && found_top is Some ==> (r matches Err(RepoError::TopAlreadyExists(p)) && p@
                == dotrepo_dir.spec_current_dir()),
            !is_top && found_top is None ==> (r matches Err(RepoError::Topless(p)) && p@
                == dotrepo_dir.spec_current_dir()),
            r is Ok <==> (is_top == (found_top is None)),
            r matches Ok(d) ==> {
                &&& d.spec_top_dir() == (if is_top {
                    dotrepo_dir.spec_current_dir()
                } else {
                    found_top->Some_0@
                })
                &&& d.spec_dotrepo_dir() == dotrepo_dir
                &&& d.spec_definition() == *definition
                &&& d.spec_tenant_dir() == spec_join_path(dotrepo_dir.spec_path(), definition.spec_subdir())
            },
    {
        let tenant_dir = dotrepo_dir.join(definition.tenant_path());
        match init_top_dir(is_top, found_top, dotrepo_dir.current_dir()) {
            Ok(top_dir) => Ok(DotRepo { dotrepo_dir, tenant_dir, top_dir, definition }),
            Err(e) => Err(e),
        }
    }

    /// The tenant being created in `current_path` under the top directory,
    /// designated the top or not, as `init` decides it for that directory.
    pub fn create(&self, current_path: &str, is_top: bool, found_top: Option<String>) -> (r: Result<Self, RepoError>)
        ensures
            r is Ok <==> (is_top == (found_top is None)),
            r matches Ok(d) ==> {
                &&& d.spec_dotrepo_dir().spec_current_dir() == spec_join_path(self.spec_top_dir(), current_path@)
                &&& d.spec_top_dir() == (if is_top {
                    spec_join_path(self.spec_top_dir(), current_path@)
                } else {
                    found_top->Some_0@
                })
                &&& d.spec_definition() == self.spec_definition()
            },
            r matches Err(RepoError::Topless(p)) ==> p@ == spec_join_path(self.spec_top_dir(), current_path@),
            r matches Err(RepoError::TopAlreadyExists(p)) ==> p@ == spec_join_path(self.spec_top_dir(), current_path@),
    {
        let dir = DotRepoDir::new(join_path(self.top_dir.as_str(), current_path));
        Self::init(dir, self.definition, is_top, found_top)
    }

    /// The directory of the tenant's exclude files: the tenant's directory
    /// joined with the exclude directory of `reserved`.
    pub fn excludes_dir(&self, reserved: &ReservedDirs) -> (r: String)
        ensures
            r@ == spec_join_path(self.spec_tenant_dir(), reserved.exclude@),
    {
        join_path(self.tenant_dir.as_str(), reserved.exclude.as_str())
    }

    /// The directory of the tenant's state: the tenant's directory joined
    /// with the state directory of `reserved`.
    pub fn state_dir(&self, reserved: &ReservedDirs) -> (r: String)
        ensures
            r@ == spec_join_path(self.spec_tenant_dir(), reserved.state@),
    {
        join_path(self.tenant_dir.as_str(), reserved.state.as_str())
    }

    /// The directory of the tenant's designator files: the tenant's
    /// directory joined with the designator directory of `reserved`.
    pub fn designator_dir(&self, reserved: &ReservedDirs) -> (r: String)
        ensures
            r@ == spec_join_path(self.spec_tenant_dir(), reserved.designator@),
    {
        join_path(self.tenant_dir.as_str(), reserved.designator.as_str())
    }

    /// The `.repo` directory.
    pub fn dotrepo_dir(&self) -> (r: &str)
        ensures
            r@ == self.spec_dotrepo_dir().spec_path(),
    {
        self.dotrepo_dir.path()
    }

    /// The tenant's own directory under `.repo`.
    pub fn tenant_dir(&self) -> (r: &str)
        ensures
            r@ == self.spec_tenant_dir(),
    {
        self.tenant_dir.as_str()
    }

    /// The tenant's directory relative to `.repo`.
    pub fn tenant_relative_path(&self) -> (r: &'static str)
        ensures
            r@ == self.spec_definition().spec_subdir(),
    {
        self.definition.tenant_path()
    }

    /// The directory that holds the `.repo` directory.
    pub fn current_dir(&self) -> (r: &str)
        ensures
            r@ == self.spec_dotrepo_dir().spec_current_dir(),
    {
        self.dotrepo_dir.current_dir()
    }

    /// The top directory of the repository.
    pub fn top_dir(&self) -> (r: &str)
        ensures
            r@ == self.spec_top_dir(),
    {
        self.top_dir.as_str()
    }

    /// The definition of the tenant.
    pub fn definition(&self) -> (r: &'static Definition<DK>)
        ensures
            *r == self.spec_definition(),
    {
        self.definition
    }
}


/// A step of creating a tenant's directories and files. Where a step
/// names a designated directory, it is by its place among those given.
#[derive(Debug, Clone, Copy, PartialEq, Eq)]
pub enum InitAction {
    /// Creates the tenant's own directory.
    CreateTenantDir,
    /// Creates the reserved directories that a top always has.
    CreateTopReservedDirs,
    /// Writes the tenant's version.
    WriteSemVer(u64, u64, u64),
    /// Writes an empty standard exclude file.
    WriteStandardExcludes,
    /// Writes the designator files of the designated directories.
    WriteDesignatorFiles,
    /// Creates the local directory.
    CreateLocalDir,
    /// Creates the local state directory of a designated directory.
    CreateLocalStateDir(usize),
    /// Creates the state directory of a designated directory.
    CreateStateDir(usize),
    /// Writes the top's default excludes as a designated directory's
    /// exclude file.
    WriteDesignatorExcludes(usize),
}

/// The steps for the designated directory at `i` with the definition `d`:
/// the local directory where it is local; where it has state, a local state
/// directory (where also local) and a state directory; its exclude file
/// where it has excludes and the top has default excludes.
pub open spec fn spec_designated_actions(i: usize, d: (bool, bool, bool, Option<Seq<char>>), top_globs: bool) -> Seq<InitAction> {
    (if d.2 { seq![InitAction::CreateLocalDir] } else { Seq::empty() })
        + (if d.1 {
        (if d.2 { seq![InitAction::CreateLocalStateDir(i)] } else { Seq::empty() }) + seq![InitAction::CreateStateDir(i)]
    } else {
        Seq::empty()
    }) + (if d.0 && top_globs { seq![InitAction::WriteDesignatorExcludes(i)] } else { Seq::empty() })
}

/// The steps for the first `n` designated directories, in order.
pub open spec fn spec_all_designated_actions(defs: Seq<DesignatedDefinition>, n: nat, top_globs: bool) -> Seq<InitAction>
    decreases n,
{
    if n == 0 {
        Seq::empty()
    } else {
        spec_all_designated_actions(defs, (n - 1) as nat, top_globs) + spec_designated_actions(
            (n - 1) as usize,
            defs[n - 1]@,
            top_globs,
        )
    }
}

/// The steps of creating a tenant of `def`: its directory where it is
/// missing; for a top, the reserved directories, the version, and an empty
/// standard exclude file where the top has excludes; where directories are
/// designated, their designator files, then the steps of each.
pub open spec fn spec_init_plan<DK>(
    def: Definition<DK>,
    is_top: bool,
    tenant_dir_exists: bool,
    designated: Option<Seq<DesignatedDefinition>>,
) -> Seq<InitAction> {
    let v = def.spec_semver();
    (if tenant_dir_exists { Seq::empty() } else { seq![InitAction::CreateTenantDir] }) + (if is_top {
        seq![InitAction::CreateTopReservedDirs, InitAction::WriteSemVer(v.0, v.1, v.2)] + (if def.spec_top()@.0 {
            seq![InitAction::WriteStandardExcludes]
        } else {
            Seq::empty()
        })
    } else {
        Seq::empty()
    }) + match designated {
        Some(ds) => seq![InitAction::WriteDesignatorFiles] + spec_all_designated_actions(
            ds,
            ds.len(),
            def.spec_top()@.3 is Some,
        ),
        None => Seq::empty(),
    }
}

/// The steps of creating a tenant of `def`, designated the top or not,
/// with the definitions of the directories it designates, in order; the
/// caller carries them out.
pub fn init_plan<DK>(
    def: &Definition<DK>,
    is_top: bool,
    tenant_dir_exists: bool,
    designated: Option<&Vec<DesignatedDefinition>>,
) -> (r: Vec<InitAction>)
    ensures
        r@ == spec_init_plan(
            *def,
            is_top,
            tenant_dir_exists,
            match designated {
                Some(v) => Some(v@),
                None => None,
            },
        ),
{
    let mut out: Vec<InitAction> = Vec::new();
    if !tenant_dir_exists {
        out.push(InitAction::CreateTenantDir);
    }
    let ghost first = out@;
    if is_top {
        let v = def.semver();
        out.push(InitAction::CreateTopReservedDirs);
        out.push(InitAction::WriteSemVer(v.0, v.1, v.2));
        if def.top_definition().excludes() {
            out.push(InitAction::WriteStandardExcludes);
        }
    }
    let ghost second = out@;
    let top = def.top_definition();
    let top_globs = top.default_excludes().is_some();
    proof {
        let v = def.spec_semver();
        assert(second =~= first + (if is_top {
            seq![InitAction::CreateTopReservedDirs, InitAction::WriteSemVer(v.0, v.1, v.2)] + (if def.spec_top()@.0 {
                seq![InitAction::WriteStandardExcludes]
            } else {
                Seq::empty()
            })
        } else {
            Seq::empty()
        }));
    }
    match designated {
        Some(ds) => {
            out.push(InitAction::WriteDesignatorFiles);
            let mut i: usize = 0;
            while i < ds.len()
                invariant
                    i <= ds@.len(),
                    top_globs == (def.spec_top()@.3 is Some),
                    out@ == second + seq![InitAction::WriteDesignatorFiles] + spec_all_designated_actions(
                        ds@,
                        i as nat,
                        top_globs,
                    ),
                decreases ds@.len() - i,
            {
                let ghost before = out@;
                let d = &ds[i];
                if d.local() {
                    out.push(InitAction::CreateLocalDir);
                }
                if d.state() {
                    if d.local() {
                        out.push(InitAction::CreateLocalStateDir(i));
                    }
                    out.push(InitAction::CreateStateDir(i));
                }
                if d.excludes() && top_globs {
                    out.push(InitAction::WriteDesignatorExcludes(i));
                }
                proof {
                    assert(out@ =~= before + spec_designated_actions(i, ds@[i as int]@, top_globs));
                    assert(spec_all_designated_actions(ds@, (i + 1) as nat, top_globs) == spec_all_designated_actions(
                        ds@,
                        i as nat,
                        top_globs,
                    ) + spec_designated_actions(i, ds@[i as int]@, top_globs));
                    assert(out@ =~= second + seq![InitAction::WriteDesignatorFiles] + spec_all_designated_actions(
                        ds@,
                        (i + 1) as nat,
                        top_globs,
                    ));
                }
                i = i + 1;
            }
        },
        None => {},
    }
    proof {
        assert(out@ =~= spec_init_plan(
            *def,
            is_top,
            tenant_dir_exists,
            match designated {
                Some(v) => Some(v@),
                None => None,
            },
        ));
    }
    out
}

} // verus!
