//! Definitions of `.repo` tenants, the decisions made when a tenant is
//! created, and which entries a walk of a repository keeps.
use vstd::prelude::*;
use crate::inlined::spec_components;
use crate::tenant::spec_last_given;
use crate::text::{str_chars, split_chars};
use vstd::std_specs::cmp::PartialEqSpec;

verus! {

/// The directory of all tenants.
pub const DOTREPO: &'static str = ".repo";

/// The directory of globs.
pub const GLOBS: &'static str = "globs";

/// How a designated directory of a tenant behaves: whether it has excludes,
/// state and local directories, and its default exclude globs.
#[derive(Debug, Clone, Copy, PartialEq, Eq)]
pub struct DesignatedDefinition {
    excludes: bool,
    state: bool,
    local: bool,
    default_excludes: Option<&'static str>,
}

/// The flags and default globs of a designated definition.
pub type DesignatedModel = (bool, bool, bool, Option<Seq<char>>);

/// The text of optional globs.
pub open spec fn spec_globs(g: Option<&'static str>) -> Option<Seq<char>> {
    match g {
        Some(s) => Some(s@),
        None => None,
    }
}

impl View for DesignatedDefinition {
    type V = DesignatedModel;

    closed spec fn view(&self) -> DesignatedModel {
        (self.excludes, self.state, self.local, spec_globs(self.default_excludes))
    }
}

impl DesignatedDefinition {
    pub fn builder() -> (r: DesignatedDefinitionBuilder)
        ensures
            r@ == (false, false, false, None::<Seq<char>>),
    {
        DesignatedDefinitionBuilder::new()
    }

    pub fn excludes(&self) -> (b: bool)
        ensures
            b == self@.0,
    {
        self.excludes
    }

    pub fn state(&self) -> (b: bool)
        ensures
            b == self@.1,
    {
        self.state
    }

    pub fn local(&self) -> (b: bool)
        ensures
            b == self@.2,
    {
        self.local
    }

    pub fn default_excludes(&self) -> (r: Option<&'static str>)
        ensures
            spec_globs(r) == self@.3,
    {
        self.default_excludes
    }
}

/// Builds a designated definition; everything starts off.
#[derive(Debug, Clone, Copy)]
pub struct DesignatedDefinitionBuilder {
    excludes: bool,
    state: bool,
    local: bool,
    default_excludes: Option<&'static str>,
}

impl View for DesignatedDefinitionBuilder {
    type V = DesignatedModel;

    closed spec fn view(&self) -> DesignatedModel {
        (self.excludes, self.state, self.local, spec_globs(self.default_excludes))
    }
}

impl DesignatedDefinitionBuilder {
    pub fn new() -> (r: Self)
        ensures
            r@ == (false, false, false, None::<Seq<char>>),
    {
        DesignatedDefinitionBuilder { excludes: false, state: false, local: false, default_excludes: None }
    }

    pub fn using_excludes(self) -> (r: Self)
        ensures
            r@ == (true, self@.1, self@.2, self@.3),
    {
        DesignatedDefinitionBuilder { excludes: true, ..self }
    }

    pub fn using_state(self) -> (r: Self)
        ensures
            r@ == (self@.0, true, self@.2, self@.3),
    {
        DesignatedDefinitionBuilder { state: true, ..self }
    }

    pub fn using_local(self) -> (r: Self)
        ensures
            r@ == (self@.0, self@.1, true, self@.3),
    {
        DesignatedDefinitionBuilder { local: true, ..self }
    }

    /// Default exclude globs; they turn excludes on.
    pub fn default_excludes(self, globs: &'static str) -> (r: Self)
        ensures
            r@ == (true, self@.1, self@.2, Some(globs@)),
    {
        DesignatedDefinitionBuilder { excludes: true, default_excludes: Some(globs), ..self }
    }

    pub fn build(self) -> (r: DesignatedDefinition)
        ensures
            r@ == self@,
    {
        DesignatedDefinition {
            excludes: self.excludes,
            state: self.state,
            local: self.local,
            default_excludes: self.default_excludes,
        }
    }
}

/// How a tenant behaves: its directory under `.repo`, name, version, and
/// the definitions of its top directory, its modules, and each kind of its
/// designators.
#[derive(Debug)]
pub struct Definition<DK> {
    subdir: &'static str,
    name: &'static str,
    semver: (u64, u64, u64),
    designated_top: DesignatedDefinition,
    designated_module: Option<DesignatedDefinition>,
    designated: Vec<(DK, DesignatedDefinition)>,
}

impl<DK> Definition<DK> {
    pub closed spec fn spec_subdir(&self) -> Seq<char> {
        self.subdir@
    }

    pub closed spec fn spec_name(&self) -> Seq<char> {
        self.name@
    }

    pub closed spec fn spec_semver(&self) -> (u64, u64, u64) {
        self.semver
    }

    pub closed spec fn spec_top(&self) -> DesignatedDefinition {
        self.designated_top
    }

    pub closed spec fn spec_module(&self) -> Option<DesignatedDefinition> {
        self.designated_module
    }

    pub closed spec fn spec_tenants(&self) -> Seq<(DK, DesignatedDefinition)> {
        self.designated@
    }

    pub fn builder() -> (r: DefinitionBuilder<DK>)
        ensures
            r.is_empty(),
    {
        DefinitionBuilder::new()
    }

    /// The tenant's directory, relative to `.repo`.
    pub fn tenant_path(&self) -> (r: &'static str)
        ensures
            r@ == self.spec_subdir(),
    {
        self.subdir
    }

    pub fn tenant_path_str(&self) -> (r: &'static str)
        ensures
            r@ == self.spec_subdir(),
    {
        self.subdir
    }

    pub fn name(&self) -> (r: &'static str)
        ensures
            r@ == self.spec_name(),
    {
        self.name
    }

    /// Major, minor and patch of the tenant's version.
    pub fn semver(&self) -> (r: (u64, u64, u64))
        ensures
            r == self.spec_semver(),
    {
        self.semver
    }

    /// The tenant's version as major, minor and patch; a semantic version
    /// of these three numbers.
    pub fn version(&self) -> (r: (u64, u64, u64))
        ensures
            r == self.spec_semver(),
    {
        self.semver
    }

    pub fn top_definition(&self) -> (r: &DesignatedDefinition)
        ensures
            *r == self.spec_top(),
    {
        &self.designated_top
    }

    pub fn module_definition(&self) -> (r: Option<&DesignatedDefinition>)
        ensures
            match self.spec_module() {
                Some(d) => r == Some(&d),
                None => r is None,
            },
    {
        match &self.designated_module {
            Some(d) => Some(d),
            None => None,
        }
    }

    pub fn tenant_definition_tuples(&self) -> (r: &Vec<(DK, DesignatedDefinition)>)
        ensures
            r@ == self.spec_tenants(),
    {
        &self.designated
    }

    /// The definition of a designated directory: the top's, the modules',
    /// or that of the first tenant tuple of the designator's kind. The
    /// tenant must define one for it: a module definition for a module, a
    /// tuple of the kind for a tenant designator.
    pub fn designated(&self, designation: &Designation<DK>) -> (r: &DesignatedDefinition)
        where
            DK: PartialEq,
        requires
            designation is Module ==> self.spec_module() is Some,
            designation matches Designation::Tenant(k) ==> DK::obeys_eq_spec() && exists|i: int|
                0 <= i < self.spec_tenants().len() && #[trigger] self.spec_tenants()[i].0.eq_spec(k),
        ensures
            designation is Top ==> *r == self.spec_top(),
            designation is Module ==> *r == self.spec_module()->Some_0,
            designation matches Designation::Tenant(k) ==> exists|i: int|
                spec_first_of_kind(self.spec_tenants(), *k, i) && *r == #[trigger] self.spec_tenants()[i].1,
    {
        match designation {
            Designation::Top => &self.designated_top,
            Designation::Module => self.designated_module.as_ref().unwrap(),
            Designation::Tenant(k) => {
                let mut i: usize = 0;
                while i < self.designated.len()
                    invariant
                        i <= self.designated@.len(),
                        *designation == Designation::Tenant(*k),
                        DK::obeys_eq_spec(),
                        exists|j: int| 0 <= j < self.designated@.len() && #[trigger] self.designated@[j].0.eq_spec(k),
                        forall|j: int| 0 <= j < i ==> !(#[trigger] self.designated@[j].0.eq_spec(k)),
                    decreases self.designated@.len() - i,
                {
                    if self.designated[i].0 == *k {
                        proof {
                            assert(spec_first_of_kind(self.spec_tenants(), *k, i as int));
                        }
                        return &self.designated[i].1;
                    }
                    i = i + 1;
                }
                let none: Option<&DesignatedDefinition> = None;
                none.unwrap()
            },
        }
    }
}

/// The kinds of a tenant's designators, which a tenant implements: how
/// many kinds there are.
pub trait DesignatorKindCount {
    /// How many kinds there are.
    const COUNT: usize;
}

/// Which designated directory a definition is asked for: the top, a
/// module, or one that the tenant designates with a designator of a kind.
#[derive(Debug, Clone, Copy, PartialEq, Eq)]
pub enum Designation<DK> {
    Top,
    Module,
    Tenant(DK),
}

/// Whether `i` is the first tuple of the kind `k`.
pub open spec fn spec_first_of_kind<DK: PartialEq>(t: Seq<(DK, DesignatedDefinition)>, k: DK, i: int) -> bool {
    &&& 0 <= i < t.len()
    &&& t[i].0.eq_spec(&k)
    &&& forall|j: int| 0 <= j < i ==> !(#[trigger] t[j].0.eq_spec(&k))
}

/// The optional view of a designated definition.
pub open spec fn spec_opt_designated(d: Option<DesignatedDefinition>) -> Option<DesignatedModel> {
    match d {
        Some(x) => Some(x@),
        None => None,
    }
}

/// What a definition builder was given: directory, name, version, the
/// top's and the modules' definitions, and the tenant tuples.
pub type DefinitionModel<DK> = (
    Option<Seq<char>>,
    Option<Seq<char>>,
    Option<(u64, u64, u64)>,
    Option<DesignatedModel>,
    Option<DesignatedModel>,
    Option<Seq<(DK, DesignatedDefinition)>>,
);

/// A builder that was given nothing.
pub open spec fn spec_empty_model<DK>() -> DefinitionModel<DK> {
    (None, None, None, None, None, None)
}

/// A call of one of the setters of `DefinitionBuilder`, with what it was
/// given.
pub enum DefinitionCall<DK> {
    RelativePath(Seq<char>),
    Name(Seq<char>),
    Version(u64, u64, u64),
    TopDefinition(DesignatedModel),
    ModuleDefinition(DesignatedModel),
    TenantDefinitions(Seq<(DK, DesignatedDefinition)>),
}

/// What a builder was given after one more setter call.
pub open spec fn spec_apply_def_call<DK>(m: DefinitionModel<DK>, c: DefinitionCall<DK>) -> DefinitionModel<DK> {
    match c {
        DefinitionCall::RelativePath(p) => (Some(p), m.1, m.2, m.3, m.4, m.5),
        DefinitionCall::Name(n) => (m.0, Some(n), m.2, m.3, m.4, m.5),
        DefinitionCall::Version(a, b, c) => (m.0, m.1, Some((a, b, c)), m.3, m.4, m.5),
        DefinitionCall::TopDefinition(d) => (m.0, m.1, m.2, Some(d), m.4, m.5),
        DefinitionCall::ModuleDefinition(d) => (m.0, m.1, m.2, m.3, Some(d), m.5),
        DefinitionCall::TenantDefinitions(t) => (m.0, m.1, m.2, m.3, m.4, Some(t)),
    }
}

/// What a builder was given after a sequence of setter calls, in order.
pub open spec fn spec_apply_def_calls<DK>(m: DefinitionModel<DK>, calls: Seq<DefinitionCall<DK>>) -> DefinitionModel<DK>
    decreases calls.len(),
{
    if calls.len() == 0 {
        m
    } else {
        spec_apply_def_call(spec_apply_def_calls(m, calls.drop_last()), calls.last())
    }
}

/// After any sequence of setter calls on a new builder, each part is what
/// its setter's last call gave, and unset where its setter was not called;
/// the builder can build exactly where the directory, name, version and top
/// definition were each given.
pub proof fn law_definition_builder_keeps_last<DK>(b: DefinitionBuilder<DK>, calls: Seq<DefinitionCall<DK>>)
    requires
        b.spec_model() == spec_apply_def_calls(spec_empty_model::<DK>(), calls),
    ensures
        b.spec_subdir() == spec_last_given(calls, |c: DefinitionCall<DK>| match c {
            DefinitionCall::RelativePath(p) => Some(p),
            _ => None,
        }),
        b.spec_name() == spec_last_given(calls, |c: DefinitionCall<DK>| match c {
            DefinitionCall::Name(n) => Some(n),
            _ => None,
        }),
        b.spec_semver() == spec_last_given(calls, |c: DefinitionCall<DK>| match c {
            DefinitionCall::Version(x, y, z) => Some((x, y, z)),
            _ => None,
        }),
        spec_opt_designated(b.spec_top()) == spec_last_given(calls, |c: DefinitionCall<DK>| match c {
            DefinitionCall::TopDefinition(d) => Some(d),
            _ => None,
        }),
        spec_opt_designated(b.spec_module()) == spec_last_given(calls, |c: DefinitionCall<DK>| match c {
            DefinitionCall::ModuleDefinition(d) => Some(d),
            _ => None,
        }),
        b.spec_tenants() == spec_last_given(calls, |c: DefinitionCall<DK>| match c {
            DefinitionCall::TenantDefinitions(t) => Some(t),
            _ => None,
        }),
        b.is_complete() == (b.spec_subdir() is Some && b.spec_name() is Some && b.spec_semver() is Some
            && b.spec_top() is Some),
{
    lemma_def_calls_last(calls);
}

proof fn lemma_def_calls_last<DK>(calls: Seq<DefinitionCall<DK>>)
    ensures
        ({
            let m = spec_apply_def_calls(spec_empty_model::<DK>(), calls);
            &&& m.0 == spec_last_given(calls, |c: DefinitionCall<DK>| match c {
                DefinitionCall::RelativePath(p) => Some(p),
                _ => None,
            })
            &&& m.1 == spec_last_given(calls, |c: DefinitionCall<DK>| match c {
                DefinitionCall::Name(n) => Some(n),
                _ => None,
            })
            &&& m.2 == spec_last_given(calls, |c: DefinitionCall<DK>| match c {
                DefinitionCall::Version(x, y, z) => Some((x, y, z)),
                _ => None,
            })
            &&& m.3 == spec_last_given(calls, |c: DefinitionCall<DK>| match c {
                DefinitionCall::TopDefinition(d) => Some(d),
                _ => None,
            })
            &&& m.4 == spec_last_given(calls, |c: DefinitionCall<DK>| match c {
                DefinitionCall::ModuleDefinition(d) => Some(d),
                _ => None,
            })
            &&& m.5 == spec_last_given(calls, |c: DefinitionCall<DK>| match c {
                DefinitionCall::TenantDefinitions(t) => Some(t),
                _ => None,
            })
        }),
    decreases calls.len(),
{
    if calls.len() > 0 {
        lemma_def_calls_last(calls.drop_last());
    }
}

/// Builds a tenant definition.
#[derive(Debug)]
pub struct DefinitionBuilder<DK> {
    subdir: Option<&'static str>,
    name: Option<&'static str>,
    semver: Option<(u64, u64, u64)>,
    designated_top: Option<DesignatedDefinition>,
    designated_module: Option<DesignatedDefinition>,
    designated: Option<Vec<(DK, DesignatedDefinition)>>,
}

impl<DK> DefinitionBuilder<DK> {
    pub closed spec fn is_empty(&self) -> bool {
        &&& self.subdir is None
        &&& self.name is None
        &&& self.semver is None
        &&& self.designated_top is None
        &&& self.designated_module is None
        &&& self.designated is None
    }

    /// Whether everything that a definition needs is given.
    pub closed spec fn is_complete(&self) -> bool {
        &&& self.subdir is Some
        &&& self.name is Some
        &&& self.semver is Some
        &&& self.designated_top is Some
    }

    pub closed spec fn spec_subdir(&self) -> Option<Seq<char>> {
        match self.subdir {
            Some(s) => Some(s@),
            None => None,
        }
    }

    pub closed spec fn spec_name(&self) -> Option<Seq<char>> {
        match self.name {
            Some(s) => Some(s@),
            None => None,
        }
    }

    pub closed spec fn spec_semver(&self) -> Option<(u64, u64, u64)> {
        self.semver
    }

    pub closed spec fn spec_top(&self) -> Option<DesignatedDefinition> {
        self.designated_top
    }

    pub closed spec fn spec_module(&self) -> Option<DesignatedDefinition> {
        self.designated_module
    }

    pub closed spec fn spec_tenants(&self) -> Option<Seq<(DK, DesignatedDefinition)>> {
        match self.designated {
            Some(v) => Some(v@),
            None => None,
        }
    }

    /// What the builder was given: directory, name, version, the top's and
    /// the modules' definitions, and the tenant tuples.
    pub closed spec fn spec_model(&self) -> DefinitionModel<DK> {
        (
            self.spec_subdir(),
            self.spec_name(),
            self.spec_semver(),
            spec_opt_designated(self.designated_top),
            spec_opt_designated(self.designated_module),
            self.spec_tenants(),
        )
    }

    pub fn new() -> (r: Self)
        ensures
            r.is_empty(),
            r.spec_model() == spec_empty_model::<DK>(),
    {
        DefinitionBuilder {
            subdir: None,
            name: None,
            semver: None,
            designated_top: None,
            designated_module: None,
            designated: None,
        }
    }

    pub fn relative_path(self, path: &'static str) -> (r: Self)
        ensures
            r.spec_model() == spec_apply_def_call(self.spec_model(), DefinitionCall::RelativePath(path@)),
            r.spec_subdir() == Some(path@),
            r.spec_name() == self.spec_name(),
            r.spec_semver() == self.spec_semver(),
            r.spec_top() == self.spec_top(),
            r.spec_module() == self.spec_module(),
            r.spec_tenants() == self.spec_tenants(),
            r.is_complete() == (self.spec_name() is Some && self.spec_semver() is Some && self.spec_top() is Some),
    {
        DefinitionBuilder { subdir: Some(path), ..self }
    }

    pub fn name(self, name: &'static str) -> (r: Self)
        ensures
            r.spec_model() == spec_apply_def_call(self.spec_model(), DefinitionCall::Name(name@)),
            r.spec_subdir() == self.spec_subdir(),
            r.spec_name() == Some(name@),
            r.spec_semver() == self.spec_semver(),
            r.spec_top() == self.spec_top(),
            r.spec_module() == self.spec_module(),
            r.spec_tenants() == self.spec_tenants(),
            r.is_complete() == (self.spec_subdir() is Some && self.spec_semver() is Some && self.spec_top() is Some),
    {
        DefinitionBuilder { name: Some(name), ..self }
    }

    pub fn version(self, major: u64, minor: u64, patch: u64) -> (r: Self)
        ensures
            r.spec_model() == spec_apply_def_call(self.spec_model(), DefinitionCall::Version(major, minor, patch)),
            r.spec_subdir() == self.spec_subdir(),
            r.spec_name() == self.spec_name(),
            r.spec_semver() == Some((major, minor, patch)),
            r.spec_top() == self.spec_top(),
            r.spec_module() == self.spec_module(),
            r.spec_tenants() == self.spec_tenants(),
            r.is_complete() == (self.spec_subdir() is Some && self.spec_name() is Some && self.spec_top() is Some),
    {
        DefinitionBuilder { semver: Some((major, minor, patch)), ..self }
    }

    pub fn top_definition(self, builder: DesignatedDefinitionBuilder) -> (r: Self)
        ensures
            r.spec_model() == spec_apply_def_call(self.spec_model(), DefinitionCall::TopDefinition(builder@)),
            r.spec_subdir() == self.spec_subdir(),
            r.spec_name() == self.spec_name(),
            r.spec_semver() == self.spec_semver(),
            r.spec_top() matches Some(d) && d@ == builder@,
            r.spec_module() == self.spec_module(),
            r.spec_tenants() == self.spec_tenants(),
            r.is_complete() == (self.spec_subdir() is Some && self.spec_name() is Some && self.spec_semver() is Some),
    {
        DefinitionBuilder { designated_top: Some(builder.build()), ..self }
    }

    pub fn module_definition(self, builder: DesignatedDefinitionBuilder) -> (r: Self)
        ensures
            r.spec_model() == spec_apply_def_call(self.spec_model(), DefinitionCall::ModuleDefinition(builder@)),
            r.spec_subdir() == self.spec_subdir(),
            r.spec_name() == self.spec_name(),
            r.spec_semver() == self.spec_semver(),
            r.spec_top() == self.spec_top(),
            r.spec_module() matches Some(d) && d@ == builder@,
            r.spec_tenants() == self.spec_tenants(),
            r.is_complete() == self.is_complete(),
    {
        DefinitionBuilder { designated_module: Some(builder.build()), ..self }
    }

    /// The definitions of each kind of the tenant's designators: one tuple
    /// for each kind there is.
    pub fn tenant_definitions(self, tuples: Vec<(DK, DesignatedDefinition)>) -> (r: Self)
        where
            DK: DesignatorKindCount,
        requires
            tuples@.len() == DK::COUNT,
        ensures
            r.spec_model() == spec_apply_def_call(self.spec_model(), DefinitionCall::TenantDefinitions(tuples@)),
            r.spec_subdir() == self.spec_subdir(),
            r.spec_name() == self.spec_name(),
            r.spec_semver() == self.spec_semver(),
            r.spec_top() == self.spec_top(),
            r.spec_module() == self.spec_module(),
            r.spec_tenants() == Some(tuples@),
            r.is_complete() == self.is_complete(),
    {
        DefinitionBuilder { designated: Some(tuples), ..self }
    }

    /// The definition; the directory, name, version and top definition are
    /// required, tenant definitions default to none.
    pub fn build(self) -> (r: Definition<DK>)
        requires
            self.is_complete(),
        ensures
            Some(r.spec_subdir()) == self.spec_subdir(),
            Some(r.spec_name()) == self.spec_name(),
            Some(r.spec_semver()) == self.spec_semver(),
            Some(r.spec_top()) == self.spec_top(),
            r.spec_module() == self.spec_module(),
            r.spec_tenants() == match self.spec_tenants() {
                Some(t) => t,
                None => Seq::empty(),
            },
    {
        let designated = match self.designated {
            Some(d) => d,
            None => Vec::new(),
        };
        Definition {
            subdir: self.subdir.unwrap(),
            name: self.name.unwrap(),
            semver: self.semver.unwrap(),
            designated_top: self.designated_top.unwrap(),
            designated_module: self.designated_module,
            designated,
        }
    }
}

/// An error of a `.repo` tenant.
#[derive(Debug)]
pub enum RepoError {
    Io(String, std::io::Error),
    Topless(String),
    TopAlreadyExists(String),
}

/// The top directory of a tenant being created in `current_dir`: the
/// current directory where it is designated the top and no top exists
/// above, the top found above otherwise.
pub fn init_top_dir(is_top: bool, found_top: Option<String>, current_dir: &str) -> (r: Result<String, RepoError>)
    ensures
        is_top && found_top is Some ==> (r matches Err(RepoError::TopAlreadyExists(p)) && p@ == current_dir@),
        is_top && found_top is None ==> (r matches Ok(t) && t@ == current_dir@),
        !is_top && found_top is Some ==> r == Ok::<String, RepoError>(found_top->Some_0),
        !is_top && found_top is None ==> (r matches Err(RepoError::Topless(p)) && p@ == current_dir@),
{
    if is_top {
        match found_top {
            Some(_) => Err(RepoError::TopAlreadyExists(String::from_str(current_dir))),
            None => Ok(String::from_str(current_dir)),
        }
    } else {
        match found_top {
            Some(t) => Ok(t),
            None => Err(RepoError::Topless(String::from_str(current_dir))),
        }
    }
}

/// The directories that a designated definition asks for, in the order
/// they are made: local, then the local state, then the state.
#[derive(Debug, Clone, Copy, PartialEq, Eq)]
pub struct DesignatedDirs {
    pub local: bool,
    pub local_state: bool,
    pub state: bool,
}

/// The directories of a designated definition: local where it is local, a
/// state directory where it has state, and a local state directory where it
/// has both.
pub fn designated_dirs(def: &DesignatedDefinition) -> (r: DesignatedDirs)
    ensures
        r.local == def@.2,
        r.state == def@.1,
        r.local_state == (def@.1 && def@.2),
{
    DesignatedDirs { local: def.local, local_state: def.state && def.local, state: def.state }
}

/// How a walk orders the entries of a directory.
#[derive(Debug, Clone, Copy, PartialEq, Eq)]
pub enum SortBy {
    Unsorted,
    Name,
}

impl Default for SortBy {
    fn default() -> (r: Self)
        ensures
            r == SortBy::Unsorted,
    {
        SortBy::Unsorted
    }
}

/// Options of a walk through a repository.
#[derive(Debug, Clone, Copy, PartialEq, Eq)]
pub struct WalkOff {
    pub sort_by: SortBy,
    pub follow_links: bool,
    pub filter_excludes: bool,
    pub skip_git_dirs: bool,
    pub skip_gitignore_files: bool,
    pub skip_dotrepo_dirs: bool,
    pub skip_dotrepo_self: bool,
}

/// The options of a walk that sorts by name, follows links, filters
/// excludes and skips what is git's and `.repo`'s.
pub open spec fn spec_default_walkoff() -> WalkOff {
    WalkOff {
        sort_by: SortBy::Name,
        follow_links: true,
        filter_excludes: true,
        skip_git_dirs: true,
        skip_gitignore_files: true,
        skip_dotrepo_dirs: true,
        skip_dotrepo_self: true,
    }
}

impl Default for WalkOff {
    fn default() -> (r: Self)
        ensures
            r == spec_default_walkoff(),
    {
        WalkOff {
            sort_by: SortBy::Name,
            follow_links: true,
            filter_excludes: true,
            skip_git_dirs: true,
            skip_gitignore_files: true,
            skip_dotrepo_dirs: true,
            skip_dotrepo_self: true,
        }
    }
}

impl WalkOff {
    /// A builder whose options start as the defaults.
    pub fn builder() -> (r: WalkOffBuilder)
        ensures
            r.walkoff == spec_default_walkoff(),
    {
        WalkOffBuilder { walkoff: WalkOff::default() }
    }

    /// Whether the walk filters excludes.
    pub fn using_excludes(&self) -> (b: bool)
        ensures
            b == self.filter_excludes,
    {
        self.filter_excludes
    }

    /// Whether entries are filtered at all.
    pub fn filters_entries(&self) -> (b: bool)
        ensures
            b == (self.skip_dotrepo_dirs || self.skip_git_dirs || self.skip_dotrepo_self || self.filter_excludes),
    {
        self.skip_dotrepo_dirs || self.skip_git_dirs || self.skip_dotrepo_self || self.filter_excludes
    }
}

/// Builds walk options; what is not set keeps its default.
#[derive(Debug, Clone, Copy)]
pub struct WalkOffBuilder {
    pub walkoff: WalkOff,
}

impl WalkOffBuilder {
    pub fn sort_by(self, v: SortBy) -> (r: Self)
        ensures
            r.walkoff == (WalkOff { sort_by: v, ..self.walkoff }),
    {
        WalkOffBuilder { walkoff: WalkOff { sort_by: v, ..self.walkoff } }
    }

    pub fn follow_links(self, v: bool) -> (r: Self)
        ensures
            r.walkoff == (WalkOff { follow_links: v, ..self.walkoff }),
    {
        WalkOffBuilder { walkoff: WalkOff { follow_links: v, ..self.walkoff } }
    }

    pub fn filter_excludes(self, v: bool) -> (r: Self)
        ensures
            r.walkoff == (WalkOff { filter_excludes: v, ..self.walkoff }),
    {
        WalkOffBuilder { walkoff: WalkOff { filter_excludes: v, ..self.walkoff } }
    }

    pub fn skip_git_dirs(self, v: bool) -> (r: Self)
        ensures
            r.walkoff == (WalkOff { skip_git_dirs: v, ..self.walkoff }),
    {
        WalkOffBuilder { walkoff: WalkOff { skip_git_dirs: v, ..self.walkoff } }
    }

    pub fn skip_gitignore_files(self, v: bool) -> (r: Self)
        ensures
            r.walkoff == (WalkOff { skip_gitignore_files: v, ..self.walkoff }),
    {
        WalkOffBuilder { walkoff: WalkOff { skip_gitignore_files: v, ..self.walkoff } }
    }

    pub fn skip_dotrepo_dirs(self, v: bool) -> (r: Self)
        ensures
            r.walkoff == (WalkOff { skip_dotrepo_dirs: v, ..self.walkoff }),
    {
        WalkOffBuilder { walkoff: WalkOff { skip_dotrepo_dirs: v, ..self.walkoff } }
    }

    pub fn skip_dotrepo_self(self, v: bool) -> (r: Self)
        ensures
            r.walkoff == (WalkOff { skip_dotrepo_self: v, ..self.walkoff }),
    {
        WalkOffBuilder { walkoff: WalkOff { skip_dotrepo_self: v, ..self.walkoff } }
    }

    pub fn build(self) -> (r: WalkOff)
        ensures
            r == self.walkoff,
    {
        self.walkoff
    }
}

/// Whether the components of `suffix` end those of `path`, as
/// `Path::ends_with` decides.
pub open spec fn spec_path_ends_with(path: Seq<char>, suffix: Seq<char>) -> bool {
    let pc = spec_components(path);
    let sc = spec_components(suffix);
    sc.len() <= pc.len() && pc.skip(pc.len() - sc.len()) == sc
}

/// Whether the components of `suffix` end those of `path`.
pub fn path_ends_with(path: &str, suffix: &str) -> (r: bool)
    ensures
        r == spec_path_ends_with(path@, suffix@),
{
    let pc = crate::inlined::components_of(path);
    let sc = crate::inlined::components_of(suffix);
    let ghost pv = pc@.map_values(|c: Vec<char>| c@);
    let ghost sv = sc@.map_values(|c: Vec<char>| c@);
    if sc.len() > pc.len() {
        return false;
    }
    let off = pc.len() - sc.len();
    let mut i: usize = 0;
    while i < sc.len()
        invariant
            sc@.len() <= pc@.len(),
            pc@.len() <= usize::MAX,
            off == pc@.len() - sc@.len(),
            pv == spec_components(path@),
            sv == spec_components(suffix@),
            pv == pc@.map_values(|c: Vec<char>| c@),
            sv == sc@.map_values(|c: Vec<char>| c@),
            i <= sc@.len(),
            forall|j: int| 0 <= j < i ==> pv[off + j] == sv[j],
        decreases sc@.len() - i,
    {
        assert(off + i < pc@.len());
        let k: usize = off + i;
        if !crate::inlined::chars_equal(&pc[k], &sc[i]) {
            proof {
                assert(pc@[off + i]@ == pv[off + i]);
                assert(sc@[i as int]@ == sv[i as int]);
                assert(pv.skip(off as int)[i as int] != sv[i as int]);
            }
            return false;
        }
        i = i + 1;
    }
    proof {
        assert(pv.skip(off as int) =~= sv);
    }
    true
}

/// Whether a walk keeps an entry, seen as a directory or not, with its file
/// name and path; `repo_relpath` is the tenant's own directory
/// (`.repo/<tenant>`), and `excluded` whether the excludes match the entry.
/// A walk that filters nothing keeps every entry.
pub open spec fn spec_keep_entry(
    w: WalkOff,
    is_dir: bool,
    file_name: Seq<char>,
    path: Seq<char>,
    repo_relpath: Seq<char>,
    excluded: bool,
) -> bool {
    if !(w.skip_dotrepo_dirs || w.skip_git_dirs || w.skip_dotrepo_self || w.filter_excludes) {
        true
    } else if is_dir {
        !(w.skip_dotrepo_dirs && file_name == ".repo"@) && !(w.skip_git_dirs && file_name == ".git"@)
            && !(w.skip_dotrepo_self && spec_path_ends_with(path, repo_relpath)) && !(w.filter_excludes
            && excluded)
    } else {
        !(w.skip_gitignore_files && file_name == ".gitignore"@) && !(w.filter_excludes && excluded)
    }
}

fn str_eq(a: &str, b: &str) -> (r: bool)
    ensures
        r == (a@ == b@),
{
    crate::inlined::chars_equal(&str_chars(a), &str_chars(b))
}

/// What a walk keeps is never what it skips: no directory named `.git` or
/// `.repo`, nor the tenant's own directory, where those are skipped; no
/// file named `.gitignore` where those are skipped; nothing the excludes
/// match where excludes are filtered. Since a directory that is not kept is
/// not entered, nothing under a skipped directory is kept either.
pub proof fn law_kept_entries_are_not_skipped(
    w: WalkOff,
    is_dir: bool,
    file_name: Seq<char>,
    path: Seq<char>,
    repo_relpath: Seq<char>,
    excluded: bool,
)
    requires
        spec_keep_entry(w, is_dir, file_name, path, repo_relpath, excluded),
    ensures
        w.skip_git_dirs && is_dir ==> file_name != ".git"@,
        w.skip_dotrepo_dirs && is_dir ==> file_name != ".repo"@,
        w.skip_dotrepo_self && is_dir ==> !spec_path_ends_with(path, repo_relpath),
        w.skip_gitignore_files && !is_dir && (w.skip_dotrepo_dirs || w.skip_git_dirs || w.skip_dotrepo_self
            || w.filter_excludes) ==> file_name != ".gitignore"@,
        w.filter_excludes ==> !excluded,
{
}

/// Whether a walk keeps an entry.
pub fn keep_entry(
    w: &WalkOff,
    is_dir: bool,
    file_name: &str,
    path: &str,
    repo_relpath: &str,
    excluded: bool,
) -> (r: bool)
    ensures
        r == spec_keep_entry(*w, is_dir, file_name@, path@, repo_relpath@, excluded),
{
    if !w.filters_entries() {
        return true;
    }
    if is_dir {
        if w.skip_dotrepo_dirs && str_eq(file_name, ".repo") {
            false
        } else if w.skip_git_dirs && str_eq(file_name, ".git") {
            false
        } else if w.skip_dotrepo_self && path_ends_with(path, repo_relpath) {
            false
        } else if w.filter_excludes && excluded {
            false
        } else {
            true
        }
    } else if w.skip_gitignore_files && str_eq(file_name, ".gitignore") {
        false
    } else if w.filter_excludes && excluded {
        false
    } else {
        true
    }
}

/// The tenant's own directory: `.repo` joined with the tenant's path, as
/// `Path::join` does (an absolute path stands alone).
pub fn repo_relpath(tenant_relative_path: &str) -> (r: String)
    ensures
        r@ == (if tenant_relative_path@.len() > 0 && tenant_relative_path@[0] == '/' {
            tenant_relative_path@
        } else {
            crate::normalize::spec_path_join(".repo"@, tenant_relative_path@)
        }),
{
    proof {
        reveal_strlit(".repo");
        reveal_strlit(".repo/");
    }
    let cs = str_chars(tenant_relative_path);
    if cs.len() > 0 && cs[0] == '/' {
        String::from_str(tenant_relative_path)
    } else {
        let mut out = String::from_str(".repo/");
        out.append(tenant_relative_path);
        proof {
            assert(out@ =~= ".repo"@ + seq!['/'] + tenant_relative_path@);
        }
        out
    }
}

} // verus!
