//! Pedantic versions: Edition, Major, Minor, Trivial and Candidate numbers.
//!
//! Edition is a separate scoping or marketing label. Candidate numbers the
//! attempts at releasing the given Major / Minor / Trivial triplet: when it
//! is zero the triplet is an actual release with SemVer guarantees, when it
//! is not the triplet predicts the next release.
//!
//! Edition, Major, Minor and Trivial are non-zero in a valid version; they
//! default to 1 when omitted, Candidate defaults to 0.
//!
//! Parsing: `"1"` is (1,1,1,1,0), `"1.2"` is (1,2,1,1,0), `"1.2.3"` is
//! (1,2,3,1,0), `"4.1.2.3"` is (4,1,2,3,0) and `"4.1.2.3.5"` is (4,1,2,3,5).
use vstd::prelude::*;
use crate::text::{
    spec_dec, spec_split, spec_parse_u16, spec_join, str_chars, string_from_chars, split_chars,
    parse_u16, push_dec, lemma_split_single, lemma_split_append, lemma_dec_no_char, lemma_parse_dec,
};

verus! {

/// A pedantic version; fields in order of significance.
#[derive(Clone, Copy, PartialEq, Eq, Structural, PartialOrd, Ord, Hash, Debug)]
pub struct PendanticVersion {
    edition: u16,
    major: u16,
    minor: u16,
    trivial: u16,
    candidate: u16,
}

/// The five numbers as a tuple.
pub type PenVerTuple = (u16, u16, u16, u16, u16);

/// Error of a version without components.
pub open spec fn spec_err_no_components() -> &'static str {
    "No components in version"
}

/// Error of a version with more than five components.
pub open spec fn spec_err_too_many() -> &'static str {
    "Too many components in version"
}

/// Error of a component that is not a 16-bit number.
pub open spec fn spec_err_parse() -> &'static str {
    "Failed to parse version components at u16"
}

/// Components filled in order Edition, Major, Minor, Trivial, Candidate.
pub open spec fn spec_from_components(v: Seq<u16>) -> Result<PenVerTuple, &'static str> {
    if v.len() == 0 {
        Err(spec_err_no_components())
    } else if v.len() == 1 {
        Ok((v[0], 1, 1, 1, 0))
    } else if v.len() == 2 {
        Ok((v[0], v[1], 1, 1, 0))
    } else if v.len() == 3 {
        Ok((v[0], v[1], v[2], 1, 0))
    } else if v.len() == 4 {
        Ok((v[0], v[1], v[2], v[3], 0))
    } else if v.len() == 5 {
        Ok((v[0], v[1], v[2], v[3], v[4]))
    } else {
        Err(spec_err_too_many())
    }
}

/// Components filled in order Major, Minor, Trivial, Candidate, and
/// Edition; what is missing is defaulted.
pub open spec fn spec_from_components_semantic(a: Seq<u16>) -> Result<PenVerTuple, &'static str> {
    if a.len() == 0 {
        Err(spec_err_no_components())
    } else if a.len() == 1 {
        Ok((1, a[0], 1, 1, 0))
    } else if a.len() == 2 {
        Ok((1, a[0], a[1], 1, 0))
    } else if a.len() == 3 {
        Ok((1, a[0], a[1], a[2], 0))
    } else if a.len() == 4 {
        Ok((1, a[0], a[1], a[2], a[3]))
    } else if a.len() == 5 {
        Ok((a[4], a[0], a[1], a[2], a[3]))
    } else {
        Err(spec_err_too_many())
    }
}

/// The numbers of the `.`-separated pieces of `s`, if each is a 16-bit
/// number.
pub open spec fn spec_str_components(s: Seq<char>) -> Option<Seq<u16>> {
    let pieces = spec_split(s, '.');
    if forall|i: int| 0 <= i < pieces.len() ==> #[trigger] spec_parse_u16(pieces[i]) is Some {
        Some(pieces.map_values(|p: Seq<char>| spec_parse_u16(p)->0))
    } else {
        None
    }
}

/// A version string read in order Edition, Major, Minor, Trivial, Candidate.
pub open spec fn spec_parse_version(s: Seq<char>) -> Result<PenVerTuple, &'static str> {
    match spec_str_components(s) {
        None => Err(spec_err_parse()),
        Some(v) => spec_from_components(v),
    }
}

/// A version string read in order Major, Minor, Trivial, Candidate.
/// Semantic components fill major, minor, trivial and candidate in the
/// order given, and a fifth component is the edition; what is missing is
/// defaulted (edition, minor and trivial to 1, candidate to 0). No
/// component, or more than five, is an error.
pub proof fn law_semantic_components(a: Seq<u16>)
    ensures
        (a.len() == 0 || a.len() > 5) <==> spec_from_components_semantic(a) is Err,
        spec_from_components_semantic(a) matches Ok(t) ==> {
            &&& t.1 == a[0]
            &&& t.2 == (if a.len() >= 2 { a[1] } else { 1 })
            &&& t.3 == (if a.len() >= 3 { a[2] } else { 1 })
            &&& t.4 == (if a.len() >= 4 { a[3] } else { 0 })
            &&& t.0 == (if a.len() == 5 { a[4] } else { 1 })
        },
{
}

/// Components fill edition, major, minor, trivial and candidate in the
/// order given; what is missing is defaulted (major, minor and trivial to
/// 1, candidate to 0). No component, or more than five, is an error.
pub proof fn law_components(v: Seq<u16>)
    ensures
        (v.len() == 0 || v.len() > 5) <==> spec_from_components(v) is Err,
        spec_from_components(v) matches Ok(t) ==> {
            &&& t.0 == v[0]
            &&& t.1 == (if v.len() >= 2 { v[1] } else { 1 })
            &&& t.2 == (if v.len() >= 3 { v[2] } else { 1 })
            &&& t.3 == (if v.len() >= 4 { v[3] } else { 1 })
            &&& t.4 == (if v.len() == 5 { v[4] } else { 0 })
        },
{
}

pub open spec fn spec_parse_version_semantic(s: Seq<char>) -> Result<PenVerTuple, &'static str> {
    match spec_str_components(s) {
        None => Err(spec_err_parse()),
        Some(v) => spec_from_components_semantic(v),
    }
}

impl PendanticVersion {
    /// The model of a version: its five numbers.
    pub closed spec fn spec_tuple(&self) -> PenVerTuple {
        (self.edition, self.major, self.minor, self.trivial, self.candidate)
    }

    /// Edition, Major, Minor and Trivial are all non-zero.
    pub open spec fn spec_is_valid(&self) -> bool {
        let t = self.spec_tuple();
        t.0 != 0 && t.1 != 0 && t.2 != 0 && t.3 != 0
    }

    /// The text of the version: `1` for the first actual release, four
    /// numbers for other valid actual releases, five numbers otherwise.
    pub open spec fn spec_display(&self) -> Seq<char> {
        let t = self.spec_tuple();
        let dot = seq!['.'];
        let four = spec_dec(t.0 as nat) + dot + spec_dec(t.1 as nat) + dot + spec_dec(t.2 as nat) + dot
            + spec_dec(t.3 as nat);
        if t.4 == 0 && self.spec_is_valid() {
            if t.0 == 1 && t.1 == 1 && t.2 == 1 && t.3 == 1 {
                seq!['1']
            } else {
                four
            }
        } else {
            four + dot + spec_dec(t.4 as nat)
        }
    }

    pub fn new(edition: u16, major: u16, minor: u16, trivial: u16, candidate: u16) -> (v: Self)
        ensures
            v.spec_tuple() == (edition, major, minor, trivial, candidate),
    {
        PendanticVersion { edition, major, minor, trivial, candidate }
    }

    /// All zero, useful for pre-initialization.
    pub fn zero() -> (v: Self)
        ensures
            v.spec_tuple() == (0u16, 0u16, 0u16, 0u16, 0u16),
    {
        Self::new(0, 0, 0, 0, 0)
    }

    /// The first candidate, useful for new projects in development.
    pub fn first_candidate() -> (v: Self)
        ensures
            v.spec_tuple() == (1u16, 1u16, 1u16, 1u16, 1u16),
    {
        Self::new(1, 1, 1, 1, 1)
    }

    /// The first possible actual release.
    pub fn first_actual() -> (v: Self)
        ensures
            v.spec_tuple() == (1u16, 1u16, 1u16, 1u16, 0u16),
    {
        Self::new(1, 1, 1, 1, 0)
    }

    pub fn new_actual(edition: u16, major: u16, minor: u16, trivial: u16) -> (v: Self)
        ensures
            v.spec_tuple() == (edition, major, minor, trivial, 0u16),
    {
        Self::new(edition, major, minor, trivial, 0)
    }

    /// Edition `e` with Major and Minor from `v`.
    pub fn short(e: u16, v: (u16, u16)) -> (r: Self)
        ensures
            r.spec_tuple() == (e, v.0, v.1, 1u16, 0u16),
    {
        Self::new(e, v.0, v.1, 1, 0)
    }

    pub fn into_short(self) -> (r: (u16, (u16, u16)))
        ensures
            r == (self.spec_tuple().0, (self.spec_tuple().1, self.spec_tuple().2)),
    {
        (self.edition, (self.major, self.minor))
    }

    /// The edition number, a sequential label.
    pub fn edition(&self) -> (r: u16)
        ensures
            r == self.spec_tuple().0,
    {
        self.edition
    }

    /// The major change number.
    pub fn major(&self) -> (r: u16)
        ensures
            r == self.spec_tuple().1,
    {
        self.major
    }

    /// The minor change number.
    pub fn minor(&self) -> (r: u16)
        ensures
            r == self.spec_tuple().2,
    {
        self.minor
    }

    /// The trivial change number.
    pub fn trivial(&self) -> (r: u16)
        ensures
            r == self.spec_tuple().3,
    {
        self.trivial
    }

    /// The incremental candidate number.
    pub fn candidate(&self) -> (r: u16)
        ensures
            r == self.spec_tuple().4,
    {
        self.candidate
    }

    /// Edition, Major, Minor and Trivial are all non-zero.
    pub fn is_valid(&self) -> (b: bool)
        ensures
            b == self.spec_is_valid(),
    {
        self.edition != 0 && self.major != 0 && self.minor != 0 && self.trivial != 0
    }

    /// A valid version whose candidate is zero: it keeps SemVer backwards
    /// compatibility with the previous actual release.
    pub fn is_actual_release(&self) -> (b: bool)
        ensures
            b == (self.spec_is_valid() && self.spec_tuple().4 == 0),
    {
        self.is_valid() && self.candidate == 0
    }

    /// A version whose candidate is non-zero: its Major / Minor / Trivial
    /// are speculative.
    pub fn is_candidate_release(&self) -> (b: bool)
        ensures
            b == (self.spec_tuple().4 != 0),
    {
        self.candidate != 0
    }

    pub fn from_tuple(t: PenVerTuple) -> (v: Self)
        ensures
            v.spec_tuple() == t,
    {
        Self::new(t.0, t.1, t.2, t.3, t.4)
    }

    pub fn to_tuple(self) -> (t: PenVerTuple)
        ensures
            t == self.spec_tuple(),
    {
        (self.edition, self.major, self.minor, self.trivial, self.candidate)
    }

    pub fn from_array(a: [u16; 5]) -> (v: Self)
        ensures
            v.spec_tuple() == (a@[0], a@[1], a@[2], a@[3], a@[4]),
    {
        Self::new(a[0], a[1], a[2], a[3], a[4])
    }

    pub fn to_array(self) -> (a: [u16; 5])
        ensures
            a@ == seq![self.spec_tuple().0, self.spec_tuple().1, self.spec_tuple().2, self.spec_tuple().3, self.spec_tuple().4],
    {
        let a = [self.edition, self.major, self.minor, self.trivial, self.candidate];
        assert(a@ =~= seq![self.edition, self.major, self.minor, self.trivial, self.candidate]);
        a
    }

    /// Fills Edition, Major, Minor, Trivial and Candidate in order and
    /// defaults the rest.
    pub fn try_from_slice(v: &[u16]) -> (r: Result<Self, &'static str>)
        ensures
            match r {
                Ok(x) => spec_from_components(v@) == Ok::<PenVerTuple, &'static str>(x.spec_tuple()),
                Err(e) => spec_from_components(v@) == Err::<PenVerTuple, &'static str>(e),
            },
    {
        let t = match v.len() {
            5 => (v[0], v[1], v[2], v[3], v[4]),
            4 => (v[0], v[1], v[2], v[3], 0),
            3 => (v[0], v[1], v[2], 1, 0),
            2 => (v[0], v[1], 1, 1, 0),
            1 => (v[0], 1, 1, 1, 0),
            0 => return Err("No components in version"),
            _ => return Err("Too many components in version"),
        };
        Ok(Self::from_tuple(t))
    }

    /// Fills Major, Minor, Trivial, Candidate, and Edition in order and
    /// defaults everything missing.
    pub fn try_from_slice_semantic(a: &[u16]) -> (r: Result<Self, &'static str>)
        ensures
            match r {
                Ok(x) => spec_from_components_semantic(a@) == Ok::<PenVerTuple, &'static str>(x.spec_tuple()),
                Err(e) => spec_from_components_semantic(a@) == Err::<PenVerTuple, &'static str>(e),
            },
    {
        let t = match a.len() {
            0 => return Err("No components in version"),
            1 => (1, a[0], 1, 1, 0),
            2 => (1, a[0], a[1], 1, 0),
            3 => (1, a[0], a[1], a[2], 0),
            4 => (1, a[0], a[1], a[2], a[3]),
            5 => (a[4], a[0], a[1], a[2], a[3]),
            _ => return Err("Too many components in version"),
        };
        Ok(Self::from_tuple(t))
    }

    /// Parses `n.n.n.n.n` with missing components, filled in order Major,
    /// Minor, Trivial, Candidate, and Edition.
    pub fn try_from_str_semantic(s: &str) -> (r: Result<Self, &'static str>)
        ensures
            match r {
                Ok(x) => spec_parse_version_semantic(s@) == Ok::<PenVerTuple, &'static str>(x.spec_tuple()),
                Err(e) => spec_parse_version_semantic(s@) == Err::<PenVerTuple, &'static str>(e),
            },
    {
        let v = str_to_vec(s)?;
        Self::try_from_slice_semantic(v.as_slice())
    }

    /// Parses `n.n.n.n.n` with missing components, filled in order Edition,
    /// Major, Minor, Trivial, Candidate.
    pub fn from_str(s: &str) -> (r: Result<Self, &'static str>)
        ensures
            match r {
                Ok(x) => spec_parse_version(s@) == Ok::<PenVerTuple, &'static str>(x.spec_tuple()),
                Err(e) => spec_parse_version(s@) == Err::<PenVerTuple, &'static str>(e),
            },
    {
        let v = str_to_vec(s)?;
        Self::try_from_slice(v.as_slice())
    }

    /// The text of the version.
    pub fn to_string(&self) -> (s: String)
        ensures
            s@ == self.spec_display(),
    {
        let mut out: Vec<char> = Vec::new();
        if self.candidate == 0 && self.is_valid() && self.edition == 1 && self.major == 1
            && self.minor == 1 && self.trivial == 1 {
            out.push('1');
            assert(out@ =~= seq!['1']);
            return string_from_chars(out.as_slice());
        }
        push_dec(&mut out, self.edition);
        out.push('.');
        push_dec(&mut out, self.major);
        out.push('.');
        push_dec(&mut out, self.minor);
        out.push('.');
        push_dec(&mut out, self.trivial);
        if !(self.candidate == 0 && self.is_valid()) {
            out.push('.');
            push_dec(&mut out, self.candidate);
        }
        string_from_chars(out.as_slice())
    }
}

/// The numbers of the `.`-separated pieces of `s`.
fn str_to_vec(s: &str) -> (r: Result<Vec<u16>, &'static str>)
    ensures
        match r {
            Ok(v) => spec_str_components(s@) == Some(v@),
            Err(e) => spec_str_components(s@) is None && e == spec_err_parse(),
        },
{
    let cs = str_chars(s);
    let pieces = split_chars(&cs, '.');
    let ghost pv = pieces@.map_values(|p: Vec<char>| p@);
    let mut out: Vec<u16> = Vec::new();
    let mut i: usize = 0;
    while i < pieces.len()
        invariant
            pv == pieces@.map_values(|p: Vec<char>| p@),
            pv == spec_split(s@, '.'),
            i <= pieces@.len(),
            out@.len() == i,
            forall|k: int| 0 <= k < i ==> spec_parse_u16(#[trigger] pv[k]) == Some(out@[k]),
        decreases pieces@.len() - i,
    {
        match parse_u16(&pieces[i]) {
            None => {
                proof {
                    assert(spec_parse_u16(pv[i as int]) is None);
                }
                return Err("Failed to parse version components at u16");
            },
            Some(x) => {
                out.push(x);
            },
        }
        i = i + 1;
    }
    proof {
        assert(out@ =~= pv.map_values(|p: Seq<char>| spec_parse_u16(p)->0));
    }
    Ok(out)
}


/// Reading back the text of a version gives the version: `from_str` undoes
/// `to_string` for every version.
pub proof fn law_display_parse_roundtrip(v: PendanticVersion)
    ensures
        spec_parse_version(v.spec_display()) == Ok::<PenVerTuple, &'static str>(v.spec_tuple()),
{
    let t = v.spec_tuple();
    let d0 = spec_dec(t.0 as nat);
    let d1 = spec_dec(t.1 as nat);
    let d2 = spec_dec(t.2 as nat);
    let d3 = spec_dec(t.3 as nat);
    let d4 = spec_dec(t.4 as nat);
    lemma_dec_no_char(t.0 as nat, '.');
    lemma_dec_no_char(t.1 as nat, '.');
    lemma_dec_no_char(t.2 as nat, '.');
    lemma_dec_no_char(t.3 as nat, '.');
    lemma_dec_no_char(t.4 as nat, '.');
    lemma_parse_dec(t.0);
    lemma_parse_dec(t.1);
    lemma_parse_dec(t.2);
    lemma_parse_dec(t.3);
    lemma_parse_dec(t.4);
    let dot = seq!['.'];
    lemma_split_single(d0, '.');
    lemma_split_append(d0, d1, '.');
    lemma_split_append(d0 + dot + d1, d2, '.');
    lemma_split_append(d0 + dot + d1 + dot + d2, d3, '.');
    let four = d0 + dot + d1 + dot + d2 + dot + d3;
    lemma_split_append(four, d4, '.');
    let s = v.spec_display();
    if t.4 == 0 && v.spec_is_valid() {
        if t.0 == 1 && t.1 == 1 && t.2 == 1 && t.3 == 1 {
            assert(spec_dec(1) =~= seq!['1']);
            assert(!seq!['1'].contains('.')) by {
                if seq!['1'].contains('.') {
                    let i = choose|i: int| 0 <= i < 1 && seq!['1'][i] == '.';
                }
            }
            lemma_split_single(seq!['1'], '.');
            lemma_parse_dec(1);
            let pieces = spec_split(s, '.');
            assert(pieces =~= seq![spec_dec(1)]);
            assert(spec_str_components(s) == Some(seq![1u16])) by {
                assert(pieces.map_values(|p: Seq<char>| spec_parse_u16(p)->0) =~= seq![1u16]);
            }
        } else {
            let pieces = spec_split(s, '.');
            assert(pieces =~= seq![d0, d1, d2, d3]);
            assert(pieces.map_values(|p: Seq<char>| spec_parse_u16(p)->0) =~= seq![t.0, t.1, t.2, t.3]);
        }
    } else {
        let pieces = spec_split(s, '.');
        assert(pieces =~= seq![d0, d1, d2, d3, d4]);
        assert(pieces.map_values(|p: Seq<char>| spec_parse_u16(p)->0) =~= seq![t.0, t.1, t.2, t.3, t.4]);
    }
}

/// Whether `a` comes no later than `b`, field by field from the edition to
/// the candidate, as the derived order of versions compares them.
pub open spec fn spec_tuple_le(a: PenVerTuple, b: PenVerTuple) -> bool {
    a.0 < b.0 || (a.0 == b.0 && (a.1 < b.1 || (a.1 == b.1 && (a.2 < b.2 || (a.2 == b.2 && (a.3 < b.3
        || (a.3 == b.3 && a.4 <= b.4)))))))
}

/// The earliest valid actual release is 1.1.1.1.0 and the earliest valid
/// candidate release is 1.1.1.1.1; every valid version is one of the two.
pub proof fn law_first_releases_are_least(v: PendanticVersion)
    requires
        v.spec_is_valid(),
    ensures
        v.spec_tuple().4 == 0 ==> spec_tuple_le((1u16, 1u16, 1u16, 1u16, 0u16), v.spec_tuple()),
        v.spec_tuple().4 != 0 ==> spec_tuple_le((1u16, 1u16, 1u16, 1u16, 1u16), v.spec_tuple()),
        (v.spec_tuple().4 == 0) != (v.spec_tuple().4 != 0),
{
}
} // verus!
