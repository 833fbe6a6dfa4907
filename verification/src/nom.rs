//! Noms: XXH3 64-bit hashes of values. Integers are hashed by their
//! little-endian bytes, strings by their UTF-8 bytes.
use vstd::prelude::*;
use vstd::string::StringSliceAdditionalSpecFns;
use crate::base62::{CodeBase62, spec_base62};

verus! {

/// The XXH3 64-bit hash of `data`, as `xxhash_rust::xxh3::xxh3_64` computes it.
pub uninterp spec fn spec_xxh3_64(data: Seq<u8>) -> u64;

/// Calls `xxhash_rust::xxh3::xxh3_64`, the XXH3 hash with the default
/// secret and seed; its result is a function of the bytes alone, named
/// [spec_xxh3_64].
#[verifier::external_body]
pub(crate) fn xxh3_64(data: &[u8]) -> (h: u64)
    ensures
        h == spec_xxh3_64(data@),
{
    xxhash_rust::xxh3::xxh3_64(data)
}

/// The `k` low bytes of `n`, least significant first.
pub open spec fn spec_le_bytes(n: nat, k: nat) -> Seq<u8>
    decreases k,
{
    if k == 0 {
        Seq::empty()
    } else {
        seq![(n as nat % 256) as u8] + spec_le_bytes(n / 256, (k - 1) as nat)
    }
}

/// The `k` low bytes of `n`, least significant first.
pub(crate) fn le_bytes(n: u64, k: usize) -> (b: Vec<u8>)
    requires
        k <= 8,
    ensures
        b@ == spec_le_bytes(n as nat, k as nat),
{
    let mut b: Vec<u8> = Vec::new();
    let mut m: u64 = n;
    let mut i: usize = 0;
    while i < k
        invariant
            i <= k,
            b@ + spec_le_bytes(m as nat, (k - i) as nat) == spec_le_bytes(n as nat, k as nat),
        decreases k - i,
    {
        let ghost rest = spec_le_bytes((m / 256) as nat, (k - i - 1) as nat);
        b.push((m % 256) as u8);
        proof {
            assert(spec_le_bytes(m as nat, (k - i) as nat) == seq![(m % 256) as u8] + rest);
            assert(b@ + rest =~= b@.drop_last() + (seq![(m % 256) as u8] + rest));
        }
        m = m / 256;
        i = i + 1;
    }
    proof {
        assert(spec_le_bytes(m as nat, 0) =~= Seq::<u8>::empty());
        assert(b@ + Seq::<u8>::empty() =~= b@);
    }
    b
}

/// An XXH3 hash. Conversions use little-endian bytes.
#[derive(Clone, Copy, PartialEq, Eq, Structural, Hash, Debug)]
pub struct Nom(pub u64);

impl Nom {
    pub fn get(&self) -> (r: u64)
        ensures
            r == self.0,
    {
        self.0
    }

    pub fn take(self) -> (r: u64)
        ensures
            r == self.0,
    {
        self.0
    }

    pub fn from_u64(n: u64) -> (r: Self)
        ensures
            r.0 == spec_xxh3_64(spec_le_bytes(n as nat, 8)),
    {
        let b = le_bytes(n, 8);
        Nom(xxh3_64(b.as_slice()))
    }

    pub fn from_i64(n: i64) -> (r: Self)
        ensures
            r.0 == spec_xxh3_64(spec_le_bytes(n as u64 as nat, 8)),
    {
        let b = le_bytes(n as u64, 8);
        Nom(xxh3_64(b.as_slice()))
    }

    pub fn from_u32(n: u32) -> (r: Self)
        ensures
            r.0 == spec_xxh3_64(spec_le_bytes(n as nat, 4)),
    {
        let b = le_bytes(n as u64, 4);
        Nom(xxh3_64(b.as_slice()))
    }

    pub fn from_i32(n: i32) -> (r: Self)
        ensures
            r.0 == spec_xxh3_64(spec_le_bytes(n as u32 as nat, 4)),
    {
        let b = le_bytes(n as u32 as u64, 4);
        Nom(xxh3_64(b.as_slice()))
    }

    pub fn from_u16(n: u16) -> (r: Self)
        ensures
            r.0 == spec_xxh3_64(spec_le_bytes(n as nat, 2)),
    {
        let b = le_bytes(n as u64, 2);
        Nom(xxh3_64(b.as_slice()))
    }

    pub fn from_i16(n: i16) -> (r: Self)
        ensures
            r.0 == spec_xxh3_64(spec_le_bytes(n as u16 as nat, 2)),
    {
        let b = le_bytes(n as u16 as u64, 2);
        Nom(xxh3_64(b.as_slice()))
    }

    pub fn from_u8(n: u8) -> (r: Self)
        ensures
            r.0 == spec_xxh3_64(seq![n]),
    {
        let b = le_bytes(n as u64, 1);
        proof {
            assert(spec_le_bytes((n as nat / 256), 0) =~= Seq::<u8>::empty());
            assert(spec_le_bytes(n as nat, 1) == seq![(n as nat % 256) as u8] + spec_le_bytes((n as nat / 256), 0));
            assert(spec_le_bytes(n as nat, 1) =~= seq![n]);
        }
        Nom(xxh3_64(b.as_slice()))
    }

    pub fn from_i8(n: i8) -> (r: Self)
        ensures
            r.0 == spec_xxh3_64(seq![n as u8]),
    {
        let b = le_bytes(n as u8 as u64, 1);
        proof {
            let m = n as u8;
            assert(spec_le_bytes((m as nat / 256), 0) =~= Seq::<u8>::empty());
            assert(spec_le_bytes(m as nat, 1) == seq![(m as nat % 256) as u8] + spec_le_bytes((m as nat / 256), 0));
            assert(spec_le_bytes(m as nat, 1) =~= seq![m]);
        }
        Nom(xxh3_64(b.as_slice()))
    }

    /// Hashes the bytes of a `usize`: 8 on 64-bit targets, 4 on 32-bit ones.
    pub fn from_usize(n: usize) -> (r: Self)
        ensures
            r.0 == spec_xxh3_64(spec_le_bytes(n as nat, (usize::BITS / 8) as nat)),
    {
        let k: usize = if usize::BITS == 64 { 8 } else { 4 };
        let b = le_bytes(n as u64, k);
        Nom(xxh3_64(b.as_slice()))
    }

    /// Hashes the UTF-8 bytes of `s`.
    pub fn from_str(s: &str) -> (r: Self)
        ensures
            r.0 == spec_xxh3_64(s.spec_bytes()),
    {
        Nom(xxh3_64(s.as_bytes()))
    }

    pub fn to_base62(&self) -> (c: CodeBase62)
        ensures
            c.0@ == spec_base62(self.0 as nat),
    {
        CodeBase62::from_u64(self.0)
    }

    /// The base-62 code of the hash.
    pub fn to_string(&self) -> (s: String)
        ensures
            s@ == spec_base62(self.0 as nat),
    {
        self.to_base62().take()
    }
}


impl From<u64> for Nom {
    /// The same as `Nom::from_u64`.
    fn from(v: u64) -> (r: Self) {
        Self::from_u64(v)
    }
}

impl vstd::std_specs::convert::FromSpecImpl<u64> for Nom {
    open spec fn obeys_from_spec() -> bool {
        true
    }

    open spec fn from_spec(v: u64) -> Self {
        Nom(spec_xxh3_64(spec_le_bytes(v as nat, 8)))
    }
}

impl From<i64> for Nom {
    /// The same as `Nom::from_i64`.
    fn from(v: i64) -> (r: Self) {
        Self::from_i64(v)
    }
}

impl vstd::std_specs::convert::FromSpecImpl<i64> for Nom {
    open spec fn obeys_from_spec() -> bool {
        true
    }

    open spec fn from_spec(v: i64) -> Self {
        Nom(spec_xxh3_64(spec_le_bytes(v as u64 as nat, 8)))
    }
}

impl From<u32> for Nom {
    /// The same as `Nom::from_u32`.
    fn from(v: u32) -> (r: Self) {
        Self::from_u32(v)
    }
}

impl vstd::std_specs::convert::FromSpecImpl<u32> for Nom {
    open spec fn obeys_from_spec() -> bool {
        true
    }

    open spec fn from_spec(v: u32) -> Self {
        Nom(spec_xxh3_64(spec_le_bytes(v as nat, 4)))
    }
}

impl From<i32> for Nom {
    /// The same as `Nom::from_i32`.
    fn from(v: i32) -> (r: Self) {
        Self::from_i32(v)
    }
}

impl vstd::std_specs::convert::FromSpecImpl<i32> for Nom {
    open spec fn obeys_from_spec() -> bool {
        true
    }

    open spec fn from_spec(v: i32) -> Self {
        Nom(spec_xxh3_64(spec_le_bytes(v as u32 as nat, 4)))
    }
}

impl From<u16> for Nom {
    /// The same as `Nom::from_u16`.
    fn from(v: u16) -> (r: Self) {
        Self::from_u16(v)
    }
}

impl vstd::std_specs::convert::FromSpecImpl<u16> for Nom {
    open spec fn obeys_from_spec() -> bool {
        true
    }

    open spec fn from_spec(v: u16) -> Self {
        Nom(spec_xxh3_64(spec_le_bytes(v as nat, 2)))
    }
}

impl From<i16> for Nom {
    /// The same as `Nom::from_i16`.
    fn from(v: i16) -> (r: Self) {
        Self::from_i16(v)
    }
}

impl vstd::std_specs::convert::FromSpecImpl<i16> for Nom {
    open spec fn obeys_from_spec() -> bool {
        true
    }

    open spec fn from_spec(v: i16) -> Self {
        Nom(spec_xxh3_64(spec_le_bytes(v as u16 as nat, 2)))
    }
}

impl From<u8> for Nom {
    /// The same as `Nom::from_u8`.
    fn from(v: u8) -> (r: Self) {
        Self::from_u8(v)
    }
}

impl vstd::std_specs::convert::FromSpecImpl<u8> for Nom {
    open spec fn obeys_from_spec() -> bool {
        true
    }

    open spec fn from_spec(v: u8) -> Self {
        Nom(spec_xxh3_64(seq![v]))
    }
}

impl From<i8> for Nom {
    /// The same as `Nom::from_i8`.
    fn from(v: i8) -> (r: Self) {
        Self::from_i8(v)
    }
}

impl vstd::std_specs::convert::FromSpecImpl<i8> for Nom {
    open spec fn obeys_from_spec() -> bool {
        true
    }

    open spec fn from_spec(v: i8) -> Self {
        Nom(spec_xxh3_64(seq![v as u8]))
    }
}

impl From<usize> for Nom {
    /// The same as `Nom::from_usize`.
    fn from(v: usize) -> (r: Self) {
        Self::from_usize(v)
    }
}

impl vstd::std_specs::convert::FromSpecImpl<usize> for Nom {
    open spec fn obeys_from_spec() -> bool {
        true
    }

    open spec fn from_spec(v: usize) -> Self {
        Nom(spec_xxh3_64(spec_le_bytes(v as nat, (usize::BITS / 8) as nat)))
    }
}

impl<'a> From<&'a str> for Nom {
    /// The same as `Nom::from_str`.
    fn from(v: &'a str) -> (r: Self) {
        Self::from_str(v)
    }
}

impl<'a> vstd::std_specs::convert::FromSpecImpl<&'a str> for Nom {
    open spec fn obeys_from_spec() -> bool {
        true
    }

    open spec fn from_spec(v: &'a str) -> Self {
        Nom(spec_xxh3_64(v.spec_bytes()))
    }
}

impl From<String> for Nom {
    /// The same as `Nom::from_str` of the text.
    fn from(v: String) -> (r: Self) {
        Self::from_str(v.as_str())
    }
}

impl vstd::std_specs::convert::FromSpecImpl<String> for Nom {
    open spec fn obeys_from_spec() -> bool {
        true
    }

    open spec fn from_spec(v: String) -> Self {
        Nom(spec_xxh3_64(vstd::utf8::encode_utf8(v@)))
    }
}

} // verus!
