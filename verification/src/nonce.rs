//! Nonces: 64-bit values written as base-62 codes, made by hashing text or
//! by a generator that mixes a counter and the clock into the hash.
use vstd::prelude::*;
use vstd::string::StringSliceAdditionalSpecFns;
use crate::base62::{CodeBase62, spec_base62, spec_digit62, spec_is_base62_char, law_base62_conforms};
use crate::nom::{spec_xxh3_64, spec_le_bytes, xxh3_64, le_bytes};
use crate::text::str_chars;
use std::sync::atomic::AtomicUsize;
use std::sync::atomic::Ordering;
use std::time::{Duration, SystemTime};

verus! {

#[verifier::external_type_specification]
#[verifier::external_body]
pub struct ExSystemTime(std::time::SystemTime);

/// Calls `std::time::SystemTime::now`; the clock's reading is not stated.
#[verifier::external_body]
fn system_time_now() -> SystemTime {
    SystemTime::now()
}

/// Calls `SystemTime::duration_since` with `UNIX_EPOCH`; the reading is not
/// stated, nor whether the clock stood after the epoch.
#[verifier::external_body]
fn since_unix_epoch(t: &SystemTime) -> Option<Duration> {
    t.duration_since(std::time::UNIX_EPOCH).ok()
}

/// Calls `Duration::as_nanos`; the duration is opaque here, so the count of
/// nanoseconds is not stated.
#[verifier::external_body]
fn duration_nanos(d: &Duration) -> u128 {
    d.as_nanos()
}

/// The value of a base-62 character: `0-9` are 0 to 9, `a-z` 10 to 35,
/// `A-Z` 36 to 61.
pub open spec fn spec_digit_value62(c: char) -> nat {
    if '0' <= c && c <= '9' {
        (c as nat - 48) as nat
    } else if 'a' <= c && c <= 'z' {
        (c as nat - 97 + 10) as nat
    } else {
        (c as nat - 65 + 36) as nat
    }
}

/// The integer that a string of base-62 characters spells, most significant
/// digit first.
pub open spec fn spec_value62(s: Seq<char>) -> nat
    decreases s.len(),
{
    if s.len() == 0 {
        0
    } else {
        spec_value62(s.drop_last()) * 62 + spec_digit_value62(s.last())
    }
}

/// What a base-62 code decodes to: its value, where it is a non-empty string
/// of base-62 characters whose value fits in 64 bits.
pub open spec fn spec_decode62(s: Seq<char>) -> Option<u64> {
    if s.len() > 0 && (forall|i: int| 0 <= i < s.len() ==> spec_is_base62_char(#[trigger] s[i]))
        && spec_value62(s) <= u64::MAX {
        Some(spec_value62(s) as u64)
    } else {
        None
    }
}

/// The bytes that a generator hashes: the caller's bytes, then the count and
/// the clock reading, each as 8 little-endian bytes.
pub open spec fn spec_nonce_input(hashable: Seq<u8>, count: nat, time_ns: nat) -> Seq<u8> {
    hashable + spec_le_bytes(count, 8) + spec_le_bytes(time_ns, 8)
}

/// A digest that a generator can give for `hashable`, for some count and
/// some clock reading.
pub open spec fn spec_generated_from(n: Nonce, hashable: Seq<u8>) -> bool {
    exists|count: u64, time_ns: u64|
        n.0 == spec_xxh3_64(#[trigger] spec_nonce_input(hashable, count as nat, time_ns as nat))
}

proof fn lemma_digit_value62(d: nat)
    requires
        d < 62,
    ensures
        spec_digit_value62(spec_digit62(d)) == d,
{
}

proof fn lemma_value62_step(s: Seq<char>, k: int)
    requires
        0 <= k < s.len(),
    ensures
        spec_value62(s.take(k + 1)) == spec_value62(s.take(k)) * 62 + spec_digit_value62(s[k]),
{
    assert(s.take(k + 1).drop_last() =~= s.take(k));
}

proof fn lemma_value62_monotone(s: Seq<char>, k: int)
    requires
        0 <= k <= s.len(),
    ensures
        spec_value62(s.take(k)) <= spec_value62(s),
    decreases s.len() - k,
{
    if k < s.len() {
        lemma_value62_step(s, k);
        lemma_value62_monotone(s, k + 1);
    } else {
        assert(s.take(k) =~= s);
    }
}

/// The base-62 code of `n` spells `n`.
pub proof fn lemma_value62_of_code(n: nat)
    ensures
        spec_value62(spec_base62(n)) == n,
    decreases n,
{
    let s = spec_base62(n);
    if n < 62 {
        assert(s.drop_last() =~= Seq::<char>::empty());
        assert(spec_value62(s.drop_last()) == 0);
        assert(s.last() == spec_digit62(n));
        lemma_digit_value62(n);
    } else {
        lemma_value62_of_code(n / 62);
        assert(s.drop_last() =~= spec_base62(n / 62));
        assert(s.last() == spec_digit62(n % 62));
        lemma_digit_value62(n % 62);
        assert((n / 62) * 62 + n % 62 == n);
    }
    assert(spec_value62(s) == spec_value62(s.drop_last()) * 62 + spec_digit_value62(s.last()));
}

/// Decodes a base-62 code into the integer it spells.
fn decode_base62(s: &str) -> (r: Option<u64>)
    ensures
        r == spec_decode62(s@),
{
    let cs = str_chars(s);
    if cs.len() == 0 {
        return None;
    }
    let mut acc: u64 = 0;
    let mut i: usize = 0;
    while i < cs.len()
        invariant
            cs@ == s@,
            cs@.len() > 0,
            i <= cs@.len(),
            acc == spec_value62(cs@.take(i as int)),
            forall|j: int| 0 <= j < i ==> spec_is_base62_char(#[trigger] cs@[j]),
        decreases cs@.len() - i,
    {
        let c = cs[i];
        let d: u64 = if '0' <= c && c <= '9' {
            (c as u64) - 48
        } else if 'a' <= c && c <= 'z' {
            (c as u64) - 97 + 10
        } else if 'A' <= c && c <= 'Z' {
            (c as u64) - 65 + 36
        } else {
            return None;
        };
        proof {
            lemma_value62_step(cs@, i as int);
        }
        match acc.checked_mul(62) {
            Some(m) => match m.checked_add(d) {
                Some(v) => {
                    acc = v;
                },
                None => {
                    proof {
                        lemma_value62_monotone(cs@, i + 1);
                    }
                    return None;
                },
            },
            None => {
                proof {
                    lemma_value62_monotone(cs@, i + 1);
                    assert(acc * 62 <= spec_value62(cs@.take(i + 1)));
                }
                return None;
            },
        }
        i = i + 1;
    }
    proof {
        assert(cs@.take(cs@.len() as int) =~= cs@);
    }
    Some(acc)
}

/// The bytes hashed by a generator.
fn nonce_input(hashable: &[u8], count: usize, time_ns: u64) -> (b: Vec<u8>)
    ensures
        b@ == spec_nonce_input(hashable@, count as nat, time_ns as nat),
{
    let mut b: Vec<u8> = Vec::new();
    let mut i: usize = 0;
    while i < hashable.len()
        invariant
            i <= hashable@.len(),
            b@ == hashable@.take(i as int),
        decreases hashable@.len() - i,
    {
        b.push(hashable[i]);
        i = i + 1;
        proof {
            assert(b@ =~= hashable@.take(i as int));
        }
    }
    let mut c = le_bytes(count as u64, 8);
    let mut t = le_bytes(time_ns, 8);
    proof {
        assert(b@ =~= hashable@);
    }
    b.append(&mut c);
    b.append(&mut t);
    b
}

/// The clock's reading in nanoseconds since the Unix epoch, cut to its 64
/// low bits; 0 where the clock reads before the epoch.
fn clock_nanos() -> u64 {
    let now = system_time_now();
    match since_unix_epoch(&now) {
        Some(d) => {
            let n = duration_nanos(&d);
            (n % 0x1_0000_0000_0000_0000) as u64
        },
        None => 0,
    }
}

/// The nonce of `hashable` with the generator count `count` and the clock.
fn digest_with_count(hashable: &[u8], count: usize) -> (r: Nonce)
    ensures
        spec_generated_from(r, hashable@),
{
    let time_ns = clock_nanos();
    let input = nonce_input(hashable, count, time_ns);
    let r = Nonce(xxh3_64(input.as_slice()));
    proof {
        let c = count as u64;
        assert(spec_nonce_input(hashable@, c as nat, time_ns as nat) == input@);
    }
    r
}

/// A 64-bit nonce.
#[derive(Clone, Copy, PartialEq, Eq, Structural, Hash, Debug)]
pub struct Nonce(pub u64);

impl Nonce {
    pub fn new_unchecked(hash: u64) -> (r: Self)
        ensures
            r.0 == hash,
    {
        Nonce(hash)
    }

    pub fn get(&self) -> (r: u64)
        ensures
            r == self.0,
    {
        self.0
    }

    pub fn take(self) -> (r: u64)
        ensures
            r == self.0,
    {
        self.0
    }

    /// A fresh nonce from `generator`, hashing no bytes of the caller's.
    pub fn generate(generator: &NonceGenerator) -> (r: Self)
        ensures
            spec_generated_from(r, Seq::empty()),
    {
        generator.generate()
    }

    /// A fresh nonce from `generator` that also hashes `hashable`.
    pub fn generate_with(generator: &NonceGenerator, hashable: &[u8]) -> (r: Self)
        ensures
            spec_generated_from(r, hashable@),
    {
        generator.generate_with(hashable)
    }

    /// The nonce of a text: the hash of its UTF-8 bytes.
    pub fn parse_str(s: &str) -> (r: Self)
        ensures
            r.0 == spec_xxh3_64(s.spec_bytes()),
    {
        Nonce(xxh3_64(s.as_bytes()))
    }

    /// The nonce with its base-62 code.
    pub fn into_pair(self) -> (r: NoncePair)
        ensures
            r.0 == self.0,
            r.1.0@ == spec_base62(self.0 as nat),
    {
        NoncePair(self.0, CodeBase62::from_u64(self.0))
    }

    /// The base-62 code of the nonce.
    pub fn to_string(&self) -> (s: String)
        ensures
            s@ == spec_base62(self.0 as nat),
    {
        self.into_pair().1.take()
    }

    /// Reads a nonce from its base-62 code.
    pub fn from_str(s: &str) -> (r: Result<Nonce, &'static str>)
        ensures
            match spec_decode62(s@) {
                Some(n) => r == Ok::<Nonce, &'static str>(Nonce(n)),
                None => r matches Err(e) && e@ == "Invalid base62"@,
            },
    {
        match decode_base62(s) {
            Some(n) => Ok(Nonce(n)),
            None => Err("Invalid base62"),
        }
    }
}

/// Reading back the base-62 code of a nonce gives the nonce.
pub proof fn law_nonce_code_roundtrip(n: u64)
    ensures
        spec_decode62(spec_base62(n as nat)) == Some(n),
{
    law_base62_conforms(n as nat);
    lemma_value62_of_code(n as nat);
}

/// A nonce with its base-62 code.
#[derive(Clone, Debug)]
pub struct NoncePair(pub u64, pub CodeBase62);

impl NoncePair {
    pub fn new_unchecked(nonce: u64, base62: CodeBase62) -> (r: Self)
        ensures
            r.0 == nonce,
            r.1 == base62,
    {
        NoncePair(nonce, base62)
    }

    pub fn from_tuple_unchecked(tuple: (u64, CodeBase62)) -> (r: Self)
        ensures
            r.0 == tuple.0,
            r.1 == tuple.1,
    {
        NoncePair(tuple.0, tuple.1)
    }

    pub fn take(self) -> (r: (u64, CodeBase62))
        ensures
            r.0 == self.0,
            r.1 == self.1,
    {
        (self.0, self.1)
    }

    pub fn nom(&self) -> (r: u64)
        ensures
            r == self.0,
    {
        self.0
    }

    pub fn as_str(&self) -> (s: &str)
        ensures
            s@ == self.1.0@,
    {
        self.1.get()
    }

    pub fn base62(&self) -> (r: &CodeBase62)
        ensures
            r == &self.1,
    {
        &self.1
    }

    pub fn to_nonce(&self) -> (r: Nonce)
        ensures
            r.0 == self.0,
    {
        Nonce(self.0)
    }

    pub fn into_nonce(self) -> (r: Nonce)
        ensures
            r.0 == self.0,
    {
        Nonce(self.0)
    }
}

/// Makes nonces that differ from call to call: each hashes the caller's
/// bytes with a running count and the clock.
pub struct NonceGenerator {
    counter: AtomicUsize,
}

impl NonceGenerator {
    pub fn new() -> (r: Self) {
        NonceGenerator { counter: AtomicUsize::new(0) }
    }

    /// A nonce that hashes `hashable`, the generator's count, and the clock.
    pub fn generate_with(&self, hashable: &[u8]) -> (r: Nonce)
        ensures
            spec_generated_from(r, hashable@),
    {
        let count = self.counter.fetch_add(1, Ordering::SeqCst);
        digest_with_count(hashable, count)
    }

    /// A nonce that hashes only the generator's count and the clock.
    pub fn generate(&self) -> (r: Nonce)
        ensures
            spec_generated_from(r, Seq::empty()),
    {
        let empty: Vec<u8> = Vec::new();
        let r = self.generate_with(empty.as_slice());
        proof {
            assert(empty@ =~= Seq::<u8>::empty());
        }
        r
    }
}

} // verus!
