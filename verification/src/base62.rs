//! Base-62 codes of unsigned integers.
use vstd::prelude::*;
use crate::text::{str_chars, string_from_chars};

verus! {

/// The digit of value `d` (`d < 62`) in the alphabet `0-9`, `a-z`, `A-Z`.
pub open spec fn spec_digit62(d: nat) -> char {
    if d < 10 {
        (48 + d) as char
    } else if d < 36 {
        (97 + (d - 10)) as char
    } else {
        (65 + (d - 36)) as char
    }
}

/// The most significant digit first, without leading zeros; `0` is `"0"`.
pub open spec fn spec_base62(n: nat) -> Seq<char>
    decreases n,
{
    if n < 62 {
        seq![spec_digit62(n)]
    } else {
        spec_base62(n / 62).push(spec_digit62(n % 62))
    }
}

/// A character of the base-62 alphabet.
pub open spec fn spec_is_base62_char(c: char) -> bool {
    ('0' <= c && c <= '9') || ('a' <= c && c <= 'z') || ('A' <= c && c <= 'Z')
}

/// A non-empty string of base-62 characters.
pub open spec fn spec_conforms(s: Seq<char>) -> bool {
    s.len() > 0 && forall|i: int| 0 <= i < s.len() ==> spec_is_base62_char(#[trigger] s[i])
}

/// A base-62 code: the text of an unsigned integer in the alphabet
/// `0-9a-zA-Z`, most significant digit first.
#[derive(Clone, Debug)]
pub struct CodeBase62(pub String);

fn digit62(d: u64) -> (c: char)
    requires
        d < 62,
    ensures
        c == spec_digit62(d as nat),
{
    if d < 10 {
        ((48 + d) as u8) as char
    } else if d < 36 {
        ((97 + (d - 10)) as u8) as char
    } else {
        ((65 + (d - 36)) as u8) as char
    }
}

proof fn lemma_digit62_in_alphabet(d: nat)
    requires
        d < 62,
    ensures
        spec_is_base62_char(spec_digit62(d)),
{
}

proof fn lemma_digit62_injective(a: nat, b: nat)
    requires
        a < 62,
        b < 62,
        spec_digit62(a) == spec_digit62(b),
    ensures
        a == b,
{
}

impl CodeBase62 {
    /// The code as text.
    pub fn get(&self) -> (s: &str)
        ensures
            s@ == self.0@,
    {
        self.0.as_str()
    }

    /// The code as an owned string.
    pub fn take(self) -> (s: String)
        ensures
            s@ == self.0@,
    {
        self.0
    }

    /// The base-62 code of `n`.
    pub fn from_u64(n: u64) -> (r: Self)
        ensures
            r.0@ == spec_base62(n as nat),
            1 <= r.0@.len() <= 11,
            n == 0 <==> r.0@ == seq!['0'],
            n > 0 ==> r.0@[0] != '0',
    {
        proof {
            law_base62_shape(n as nat);
        }
        if n == 0 {
            let mut s = String::new();
            crate::text::push_char(&mut s, '0');
            proof {
                assert(s@ =~= seq!['0']);
            }
            return CodeBase62(s);
        }
        let mut digits: Vec<char> = Vec::new();
        let mut m: u64 = n;
        while m > 0
            invariant
                spec_base62(n as nat) == (if m == 0 { Seq::<char>::empty() } else { spec_base62(
                    m as nat,
                ) }) + digits@,
            decreases m,
        {
            let d = m % 62;
            let c = digit62(d);
            let ghost old_digits = digits@;
            digits.insert(0, c);
            proof {
                if m < 62 {
                    assert(m / 62 == 0);
                    assert(spec_base62(m as nat) == seq![c]);
                    assert(seq![c] + old_digits =~= digits@);
                    assert(Seq::<char>::empty() + digits@ =~= digits@);
                } else {
                    assert(spec_base62(m as nat) == spec_base62((m / 62) as nat).push(c));
                    assert(spec_base62((m / 62) as nat).push(c) + old_digits =~= spec_base62(
                        (m / 62) as nat,
                    ) + digits@);
                }
            }
            m = m / 62;
        }
        proof {
            assert(Seq::<char>::empty() + digits@ =~= digits@);
        }
        CodeBase62(string_from_chars(digits.as_slice()))
    }

    /// Whether `s` is a non-empty string of base-62 characters.
    pub fn conforms(s: &str) -> (b: bool)
        ensures
            b == spec_conforms(s@),
    {
        let cs = str_chars(s);
        if cs.len() == 0 {
            return false;
        }
        let mut i: usize = 0;
        while i < cs.len()
            invariant
                cs@ == s@,
                i <= cs@.len(),
                forall|j: int| 0 <= j < i ==> spec_is_base62_char(#[trigger] cs@[j]),
            decreases cs@.len() - i,
        {
            let c = cs[i];
            if !(('0' <= c && c <= '9') || ('a' <= c && c <= 'z') || ('A' <= c && c <= 'Z')) {
                return false;
            }
            i = i + 1;
        }
        true
    }
}


/// `62` to the power `k`.
pub open spec fn spec_pow62(k: nat) -> nat
    decreases k,
{
    if k == 0 {
        1
    } else {
        62 * spec_pow62((k - 1) as nat)
    }
}

proof fn lemma_base62_len(n: nat, k: nat)
    requires
        k >= 1,
        n < spec_pow62(k),
    ensures
        spec_base62(n).len() <= k,
    decreases k,
{
    if n >= 62 {
        let p = spec_pow62((k - 1) as nat);
        assert(k >= 2) by {
            if k == 1 {
                assert(spec_pow62(0) == 1);
            }
        }
        assert(n / 62 < p) by (nonlinear_arith)
            requires
                n < 62 * p,
        ;
        lemma_base62_len(n / 62, (k - 1) as nat);
    }
}

/// The code of an integer is `"0"` for zero, and otherwise starts with a
/// digit other than `0`; the code of a 64-bit integer has 1 to 11 digits.
pub proof fn law_base62_shape(n: nat)
    ensures
        spec_base62(n).len() >= 1,
        n == 0 <==> spec_base62(n) == seq!['0'],
        n > 0 ==> spec_base62(n)[0] != '0',
        n < 0x1_0000_0000_0000_0000 ==> spec_base62(n).len() <= 11,
    decreases n,
{
    if n >= 62 {
        law_base62_shape(n / 62);
        assert(spec_base62(n)[0] == spec_base62(n / 62)[0]);
    } else {
        assert(spec_base62(n) == seq![spec_digit62(n)]);
        if n > 0 {
            assert(spec_digit62(n) != '0');
        }
        if spec_base62(n) == seq!['0'] {
            assert(spec_base62(n)[0] == '0');
        }
    }
    if n < 0x1_0000_0000_0000_0000 {
        reveal_with_fuel(spec_pow62, 12);
        assert(spec_pow62(11) == 52036560683837093888nat);
        lemma_base62_len(n, 11);
    }
}

/// Every base-62 code conforms.
pub proof fn law_base62_conforms(n: nat)
    ensures
        spec_conforms(spec_base62(n)),
    decreases n,
{
    if n < 62 {
        lemma_digit62_in_alphabet(n);
    } else {
        law_base62_conforms(n / 62);
        lemma_digit62_in_alphabet(n % 62);
        let s = spec_base62(n);
        assert forall|i: int| 0 <= i < s.len() implies spec_is_base62_char(#[trigger] s[i]) by {
            if i < s.len() - 1 {
                assert(s[i] == spec_base62(n / 62)[i]);
            }
        }
    }
}

/// Distinct integers have distinct base-62 codes.
pub proof fn law_base62_injective(a: nat, b: nat)
    requires
        spec_base62(a) == spec_base62(b),
    ensures
        a == b,
    decreases a,
{
    let sa = spec_base62(a);
    let sb = spec_base62(b);
    if a < 62 {
        if b >= 62 {
            law_base62_conforms(b / 62);
            assert(sb.len() >= 2);
        } else {
            assert(sa == seq![spec_digit62(a)]);
            assert(sb == seq![spec_digit62(b)]);
            assert(sa[0] == spec_digit62(a));
            assert(sb[0] == spec_digit62(b));
            assert(spec_digit62(a) == spec_digit62(b));
            lemma_digit62_injective(a, b);
        }
    } else {
        law_base62_conforms(a / 62);
        if b < 62 {
            assert(sa.len() >= 2);
        } else {
            assert(sa == spec_base62(a / 62).push(spec_digit62(a % 62)));
            assert(sb == spec_base62(b / 62).push(spec_digit62(b % 62)));
            assert(sa.last() == spec_digit62(a % 62));
            assert(sb.last() == spec_digit62(b % 62));
            assert(spec_digit62(a % 62) == spec_digit62(b % 62));
            lemma_digit62_injective(a % 62, b % 62);
            assert(sa.drop_last() =~= spec_base62(a / 62));
            assert(sb.drop_last() =~= spec_base62(b / 62));
            law_base62_injective(a / 62, b / 62);
        }
    }
}


impl From<u64> for CodeBase62 {
    /// The same as `CodeBase62::from_u64`.
    fn from(v: u64) -> (r: Self)
        ensures
            r.0@ == spec_base62(v as nat),
    {
        Self::from_u64(v)
    }
}

impl vstd::std_specs::convert::FromSpecImpl<u64> for CodeBase62 {
    /// A code holds a `String`, which no spec function builds; the result
    /// is stated by its text instead.
    open spec fn obeys_from_spec() -> bool {
        false
    }

    open spec fn from_spec(v: u64) -> Self {
        arbitrary()
    }
}

} // verus!
