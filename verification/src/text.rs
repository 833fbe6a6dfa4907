//! Character-level helpers shared by the parsers and formatters of the crate.
use vstd::prelude::*;
use vstd::string::StrSliceExecFns;
use vstd::string::StringExecFns;

verus! {

/// Calls `String::push`, which appends one character at the end of the
/// string.
#[verifier::external_body]
pub(crate) fn push_char(s: &mut String, ch: char)
    ensures
        final(s)@ == old(s)@.push(ch),
{
    s.push(ch);
}

/// The characters of `s`, in order.
pub fn str_chars(s: &str) -> (v: Vec<char>)
    ensures
        v@ == s@,
{
    let n = s.unicode_len();
    let mut v: Vec<char> = Vec::new();
    let mut i: usize = 0;
    while i < n
        invariant
            n == s@.len(),
            i <= n,
            v@ == s@.subrange(0, i as int),
        decreases n - i,
    {
        let c = s.get_char(i);
        v.push(c);
        i = i + 1;
    }
    v
}

/// A string made of the characters of `v`, in order.
pub fn string_from_chars(v: &[char]) -> (s: String)
    ensures
        s@ == v@,
{
    let mut s = String::new();
    let mut i: usize = 0;
    while i < v.len()
        invariant
            i <= v@.len(),
            s@ == v@.subrange(0, i as int),
        decreases v@.len() - i,
    {
        push_char(&mut s, v[i]);
        i = i + 1;
    }
    s
}


/// The parts separated by `sep`: `a`, `a sep b`, `a sep b sep c`, ...
pub open spec fn spec_join(parts: Seq<Seq<char>>, sep: Seq<char>) -> Seq<char>
    decreases parts.len(),
{
    if parts.len() == 0 {
        Seq::empty()
    } else if parts.len() == 1 {
        parts[0]
    } else {
        spec_join(parts.drop_last(), sep) + sep + parts.last()
    }
}

/// The strings of `parts` separated by `sep`.
pub fn join_strings(parts: &Vec<String>, sep: &str) -> (s: String)
    ensures
        s@ == spec_join(parts@.map_values(|p: String| p@), sep@),
{
    let ghost views = parts@.map_values(|p: String| p@);
    let mut s = String::new();
    let mut i: usize = 0;
    while i < parts.len()
        invariant
            i <= parts@.len(),
            views == parts@.map_values(|p: String| p@),
            s@ == spec_join(views.subrange(0, i as int), sep@),
        decreases parts@.len() - i,
    {
        proof {
            assert(views.subrange(0, i + 1).drop_last() =~= views.subrange(0, i as int));
        }
        if i > 0 {
            s.append(sep);
        } else {
            assert(spec_join(views.subrange(0, 0), sep@) =~= Seq::<char>::empty());
        }
        s.append(parts[i].as_str());
        proof {
            if i == 0 {
                assert(s@ =~= views.subrange(0, 1)[0]);
            }
        }
        i = i + 1;
    }
    proof {
        assert(views.subrange(0, parts@.len() as int) =~= views);
    }
    s
}

/// The `sep`-separated pieces of `s`, empty ones included: one more piece
/// than there are separators.
pub open spec fn spec_split(s: Seq<char>, sep: char) -> Seq<Seq<char>>
    decreases s.len(),
{
    if s.len() == 0 {
        seq![Seq::<char>::empty()]
    } else {
        let r = spec_split(s.drop_last(), sep);
        if s.last() == sep {
            r.push(Seq::empty())
        } else {
            r.update(r.len() - 1, r.last().push(s.last()))
        }
    }
}

/// The pieces of `s` between the separators `sep`.
pub fn split_chars(s: &Vec<char>, sep: char) -> (r: Vec<Vec<char>>)
    ensures
        r@.map_values(|p: Vec<char>| p@) == spec_split(s@, sep),
{
    let mut done: Vec<Vec<char>> = Vec::new();
    let mut cur: Vec<char> = Vec::new();
    let mut i: usize = 0;
    proof {
        assert(s@.subrange(0, 0) =~= Seq::<char>::empty());
        assert(spec_split(Seq::<char>::empty(), sep) =~= done@.map_values(|p: Vec<char>| p@).push(cur@));
    }
    while i < s.len()
        invariant
            i <= s@.len(),
            spec_split(s@.subrange(0, i as int), sep) == done@.map_values(|p: Vec<char>| p@).push(cur@),
        decreases s@.len() - i,
    {
        proof {
            assert(s@.subrange(0, i + 1).drop_last() =~= s@.subrange(0, i as int));
        }
        let ghost dv = done@.map_values(|p: Vec<char>| p@);
        if s[i] == sep {
            let piece = cur;
            done.push(piece);
            cur = Vec::new();
            proof {
                assert(done@.map_values(|p: Vec<char>| p@) =~= dv.push(piece@));
                assert(spec_split(s@.subrange(0, i + 1), sep) =~= done@.map_values(|p: Vec<char>| p@).push(cur@));
            }
        } else {
            cur.push(s[i]);
            proof {
                assert(spec_split(s@.subrange(0, i + 1), sep) =~= dv.push(cur@));
            }
        }
        i = i + 1;
    }
    let ghost dv = done@.map_values(|p: Vec<char>| p@);
    let last = cur;
    done.push(last);
    proof {
        assert(s@.subrange(0, s@.len() as int) =~= s@);
        assert(done@.map_values(|p: Vec<char>| p@) =~= dv.push(last@));
    }
    done
}

/// The decimal digit of value `d`.
pub open spec fn spec_digit(d: nat) -> char {
    (48 + d) as char
}

/// Whether `c` is one of `0-9`.
pub open spec fn spec_is_digit(c: char) -> bool {
    '0' <= c && c <= '9'
}

/// The decimal text of `n`, without leading zeros.
pub open spec fn spec_dec(n: nat) -> Seq<char>
    decreases n,
{
    if n < 10 {
        seq![spec_digit(n)]
    } else {
        spec_dec(n / 10).push(spec_digit(n % 10))
    }
}

/// The value of a string of decimal digits.
pub open spec fn spec_digits_value(s: Seq<char>) -> nat
    decreases s.len(),
{
    if s.len() == 0 {
        0
    } else {
        spec_digits_value(s.drop_last()) * 10 + ((s.last() as int - 48) as nat)
    }
}

/// What `str::parse::<u16>` gives: an optional `+`, then one or more
/// decimal digits of a value that fits in 16 bits.
pub open spec fn spec_parse_u16(s: Seq<char>) -> Option<u16> {
    spec_parse_digits_u16(if s.len() > 0 && s[0] == '+' { s.drop_first() } else { s })
}

/// One or more decimal digits of a value that fits in 16 bits.
pub open spec fn spec_parse_digits_u16(d: Seq<char>) -> Option<u16> {
    if d.len() == 0 || exists|i: int| 0 <= i < d.len() && !spec_is_digit(#[trigger] d[i]) {
        None
    } else if spec_digits_value(d) > u16::MAX {
        None
    } else {
        Some(spec_digits_value(d) as u16)
    }
}

/// Parses `s` as `str::parse::<u16>` does.
pub fn parse_u16(s: &Vec<char>) -> (r: Option<u16>)
    ensures
        r == spec_parse_u16(s@),
{
    let start: usize = if s.len() > 0 && s[0] == '+' { 1 } else { 0 };
    let ghost d = if s@.len() > 0 && s@[0] == '+' { s@.drop_first() } else { s@ };
    proof {
        assert(d =~= s@.subrange(start as int, s@.len() as int));
    }
    if start == s.len() {
        return None;
    }
    let mut v: u32 = 0;
    let mut i: usize = start;
    while i < s.len()
        invariant
            start <= i <= s@.len(),
            d == s@.subrange(start as int, s@.len() as int),
            d == (if s@.len() > 0 && s@[0] == '+' { s@.drop_first() } else { s@ }),
            forall|k: int| start <= k < i ==> spec_is_digit(#[trigger] s@[k]),
            v as nat == spec_digits_value(s@.subrange(start as int, i as int)),
            v <= u16::MAX,
        decreases s@.len() - i,
    {
        let c = s[i];
        if !('0' <= c && c <= '9') {
            proof {
                assert(d[i - start] == s@[i as int]);
                assert(!spec_is_digit(d[i - start]));
                assert(exists|k: int| 0 <= k < d.len() && !spec_is_digit(#[trigger] d[k]));
                assert(spec_parse_digits_u16(d) is None);
            }
            return None;
        }
        proof {
            assert(s@.subrange(start as int, i + 1).drop_last() =~= s@.subrange(start as int, i as int));
        }
        let digit = (c as u32) - 48;
        let nv = v * 10 + digit;
        if nv > 65535 {
            proof {
                if forall|k: int| 0 <= k < d.len() ==> spec_is_digit(#[trigger] d[k]) {
                    lemma_digits_value_prefix_le(d, (i + 1 - start) as int);
                    assert(d.subrange(0, i + 1 - start) =~= s@.subrange(start as int, i + 1));
                    assert(spec_digits_value(s@.subrange(start as int, i + 1)) == nv);
                    assert(spec_digits_value(d) > u16::MAX);
                } else {
                    let k = choose|k: int| 0 <= k < d.len() && !spec_is_digit(#[trigger] d[k]);
                }
                assert(spec_parse_digits_u16(d) is None);
            }
            return None;
        }
        v = nv;
        i = i + 1;
    }
    proof {
        assert(s@.subrange(start as int, s@.len() as int) == d);
        assert forall|k: int| 0 <= k < d.len() implies spec_is_digit(#[trigger] d[k]) by {
            assert(d[k] == s@[start + k]);
        }
    }
    Some(v as u16)
}

/// A longer string of digits has a value at least that of its prefix.
proof fn lemma_digits_value_prefix_le(s: Seq<char>, k: int)
    requires
        0 <= k <= s.len(),
        forall|i: int| 0 <= i < s.len() ==> spec_is_digit(#[trigger] s[i]),
    ensures
        spec_digits_value(s.subrange(0, k)) <= spec_digits_value(s),
    decreases s.len() - k,
{
    if k < s.len() {
        lemma_digits_value_prefix_le(s, k + 1);
        assert(s.subrange(0, k + 1).drop_last() =~= s.subrange(0, k));
    } else {
        assert(s.subrange(0, k) =~= s);
    }
}

/// Appends the decimal text of `n` to `out`.
pub fn push_dec(out: &mut Vec<char>, n: u16)
    ensures
        final(out)@ == old(out)@ + spec_dec(n as nat),
    decreases n,
{
    if n >= 10 {
        push_dec(out, n / 10);
    }
    out.push(((48 + n % 10) as u8) as char);
    proof {
        if n < 10 {
            assert(n % 10 == n);
        }
    }
}

/// The decimal text of every number is a non-empty string of digits that
/// reads back as the number.
pub proof fn lemma_dec_digits(n: nat)
    ensures
        spec_dec(n).len() > 0,
        forall|i: int| 0 <= i < spec_dec(n).len() ==> spec_is_digit(#[trigger] spec_dec(n)[i]),
        spec_digits_value(spec_dec(n)) == n,
        spec_dec(n)[0] != '+',
    decreases n,
{
    if n < 10 {
        assert(spec_digit(n) as int == 48 + n);
        assert(spec_dec(n).drop_last() =~= Seq::<char>::empty());
        assert(spec_digits_value(spec_dec(n)) == spec_digits_value(Seq::<char>::empty()) * 10 + ((spec_dec(n).last() as int - 48) as nat));
    }
    if n >= 10 {
        lemma_dec_digits(n / 10);
        let s = spec_dec(n);
        assert(s.drop_last() =~= spec_dec(n / 10));
        assert(spec_digit(n % 10) as int == 48 + n % 10);
        assert(s.last() == spec_digit(n % 10));
        assert(spec_digits_value(s) == spec_digits_value(s.drop_last()) * 10 + ((s.last() as int - 48) as nat));
        assert(spec_digits_value(s.drop_last()) == n / 10);
        assert(n == (n / 10) * 10 + n % 10) by (nonlinear_arith);
        assert forall|i: int| 0 <= i < s.len() implies spec_is_digit(#[trigger] s[i]) by {
            if i < s.len() - 1 {
                assert(s[i] == spec_dec(n / 10)[i]);
            }
        }
    }
}

/// Decimal text reads back with `str::parse::<u16>`.
pub proof fn lemma_parse_dec(n: u16)
    ensures
        spec_parse_u16(spec_dec(n as nat)) == Some(n),
{
    lemma_dec_digits(n as nat);
}

/// Text without the separator is a single piece.
pub proof fn lemma_split_single(y: Seq<char>, sep: char)
    requires
        !y.contains(sep),
    ensures
        spec_split(y, sep) == seq![y],
    decreases y.len(),
{
    if y.len() == 0 {
        assert(y =~= Seq::<char>::empty());
    } else {
        assert(!y.drop_last().contains(sep)) by {
            if y.drop_last().contains(sep) {
                let i = choose|i: int| 0 <= i < y.drop_last().len() && y.drop_last()[i] == sep;
                assert(y[i] == sep);
            }
        }
        lemma_split_single(y.drop_last(), sep);
        assert(y.last() != sep) by {
            assert(y[y.len() - 1] == y.last());
        }
        assert(y.drop_last().push(y.last()) =~= y);
        let r = spec_split(y.drop_last(), sep);
        assert(spec_split(y, sep) == r.update(r.len() - 1, r.last().push(y.last())));
        assert(r.len() == 1 && r.last() == y.drop_last());
        assert(seq![y.drop_last()].update(0, y.drop_last().push(y.last())) =~= seq![y]);
    }
}

/// A separator followed by text without separators adds one piece.
pub proof fn lemma_split_append(x: Seq<char>, y: Seq<char>, sep: char)
    requires
        !y.contains(sep),
    ensures
        spec_split(x + seq![sep] + y, sep) == spec_split(x, sep).push(y),
    decreases y.len(),
{
    let s = x + seq![sep] + y;
    if y.len() == 0 {
        assert(s.drop_last() =~= x);
        assert(y =~= Seq::<char>::empty());
        assert(s.last() == sep);
        assert(spec_split(s, sep) == spec_split(s.drop_last(), sep).push(Seq::empty()));
    } else {
        assert(!y.drop_last().contains(sep)) by {
            if y.drop_last().contains(sep) {
                let i = choose|i: int| 0 <= i < y.drop_last().len() && y.drop_last()[i] == sep;
                assert(y[i] == sep);
            }
        }
        lemma_split_append(x, y.drop_last(), sep);
        assert(s.drop_last() =~= x + seq![sep] + y.drop_last());
        assert(s.last() == y.last());
        assert(y.last() != sep) by {
            assert(y[y.len() - 1] == y.last());
        }
        let r = spec_split(x, sep).push(y.drop_last());
        assert(y.drop_last().push(s.last()) =~= y);
        assert(spec_split(s, sep) == r.update(r.len() - 1, r.last().push(s.last())));
        assert(r.update(r.len() - 1, r.last().push(s.last())) =~= spec_split(x, sep).push(y));
    }
}

/// Decimal text has no character other than digits.
pub proof fn lemma_dec_no_char(n: nat, c: char)
    requires
        !spec_is_digit(c),
    ensures
        !spec_dec(n).contains(c),
{
    lemma_dec_digits(n);
    if spec_dec(n).contains(c) {
        let i = choose|i: int| 0 <= i < spec_dec(n).len() && spec_dec(n)[i] == c;
        assert(spec_is_digit(spec_dec(n)[i]));
    }
}
} // verus!
