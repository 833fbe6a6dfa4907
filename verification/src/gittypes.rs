//! Values of the git layer: object ids, pathspecs, upstreams, merge
//! resolutions and the messages of merges.
use vstd::prelude::*;
use vstd::string::StringSliceAdditionalSpecFns;
use crate::giterror::{Error, ErrSrc, StateErr};
use crate::gitstatus::{Status, PathStatus, PathStatusModel, PathStatusTrait, StatusTrait, model_conflicted, status_models};
use crate::scan::{spec_trim, trim_chars, spec_trim_end, spec_is_whitespace, is_whitespace};
use crate::text::{str_chars, string_from_chars, spec_join, join_strings};

verus! {

#[verifier::external_type_specification]
#[verifier::external_body]
pub struct ExFromHexError(hex::FromHexError);

/// The value of a hex digit byte (`0-9`, `a-f`, `A-F`).
pub open spec fn spec_hex_val(b: u8) -> Option<u8> {
    if 48 <= b <= 57 {
        Some((b - 48) as u8)
    } else if 97 <= b <= 102 {
        Some((b - 97 + 10) as u8)
    } else if 65 <= b <= 70 {
        Some((b - 65 + 10) as u8)
    } else {
        None
    }
}

/// The bytes that a hex text spells, two digits a byte, high digit first;
/// `None` where the length is odd or a byte is no hex digit.
pub open spec fn spec_hex_decode(data: Seq<u8>) -> Option<Seq<u8>> {
    if data.len() % 2 == 0 && forall|i: int| 0 <= i < data.len() ==> (#[trigger] spec_hex_val(data[i])) is Some {
        Some(Seq::new((data.len() / 2) as nat, |i: int| (spec_hex_val(data[2 * i])->Some_0 * 16 + spec_hex_val(data[2 * i + 1])->Some_0) as u8))
    } else {
        None
    }
}

/// The lowercase hex digit of `d` (`d < 16`).
pub open spec fn spec_hex_digit(d: nat) -> char {
    if d < 10 {
        (48 + d) as char
    } else {
        (97 + (d - 10)) as char
    }
}

/// Lowercase hex of `data`, two digits a byte, high digit first.
pub open spec fn spec_hex_encode(data: Seq<u8>) -> Seq<char> {
    Seq::new(
        (2 * data.len()) as nat,
        |i: int|
            if i % 2 == 0 {
                spec_hex_digit(data[i / 2] as nat / 16)
            } else {
                spec_hex_digit(data[i / 2] as nat % 16)
            },
    )
}

/// The bytes of a text of ASCII characters.
pub open spec fn spec_ascii_bytes(s: Seq<char>) -> Seq<u8> {
    Seq::new(s.len(), |i: int| s[i] as u8)
}

/// A hex digit character (`0-9`, `a-f`, `A-F`).
pub open spec fn spec_is_hex_char(c: char) -> bool {
    ('0' <= c && c <= '9') || ('a' <= c && c <= 'f') || ('A' <= c && c <= 'F')
}

/// The text with its ASCII capitals in lower case.
pub open spec fn spec_ascii_lowercase(s: Seq<char>) -> Seq<char> {
    Seq::new(s.len(), |i: int| if 'A' <= s[i] && s[i] <= 'Z' { ((s[i] as u32) + 32) as char } else { s[i] })
}

proof fn lemma_hex_char_digit(c: char)
    requires
        spec_is_hex_char(c),
    ensures
        spec_hex_val(c as u8) is Some,
        spec_hex_val(c as u8)->Some_0 < 16,
        spec_hex_digit(spec_hex_val(c as u8)->Some_0 as nat) == (if 'A' <= c && c <= 'Z' {
            ((c as u32) + 32) as char
        } else {
            c
        }),
{
}

/// Reading an object id from 40 hex digits and writing it back gives
/// those digits in lower case.
pub proof fn law_oid_text_roundtrip(h: &str)
    requires
        h@.len() == 40,
        forall|i: int| 0 <= i < h@.len() ==> spec_is_hex_char(#[trigger] h@[i]),
    ensures
        h.spec_bytes().len() == 40,
        spec_hex_decode(h.spec_bytes()) is Some,
        spec_hex_encode(spec_hex_decode(h.spec_bytes())->Some_0) == spec_ascii_lowercase(h@),
{
    assert(vstd::string::is_ascii(h)) by {
        assert forall|i: int| 0 <= i < h@.len() implies '\0' <= #[trigger] h@[i] <= '\u{7f}' by {
            assert(spec_is_hex_char(h@[i]));
        }
    }
    vstd::string::is_ascii_spec_bytes(h);
    let b = h.spec_bytes();
    assert(b =~= Seq::new(h@.len(), |i: int| h@[i] as u8));
    assert forall|i: int| 0 <= i < b.len() implies (#[trigger] spec_hex_val(b[i])) is Some by {
        lemma_hex_char_digit(h@[i]);
    }
    let d = spec_hex_decode(b)->Some_0;
    let e = spec_hex_encode(d);
    let l = spec_ascii_lowercase(h@);
    assert forall|i: int| 0 <= i < e.len() implies #[trigger] e[i] == l[i] by {
        let k = i / 2;
        lemma_hex_char_digit(h@[2 * k]);
        lemma_hex_char_digit(h@[2 * k + 1]);
        let hi = spec_hex_val(b[2 * k])->Some_0;
        let lo = spec_hex_val(b[2 * k + 1])->Some_0;
        assert(d[k] == (hi * 16 + lo) as u8);
        assert((hi * 16 + lo) / 16 == hi && (hi * 16 + lo) % 16 == lo && hi * 16 + lo < 256) by (nonlinear_arith)
            requires
                hi < 16,
                lo < 16,
        ;
        if i % 2 == 0 {
            assert(i == 2 * k);
        } else {
            assert(i == 2 * k + 1);
        }
    }
    assert(e =~= l);
}

/// Calls `hex::decode_to_slice` into 20 bytes: the result is what the hex
/// digits spell, where the text is 40 hex digits, and an error otherwise.
#[verifier::external_body]
fn hex_decode_20(hex: &str) -> (r: Result<[u8; 20], hex::FromHexError>)
    ensures
        match r {
            Ok(b) => hex.spec_bytes().len() == 40 && spec_hex_decode(hex.spec_bytes()) == Some(b@),
            Err(_) => !(hex.spec_bytes().len() == 40 && spec_hex_decode(hex.spec_bytes()) is Some),
        },
{
    let mut bytes = [0u8; 20];
    hex::decode_to_slice(hex, &mut bytes as &mut [u8]).map(|_| bytes)
}

/// Calls `hex::encode`: lowercase hex of the bytes, two digits a byte.
#[verifier::external_body]
fn hex_encode(data: &[u8]) -> (s: String)
    ensures
        s@ == spec_hex_encode(data@),
{
    hex::encode(data)
}

/// Encoding bytes as hex and decoding the text gives the bytes back.
pub proof fn law_hex_roundtrip(data: Seq<u8>)
    ensures
        spec_hex_decode(spec_ascii_bytes(spec_hex_encode(data))) == Some(data),
{
    let e = spec_hex_encode(data);
    let b = spec_ascii_bytes(e);
    assert forall|i: int| 0 <= i < b.len() implies (#[trigger] spec_hex_val(b[i])) is Some
        && spec_hex_val(b[i])->Some_0 == (if i % 2 == 0 {
        data[i / 2] as nat / 16
    } else {
        data[i / 2] as nat % 16
    }) by {
        let d: nat = if i % 2 == 0 {
            data[i / 2] as nat / 16
        } else {
            data[i / 2] as nat % 16
        };
        assert(d < 16);
        assert(b[i] == e[i] as u8);
    }
    assert forall|k: int| 0 <= k < data.len() implies (spec_hex_val(b[2 * k])->Some_0 * 16
        + spec_hex_val(b[2 * k + 1])->Some_0) as u8 == #[trigger] data[k] by {
        assert((2 * k) % 2 == 0);
        assert((2 * k + 1) % 2 == 1);
        assert((2 * k) / 2 == k);
        assert((2 * k + 1) / 2 == k);
        assert(spec_hex_val(b[2 * k])->Some_0 == data[k] as nat / 16);
        assert(spec_hex_val(b[2 * k + 1])->Some_0 == data[k] as nat % 16);
        assert((data[k] as nat / 16) * 16 + data[k] as nat % 16 == data[k] as nat);
    }
    assert(spec_hex_decode(b)->Some_0 =~= data);
}

/// A git object id: the 20 bytes of a SHA-1 hash.
#[derive(Clone, PartialEq, Eq, Debug)]
pub struct GitOID(pub [u8; 20]);

/// The message of a text that is no object id: of one whose length in
/// bytes is not 40, and of one that does not spell 20 bytes in hex.
pub open spec fn spec_oid_error(len: usize, hex: Seq<char>) -> Seq<char> {
    if len != 40 {
        "Git hash must be 40 characters long"@
    } else {
        "Invalid Git hash: "@ + hex
    }
}

impl GitOID {
    pub fn new(bytes: [u8; 20]) -> (r: Result<Self, Error>)
        ensures
            r matches Ok(oid) && oid.0@ == bytes@,
    {
        Ok(GitOID(bytes))
    }

    pub fn as_bytes(&self) -> (r: &[u8])
        ensures
            r@ == self.0@,
    {
        self.0.as_slice()
    }

    /// Reads an object id from its 40 hex digits.
    pub fn from_str(hex: &str) -> (r: Result<Self, Error>)
        ensures
            match r {
                Ok(oid) => hex.spec_bytes().len() == 40 && spec_hex_decode(hex.spec_bytes()) == Some(
                    oid.0@,
                ),
                Err(e) => !(hex.spec_bytes().len() == 40 && spec_hex_decode(hex.spec_bytes()) is Some),
            },
            r is Err ==> (r matches Err(Error::FromStr(m)) && m@ == spec_oid_error(hex.spec_bytes().len() as usize, hex@)),
    {
        proof {
            reveal_strlit("Git hash must be 40 characters long");
            reveal_strlit("Invalid Git hash: ");
        }
        if hex.len() != 40 {
            return Err(Error::FromStr(String::from_str("Git hash must be 40 characters long")));
        }
        match hex_decode_20(hex) {
            Ok(bytes) => Ok(GitOID(bytes)),
            Err(_) => {
                let mut m = String::from_str("Invalid Git hash: ");
                m.append(hex);
                Err(Error::FromStr(m))
            },
        }
    }

    /// An object id from 20 bytes.
    pub fn try_from_bytes(value: &[u8]) -> (r: Result<Self, Error>)
        ensures
            match r {
                Ok(oid) => value@.len() == 20 && oid.0@ == value@,
                Err(e) => e is FromStr && value@.len() != 20,
            },
    {
        if value.len() != 20 {
            return Err(Error::FromStr(String::from_str("Git hash must be 20 bytes")));
        }
        let mut bytes = [0u8; 20];
        let mut i: usize = 0;
        while i < 20
            invariant
                value@.len() == 20,
                i <= 20,
                forall|j: int| 0 <= j < i ==> bytes@[j] == value@[j],
            decreases 20 - i,
        {
            bytes[i] = value[i];
            i = i + 1;
        }
        proof {
            assert(bytes@ =~= value@);
        }
        Ok(GitOID(bytes))
    }

    /// The 40 lowercase hex digits of the id.
    pub fn to_string(&self) -> (s: String)
        ensures
            s@ == spec_hex_encode(self.0@),
    {
        hex_encode(self.0.as_slice())
    }
}

/// A template for a new repository: a directory, or files by path.
pub enum InitTemplate {
    Dir(String),
    Raw(Vec<(String, Vec<u8>)>),
}

/// Whether `b`, scanned from index `i`, holds a glob character that no
/// backslash escapes.
pub open spec fn spec_glob_from(b: Seq<u8>, i: int) -> bool
    decreases b.len() - i,
{
    if i < 0 || i >= b.len() {
        false
    } else if b[i] == 42 || b[i] == 63 || b[i] == 91 || b[i] == 93 || b[i] == 123 || b[i] == 125 {
        true
    } else if b[i] == 92 && i + 1 < b.len() {
        spec_glob_from(b, i + 2)
    } else {
        spec_glob_from(b, i + 1)
    }
}

/// Whether a pathspec is a glob: it holds `*`, `?`, `[`, `]`, `{` or `}`
/// that no backslash escapes.
pub open spec fn spec_pathspec_is_glob(s: Seq<u8>) -> bool {
    spec_glob_from(s, 0)
}

/// Whether `s` is a glob pathspec.
pub fn pathspec_is_glob(s: &str) -> (r: bool)
    ensures
        r == spec_pathspec_is_glob(s.spec_bytes()),
{
    let bytes = s.as_bytes();
    let mut i: usize = 0;
    while i < bytes.len()
        invariant
            bytes@ == s.spec_bytes(),
            spec_glob_from(bytes@, 0) == spec_glob_from(bytes@, i as int),
        decreases bytes@.len() - i,
    {
        let c = bytes[i];
        if c == 42 || c == 63 || c == 91 || c == 93 || c == 123 || c == 125 {
            return true;
        }
        if c == 92 && i + 1 < bytes.len() {
            i = i + 2;
        } else {
            i = i + 1;
        }
    }
    false
}

/// The pathspec as a path, where it is not a glob.
pub fn pathspec_as_path(pathspec: &str) -> (r: Option<&str>)
    ensures
        match r {
            Some(p) => !spec_pathspec_is_glob(pathspec.spec_bytes()) && p@ == pathspec@,
            None => spec_pathspec_is_glob(pathspec.spec_bytes()),
        },
{
    if !pathspec_is_glob(pathspec) {
        Some(pathspec)
    } else {
        None
    }
}

/// A remote and a branch of it.
#[derive(Debug, Clone)]
pub struct Upstream {
    remote_name: String,
    remote_branch_name: String,
}

impl View for Upstream {
    type V = (Seq<char>, Seq<char>);

    closed spec fn view(&self) -> (Seq<char>, Seq<char>) {
        (self.remote_name@, self.remote_branch_name@)
    }
}

/// The first index of `c` in `s`.
pub open spec fn spec_first_index(s: Seq<char>, c: char) -> Option<int> {
    if exists|k: int| 0 <= k < s.len() && s[k] == c && forall|j: int| 0 <= j < k ==> s[j] != c {
        Some(choose|k: int| 0 <= k < s.len() && s[k] == c && forall|j: int| 0 <= j < k ==> s[j] != c)
    } else {
        None
    }
}

/// The remote and branch of a ref name `refs/remotes/<remote>/<branch>`:
/// the remote ends at the first `/` after the prefix.
pub open spec fn spec_upstream_from_ref(r: Seq<char>) -> Option<(Seq<char>, Seq<char>)> {
    if r.len() >= 13 && r.take(13) == "refs/remotes/"@ {
        let rest = r.skip(13);
        match spec_first_index(rest, '/') {
            Some(k) => Some((rest.take(k), rest.skip(k + 1))),
            None => None,
        }
    } else {
        None
    }
}

fn sub_chars(v: &Vec<char>, from: usize, to: usize) -> (r: Vec<char>)
    requires
        from <= to <= v@.len(),
    ensures
        r@ == v@.subrange(from as int, to as int),
{
    let mut r: Vec<char> = Vec::new();
    let mut j: usize = from;
    while j < to
        invariant
            from <= j <= to <= v@.len(),
            r@ == v@.subrange(from as int, j as int),
        decreases to - j,
    {
        r.push(v[j]);
        j = j + 1;
        proof {
            assert(r@ =~= v@.subrange(from as int, j as int));
        }
    }
    r
}

impl Upstream {
    /// `origin` and `main`.
    pub fn origin_main() -> (r: Self)
        ensures
            r@ == ("origin"@, "main"@),
    {
        Upstream { remote_name: String::from_str("origin"), remote_branch_name: String::from_str("main") }
    }

    pub fn new(remote_name: String, remote_branch_name: String) -> (r: Self)
        ensures
            r@ == (remote_name@, remote_branch_name@),
    {
        Upstream { remote_name, remote_branch_name }
    }

    pub fn new_owned(remote_name: String, remote_branch_name: String) -> (r: Self)
        ensures
            r@ == (remote_name@, remote_branch_name@),
    {
        Upstream { remote_name, remote_branch_name }
    }

    pub fn new_borrowed(remote_name: &str, remote_branch_name: &str) -> (r: Self)
        ensures
            r@ == (remote_name@, remote_branch_name@),
    {
        Upstream {
            remote_name: String::from_str(remote_name),
            remote_branch_name: String::from_str(remote_branch_name),
        }
    }

    pub fn remote_name(&self) -> (r: &str)
        ensures
            r@ == self@.0,
    {
        self.remote_name.as_str()
    }

    pub fn remote_branch_name(&self) -> (r: &str)
        ensures
            r@ == self@.1,
    {
        self.remote_branch_name.as_str()
    }

    /// The upstream of a remote ref name such as `refs/remotes/origin/main`.
    pub fn from_ref_name(ref_name: &str) -> (r: Result<Self, Error>)
        ensures
            match r {
                Ok(u) => spec_upstream_from_ref(ref_name@) == Some(u@),
                Err(e) => spec_upstream_from_ref(ref_name@) is None && e matches Error::State(
                    StateErr::UnsupportedBranchName,
                    ErrSrc::NoSource,
                ),
            },
    {
        let cs = str_chars(ref_name);
        let prefix = str_chars("refs/remotes/");
        proof {
            reveal_strlit("refs/remotes/");
        }
        if cs.len() < 13 {
            return Err(Error::State(StateErr::UnsupportedBranchName, ErrSrc::NoSource));
        }
        let mut i: usize = 0;
        while i < 13
            invariant
                cs@ == ref_name@,
                prefix@ == "refs/remotes/"@,
                prefix@.len() == 13,
                cs@.len() >= 13,
                i <= 13,
                forall|j: int| 0 <= j < i ==> cs@[j] == prefix@[j],
            decreases 13 - i,
        {
            if cs[i] != prefix[i] {
                proof {
                    assert(cs@.take(13)[i as int] != "refs/remotes/"@[i as int]);
                }
                return Err(Error::State(StateErr::UnsupportedBranchName, ErrSrc::NoSource));
            }
            i = i + 1;
        }
        proof {
            assert(cs@.take(13) =~= "refs/remotes/"@);
        }
        let ghost rest = cs@.skip(13);
        let mut k: usize = 13;
        while k < cs.len() && cs[k] != '/'
            invariant
                13 <= k <= cs@.len(),
                rest == cs@.skip(13),
                forall|j: int| 0 <= j < k - 13 ==> rest[j] != '/',
            decreases cs@.len() - k,
        {
            k = k + 1;
        }
        if k == cs.len() {
            proof {
                if exists|m: int| 0 <= m < rest.len() && rest[m] == '/' && forall|j: int| 0 <= j < m ==> rest[j] != '/' {
                    let m = choose|m: int| 0 <= m < rest.len() && rest[m] == '/' && forall|j: int| 0 <= j < m ==> rest[j] != '/';
                    assert(rest[m] != '/');
                }
            }
            return Err(Error::State(StateErr::UnsupportedBranchName, ErrSrc::NoSource));
        }
        proof {
            let kk = k - 13;
            assert(rest[kk] == '/');
            assert(exists|m: int| 0 <= m < rest.len() && rest[m] == '/' && forall|j: int| 0 <= j < m ==> rest[j] != '/');
            let m = choose|m: int| 0 <= m < rest.len() && rest[m] == '/' && forall|j: int| 0 <= j < m ==> rest[j] != '/';
            if m < kk {
                assert(rest[m] != '/');
            } else if m > kk {
                assert(rest[kk] != '/');
            }
            assert(m == kk);
        }
        let name = string_from_chars(sub_chars(&cs, 13, k).as_slice());
        let branch = string_from_chars(sub_chars(&cs, k + 1, cs.len()).as_slice());
        proof {
            assert(name@ =~= rest.take(k - 13));
            assert(branch@ =~= rest.skip(k - 13 + 1));
        }
        Ok(Upstream { remote_name: name, remote_branch_name: branch })
    }
}

/// How a merge ended.
#[derive(Debug)]
pub enum Resolution {
    Unmodified,
    FastForwarded,
    AutoResolved,
    Unresolved(Status),
}

impl Resolution {
    pub fn is_unmodified(&self) -> (b: bool)
        ensures
            b == (*self is Unmodified),
    {
        matches!(self, Resolution::Unmodified)
    }

    pub fn is_fast_forwarded(&self) -> (b: bool)
        ensures
            b == (*self is FastForwarded),
    {
        matches!(self, Resolution::FastForwarded)
    }

    pub fn is_auto_resolved(&self) -> (b: bool)
        ensures
            b == (*self is AutoResolved),
    {
        matches!(self, Resolution::AutoResolved)
    }

    pub fn is_unresolved(&self) -> (b: bool)
        ensures
            b == (*self is Unresolved),
    {
        matches!(self, Resolution::Unresolved(_))
    }

    /// Whether the merge left HEAD committed: unmodified or fast-forwarded.
    pub fn is_committed(&self) -> (b: bool)
        ensures
            b == (*self is Unmodified || *self is FastForwarded),
    {
        matches!(self, Resolution::Unmodified | Resolution::FastForwarded)
    }
}

/// A kind of commit signature.
#[derive(Debug, Clone, Copy, PartialEq, Eq)]
pub enum SignatureKind {
    GpgSha1,
    GpgSha256,
    Ssh256,
}

/// The conflicted paths of a status, in its order.
pub open spec fn spec_conflict_paths(s: Seq<PathStatusModel>) -> Seq<Seq<char>> {
    s.filter(|m: PathStatusModel| model_conflicted(m)).map_values(|m: PathStatusModel| m.0)
}

/// The message of a merge of `dest_rev` into `source_rev`, listing the
/// conflicted paths.
pub open spec fn spec_merge_msg(source_rev: Seq<char>, dest_rev: Seq<char>, conflicts: Seq<Seq<char>>) -> Seq<char> {
    let lines = conflicts.map_values(|p: Seq<char>| "#      "@ + p);
    let tail = if lines.len() == 0 {
        Seq::<char>::empty()
    } else {
        "\n# Conflicts:\n"@ + spec_join(lines, seq!['\n']) + seq!['\n']
    };
    "Merge branch '"@ + dest_rev + "' into "@ + source_rev + seq!['\n'] + tail
}

/// The files that git keeps while a merge is in progress.
pub struct MergeModeMeta {
    pub mode: String,
    pub head: String,
    pub msg: String,
}

impl MergeModeMeta {
    /// The message of a merge of `dest_rev` into `source_rev`, listing the
    /// conflicted paths of `status`.
    pub fn format_msg(source_rev: &str, dest_rev: &str, status: &Status) -> (s: String)
        ensures
            s@ == spec_merge_msg(source_rev@, dest_rev@, spec_conflict_paths(status@)),
    {
        let changes = status.changes();
        let ghost sm = status_models(changes@);
        let ghost pred = |m: PathStatusModel| model_conflicted(m);
        let ghost line_of = |p: Seq<char>| "#      "@ + p;
        let mut lines: Vec<String> = Vec::new();
        let mut i: usize = 0;
        proof {
            reveal_strlit("#      ");
            assert(sm.take(0) =~= Seq::<PathStatusModel>::empty());
            reveal(Seq::filter);
            assert(lines@.map_values(|l: String| l@) =~= Seq::<Seq<char>>::empty());
            assert(sm.take(0).filter(pred).map_values(|m: PathStatusModel| m.0).map_values(line_of) =~= Seq::<Seq<char>>::empty());
        }
        while i < changes.len()
            invariant
                i <= changes@.len(),
                sm == status_models(changes@),
                pred == (|m: PathStatusModel| model_conflicted(m)),
                line_of == (|p: Seq<char>| "#      "@ + p),
                lines@.map_values(|l: String| l@) == sm.take(i as int).filter(pred).map_values(
                    |m: PathStatusModel| m.0,
                ).map_values(line_of),
            decreases changes@.len() - i,
        {
            let c = &changes[i];
            let ghost tk = sm.take(i + 1);
            proof {
                reveal(Seq::filter);
                assert(tk.drop_last() =~= sm.take(i as int));
                assert(tk.last() == c@);
                assert(tk.filter(pred) == (if pred(tk.last()) {
                    tk.drop_last().filter(pred).push(tk.last())
                } else {
                    tk.drop_last().filter(pred)
                }));
            }
            if c.is_conflicted() {
                let ghost before = lines@.map_values(|l: String| l@);
                let mut line = String::from_str("#      ");
                line.append(c.path());
                lines.push(line);
                proof {
                    assert(lines@.map_values(|l: String| l@) =~= before.push(line_of(c@.0)));
                    assert(tk.filter(pred).map_values(|m: PathStatusModel| m.0).map_values(line_of)
                        =~= sm.take(i as int).filter(pred).map_values(|m: PathStatusModel| m.0).map_values(
                        line_of,
                    ).push(line_of(c@.0)));
                }
            }
            i = i + 1;
        }
        proof {
            assert(sm.take(changes@.len() as int) =~= sm);
            assert(spec_conflict_paths(status@).map_values(|p: Seq<char>| "#      "@ + p) =~= lines@.map_values(|l: String| l@));
        }
        proof {
            reveal_strlit("\n");
            reveal_strlit("\n# Conflicts:\n");
            reveal_strlit("Merge branch '");
            reveal_strlit("' into ");
        }
        let mut s = String::from_str("Merge branch '");
        s.append(dest_rev);
        s.append("' into ");
        s.append(source_rev);
        s.append("\n");
        let ghost head = s@;
        proof {
            assert(head =~= "Merge branch '"@ + dest_rev@ + "' into "@ + source_rev@ + seq!['\n']);
        }
        if lines.len() > 0 {
            s.append("\n# Conflicts:\n");
            let body = join_strings(&lines, "\n");
            s.append(body.as_str());
            s.append("\n");
            proof {
                assert("\n"@ =~= seq!['\n']);
                assert(s@ =~= head + ("\n# Conflicts:\n"@ + spec_join(lines@.map_values(|l: String| l@), seq!['\n']) + seq!['\n']));
            }
        } else {
            proof {
                assert(s@ =~= head + Seq::<char>::empty());
            }
        }
        s
    }
}

/// What a merge left: the ref file of HEAD before the merge, to tell a
/// fast-forward from no change.
pub struct ResolutionCheck {
    head_ref_filepath: String,
    head_ref_file_contents_before: String,
}

/// The ref name that the text of `.git/HEAD` names: every leading `ref: `
/// taken off, then trailing whitespace.
pub open spec fn spec_head_ref_name(contents: Seq<char>) -> Seq<char> {
    spec_trim_end(spec_strip_prefixes(contents, "ref: "@))
}

/// `s` without the copies of `p` that it begins with.
pub open spec fn spec_strip_prefixes(s: Seq<char>, p: Seq<char>) -> Seq<char>
    decreases s.len(),
{
    if p.len() > 0 && s.len() >= p.len() && s.take(p.len() as int) == p {
        spec_strip_prefixes(s.skip(p.len() as int), p)
    } else {
        s
    }
}

/// How a merge ended that did not fast-forward, from whether the merge
/// command succeeded, whether a merge is in progress, and the status: `r`
/// is that outcome.
pub open spec fn spec_resolved(merge_result: Result<(), Error>, is_merging: bool, status: Seq<PathStatusModel>, r: Result<Resolution, Error>) -> bool {
    let conflicted = exists|i: int| 0 <= i < status.len() && model_conflicted(#[trigger] status[i]);
    let conflicts = status.filter(|m: PathStatusModel| model_conflicted(m));
    if is_merging {
        if merge_result is Ok {
            if !conflicted && status.len() > 0 {
                r matches Ok(Resolution::AutoResolved)
            } else {
                r matches Err(Error::State(StateErr::UnexpectedStatus, ErrSrc::NoSource))
            }
        } else if conflicts.len() > 0 {
            r matches Ok(Resolution::Unresolved(s)) && s@ == conflicts
        } else {
            r matches Err(Error::State(StateErr::UnexpectedStatus, ErrSrc::NoSource))
        }
    } else if merge_result is Ok {
        if status.len() == 0 {
            r matches Ok(Resolution::Unmodified)
        } else {
            r matches Err(Error::State(StateErr::UnexpectedStatus, ErrSrc::NoSource))
        }
    } else {
        r matches Err(e) && merge_result == Err::<(), Error>(e)
    }
}

impl ResolutionCheck {
    /// A check of the ref file at `head_ref_filepath`, whose trimmed
    /// contents before the merge were `head_ref_file_contents_before`.
    pub fn new(head_ref_filepath: String, head_ref_file_contents_before: String) -> (r: Self)
        ensures
            r.head_ref_filepath()@ == head_ref_filepath@,
            r.contents_before()@ == head_ref_file_contents_before@,
    {
        ResolutionCheck { head_ref_filepath, head_ref_file_contents_before }
    }

    pub closed spec fn head_ref_filepath(&self) -> String {
        self.head_ref_filepath
    }

    pub closed spec fn contents_before(&self) -> String {
        self.head_ref_file_contents_before
    }

    /// The path of the ref file of HEAD.
    pub fn head_ref_filepath_str(&self) -> (r: &str)
        ensures
            r@ == self.head_ref_filepath()@,
    {
        self.head_ref_filepath.as_str()
    }

    /// The ref name in the text of `.git/HEAD`.
    pub fn head_symbolic_ref_name(contents: &str) -> (r: String)
        ensures
            r@ == spec_head_ref_name(contents@),
    {
        let cs = str_chars(contents);
        let p = str_chars("ref: ");
        proof {
            reveal_strlit("ref: ");
        }
        let mut start: usize = 0;
        proof {
            assert(cs@.skip(0) =~= cs@);
        }
        while cs.len() - start >= 5 && cs[start] == p[0] && cs[start + 1] == p[1] && cs[start + 2]
            == p[2] && cs[start + 3] == p[3] && cs[start + 4] == p[4]
            invariant
                p@ == "ref: "@,
                p@.len() == 5,
                start <= cs@.len(),
                cs@ == contents@,
                spec_strip_prefixes(contents@, "ref: "@) == spec_strip_prefixes(cs@.skip(start as int), "ref: "@),
            decreases cs@.len() - start,
        {
            proof {
                let t = cs@.skip(start as int);
                assert(t.take(5) =~= "ref: "@);
                assert(t.skip(5) =~= cs@.skip(start + 5));
            }
            start = start + 5;
        }
        proof {
            let t = cs@.skip(start as int);
            if t.len() >= 5 && t.take(5) == "ref: "@ {
                assert(t.take(5)[0] == cs@[start as int]);
                assert(t.take(5)[1] == cs@[start + 1]);
                assert(t.take(5)[2] == cs@[start + 2]);
                assert(t.take(5)[3] == cs@[start + 3]);
                assert(t.take(5)[4] == cs@[start + 4]);
            }
        }
        let mut end: usize = cs.len();
        while end > start && is_whitespace(cs[end - 1])
            invariant
                start <= end <= cs@.len(),
                spec_trim_end(cs@.skip(start as int)) == spec_trim_end(cs@.subrange(start as int, end as int)),
            decreases end,
        {
            proof {
                assert(cs@.subrange(start as int, end as int).drop_last() =~= cs@.subrange(start as int, end - 1));
            }
            end = end - 1;
        }
        proof {
            assert(cs@.subrange(start as int, cs@.len() as int) =~= cs@.skip(start as int));
        }
        let r = string_from_chars(sub_chars(&cs, start, end).as_slice());
        r
    }

    /// The commit in the text of a ref file: the text trimmed.
    pub fn head_ref_commit(contents: &str) -> (r: String)
        ensures
            r@ == spec_trim(contents@),
    {
        let cs = str_chars(contents);
        string_from_chars(trim_chars(&cs).as_slice())
    }

    /// Whether the trimmed ref file after the merge differs from before:
    /// a merge that exited cleanly with no merge in progress fast-forwarded.
    pub fn moved_head(&self, head_ref_file_contents_after: &str) -> (b: bool)
        ensures
            b == (head_ref_file_contents_after@ != self.contents_before()@),
    {
        let after = String::from_str(head_ref_file_contents_after);
        !(after == self.head_ref_file_contents_before)
    }

    /// Whether a merge fast-forwarded: the merge command succeeded, no merge
    /// is in progress, and HEAD's ref file, trimmed, differs from before.
    /// `head_after` is that file's contents after the merge, where it was
    /// read (it is read only where the first two hold).
    pub fn fast_forwarded(&self, exit_ok: bool, is_merging: bool, head_after: Option<&str>) -> (b: bool)
        ensures
            b == (exit_ok && !is_merging && (head_after matches Some(h) && spec_trim(h@)
                != self.contents_before()@)),
    {
        if exit_ok && !is_merging {
            match head_after {
                Some(h) => {
                    let commit = Self::head_ref_commit(h);
                    self.moved_head(commit.as_str())
                },
                None => false,
            }
        } else {
            false
        }
    }

    /// How a merge ended: fast-forwarded where it did (see
    /// `fast_forwarded`), otherwise what the status tells (see `resolve`).
    /// The status is needed only where the merge did not fast-forward.
    pub fn after(
        &self,
        merge_result: Result<(), Error>,
        is_merging: bool,
        head_after: Option<&str>,
        status: Option<Status>,
    ) -> (r: Result<Resolution, Error>)
        requires
            !(merge_result is Ok && !is_merging && (head_after matches Some(h) && spec_trim(h@)
                != self.contents_before()@)) ==> status is Some,
        ensures
            if merge_result is Ok && !is_merging && (head_after matches Some(h) && spec_trim(h@)
                != self.contents_before()@) {
                r matches Ok(Resolution::FastForwarded)
            } else {
                spec_resolved(merge_result, is_merging, status->Some_0@, r)
            },
    {
        let exit_ok = merge_result.is_ok();
        if self.fast_forwarded(exit_ok, is_merging, head_after) {
            return Ok(Resolution::FastForwarded);
        }
        Self::resolve(merge_result, is_merging, status.unwrap())
    }

    /// How a merge ended that did not fast-forward: from whether the merge
    /// command succeeded, whether a merge is in progress, and the status.
    pub fn resolve(merge_result: Result<(), Error>, is_merging: bool, status: Status) -> (r: Result<Resolution, Error>)
        ensures
            spec_resolved(merge_result, is_merging, status@, r),
    {
        let exit_ok = merge_result.is_ok();
        if is_merging {
            if exit_ok {
                if !status.has_conflicts() && !status.is_unmodified() {
                    Ok(Resolution::AutoResolved)
                } else {
                    Err(Error::State(StateErr::UnexpectedStatus, ErrSrc::NoSource))
                }
            } else {
                match status.into_conflicts() {
                    Some(conflicts) => Ok(Resolution::Unresolved(conflicts)),
                    None => Err(Error::State(StateErr::UnexpectedStatus, ErrSrc::NoSource)),
                }
            }
        } else {
            if exit_ok {
                if status.is_unmodified() {
                    Ok(Resolution::Unmodified)
                } else {
                    Err(Error::State(StateErr::UnexpectedStatus, ErrSrc::NoSource))
                }
            } else {
                match merge_result {
                    Err(e) => Err(e),
                    Ok(()) => Err(Error::State(StateErr::UnexpectedStatus, ErrSrc::NoSource)),
                }
            }
        }
    }
}

} // verus!
