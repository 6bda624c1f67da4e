//! The protocol version, and how it is read out of the crate's version string.
use vstd::prelude::*;
use vstd::string::StringSliceAdditionalSpecFns;

verus! {

/// A protocol version. Two peers speak the same protocol when all three parts agree.
#[derive(Debug, PartialEq, Eq, Structural, PartialOrd)]
pub struct ProtocolVersion {
    pub major: u32,
    pub minor: u32,
    pub patch: u32,
}

/// The crate's version string, from which [`version`] is read.
pub const RAW_VERSION: &'static str = "0.1.0";

/// Whether a byte is an ASCII decimal digit.
pub open spec fn is_digit(b: u8) -> bool {
    0x30 <= b <= 0x39
}

/// The number of consecutive ASCII digits in `s` starting at `offset`.
pub open spec fn digit_run(s: Seq<u8>, offset: int) -> nat
    decreases s.len() - offset,
{
    if 0 <= offset < s.len() && is_digit(s[offset]) {
        1 + digit_run(s, offset + 1)
    } else {
        0
    }
}

/// The `n` bytes of `s` from `offset` on, taken as the digits of a number in
/// base 256, the first byte least significant.
pub open spec fn pack_le(s: Seq<u8>, offset: int, n: nat) -> nat
    decreases n,
{
    if n == 0 {
        0
    } else {
        pack_le(s, offset, (n - 1) as nat) + s[offset + n - 1] as nat * pow256((n - 1) as nat)
    }
}

/// What [`parse_u32`] gives: the digits starting at `offset`, packed byte by
/// byte (the first digit in the lowest byte), and the position after them.
pub open spec fn spec_parse_u32(s: Seq<u8>, offset: int) -> (u32, int) {
    let n = digit_run(s, offset);
    (pack_le(s, offset, n) as u32, offset + n)
}

/// Whether the digit runs that [`parse_semver`] reads from `s` have at most four digits each.
pub open spec fn semver_fits(s: Seq<u8>) -> bool {
    let (_, i) = spec_parse_u32(s, 0);
    let (_, j) = spec_parse_u32(s, i + 1);
    &&& digit_run(s, 0) <= 4
    &&& digit_run(s, i + 1) <= 4
    &&& digit_run(s, j + 1) <= 4
}

/// What [`parse_semver`] gives on the bytes `s`.
pub open spec fn spec_parse_semver(s: Seq<u8>) -> ProtocolVersion {
    let (major, i) = spec_parse_u32(s, 0);
    let (minor, j) = spec_parse_u32(s, i + 1);
    let (patch, _) = spec_parse_u32(s, j + 1);
    ProtocolVersion { major, minor, patch }
}

proof fn lemma_digit_run_bounds(s: Seq<u8>, offset: int)
    requires
        0 <= offset,
    ensures
        digit_run(s, offset) == 0 || offset + digit_run(s, offset) <= s.len(),
        forall|k: int| 0 <= k < digit_run(s, offset) ==> is_digit(#[trigger] s[offset + k]),
        offset + digit_run(s, offset) < s.len() ==> !is_digit(s[offset + digit_run(s, offset)]),
    decreases s.len() - offset,
{
    if 0 <= offset < s.len() && is_digit(s[offset]) {
        lemma_digit_run_bounds(s, offset + 1);
        assert forall|k: int| 0 <= k < digit_run(s, offset) implies is_digit(#[trigger] s[offset + k]) by {
            if k > 0 {
                assert(s[(offset + 1) + (k - 1)] == s[offset + k]);
            }
        }
    }
}

/// `256` to the power `n`.
pub open spec fn pow256(n: nat) -> nat
    decreases n,
{
    if n == 0 {
        1
    } else {
        256 * pow256((n - 1) as nat)
    }
}

proof fn lemma_pack_le_bound(s: Seq<u8>, offset: int, n: nat)
    ensures
        pack_le(s, offset, n) < pow256(n),
    decreases n,
{
    if n > 0 {
        let m = (n - 1) as nat;
        lemma_pack_le_bound(s, offset, m);
        let b = s[offset + n - 1] as nat;
        let p = pow256(m);
        assert(b * p <= 255 * p) by (nonlinear_arith)
            requires
                b <= 255,
        ;
    }
}

/// One step of [`parse_u32`]: with `v` below `256^i`, clearing byte `i` of `v`
/// and or-ing `b` into it is adding `b * 256^i`.
proof fn lemma_place_byte(v: u32, b: u8, i: usize)
    requires
        i < 4,
        v < pow256(i as nat),
    ensures
        (v & !(0xFFu32 << (i * 8))) | ((b as u32) << (i * 8)) == v + b * pow256(i as nat),
{
    reveal_with_fuel(pow256, 5);
    if i == 0 {
        assert(v == 0);
        assert((0u32 & !(0xFFu32 << 0usize)) | ((b as u32) << 0usize) == b) by (bit_vector);
    } else if i == 1 {
        assert(v < 0x100 ==> (v & !(0xFFu32 << 8usize)) | ((b as u32) << 8usize) == v + b * 0x100)
            by (bit_vector);
    } else if i == 2 {
        assert(v < 0x10000 ==> (v & !(0xFFu32 << 16usize)) | ((b as u32) << 16usize) == v + b
            * 0x10000) by (bit_vector);
    } else {
        assert(v < 0x1000000 ==> (v & !(0xFFu32 << 24usize)) | ((b as u32) << 24usize) == v + b
            * 0x1000000) by (bit_vector);
    }
}

/// Whether `b` is an ASCII decimal digit, as `u8::is_ascii_digit` decides it.
fn is_ascii_digit(b: u8) -> (r: bool)
    ensures
        r == is_digit(b),
{
    0x30 <= b && b <= 0x39
}

/// Reads the run of ASCII digits that starts at `offset`, packing the digit
/// bytes into a `u32` (the first digit in the lowest byte, not as a decimal
/// number), and returns it with the position just after the run. A run of more
/// than four digits overflows the shifts, which `requires` rules out.
pub fn parse_u32(bytes: &[u8], offset: usize) -> (r: (u32, usize))
    requires
        digit_run(bytes@, offset as int) <= 4,
    ensures
        r.0 == spec_parse_u32(bytes@, offset as int).0,
        r.1 == spec_parse_u32(bytes@, offset as int).1,
{
    let mut value: u32 = 0;
    let ghost s = bytes@;
    proof {
        lemma_digit_run_bounds(s, offset as int);
    }
    let ghost n = digit_run(s, offset as int);

    let mut i: usize = 0;
    while offset + i < bytes.len() && is_ascii_digit(bytes[offset + i])
        invariant
            s == bytes@,
            n == digit_run(s, offset as int),
            n <= 4,
            i <= n,
            n == 0 || offset + n <= s.len(),
            forall|k: int| 0 <= k < n ==> is_digit(#[trigger] s[offset + k]),
            offset + n < s.len() ==> !is_digit(s[offset + n]),
            value == pack_le(s, offset as int, i as nat),
            i == 0 || offset + i <= s.len(),
            s.len() == bytes.len(),
            value < pow256(i as nat),
        decreases n - i,
    {
        assert(i < n);
        let b = bytes[offset + i];
        proof {
            lemma_place_byte(value, b, i);
            lemma_pack_le_bound(s, offset as int, (i + 1) as nat);
        }
        value = (value & !(0xFF << (i * 8))) | ((b as u32) << (i * 8));

        i += 1;
    }
    assert(i == n) by {
        if i < n {
            assert(is_digit(s[offset + i]));
        }
    }
    (value, offset + i)
}

/// Reads a version of the form `major.minor.patch`: each part is the run of
/// digits after the previous part and one separator byte, packed by
/// [`parse_u32`]. Each run must have at most four digits.
pub fn parse_semver(semver: &str) -> (v: ProtocolVersion)
    requires
        semver_fits(semver.spec_bytes()),
        semver.spec_bytes().len() <= isize::MAX,
    ensures
        v == spec_parse_semver(semver.spec_bytes()),
{
    let bytes = semver.as_bytes();
    let ghost s = bytes@;
    proof {
        lemma_digit_run_bounds(s, 0);
    }
    let (major, i) = parse_u32(bytes, 0);
    proof {
        lemma_digit_run_bounds(s, i + 1);
    }
    let (minor, i) = parse_u32(bytes, i + 1);
    let (patch, _) = parse_u32(bytes, i + 1);

    ProtocolVersion { major, minor, patch }
}

/// [`RAW_VERSION`] reads as the version `{0x30, 0x31, 0x30}`: the bytes of
/// `'0'`, `'1'` and `'0'`.
pub proof fn lemma_raw_version()
    ensures
        semver_fits(RAW_VERSION.spec_bytes()),
        RAW_VERSION.spec_bytes().len() == 5,
        spec_parse_semver(RAW_VERSION.spec_bytes()) == (ProtocolVersion {
            major: 0x30,
            minor: 0x31,
            patch: 0x30,
        }),
{
    reveal_strlit("0.1.0");
    let s = RAW_VERSION.spec_bytes();
    assert(RAW_VERSION@ =~= seq!['0', '.', '1', '.', '0']);
    assert(vstd::string::is_ascii(RAW_VERSION));
    vstd::string::is_ascii_spec_bytes(RAW_VERSION);
    assert(s =~= seq![0x30u8, 0x2e, 0x31, 0x2e, 0x30]);
    reveal_with_fuel(digit_run, 3);
    assert(digit_run(s, 5) == 0);
    assert(digit_run(s, 4) == 1);
    assert(digit_run(s, 3) == 0);
    assert(digit_run(s, 2) == 1);
    assert(digit_run(s, 1) == 0);
    assert(digit_run(s, 0) == 1);
    reveal_with_fuel(pack_le, 2);
    reveal_with_fuel(pow256, 2);
}

/// The version this build speaks: [`RAW_VERSION`] read by [`parse_semver`].
pub fn version() -> (v: ProtocolVersion)
    ensures
        v == spec_parse_semver(RAW_VERSION.spec_bytes()),
        v == (ProtocolVersion { major: 0x30, minor: 0x31, patch: 0x30 }),
{
    proof {
        lemma_raw_version();
    }
    parse_semver(RAW_VERSION)
}

// ---------------------------------------------------------------------------
// What the parse of a version string depends on
// ---------------------------------------------------------------------------

/// Whether `s` has a digit at position `k`.
pub open spec fn digit_at(s: Seq<u8>, k: int) -> bool {
    0 <= k < s.len() && is_digit(s[k])
}

/// Whether `s` is three digit runs joined by single separator bytes, with
/// nothing after the third run.
pub open spec fn is_semver_triple(s: Seq<u8>) -> bool {
    let (_, i) = spec_parse_u32(s, 0);
    let (_, j) = spec_parse_u32(s, i + 1);
    let (_, k) = spec_parse_u32(s, j + 1);
    &&& i < s.len()
    &&& j < s.len()
    &&& k == s.len()
}

/// Two sequences that agree on where the digits are, from `offset` up to the
/// end of the run in `s1`, have equally long digit runs at `offset`.
proof fn lemma_digit_run_agree(s1: Seq<u8>, s2: Seq<u8>, offset: int)
    requires
        0 <= offset,
        forall|k: int|
            offset <= k <= offset + digit_run(s1, offset) ==> (digit_at(s1, k) <==> digit_at(s2, k)),
    ensures
        digit_run(s2, offset) == digit_run(s1, offset),
    decreases s1.len() - offset,
{
    assert(digit_at(s1, offset) <==> digit_at(s2, offset));
    if digit_at(s1, offset) {
        lemma_digit_run_agree(s1, s2, offset + 1);
    }
}

/// Packing `n` bytes from `offset` reads only those bytes.
proof fn lemma_pack_le_agree(s1: Seq<u8>, s2: Seq<u8>, offset: int, n: nat)
    requires
        forall|k: int| offset <= k < offset + n ==> s1[k] == s2[k],
    ensures
        pack_le(s1, offset, n) == pack_le(s2, offset, n),
    decreases n,
{
    if n > 0 {
        lemma_pack_le_agree(s1, s2, offset, (n - 1) as nat);
        assert(s1[offset + n - 1] == s2[offset + n - 1]);
    }
}

/// Reading a digit run gives the same value and end in two sequences that
/// agree on where the digits are up to the end of the run, and on the digits
/// themselves.
proof fn lemma_parse_u32_agree(s1: Seq<u8>, s2: Seq<u8>, offset: int)
    requires
        0 <= offset,
        forall|k: int|
            offset <= k <= offset + digit_run(s1, offset) ==> (digit_at(s1, k) <==> digit_at(s2, k)),
        forall|k: int|
            offset <= k < offset + digit_run(s1, offset) && digit_at(s1, k) ==> s1[k] == s2[k],
    ensures
        spec_parse_u32(s2, offset) == spec_parse_u32(s1, offset),
{
    lemma_digit_run_bounds(s1, offset);
    assert forall|k: int| offset <= k < offset + digit_run(s1, offset) implies s1[k] == s2[k] by {
        assert(is_digit(s1[offset + (k - offset)]));
    }
    lemma_digit_run_agree(s1, s2, offset);
    lemma_pack_le_agree(s1, s2, offset, digit_run(s1, offset));
}

/// A version string is read from its digits alone: two strings of one length
/// with digits at the same places, and the same digits there, read as the same
/// version, whatever non-digit bytes stand elsewhere. So `"1.2.3"` and
/// `"1-2-3"` give the same version.
pub proof fn lemma_semver_separators(s1: Seq<u8>, s2: Seq<u8>)
    requires
        s1.len() == s2.len(),
        forall|k: int| 0 <= k < s1.len() ==> (is_digit(s1[k]) <==> is_digit(s2[k])),
        forall|k: int| 0 <= k < s1.len() && is_digit(s1[k]) ==> s1[k] == s2[k],
    ensures
        spec_parse_semver(s2) == spec_parse_semver(s1),
{
    let (_, i) = spec_parse_u32(s1, 0);
    let (_, j) = spec_parse_u32(s1, i + 1);
    lemma_digit_run_bounds(s1, 0);
    lemma_parse_u32_agree(s1, s2, 0);
    lemma_digit_run_bounds(s1, i + 1);
    lemma_parse_u32_agree(s1, s2, i + 1);
    lemma_digit_run_bounds(s1, j + 1);
    lemma_parse_u32_agree(s1, s2, j + 1);
}

/// Text appended after a complete `major.minor.patch` string, when it starts
/// with a non-digit, does not change the version read: `"1.2.3-beta"` reads as
/// `"1.2.3"` does.
pub proof fn lemma_semver_suffix(s: Seq<u8>, t: Seq<u8>)
    requires
        is_semver_triple(s),
        t.len() == 0 || !is_digit(t[0]),
    ensures
        spec_parse_semver(s + t) == spec_parse_semver(s),
{
    let st = s + t;
    let (_, i) = spec_parse_u32(s, 0);
    let (_, j) = spec_parse_u32(s, i + 1);
    assert forall|k: int| 0 <= k <= s.len() implies (digit_at(s, k) <==> digit_at(st, k)) by {
        if k < s.len() {
            assert(st[k] == s[k]);
        }
    }
    assert forall|k: int| 0 <= k < s.len() implies s[k] == st[k] by {}
    lemma_digit_run_bounds(s, 0);
    lemma_parse_u32_agree(s, st, 0);
    lemma_digit_run_bounds(s, i + 1);
    lemma_parse_u32_agree(s, st, i + 1);
    lemma_digit_run_bounds(s, j + 1);
    lemma_parse_u32_agree(s, st, j + 1);
}

} // verus!
