//! The identifier hasher: a deterministic rolling multiply-add accumulator
//! over the bytes of a key, rendered as lowercase hexadecimal. Build time and
//! run time both derive identifiers with it, so the two sides of the network
//! boundary agree on which entry point a dispatch call refers to without
//! sharing a live registry.

use vstd::prelude::*;

verus! {

/// One step of the rolling accumulator: multiply by 33 and add the next
/// byte, with wraparound (modular) arithmetic over `u64`.
pub open spec fn hash_step(acc: u64, b: u8) -> u64 {
    acc.wrapping_mul(33).wrapping_add(b as u64)
}

/// The accumulator folded over a whole byte sequence, seeded with 5381.
pub open spec fn spec_accumulate(bytes: Seq<u8>) -> u64
    decreases bytes.len(),
{
    if bytes.len() == 0 {
        5381u64
    } else {
        hash_step(spec_accumulate(bytes.drop_last()), bytes.last())
    }
}

/// The lowercase hexadecimal digit for a value below 16.
pub open spec fn hex_digit(d: u64) -> char
    recommends
        d < 16,
{
    if d < 10 {
        (d + 48) as char
    } else {
        (d + 87) as char
    }
}

/// Minimal lowercase hexadecimal rendering of `n` (a single `0` for zero).
pub open spec fn hex_rep(n: u64) -> Seq<char>
    decreases n,
{
    if n < 16 {
        seq![hex_digit(n)]
    } else {
        hex_rep(n / 16).push(hex_digit(n % 16))
    }
}

/// The full hash of a key: accumulate over the key's UTF-8 bytes, then
/// render in hexadecimal. A pure function of the key text alone.
pub open spec fn spec_stable_hash(key: Seq<char>) -> Seq<char> {
    hex_rep(spec_accumulate(vstd::utf8::encode_utf8(key)))
}

/// A function identifier: the hash of the key under the `f_` prefix that
/// marks identifiers of server-callable functions.
pub open spec fn spec_hash_id(key: Seq<char>) -> Seq<char> {
    seq!['f', '_'] + spec_stable_hash(key)
}

/// The hexadecimal digit characters for values below 16, as executable code.
pub(crate) fn hex_digit_str(d: u64) -> (r: &'static str)
    requires
        d < 16,
    ensures
        r@ == seq![hex_digit(d)],
        r@.len() == 1,
{
    let r = match d {
        0 => "0",
        1 => "1",
        2 => "2",
        3 => "3",
        4 => "4",
        5 => "5",
        6 => "6",
        7 => "7",
        8 => "8",
        9 => "9",
        10 => "a",
        11 => "b",
        12 => "c",
        13 => "d",
        14 => "e",
        _ => "f",
    };
    proof {
        reveal_strlit("0");
        reveal_strlit("1");
        reveal_strlit("2");
        reveal_strlit("3");
        reveal_strlit("4");
        reveal_strlit("5");
        reveal_strlit("6");
        reveal_strlit("7");
        reveal_strlit("8");
        reveal_strlit("9");
        reveal_strlit("a");
        reveal_strlit("b");
        reveal_strlit("c");
        reveal_strlit("d");
        reveal_strlit("e");
        reveal_strlit("f");
        assert(r@ =~= seq![hex_digit(d)]);
    }
    r
}

/// Renders `n` as minimal lowercase hexadecimal.
fn hex_string(n: u64) -> (r: String)
    ensures
        r@ == hex_rep(n),
    decreases n,
{
    if n < 16 {
        hex_digit_str(n).to_owned()
    } else {
        let mut r = hex_string(n / 16);
        r.append(hex_digit_str(n % 16));
        proof {
            assert(r@ =~= hex_rep(n));
        }
        r
    }
}

/// Hashes a key to its identifier body: deterministic, total, and stable
/// under wraparound — the same key always yields the same short lowercase
/// hexadecimal string, on both sides of the network boundary.
pub fn stable_hash(s: &str) -> (r: String)
    ensures
        r@ == spec_stable_hash(s@),
{
    let bytes = s.as_bytes();
    let mut acc: u64 = 5381;
    let mut i: usize = 0;
    while i < bytes.len()
        invariant
            i <= bytes@.len(),
            bytes@ == vstd::utf8::encode_utf8(s@),
            acc == spec_accumulate(bytes@.take(i as int)),
        decreases bytes@.len() - i,
    {
        acc = acc.wrapping_mul(33).wrapping_add(bytes[i] as u64);
        i = i + 1;
        proof {
            assert(bytes@.take(i as int).drop_last() =~= bytes@.take(i - 1));
        }
    }
    proof {
        assert(bytes@.take(bytes@.len() as int) =~= bytes@);
    }
    hex_string(acc)
}

/// Derives the dispatch identifier of a server-callable function from its
/// fully qualified path: the stable hash under the `f_` prefix.
pub fn hash_id(path: &str) -> (r: String)
    ensures
        r@ == spec_hash_id(path@),
{
    let mut r = "f_".to_owned();
    let h = stable_hash(path);
    r.append(h.as_str());
    proof {
        reveal_strlit("f_");
        assert(r@ =~= spec_hash_id(path@));
    }
    r
}

/// Determinism of the identifier scheme: identifiers are functions of the
/// key text alone, so two hashes of equal keys — whether computed at build
/// time or at run time — are equal, and so are the derived function
/// identifiers.
pub proof fn lemma_hash_deterministic(k1: Seq<char>, k2: Seq<char>)
    requires
        k1 == k2,
    ensures
        spec_stable_hash(k1) == spec_stable_hash(k2),
        spec_hash_id(k1) == spec_hash_id(k2),
{
}

} // verus!
