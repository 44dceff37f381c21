//! Stable FNV-1a fingerprints of pricing rules and parent dependencies.
use vstd::prelude::*;
use vstd::string::StringSliceAdditionalSpecFns;
use vstd::string::StringExecFns;
use vstd::utf8::encode_utf8;

verus! {

broadcast use vstd::string::group_string_axioms;

pub const FNV_OFFSET_BASIS: u64 = 0xcbf29ce484222325;

pub const FNV_PRIME: u64 = 0x100000001b3;

/// One FNV-1a step: xor in the byte, then multiply modulo 2^64.
pub open spec fn fnv1a_step(hash: u64, byte: u8) -> u64 {
    (hash ^ (byte as u64)).wrapping_mul(FNV_PRIME)
}

/// FNV-1a of `bytes`, starting from `hash`.
pub open spec fn fnv1a(hash: u64, bytes: Seq<u8>) -> u64
    decreases bytes.len(),
{
    if bytes.len() == 0 {
        hash
    } else {
        fnv1a_step(fnv1a(hash, bytes.drop_last()), bytes.last())
    }
}

/// The lowercase hexadecimal character of a nibble.
pub open spec fn hex_char(n: u64) -> char {
    if n < 10 {
        (48 + n) as char
    } else {
        (87 + n) as char
    }
}

/// `{:016x}`: the 16 nibbles of a value, most significant first.
pub open spec fn hex16(value: u64) -> Seq<char> {
    Seq::new(16, |k: int| hex_char((value >> ((60 - 4 * k) as u64)) & 15))
}

/// `fnv1a64:` followed by the hash of `bytes` in 16 hexadecimal digits.
pub open spec fn fingerprint_of(bytes: Seq<u8>) -> Seq<char> {
    "fnv1a64:"@ + hex16(fnv1a(FNV_OFFSET_BASIS, bytes))
}

fn hex_digit_str(n: u64) -> (r: &'static str)
    requires
        n < 16,
    ensures
        r@ == seq![hex_char(n)],
{
    match n {
        0 => {
            proof {
                reveal_strlit("0");
            }
            "0"
        },
        1 => {
            proof {
                reveal_strlit("1");
            }
            "1"
        },
        2 => {
            proof {
                reveal_strlit("2");
            }
            "2"
        },
        3 => {
            proof {
                reveal_strlit("3");
            }
            "3"
        },
        4 => {
            proof {
                reveal_strlit("4");
            }
            "4"
        },
        5 => {
            proof {
                reveal_strlit("5");
            }
            "5"
        },
        6 => {
            proof {
                reveal_strlit("6");
            }
            "6"
        },
        7 => {
            proof {
                reveal_strlit("7");
            }
            "7"
        },
        8 => {
            proof {
                reveal_strlit("8");
            }
            "8"
        },
        9 => {
            proof {
                reveal_strlit("9");
            }
            "9"
        },
        10 => {
            proof {
                reveal_strlit("a");
            }
            "a"
        },
        11 => {
            proof {
                reveal_strlit("b");
            }
            "b"
        },
        12 => {
            proof {
                reveal_strlit("c");
            }
            "c"
        },
        13 => {
            proof {
                reveal_strlit("d");
            }
            "d"
        },
        14 => {
            proof {
                reveal_strlit("e");
            }
            "e"
        },
        _ => {
            proof {
                reveal_strlit("f");
            }
            "f"
        },
    }
}

pub(crate) fn hex16_string(value: u64, prefix: &str) -> (r: String)
    ensures
        r@ == prefix@ + hex16(value),
{
    let mut out = String::from_str(prefix);
    let mut k: u64 = 0;
    while k < 16
        invariant
            k <= 16,
            out@ == prefix@ + hex16(value).take(k as int),
        decreases 16 - k,
    {
        let shift: u64 = 60 - 4 * k;
        let nibble = (value >> shift) & 15;
        assert(nibble < 16) by (bit_vector)
            requires
                nibble == (value >> shift) & 15,
        ;
        assert(shift == ((60 - 4 * k) as u64));
        let digit = hex_digit_str(nibble);
        out.append(digit);
        assert(hex16(value).take(k + 1) =~= hex16(value).take(k as int).push(hex_char(nibble)));
        k = k + 1;
    }
    assert(hex16(value).take(16) =~= hex16(value));
    out
}

fn fnv1a_extend(hash: u64, bytes: &[u8], Ghost(start): Ghost<Seq<u8>>, Ghost(seed): Ghost<u64>) -> (r: u64)
    requires
        hash == fnv1a(seed, start),
    ensures
        r == fnv1a(seed, start + bytes@),
{
    let mut h = hash;
    let mut i: usize = 0;
    while i < bytes.len()
        invariant
            i <= bytes@.len(),
            h == fnv1a(seed, start + bytes@.take(i as int)),
        decreases bytes@.len() - i,
    {
        assert((start + bytes@.take(i + 1)).drop_last() =~= start + bytes@.take(i as int));
        h = (h ^ bytes[i] as u64).wrapping_mul(FNV_PRIME);
        i = i + 1;
    }
    assert(bytes@.take(bytes@.len() as int) =~= bytes@);
    h
}

/// The FNV-1a fingerprint of a canonical text.
pub fn stable_pricing_fingerprint(canonical: &str) -> (r: String)
    ensures
        r@ == fingerprint_of(encode_utf8(canonical@)),
{
    let bytes = canonical.as_bytes();
    assert(Seq::<u8>::empty() + bytes@ =~= bytes@);
    let hash = fnv1a_extend(FNV_OFFSET_BASIS, bytes, Ghost(Seq::empty()), Ghost(FNV_OFFSET_BASIS));
    hex16_string(hash, "fnv1a64:")
}

/// The bytes of the parts, each followed by a zero byte.
pub open spec fn dependency_bytes(parts: Seq<Seq<char>>) -> Seq<u8>
    decreases parts.len(),
{
    if parts.len() == 0 {
        Seq::empty()
    } else {
        dependency_bytes(parts.drop_last()) + encode_utf8(parts.last()) + seq![0u8]
    }
}

/// The characters of each part.
pub open spec fn part_chars(parts: Seq<&str>) -> Seq<Seq<char>> {
    parts.map_values(|p: &str| p@)
}

/// A private key for a parent dependency: the fingerprint of its parts,
/// each terminated by a zero byte so that different splits differ.
pub fn private_dependency_key(parts: &[&str]) -> (r: String)
    ensures
        r@ == fingerprint_of(dependency_bytes(part_chars(parts@))),
{
    let ghost all = part_chars(parts@);
    let mut hash = FNV_OFFSET_BASIS;
    let mut i: usize = 0;
    assert(Seq::<u8>::empty() =~= dependency_bytes(all.take(0)));
    while i < parts.len()
        invariant
            all == part_chars(parts@),
            i <= parts@.len(),
            hash == fnv1a(FNV_OFFSET_BASIS, dependency_bytes(all.take(i as int))),
        decreases parts@.len() - i,
    {
        let ghost before = dependency_bytes(all.take(i as int));
        let bytes = parts[i].as_bytes();
        hash = fnv1a_extend(hash, bytes, Ghost(before), Ghost(FNV_OFFSET_BASIS));
        let ghost with_part = before + bytes@;
        assert((with_part + seq![0u8]).drop_last() =~= with_part);
        hash = (hash ^ 0u64).wrapping_mul(FNV_PRIME);
        assert(all.take(i + 1).drop_last() =~= all.take(i as int));
        assert(all.take(i + 1).last() == parts@[i as int]@);
        assert(dependency_bytes(all.take(i + 1)) =~= with_part + seq![0u8]);
        i = i + 1;
    }
    assert(all.take(parts@.len() as int) =~= all);
    hex16_string(hash, "fnv1a64:")
}

} // verus!
