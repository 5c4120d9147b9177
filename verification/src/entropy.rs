//! Blockchain-derived entropy: hex decoding of block hashes, hex numerals,
//! and mixing of entropy sources into one digest. Randomness and the clock
//! are injected, so the mixing itself is deterministic.

use vstd::prelude::*;
use vstd::string::StringSliceAdditionalSpecFns;
use vstd::bytes::{spec_u64_to_le_bytes, u64_to_le_bytes};
use crate::hashing::{sha3_256, sha3_256_of};

verus! {

/// One observation of a public blockchain: the block hash as entropy plus
/// some metadata about where it came from.
#[derive(Debug, Clone)]
pub struct BlockchainNoise {
    pub entropy: Vec<u8>,
    pub timestamp: u64,
    pub block_height: u64,
    pub tx_count: u32,
    pub source: String,
    pub fetched_at: String,
}

/// The rolling entropy state: the last observation per chain and the
/// combined digest over all of them.
#[derive(Debug)]
pub struct EntropyState {
    pub bitcoin: Option<BlockchainNoise>,
    pub ethereum: Option<BlockchainNoise>,
    pub monero: Option<BlockchainNoise>,
    pub combined_entropy: Vec<u8>,
    pub last_update: String,
    pub update_count: u64,
}

/// Whether a byte is an ASCII hex digit.
pub open spec fn is_hex_digit(b: u8) -> bool {
    (48 <= b <= 57) || (97 <= b <= 102) || (65 <= b <= 70)
}

/// The value of an ASCII hex digit (0 for a byte that is none).
pub open spec fn hex_val(b: u8) -> int {
    if 48 <= b <= 57 {
        b - 48
    } else if 97 <= b <= 102 {
        b - 87
    } else if 65 <= b <= 70 {
        b - 55
    } else {
        0
    }
}

/// The bytes decoded from a hex string taken two characters at a time:
/// each fully hex pair contributes one byte, any other pair is skipped,
/// and a trailing lone character is dropped.
pub open spec fn hex_pairs(s: Seq<u8>) -> Seq<u8>
    decreases s.len(),
{
    if s.len() < 2 {
        Seq::empty()
    } else {
        let rest = hex_pairs(s.skip(2));
        if is_hex_digit(s[0]) && is_hex_digit(s[1]) {
            seq![(hex_val(s[0]) * 16 + hex_val(s[1])) as u8] + rest
        } else {
            rest
        }
    }
}

/// The value of an ASCII hex digit, if it is one.
fn hex_digit_value(b: u8) -> (r: Option<u8>)
    ensures
        match r {
            Some(d) => is_hex_digit(b) && d == hex_val(b),
            None => !is_hex_digit(b),
        },
{
    if 48 <= b && b <= 57 {
        Some(b - 48)
    } else if 97 <= b && b <= 102 {
        Some(b - 87)
    } else if 65 <= b && b <= 70 {
        Some(b - 55)
    } else {
        None
    }
}

/// Decodes a hex string two characters at a time, skipping pairs that are
/// not both hex digits and dropping a trailing lone character.
pub fn hex_to_bytes(hex: &str) -> (r: Vec<u8>)
    ensures
        r@ == hex_pairs(hex.spec_bytes()),
{
    let bs = hex.as_bytes();
    let n = bs.len();
    let mut r: Vec<u8> = Vec::new();
    let mut i: usize = 0;
    proof {
        assert(bs@.skip(0) =~= bs@);
        assert(r@ =~= Seq::<u8>::empty());
    }
    while n - i >= 2
        invariant
            n == bs@.len(),
            i <= n,
            bs@ == hex.spec_bytes(),
            hex_pairs(bs@) == r@ + hex_pairs(bs@.skip(i as int)),
        decreases n - i,
    {
        proof {
            assert(bs@.skip(i as int)[0] == bs@[i as int]);
            assert(bs@.skip(i as int)[1] == bs@[i as int + 1]);
            assert(bs@.skip(i as int).skip(2) =~= bs@.skip(i + 2));
        }
        let d0 = hex_digit_value(bs[i]);
        let d1 = hex_digit_value(bs[i + 1]);
        match (d0, d1) {
            (Some(h), Some(l)) => {
                r.push(h * 16 + l);
            },
            _ => {},
        }
        i = i + 2;
    }
    proof {
        assert(hex_pairs(bs@.skip(i as int)) =~= Seq::<u8>::empty());
        assert(r@ =~= hex_pairs(bs@));
    }
    r
}

/// The hex prefix-stripped remainder: every leading literal `0x` removed.
pub open spec fn strip_hex_prefix(s: Seq<u8>) -> Seq<u8>
    decreases s.len(),
{
    if s.len() >= 2 && s[0] == 48 && s[1] == 120 {
        strip_hex_prefix(s.skip(2))
    } else {
        s
    }
}

/// Whether every byte is a hex digit.
pub open spec fn all_hex(s: Seq<u8>) -> bool {
    forall|i: int| 0 <= i < s.len() ==> is_hex_digit(#[trigger] s[i])
}

/// The numeral value of a hex digit string, most significant digit first.
pub open spec fn hex_num_val(s: Seq<u8>) -> int
    decreases s.len(),
{
    if s.len() == 0 {
        0int
    } else {
        hex_num_val(s.drop_last()) * 16 + hex_val(s.last())
    }
}

pub proof fn lemma_hex_num_val_nonneg(s: Seq<u8>)
    ensures
        hex_num_val(s) >= 0,
    decreases s.len(),
{
    if s.len() > 0 {
        lemma_hex_num_val_nonneg(s.drop_last());
    }
}

/// A prefix never has a larger numeral value than the whole.
pub proof fn lemma_hex_num_val_mono(s: Seq<u8>, m: int)
    requires
        0 <= m <= s.len(),
    ensures
        hex_num_val(s.take(m)) <= hex_num_val(s),
    decreases s.len() - m,
{
    if m < s.len() {
        lemma_hex_num_val_mono(s, m + 1);
        assert(s.take(m + 1).drop_last() =~= s.take(m));
        assert(s.take(m + 1).last() == s[m]);
        lemma_hex_num_val_nonneg(s.take(m));
        assert(hex_num_val(s.take(m + 1)) == hex_num_val(s.take(m)) * 16 + hex_val(s[m]));
    } else {
        assert(s.take(m) =~= s);
    }
}

/// What parsing a hex numeral yields: leading `0x` prefixes stripped, then
/// the value if the remainder is non-empty, all hex digits, and within
/// `u64` range; otherwise 0.
pub open spec fn parse_hex_u64_spec(s: Seq<u8>) -> u64 {
    let t = strip_hex_prefix(s);
    if t.len() > 0 && all_hex(t) && hex_num_val(t) <= u64::MAX {
        hex_num_val(t) as u64
    } else {
        0u64
    }
}

/// Parses a hex numeral (with any number of leading `0x` prefixes) into a
/// `u64`, yielding 0 for an empty, non-hex or out-of-range numeral.
pub fn parse_hex_u64(s: &str) -> (r: u64)
    ensures
        r == parse_hex_u64_spec(s.spec_bytes()),
{
    let bs = s.as_bytes();
    let n = bs.len();
    let mut start: usize = 0;
    proof {
        assert(bs@.skip(0) =~= bs@);
    }
    while n - start >= 2 && bs[start] == 48 && bs[start + 1] == 120
        invariant
            n == bs@.len(),
            start <= n,
            bs@ == s.spec_bytes(),
            strip_hex_prefix(bs@) == strip_hex_prefix(bs@.skip(start as int)),
        decreases n - start,
    {
        proof {
            assert(bs@.skip(start as int)[0] == bs@[start as int]);
            assert(bs@.skip(start as int)[1] == bs@[start as int + 1]);
            assert(bs@.skip(start as int).skip(2) =~= bs@.skip(start + 2));
        }
        start = start + 2;
    }
    let ghost t = strip_hex_prefix(bs@);
    proof {
        assert(bs@.skip(start as int).len() < 2 || bs@.skip(start as int)[0] != 48 || bs@.skip(
            start as int,
        )[1] != 120);
        assert(t == bs@.skip(start as int));
    }
    if start == n {
        return 0;
    }
    let mut val: u64 = 0;
    let mut i: usize = start;
    proof {
        assert(t.take(0) =~= Seq::<u8>::empty());
    }
    while i < n
        invariant
            n == bs@.len(),
            start <= i <= n,
            bs@ == s.spec_bytes(),
            t == bs@.skip(start as int),
            t == strip_hex_prefix(bs@),
            t.len() == n - start,
            all_hex(t.take((i - start) as int)),
            hex_num_val(t.take((i - start) as int)) == val,
        decreases n - i,
    {
        let ghost k = (i - start) as int;
        proof {
            assert(t[k] == bs@[i as int]);
        }
        let d = hex_digit_value(bs[i]);
        match d {
            None => {
                proof {
                    assert(!is_hex_digit(t[k]));
                    assert(!all_hex(t));
                }
                return 0;
            },
            Some(d) => {
                proof {
                    assert(t.take(k + 1).drop_last() =~= t.take(k));
                    assert(t.take(k + 1).last() == t[k]);
                    assert(hex_num_val(t.take(k + 1)) == hex_num_val(t.take(k)) * 16 + hex_val(
                        t[k],
                    ));
                }
                let shifted = val.checked_mul(16);
                match shifted {
                    None => {
                        proof {
                            if all_hex(t) {
                                lemma_hex_num_val_mono(t, k + 1);
                            }
                        }
                        return 0;
                    },
                    Some(sv) => {
                        let summed = sv.checked_add(d as u64);
                        match summed {
                            None => {
                                proof {
                                    if all_hex(t) {
                                        lemma_hex_num_val_mono(t, k + 1);
                                    }
                                }
                                return 0;
                            },
                            Some(nv) => {
                                val = nv;
                            },
                        }
                    },
                }
            },
        }
        i = i + 1;
    }
    proof {
        assert(t.take((n - start) as int) =~= t);
    }
    val
}

/// The concatenation of a sequence of byte strings.
pub open spec fn concat_all(s: Seq<Seq<u8>>) -> Seq<u8>
    decreases s.len(),
{
    if s.len() == 0 {
        Seq::empty()
    } else {
        s[0] + concat_all(s.drop_first())
    }
}

pub proof fn lemma_concat_all_push(s: Seq<Seq<u8>>, e: Seq<u8>)
    ensures
        concat_all(s.push(e)) =~= concat_all(s) + e,
    decreases s.len(),
{
    if s.len() == 0 {
        assert(s.push(e).drop_first() =~= Seq::<Seq<u8>>::empty());
        assert(s.push(e)[0] == e);
        assert(concat_all(s.push(e)) == e + concat_all(s.push(e).drop_first()));
        assert(concat_all(s.push(e)) =~= concat_all(s) + e);
    } else {
        assert(s.push(e)[0] == s[0]);
        assert(s.push(e).drop_first() =~= s.drop_first().push(e));
        lemma_concat_all_push(s.drop_first(), e);
        assert(concat_all(s.push(e)) == s[0] + concat_all(s.drop_first().push(e)));
        assert(concat_all(s) == s[0] + concat_all(s.drop_first()));
        assert(concat_all(s.push(e)) =~= concat_all(s) + e);
    }
}

/// A byte-for-byte copy.
fn clone_bytes(v: &Vec<u8>) -> (r: Vec<u8>)
    ensures
        r@ == v@,
{
    let mut r: Vec<u8> = Vec::new();
    r.extend_from_slice(v.as_slice());
    assert(r@ =~= v@);
    r
}

/// Mixes the given entropy sources and the current time into one SHA3-256
/// digest: the sources concatenated in order, then the nanosecond timestamp
/// in little-endian bytes.
pub fn combine_entropy(sources: &Vec<Vec<u8>>, now_nanos: i64) -> (r: Vec<u8>)
    ensures
        r@ == sha3_256_of(
            concat_all(sources@.map_values(|v: Vec<u8>| v@)) + spec_u64_to_le_bytes(
                now_nanos as u64,
            ),
        ),
        r@.len() == 32,
{
    let ghost m = sources@.map_values(|v: Vec<u8>| v@);
    let mut buf: Vec<u8> = Vec::new();
    let n = sources.len();
    let mut i: usize = 0;
    proof {
        assert(m.take(0) =~= Seq::<Seq<u8>>::empty());
        assert(buf@ =~= concat_all(m.take(0)));
    }
    while i < n
        invariant
            n == sources@.len(),
            i <= n,
            m == sources@.map_values(|v: Vec<u8>| v@),
            buf@ == concat_all(m.take(i as int)),
        decreases n - i,
    {
        buf.extend_from_slice(sources[i].as_slice());
        proof {
            assert(m[i as int] == sources@[i as int]@);
            assert(m.take(i + 1) =~= m.take(i as int).push(m[i as int]));
            lemma_concat_all_push(m.take(i as int), m[i as int]);
            assert(buf@ =~= concat_all(m.take(i + 1)));
        }
        i = i + 1;
    }
    proof {
        assert(m.take(n as int) =~= m);
    }
    let ts = u64_to_le_bytes(now_nanos as u64);
    buf.extend_from_slice(ts.as_slice());
    proof {
        assert(buf@ =~= concat_all(m) + spec_u64_to_le_bytes(now_nanos as u64));
    }
    sha3_256(buf.as_slice())
}

/// The entropy sources one refresh mixes, in order: each present chain
/// observation's entropy, then the locally drawn bytes.
pub open spec fn refresh_sources(
    bitcoin: Option<BlockchainNoise>,
    ethereum: Option<BlockchainNoise>,
    monero: Option<BlockchainNoise>,
    local: Seq<u8>,
) -> Seq<Seq<u8>> {
    opt_entropy(bitcoin) + opt_entropy(ethereum) + opt_entropy(monero) + seq![local]
}

/// The entropy an optional chain observation contributes.
pub open spec fn opt_entropy(o: Option<BlockchainNoise>) -> Seq<Seq<u8>> {
    match o {
        Some(n) => seq![n.entropy@],
        None => Seq::empty(),
    }
}

impl EntropyState {
    /// The state before any refresh: no observations, empty digest, no
    /// updates counted.
    pub fn new() -> (r: EntropyState)
        ensures
            r.bitcoin is None && r.ethereum is None && r.monero is None,
            r.combined_entropy@.len() == 0,
            r.last_update@.len() == 0,
            r.update_count == 0,
    {
        EntropyState {
            bitcoin: None,
            ethereum: None,
            monero: None,
            combined_entropy: Vec::new(),
            last_update: String::new(),
            update_count: 0,
        }
    }

    /// Folds one round of fetched observations into the state: stores them,
    /// recombines the entropy of every present source plus the locally
    /// drawn bytes with the timestamp, stamps the update, and counts it
    /// (saturating at the counter's maximum).
    pub fn apply_refresh(
        &mut self,
        bitcoin: Option<BlockchainNoise>,
        ethereum: Option<BlockchainNoise>,
        monero: Option<BlockchainNoise>,
        local_entropy: Vec<u8>,
        now_nanos: i64,
        now_rfc3339: String,
    )
        ensures
            final(self).bitcoin == bitcoin,
            final(self).ethereum == ethereum,
            final(self).monero == monero,
            final(self).combined_entropy@ == sha3_256_of(
                concat_all(refresh_sources(bitcoin, ethereum, monero, local_entropy@))
                    + spec_u64_to_le_bytes(now_nanos as u64),
            ),
            final(self).last_update == now_rfc3339,
            final(self).update_count == if old(self).update_count < u64::MAX {
                old(self).update_count + 1
            } else {
                u64::MAX as int
            },
    {
        let mut sources: Vec<Vec<u8>> = Vec::new();
        match &bitcoin {
            Some(b) => {
                sources.push(clone_bytes(&b.entropy));
            },
            None => {},
        }
        match &ethereum {
            Some(e) => {
                sources.push(clone_bytes(&e.entropy));
            },
            None => {},
        }
        match &monero {
            Some(m) => {
                sources.push(clone_bytes(&m.entropy));
            },
            None => {},
        }
        sources.push(clone_bytes(&local_entropy));
        proof {
            assert(sources@.map_values(|v: Vec<u8>| v@) =~= refresh_sources(
                bitcoin,
                ethereum,
                monero,
                local_entropy@,
            ));
        }
        let combined = combine_entropy(&sources, now_nanos);
        self.bitcoin = bitcoin;
        self.ethereum = ethereum;
        self.monero = monero;
        self.combined_entropy = combined;
        self.last_update = now_rfc3339;
        if self.update_count < u64::MAX {
            self.update_count = self.update_count + 1;
        }
    }
}

/// One of the entropy service's endpoints, or none.
#[derive(Debug, Clone, Copy, PartialEq, Eq, Structural)]
pub enum AleaRoute {
    Health,
    Entropy,
    Drift,
    Refresh,
    Modulate,
    NotFound,
}

/// Which endpoint a request target addresses: the root counts as the
/// health endpoint, anything unrecognised as not found.
pub fn route_for(path: &str) -> (r: AleaRoute)
    ensures
        r == (if path@ == "/health"@ || path@ == "/"@ {
            AleaRoute::Health
        } else if path@ == "/entropy"@ {
            AleaRoute::Entropy
        } else if path@ == "/drift"@ {
            AleaRoute::Drift
        } else if path@ == "/refresh"@ {
            AleaRoute::Refresh
        } else if path@ == "/modulate"@ {
            AleaRoute::Modulate
        } else {
            AleaRoute::NotFound
        }),
{
    let p: String = path.to_owned();
    if p == "/health".to_owned() || p == "/".to_owned() {
        AleaRoute::Health
    } else if p == "/entropy".to_owned() {
        AleaRoute::Entropy
    } else if p == "/drift".to_owned() {
        AleaRoute::Drift
    } else if p == "/refresh".to_owned() {
        AleaRoute::Refresh
    } else if p == "/modulate".to_owned() {
        AleaRoute::Modulate
    } else {
        AleaRoute::NotFound
    }
}

} // verus!
