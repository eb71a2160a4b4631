//! Intents, batches, settlement results, configuration and counters.
use vstd::prelude::*;
use vstd::utf8::encode_utf8;
use crate::clock::unix_now_secs;
use vstd::string::StringExecFns;
use crate::crypto::{keccak256, keccak256_of, to_array32};
use crate::error::Error;

verus! {

/// `2^128`.
pub open spec fn two_pow_128() -> nat {
    0x1_0000_0000_0000_0000_0000_0000_0000_0000nat
}

/// The largest value of a 256-bit unsigned integer.
pub open spec fn u256_max() -> nat {
    (two_pow_128() * two_pow_128() - 1) as nat
}

/// The last `n` bytes of `x` written big-endian (most significant first).
pub open spec fn be_bytes(x: nat, n: nat) -> Seq<u8>
    decreases n,
{
    if n == 0 {
        Seq::empty()
    } else {
        be_bytes(x / 256, (n - 1) as nat).push((x % 256) as u8)
    }
}

/// The first `n` bytes of `x` written little-endian (least significant first).
pub open spec fn le_bytes(x: nat, n: nat) -> Seq<u8>
    decreases n,
{
    if n == 0 {
        Seq::empty()
    } else {
        seq![(x % 256) as u8] + le_bytes(x / 256, (n - 1) as nat)
    }
}

fn be_bytes_u128(x: u128, n: usize) -> (r: Vec<u8>)
    ensures
        r@ == be_bytes(x as nat, n as nat),
    decreases n,
{
    if n == 0 {
        Vec::new()
    } else {
        let mut v = be_bytes_u128(x / 256, n - 1);
        v.push((x % 256) as u8);
        v
    }
}

pub(crate) fn le_bytes_u64(x: u64, n: usize) -> (r: Vec<u8>)
    ensures
        r@ == le_bytes(x as nat, n as nat),
    decreases n,
{
    if n == 0 {
        Vec::new()
    } else {
        let rest = le_bytes_u64(x / 256, n - 1);
        let mut v = Vec::new();
        v.push((x % 256) as u8);
        let mut i: usize = 0;
        while i < rest.len()
            invariant
                i <= rest@.len(),
                v@ == seq![(x % 256) as u8] + rest@.subrange(0, i as int),
            decreases rest@.len() - i,
        {
            v.push(rest[i]);
            i = i + 1;
            assert(rest@.subrange(0, i as int) == rest@.subrange(0, i - 1).push(rest@[i - 1]));
        }
        assert(rest@.subrange(0, rest@.len() as int) == rest@);
        v
    }
}

/// A 20-byte account identifier.
#[derive(Debug, Clone, Copy, PartialEq, Eq)]
pub struct Address {
    /// The identifier's bytes.
    pub bytes: [u8; 20],
}

impl Address {
    /// The all-zero address.
    pub fn zero() -> (a: Address)
        ensures
            a.is_zero_spec(),
    {
        Address { bytes: [0u8; 20] }
    }

    /// The address with the given bytes.
    pub fn from_bytes(bytes: [u8; 20]) -> (a: Address)
        ensures
            a.bytes == bytes,
    {
        Address { bytes }
    }

    /// Every byte is zero.
    pub open spec fn is_zero_spec(&self) -> bool {
        forall|i: int| 0 <= i < 20 ==> #[trigger] self.bytes@[i] == 0
    }

    /// Whether every byte is zero.
    pub fn is_zero(&self) -> (r: bool)
        ensures
            r == self.is_zero_spec(),
    {
        let mut i: usize = 0;
        while i < 20
            invariant
                i <= 20,
                forall|j: int| 0 <= j < i ==> #[trigger] self.bytes@[j] == 0,
            decreases 20 - i,
        {
            if self.bytes[i] != 0 {
                return false;
            }
            i = i + 1;
        }
        true
    }
}

/// An unsigned 256-bit integer, held as its high and low 128-bit halves.
#[derive(Debug, Clone, Copy, PartialEq, Eq)]
pub struct U256 {
    /// The high 128 bits.
    pub hi: u128,
    /// The low 128 bits.
    pub lo: u128,
}

impl U256 {
    /// The number this value stands for.
    pub open spec fn value(&self) -> nat {
        self.hi as nat * two_pow_128() + self.lo as nat
    }

    /// Zero.
    pub fn zero() -> (r: U256)
        ensures
            r.value() == 0,
    {
        U256 { hi: 0, lo: 0 }
    }

    /// The value `x`.
    pub fn from_u128(x: u128) -> (r: U256)
        ensures
            r.value() == x,
    {
        U256 { hi: 0, lo: x }
    }

    /// Whether the value is zero.
    pub fn is_zero(&self) -> (r: bool)
        ensures
            r == (self.value() == 0),
    {
        self.hi == 0 && self.lo == 0
    }

    /// The value as a `u128`, where it fits.
    pub fn to_u128(&self) -> (r: Option<u128>)
        ensures
            r == (if self.value() <= u128::MAX { Some(self.value() as u128) } else { None::<u128> }),
    {
        if self.hi == 0 {
            Some(self.lo)
        } else {
            None
        }
    }

    /// Whether this value is less than `other`.
    pub fn lt(&self, other: &U256) -> (r: bool)
        ensures
            r == (self.value() < other.value()),
    {
        let ghost t = two_pow_128();
        proof {
            if self.hi < other.hi {
                assert(self.hi * t + self.lo < other.hi * t + other.lo) by (nonlinear_arith)
                    requires
                        self.hi + 1 <= other.hi,
                        self.lo < t,
                        other.lo >= 0,
                ;
            } else if self.hi > other.hi {
                assert(other.hi * t + other.lo < self.hi * t + self.lo) by (nonlinear_arith)
                    requires
                        other.hi + 1 <= self.hi,
                        other.lo < t,
                        self.lo >= 0,
                ;
            }
        }
        self.hi < other.hi || (self.hi == other.hi && self.lo < other.lo)
    }

    /// The sum, where it fits in 256 bits.
    pub fn checked_add(&self, other: &U256) -> (r: Option<U256>)
        ensures
            self.value() + other.value() <= u256_max() ==> r.is_some() && r.unwrap().value() == self.value() + other.value(),
            self.value() + other.value() > u256_max() ==> r.is_none(),
    {
        let lo_sum = self.lo as u128;
        let (lo, carry) = if lo_sum <= u128::MAX - other.lo {
            (lo_sum + other.lo, 0u128)
        } else {
            (other.lo - (u128::MAX - lo_sum) - 1, 1u128)
        };
        let ghost t = two_pow_128();
        assert(self.lo + other.lo == lo + carry * t);
        assert(self.value() + other.value() == (self.hi + other.hi + carry) * t + lo) by (nonlinear_arith)
            requires
                self.value() == self.hi * t + self.lo,
                other.value() == other.hi * t + other.lo,
                self.lo + other.lo == lo + carry * t,
        ;
        if self.hi > u128::MAX - other.hi || self.hi + other.hi > u128::MAX - carry {
            assert((self.hi + other.hi + carry) * t + lo > u256_max()) by (nonlinear_arith)
                requires
                    self.hi + other.hi + carry >= t,
                    t == two_pow_128(),
                    lo >= 0,
            ;
            return None;
        }
        assert((self.hi + other.hi + carry) * t + lo <= u256_max()) by (nonlinear_arith)
            requires
                self.hi + other.hi + carry < t,
                t == two_pow_128(),
                lo < t,
        ;
        Some(U256 { hi: self.hi + other.hi + carry, lo })
    }

    /// The sum, capped at the largest 256-bit value.
    pub fn saturating_add(&self, other: &U256) -> (r: U256)
        ensures
            r.value() == if self.value() + other.value() <= u256_max() { self.value() + other.value() } else { u256_max() },
    {
        match self.checked_add(other) {
            Some(s) => s,
            None => U256 { hi: u128::MAX, lo: u128::MAX },
        }
    }

    /// The 32 big-endian bytes of the value: those of the high half, then those of the low half.
    pub open spec fn be_bytes_spec(&self) -> Seq<u8> {
        be_bytes(self.hi as nat, 16) + be_bytes(self.lo as nat, 16)
    }

    /// The 32 big-endian bytes of the value.
    pub fn to_be_bytes(&self) -> (r: Vec<u8>)
        ensures
            r@ == self.be_bytes_spec(),
    {
        let mut r = be_bytes_u128(self.hi, 16);
        let mut low = be_bytes_u128(self.lo, 16);
        r.append(&mut low);
        r
    }
}

/// An immutable request to transfer value.
#[derive(Debug, Clone)]
pub struct Intent {
    /// Unique identifier.
    pub id: String,
    /// Sender.
    pub from: Address,
    /// Recipient.
    pub to: Address,
    /// Amount to transfer.
    pub amount: U256,
    /// Urgent transfers are ranked higher.
    pub priority: bool,
    /// Sender's nonce.
    pub nonce: u64,
    /// Signature bytes; non-empty counts as present.
    pub signature: Vec<u8>,
    /// Seconds since the Unix epoch at intake.
    pub timestamp: u64,
    /// Highest gas price the sender accepts.
    pub max_gas_price: Option<U256>,
}

/// The bytes the fingerprint of an intent is taken over: the id, the two
/// addresses, the amount big-endian and the nonce little-endian.
pub open spec fn fingerprint_preimage(i: Intent) -> Seq<u8> {
    encode_utf8(i.id@) + i.from.bytes@ + i.to.bytes@ + i.amount.be_bytes_spec() + le_bytes(i.nonce as nat, 8)
}

impl Intent {
    /// A new intent stamped with the present time and no gas price limit.
    pub fn new(
        id: String,
        from: Address,
        to: Address,
        amount: U256,
        priority: bool,
        nonce: u64,
        signature: Vec<u8>,
    ) -> (r: Intent)
        ensures
            r.id == id,
            r.from == from,
            r.to == to,
            r.amount == amount,
            r.priority == priority,
            r.nonce == nonce,
            r.signature == signature,
            r.max_gas_price.is_none(),
    {
        Intent {
            id,
            from,
            to,
            amount,
            priority,
            nonce,
            signature,
            timestamp: unix_now_secs(),
            max_gas_price: None,
        }
    }

    /// A signature is present: it is not empty.
    pub open spec fn has_signature(&self) -> bool {
        self.signature@.len() > 0
    }

    /// Whether a signature is present. Its cryptographic check is not made here.
    pub fn verify_signature(&self) -> (r: bool)
        ensures
            r == self.has_signature(),
    {
        !self.signature.is_empty()
    }

    /// The bytes the fingerprint is taken over.
    pub fn fingerprint_bytes(&self) -> (r: Vec<u8>)
        ensures
            r@ == fingerprint_preimage(*self),
    {
        let mut out: Vec<u8> = Vec::new();
        append_bytes(&mut out, self.id.as_str().as_bytes());
        append_bytes(&mut out, self.from.bytes.as_slice());
        append_bytes(&mut out, self.to.bytes.as_slice());
        let amount = self.amount.to_be_bytes();
        append_bytes(&mut out, amount.as_slice());
        let nonce = le_bytes_u64(self.nonce, 8);
        append_bytes(&mut out, nonce.as_slice());
        out
    }

    /// The 32-byte Keccak-256 fingerprint of the intent, used to break ties stably.
    pub fn hash(&self) -> (r: [u8; 32])
        ensures
            r@ == keccak256_of(fingerprint_preimage(*self)),
    {
        let bytes = self.fingerprint_bytes();
        let digest = keccak256(bytes.as_slice());
        let r = to_array32(&digest);
        assert(digest@.subrange(0, 32) =~= digest@);
        r
    }
}

/// Appends `src` to `dst`.
pub fn append_bytes(dst: &mut Vec<u8>, src: &[u8])
    ensures
        final(dst)@ == old(dst)@ + src@,
{
    let mut i: usize = 0;
    while i < src.len()
        invariant
            i <= src@.len(),
            dst@ == old(dst)@ + src@.subrange(0, i as int),
        decreases src@.len() - i,
    {
        dst.push(src[i]);
        i = i + 1;
        assert(src@.subrange(0, i as int) == src@.subrange(0, i - 1).push(src@[i - 1]));
    }
    assert(src@.subrange(0, src@.len() as int) == src@);
}

/// A snapshot of drained intents, ordered and planned for one settlement.
#[derive(Debug, Clone)]
pub struct Batch {
    /// Batch number, increasing over the life of the process.
    pub id: u64,
    /// The intents, in settlement order.
    pub intents: Vec<Intent>,
    /// Chunk size planned for the batch.
    pub chunk_size: usize,
    /// Estimated gas of the batched settlement.
    pub estimated_gas: U256,
    /// Estimated gas saved against settling each intent alone.
    pub estimated_savings: U256,
    /// Seconds since the Unix epoch at creation.
    pub created_at: u64,
}

/// The outcome of one settlement attempt.
#[derive(Debug, Clone)]
pub struct BatchResult {
    /// The batch settled.
    pub batch_id: u64,
    /// Transaction hash.
    pub tx_hash: String,
    /// Gas actually used.
    pub gas_used: U256,
    /// Gas saved.
    pub gas_saved: U256,
    /// Success of each intent, in batch order.
    pub successes: Vec<bool>,
    /// Time spent settling, in milliseconds.
    pub processing_time_ms: u64,
    /// Whether the blob path was used.
    pub used_blob: bool,
    /// Gas saved by the blob path.
    pub blob_gas_saved: U256,
}

/// Relayer configuration; fixed once loaded.
#[derive(Debug, Clone)]
pub struct FisherConfig {
    /// Chain endpoint.
    pub rpc_url: String,
    /// Address of the settlement contract.
    pub fisher_address: Address,
    /// Address of the core contract.
    pub evvm_core_address: Address,
    /// Fewest intents a flush settles.
    pub min_batch_size: usize,
    /// Queue length that triggers a flush at once.
    pub max_batch_size: usize,
    /// Period of the flush tick, in milliseconds.
    pub batch_interval_ms: u64,
    /// Whether to produce attestations.
    pub enable_attestation: bool,
    /// Whether to settle through blobs.
    pub enable_blobs: bool,
    /// Signing key, if any.
    pub private_key: Option<String>,
}

impl FisherConfig {
    /// Both addresses are set, the endpoint is named, and the thresholds satisfy
    /// `0 < min_batch_size <= max_batch_size`.
    pub open spec fn is_valid(&self) -> bool {
        &&& !self.fisher_address.is_zero_spec()
        &&& !self.evvm_core_address.is_zero_spec()
        &&& self.rpc_url@.len() > 0
        &&& self.min_batch_size > 0
        &&& self.max_batch_size >= self.min_batch_size
    }
}

impl Default for FisherConfig {
    fn default() -> (c: FisherConfig)
        ensures
            c.rpc_url@ == "http://localhost:8545"@,
            c.fisher_address.is_zero_spec(),
            c.evvm_core_address.is_zero_spec(),
            c.min_batch_size == 10,
            c.max_batch_size == 1000,
            c.batch_interval_ms == 5000,
            c.enable_attestation,
            c.enable_blobs,
            c.private_key.is_none(),
    {
        FisherConfig {
            rpc_url: String::from_str("http://localhost:8545"),
            fisher_address: Address::zero(),
            evvm_core_address: Address::zero(),
            min_batch_size: 10,
            max_batch_size: 1000,
            batch_interval_ms: 5000,
            enable_attestation: true,
            enable_blobs: true,
            private_key: None,
        }
    }
}

/// Checks a configuration: `Ok` exactly when it is valid, otherwise a
/// `Config` error naming the first field at fault.
pub fn validate_config(config: &FisherConfig) -> (r: Result<(), Error>)
    ensures
        r.is_ok() == config.is_valid(),
        r matches Err(e) ==> e is Config,
{
    if config.fisher_address.is_zero() {
        return Err(Error::Config(String::from_str("Invalid fisher_address in config")));
    }
    if config.evvm_core_address.is_zero() {
        return Err(Error::Config(String::from_str("Invalid evvm_core_address in config")));
    }
    if config.rpc_url.as_str().is_empty() {
        return Err(Error::Config(String::from_str("Empty rpc_url in config")));
    }
    if config.min_batch_size == 0 {
        return Err(Error::Config(String::from_str("min_batch_size must be > 0")));
    }
    if config.max_batch_size < config.min_batch_size {
        return Err(Error::Config(String::from_str("max_batch_size must be >= min_batch_size")));
    }
    Ok(())
}

/// Process-lifetime counters, updated once per settled batch.
#[derive(Debug, Clone)]
pub struct Metrics {
    /// Batches settled.
    pub total_batches: u64,
    /// Intents settled.
    pub total_intents: u64,
    /// Gas saved over all batches.
    pub total_gas_saved: U256,
    /// Batches settled through blobs.
    pub blob_batches: u64,
}

/// `x + y`, capped at `u64::MAX`.
pub open spec fn sat_add_u64(x: nat, y: nat) -> nat {
    if x + y > u64::MAX {
        u64::MAX as nat
    } else {
        x + y
    }
}

/// `x + y` of 256-bit values, capped at the largest one.
pub open spec fn sat_add_u256(x: nat, y: nat) -> nat {
    if x + y > u256_max() {
        u256_max()
    } else {
        x + y
    }
}

impl Metrics {
    /// All counters at zero.
    pub fn new() -> (m: Metrics)
        ensures
            m.total_batches == 0,
            m.total_intents == 0,
            m.total_gas_saved.value() == 0,
            m.blob_batches == 0,
    {
        Metrics { total_batches: 0, total_intents: 0, total_gas_saved: U256::zero(), blob_batches: 0 }
    }

    /// Folds one settled batch of `batch_len` intents into the counters.
    /// Each counter saturates at its largest value.
    pub fn record_batch(&mut self, batch_len: usize, result: &BatchResult)
        ensures
            final(self).total_batches == sat_add_u64(old(self).total_batches as nat, 1),
            final(self).total_intents == sat_add_u64(old(self).total_intents as nat, batch_len as nat),
            final(self).total_gas_saved.value() == sat_add_u256(
                old(self).total_gas_saved.value(),
                result.gas_saved.value(),
            ),
            final(self).blob_batches == sat_add_u64(
                old(self).blob_batches as nat,
                if result.used_blob { 1nat } else { 0nat },
            ),
    {
        self.total_batches = self.total_batches.saturating_add(1);
        self.total_intents = self.total_intents.saturating_add(batch_len as u64);
        self.total_gas_saved = self.total_gas_saved.saturating_add(&result.gas_saved);
        if result.used_blob {
            self.blob_batches = self.blob_batches.saturating_add(1);
        }
    }
}

impl Default for Metrics {
    fn default() -> (m: Metrics)
        ensures
            m.total_batches == 0,
            m.total_intents == 0,
            m.total_gas_saved.value() == 0,
            m.blob_batches == 0,
    {
        Metrics::new()
    }
}

/// Gas of the batched path, `14000` per intent.
pub open spec fn estimated_gas_spec(n: nat) -> nat {
    n * 14000
}

/// Gas saved against `100000` per intent settled alone: `86000` per intent.
pub open spec fn estimated_savings_spec(n: nat) -> nat {
    (n * 100000 - n * 14000) as nat
}

/// Estimated gas of a batch of `n` intents and the gas it saves.
pub fn estimate_batch_gas(n: usize) -> (r: (U256, U256))
    ensures
        r.0.value() == estimated_gas_spec(n as nat),
        r.1.value() == estimated_savings_spec(n as nat),
{
    let m = n as u128;
    let traditional = m * 100_000;
    let optimized = m * 14_000;
    (U256::from_u128(optimized), U256::from_u128(traditional - optimized))
}

/// The gas model saves `86000` of every `100000` gas: for any non-empty batch,
/// `estimated_savings / (estimated_gas + estimated_savings) = 86000 / 100000`.
pub proof fn lemma_savings_ratio(n: nat)
    requires
        n > 0,
    ensures
        estimated_savings_spec(n) * 100000 == 86000 * (estimated_gas_spec(n) + estimated_savings_spec(n)),
        estimated_gas_spec(n) + estimated_savings_spec(n) > 0,
{
}

/// Per-intent success flags of a settled batch of `n` intents: the flags read
/// from the receipt when there is exactly one per intent; otherwise every
/// intent counts as settled.
pub fn settlement_successes(parsed: Option<Vec<bool>>, n: usize) -> (r: Vec<bool>)
    ensures
        r@.len() == n,
        (parsed matches Some(p) && p@.len() == n) ==> r@ == parsed.unwrap()@,
        !(parsed matches Some(p) && p@.len() == n) ==> forall|i: int| 0 <= i < n ==> #[trigger] r@[i],
{
    if let Some(p) = parsed {
        if p.len() == n {
            return p;
        }
    }
    let mut r: Vec<bool> = Vec::new();
    while r.len() < n
        invariant
            r@.len() <= n,
            forall|i: int| 0 <= i < r@.len() ==> #[trigger] r@[i],
        decreases n - r@.len(),
    {
        r.push(true);
    }
    r
}

} // verus!
