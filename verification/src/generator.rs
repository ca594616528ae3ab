//! A source of synthetic transfers: random addresses, amounts, prices and
//! ages drawn within the bounds of a configuration.

use vstd::prelude::*;
use vstd::string::StringExecFns;
use rand::distributions::Alphanumeric;
use rand::rngs::ThreadRng;
use rand::Rng;
use crate::clock::unix_seconds;
use crate::models::Transfer;

verus! {

/// The thread-local random number generator of the `rand` crate, carried
/// through as an opaque value.
#[verifier::external_type_specification]
#[verifier::external_body]
pub struct ExThreadRng(rand::rngs::ThreadRng);

/// `rand::thread_rng`: a handle to the generator of the calling thread.
/// Nothing is claimed of it. Its first call on a thread seeds the
/// generator from the operating system and panics where that yields no
/// entropy.
pub assume_specification[ rand::thread_rng ]() -> (rng: ThreadRng)
;

/// `Rng::gen_range` on an inclusive range of `i32`: some value of the
/// range. The range must not be empty, or the call panics.
#[verifier::external_body]
fn sample_between(rng: &mut ThreadRng, low: i32, high: i32) -> (x: i32)
    requires
        low <= high,
    ensures
        low <= x <= high,
{
    rng.gen_range(low..=high)
}

/// `Rng::gen_range` on the half-open range of `u64` from zero to `bound`:
/// some value below `bound`. The range must not be empty, or the call
/// panics.
#[verifier::external_body]
fn sample_below(rng: &mut ThreadRng, bound: u64) -> (x: u64)
    requires
        bound > 0,
    ensures
        x < bound,
{
    rng.gen_range(0..bound)
}

/// `Rng::sample_iter` with the `Alphanumeric` distribution, cut off after
/// `len` samples: `len` characters, each an ASCII letter or digit.
#[verifier::external_body]
fn sample_alphanumeric(rng: &mut ThreadRng, len: usize) -> (s: String)
    ensures
        s@.len() == len,
        forall|i: int| 0 <= i < s@.len() ==> is_alphanumeric(#[trigger] s@[i]),
{
    rng.sample_iter(&Alphanumeric).take(len).map(char::from).collect()
}

/// Whether `c` is an ASCII letter or digit.
pub open spec fn is_alphanumeric(c: char) -> bool {
    ||| '0' <= c <= '9'
    ||| 'a' <= c <= 'z'
    ||| 'A' <= c <= 'Z'
}

/// Whether `s` has the shape of a generated address: `0x` and ten ASCII
/// letters or digits.
pub open spec fn is_address(s: Seq<char>) -> bool {
    &&& s.len() == 12
    &&& s[0] == '0'
    &&& s[1] == 'x'
    &&& forall|i: int| 2 <= i < 12 ==> is_alphanumeric(#[trigger] s[i])
}

/// The address with the given suffix: `0x` before it.
pub fn address_of(suffix: &str) -> (address: String)
    ensures
        address@ == seq!['0', 'x'] + suffix@,
{
    proof {
        reveal_strlit("0x");
    }
    let mut address: String = String::from_str("0x");
    address.append(suffix);
    assert("0x"@ =~= seq!['0', 'x']);
    address
}

/// A fresh random address.
pub fn rand_address(rng: &mut ThreadRng) -> (address: String)
    ensures
        is_address(address@),
{
    let suffix: String = sample_alphanumeric(rng, 10);
    let address: String = address_of(suffix.as_str());
    assert forall|i: int| 2 <= i < 12 implies is_alphanumeric(#[trigger] address@[i]) by {
        assert(address@[i] == suffix@[i - 2]);
    }
    address
}

/// The bounds within which transfers are generated.
#[derive(Debug, Clone, Copy)]
pub struct TransferGenConfig {
    /// The least amount, inclusive.
    pub min_amount: i32,
    /// The greatest amount, inclusive.
    pub max_amount: i32,
    /// The least price, inclusive.
    pub min_price: i32,
    /// The greatest price, inclusive.
    pub max_price: i32,
    /// Every age is below this many seconds.
    pub max_age_secs: u64,
}

impl TransferGenConfig {
    /// Whether there is something to draw from in each range.
    pub open spec fn is_valid(&self) -> bool {
        &&& self.min_amount <= self.max_amount
        &&& self.min_price <= self.max_price
        &&& self.max_age_secs > 0
    }

    /// Whether `t` could have been generated at time `now`.
    pub open spec fn admits(&self, now: u64, t: Transfer) -> bool {
        &&& self.min_amount <= t.amount <= self.max_amount
        &&& self.min_price <= t.usd_price <= self.max_price
        &&& now - self.max_age_secs < t.ts <= now
        &&& is_address(t.from@)
        &&& is_address(t.to@)
    }

    /// Whether each of `transfers` could have been generated at time `now`.
    pub open spec fn admits_all(&self, now: u64, transfers: Seq<Transfer>) -> bool {
        forall|i: int| 0 <= i < transfers.len() ==> self.admits(now, #[trigger] transfers[i])
    }

    /// The same test as `is_valid`, at run time.
    pub fn check(&self) -> (ok: bool)
        ensures
            ok == self.is_valid(),
    {
        self.min_amount <= self.max_amount && self.min_price <= self.max_price
            && self.max_age_secs > 0
    }
}

impl Default for TransferGenConfig {
    /// Amounts from 1 to 1000, prices from 1 to 100, ages below one day.
    fn default() -> (config: Self)
        ensures
            config.min_amount == 1,
            config.max_amount == 1000,
            config.min_price == 1,
            config.max_price == 100,
            config.max_age_secs == 86400,
            config.is_valid(),
    {
        TransferGenConfig {
            min_amount: 1,
            max_amount: 1000,
            min_price: 1,
            max_price: 100,
            max_age_secs: 86400,
        }
    }
}

/// The time stamp of an event of the given age: `age` seconds before
/// `now`, and the epoch itself where that would lie before it.
pub fn stamp(now: u64, age: u64) -> (ts: u64)
    ensures
        ts == if age <= now { now - age } else { 0 },
{
    if age <= now {
        now - age
    } else {
        0
    }
}

/// Something that produces transfers on demand.
pub trait TransferGenerator {
    /// Whether the generator is set up so that it can produce anything.
    spec fn ready(&self) -> bool;

    /// Exactly `count` transfers. Only a generator that is asked for some
    /// has to be ready.
    fn generate(&self, count: usize) -> (transfers: Vec<Transfer>)
        requires
            count > 0 ==> self.ready(),
        ensures
            transfers@.len() == count,
    ;
}

/// The generator that draws every field at random.
#[derive(Debug, Clone, Copy)]
pub struct DefaultTransferGenerator {
    pub config: TransferGenConfig,
}

impl DefaultTransferGenerator {
    /// `count` transfers as of the time `now`, each within the bounds of
    /// the configuration.
    pub fn generate_at(&self, now: u64, count: usize) -> (transfers: Vec<Transfer>)
        requires
            count > 0 ==> self.config.is_valid(),
        ensures
            transfers@.len() == count,
            self.config.admits_all(now, transfers@),
    {
        let mut rng: ThreadRng = rand::thread_rng();
        let mut transfers: Vec<Transfer> = Vec::new();
        let mut i: usize = 0;
        while i < count
            invariant
                count > 0 ==> self.config.is_valid(),
                i <= count,
                transfers@.len() == i,
                forall|k: int| 0 <= k < i ==> self.config.admits(now, #[trigger] transfers@[k]),
            decreases count - i,
        {
            let from: String = rand_address(&mut rng);
            let to: String = rand_address(&mut rng);
            let amount: i32 = sample_between(&mut rng, self.config.min_amount, self.config.max_amount);
            let usd_price: i32 = sample_between(&mut rng, self.config.min_price, self.config.max_price);
            let age: u64 = sample_below(&mut rng, self.config.max_age_secs);
            let ts: u64 = stamp(now, age);
            transfers.push(Transfer { ts, from, to, amount, usd_price });
            i = i + 1;
        }
        transfers
    }
}

impl TransferGenerator for DefaultTransferGenerator {
    open spec fn ready(&self) -> bool {
        self.config.is_valid()
    }

    /// `count` transfers as of the time that the clock shows, each within
    /// the bounds of the configuration.
    fn generate(&self, count: usize) -> (transfers: Vec<Transfer>)
        ensures
            exists|now: u64| #[trigger] self.config.admits_all(now, transfers@),
    {
        let now: u64 = unix_seconds();
        let transfers = self.generate_at(now, count);
        assert(self.config.admits_all(now, transfers@));
        transfers
    }
}

impl Default for DefaultTransferGenerator {
    /// The generator with the default configuration.
    fn default() -> (generator: Self)
        ensures
            generator.config.min_amount == 1,
            generator.config.max_amount == 1000,
            generator.config.min_price == 1,
            generator.config.max_price == 100,
            generator.config.max_age_secs == 86400,
            generator.config.is_valid(),
    {
        DefaultTransferGenerator { config: TransferGenConfig::default() }
    }
}

} // verus!
