//! Retry bookkeeping for network operations: exponential backoff with
//! jitter, a limit on attempts, and the queries the node's event loop makes.

use vstd::prelude::*;
use crate::text::join2;

verus! {

broadcast use vstd::string::group_string_axioms;

/// Maximum number of attempts before an operation is given up.
pub const MAX_RETRY_ATTEMPTS: u32 = 5;

/// Base delay for exponential backoff (milliseconds).
pub const BASE_RETRY_DELAY_MS: u64 = 500;

/// Maximum delay for exponential backoff (milliseconds).
pub const MAX_RETRY_DELAY_MS: u64 = 30_000;

/// Retry status of one operation.
#[derive(Debug, Clone)]
pub struct RetryStatus {
    /// Last attempt time (unix timestamp, seconds)
    pub last_attempt: u64,
    /// Number of attempts so far
    pub attempts: u32,
    /// Whether the operation is in backoff
    pub in_backoff: bool,
    /// Current backoff delay in milliseconds
    pub current_delay_ms: u64,
    /// Retry operation type
    pub operation: String,
    /// Target of the operation (e.g., peer ID)
    pub target: String,
}

/// The content of a retry status.
pub struct RetryEntry {
    pub last_attempt: u64,
    pub attempts: u32,
    pub in_backoff: bool,
    pub current_delay_ms: u64,
    pub operation: Seq<char>,
    pub target: Seq<char>,
}

impl View for RetryStatus {
    type V = RetryEntry;

    open spec fn view(&self) -> RetryEntry {
        RetryEntry {
            last_attempt: self.last_attempt,
            attempts: self.attempts,
            in_backoff: self.in_backoff,
            current_delay_ms: self.current_delay_ms,
            operation: self.operation@,
            target: self.target@,
        }
    }
}

impl RetryStatus {
    /// A copy of this status.
    pub fn duplicate(&self) -> (r: RetryStatus)
        ensures
            r@ == self@,
    {
        RetryStatus {
            last_attempt: self.last_attempt,
            attempts: self.attempts,
            in_backoff: self.in_backoff,
            current_delay_ms: self.current_delay_ms,
            operation: self.operation.clone(),
            target: self.target.clone(),
        }
    }
}

/// The key an operation on a target is tracked under: `operation:target`.
pub open spec fn retry_key(operation: Seq<char>, target: Seq<char>) -> Seq<char> {
    operation + ":"@ + target
}

pub open spec fn entry_key(e: RetryEntry) -> Seq<char> {
    retry_key(e.operation, e.target)
}

pub open spec fn keys_distinct(s: Seq<RetryEntry>) -> bool {
    forall|i: int, j: int|
        0 <= i < s.len() && 0 <= j < s.len() && i != j ==> entry_key(#[trigger] s[i]) != entry_key(
            #[trigger] s[j],
        )
}

/// The entries of a list, keyed by their retry key.
pub open spec fn entries_map(s: Seq<RetryEntry>) -> Map<Seq<char>, RetryEntry>
    decreases s.len(),
{
    if s.len() == 0 {
        Map::empty()
    } else {
        entries_map(s.drop_last()).insert(entry_key(s.last()), s.last())
    }
}

pub proof fn lemma_entries_map_lookup(s: Seq<RetryEntry>, k: Seq<char>)
    requires
        keys_distinct(s),
    ensures
        entries_map(s).contains_key(k) <==> exists|i: int| 0 <= i < s.len() && entry_key(s[i]) == k,
        forall|i: int| 0 <= i < s.len() && entry_key(s[i]) == k ==> entries_map(s)[k] == s[i],
        entries_map(s).dom().finite(),
        entries_map(s).dom().len() == s.len(),
    decreases s.len(),
{
    if s.len() > 0 {
        let t = s.drop_last();
        assert(keys_distinct(t));
        lemma_entries_map_lookup(t, k);
        lemma_entries_map_lookup(t, entry_key(s.last()));
        if exists|i: int| 0 <= i < s.len() && entry_key(s[i]) == k {
            let i = choose|i: int| 0 <= i < s.len() && entry_key(s[i]) == k;
            if i < s.len() - 1 {
                assert(t[i] == s[i]);
            }
        }
        if entries_map(s).contains_key(k) {
            if k != entry_key(s.last()) {
                let i = choose|i: int| 0 <= i < t.len() && entry_key(t[i]) == k;
                assert(entry_key(s[i]) == k);
            }
        }
        assert forall|i: int| 0 <= i < s.len() && entry_key(s[i]) == k implies entries_map(s)[k]
            == s[i] by {
            if i < s.len() - 1 {
                assert(entry_key(s[s.len() - 1]) != entry_key(s[i]));
                assert(t[i] == s[i]);
            }
        }
        assert(!entries_map(t).contains_key(entry_key(s.last()))) by {
            if entries_map(t).contains_key(entry_key(s.last())) {
                let i = choose|i: int| 0 <= i < t.len() && entry_key(t[i]) == entry_key(s.last());
                assert(s[i] == t[i]);
            }
        }
    }
}

pub proof fn lemma_entries_map_update(s: Seq<RetryEntry>, i: int, v: RetryEntry)
    requires
        keys_distinct(s),
        0 <= i < s.len(),
        entry_key(v) == entry_key(s[i]),
    ensures
        keys_distinct(s.update(i, v)),
        entries_map(s.update(i, v)) == entries_map(s).insert(entry_key(v), v),
    decreases s.len(),
{
    let u = s.update(i, v);
    assert(keys_distinct(u)) by {
        assert forall|a: int, b: int|
            0 <= a < u.len() && 0 <= b < u.len() && a != b implies entry_key(#[trigger] u[a])
            != entry_key(#[trigger] u[b]) by {
            assert(entry_key(u[a]) == entry_key(s[a]));
            assert(entry_key(u[b]) == entry_key(s[b]));
        }
    }
    if i == s.len() - 1 {
        assert(u.drop_last() =~= s.drop_last());
        assert(entries_map(u) =~= entries_map(s).insert(entry_key(v), v));
    } else {
        let t = s.drop_last();
        assert(keys_distinct(t));
        lemma_entries_map_update(t, i, v);
        assert(u.drop_last() =~= t.update(i, v));
        assert(entry_key(s.last()) != entry_key(v)) by {
            assert(entry_key(s[s.len() - 1]) != entry_key(s[i]));
        }
        assert(entries_map(u) =~= entries_map(s).insert(entry_key(v), v));
    }
}

pub proof fn lemma_entries_map_remove(s: Seq<RetryEntry>, i: int)
    requires
        keys_distinct(s),
        0 <= i < s.len(),
    ensures
        keys_distinct(s.remove(i)),
        entries_map(s.remove(i)) == entries_map(s).remove(entry_key(s[i])),
    decreases s.len(),
{
    let u = s.remove(i);
    assert(keys_distinct(u)) by {
        assert forall|a: int, b: int|
            0 <= a < u.len() && 0 <= b < u.len() && a != b implies entry_key(#[trigger] u[a])
            != entry_key(#[trigger] u[b]) by {
            let a2 = if a < i { a } else { a + 1 };
            let b2 = if b < i { b } else { b + 1 };
            assert(u[a] == s[a2]);
            assert(u[b] == s[b2]);
        }
    }
    let t = s.drop_last();
    assert(keys_distinct(t));
    if i == s.len() - 1 {
        assert(u =~= t);
        lemma_entries_map_lookup(t, entry_key(s[i]));
        assert(!entries_map(t).contains_key(entry_key(s[i]))) by {
            if entries_map(t).contains_key(entry_key(s[i])) {
                let j = choose|j: int| 0 <= j < t.len() && entry_key(t[j]) == entry_key(s[i]);
                assert(s[j] == t[j]);
            }
        }
        assert(entries_map(u) =~= entries_map(s).remove(entry_key(s[i])));
    } else {
        lemma_entries_map_remove(t, i);
        assert(u.drop_last() =~= t.remove(i));
        assert(u.last() == s.last());
        assert(entry_key(s.last()) != entry_key(s[i])) by {
            assert(entry_key(s[s.len() - 1]) != entry_key(s[i]));
        }
        assert(entries_map(u) =~= entries_map(s).remove(entry_key(s[i])));
    }
}

pub proof fn lemma_entries_map_push(s: Seq<RetryEntry>, v: RetryEntry)
    requires
        keys_distinct(s),
        !entries_map(s).contains_key(entry_key(v)),
    ensures
        keys_distinct(s.push(v)),
        entries_map(s.push(v)) == entries_map(s).insert(entry_key(v), v),
{
    let u = s.push(v);
    assert(u.drop_last() =~= s);
    lemma_entries_map_lookup(s, entry_key(v));
    assert(keys_distinct(u)) by {
        assert forall|a: int, b: int|
            0 <= a < u.len() && 0 <= b < u.len() && a != b implies entry_key(#[trigger] u[a])
            != entry_key(#[trigger] u[b]) by {
            if a < s.len() && b < s.len() {
                assert(u[a] == s[a] && u[b] == s[b]);
            } else if a < s.len() {
                assert(u[a] == s[a]);
            } else {
                assert(u[b] == s[b]);
            }
        }
    }
}

/// Two to the power `n`.
pub open spec fn two_pow(n: nat) -> nat
    decreases n,
{
    if n == 0 {
        1
    } else {
        2 * two_pow((n - 1) as nat)
    }
}

/// Backoff delay before jitter after the `attempts`-th failure.
pub open spec fn backoff(base: int, attempts: nat) -> int {
    base * two_pow((attempts - 1) as nat)
}

/// Half of the range of the 53-bit random fraction.
pub open spec fn half_fraction() -> int {
    0x10_0000_0000_0000
}

/// The significand of the double nearest to one tenth: `0.1` is this
/// number times 2^-56.
pub open spec fn tenth_significand() -> int {
    7205759403792794
}

/// 2^53: integers below it have at most 53 significant bits.
pub open spec fn two_53() -> int {
    0x20_0000_0000_0000
}

/// `x` rounded at the unit `p` to the nearest multiple, ties to the even
/// multiple.
pub open spec fn round_at(x: nat, p: nat) -> nat {
    let q = x / p;
    let r = x % p;
    if p <= 1 {
        x
    } else if r > p / 2 || (r == p / 2 && q % 2 == 1) {
        (q + 1) * p
    } else {
        q * p
    }
}

/// `x` rounded to 53 significant bits, to nearest with ties to even, as a
/// double holds it; `p` is the unit the search starts from (one).
pub open spec fn round53_from(x: nat, p: nat) -> nat
    decreases x - p,
{
    if p == 0 {
        x
    } else if x / p < two_53() {
        round_at(x, p)
    } else {
        proof {
            assert(x >= 2 * p) by (nonlinear_arith)
                requires
                    p > 0,
                    x / p >= 0x20_0000_0000_0000,
            ;
        }
        round53_from(x, 2 * p)
    }
}

/// Jitter added to a delay of `d` milliseconds, from a random word, as
/// double arithmetic computes `d * 0.1 * (f - 0.5)` for the word's 53-bit
/// fraction `f` and truncates it (a product of at most zero counts as
/// zero): `d * 0.1` and the product are each rounded to 53 significant
/// bits.
pub open spec fn jitter(d: int, random: u64) -> int {
    let u = random as int / 2048;
    if u <= half_fraction() || d < 0 {
        0
    } else {
        let a = round53_from((d * tenth_significand()) as nat, 1);
        let b = round53_from(a * ((u - half_fraction()) as nat), 1);
        b as int / 0x2000_0000_0000_0000_0000_0000_0000
    }
}

/// Rounding to 53 bits moves a number up by at most a 2^52-th of it.
pub proof fn lemma_round53_bound(x: nat, p: nat)
    requires
        p >= 1,
        p == 1 || x >= 0x10_0000_0000_0000 * p,
    ensures
        round53_from(x, p) <= x + x / 0x10_0000_0000_0000,
        round53_from(x, p) >= 0,
    decreases x - p,
{
    if x / p < two_53() {
        if p > 1 {
            let q = x / p;
            let r = x % p;
            assert(x == q * p + r && 0 <= r < p) by (nonlinear_arith)
                requires
                    p > 1,
                    q == x / p,
                    r == x % p,
            ;
            assert(p <= x / 0x10_0000_0000_0000) by (nonlinear_arith)
                requires
                    x >= 0x10_0000_0000_0000 * p,
                    p > 0,
            ;
            assert((q + 1) * p == q * p + p) by (nonlinear_arith);
        }
    } else {
        assert(x >= 0x10_0000_0000_0000 * (2 * p)) by (nonlinear_arith)
            requires
                p > 0,
                x / p >= 0x20_0000_0000_0000,
        ;
        assert(x >= 2 * p) by (nonlinear_arith)
            requires
                p > 0,
                x >= 0x10_0000_0000_0000 * (2 * p),
        ;
        lemma_round53_bound(x, 2 * p);
    }
}

/// The jitter of a delay of at most 4000 milliseconds is at most a
/// twentieth of it.
pub proof fn lemma_jitter_bounds(d: int, random: u64)
    requires
        0 <= d <= 4000,
    ensures
        0 <= jitter(d, random) <= d / 20,
{
    let u = random as int / 2048;
    if u > half_fraction() {
        let v = u - half_fraction();
        assert(v < 0x10_0000_0000_0000) by {
            assert(random as int / 2048 < 0x20_0000_0000_0000);
        }
        let x = (d * tenth_significand()) as nat;
        let a = round53_from(x, 1);
        lemma_round53_bound(x, 1);
        let y = a * (v as nat);
        let b = round53_from(y, 1);
        lemma_round53_bound(y, 1);
        let big = 0x10_0000_0000_0000int;
        assert(a * big <= x * (big + 1)) by (nonlinear_arith)
            requires
                a <= x as int + x as int / big,
                big > 0,
                x >= 0,
        ;
        assert(b * big <= y * (big + 1)) by (nonlinear_arith)
            requires
                b <= y as int + y as int / big,
                big > 0,
                y >= 0,
        ;
        let dd = d / 20;
        assert(d <= 20 * dd + 19);
        assert(b * big * big <= x * (big + 1) * (big + 1) * v) by (nonlinear_arith)
            requires
                b * big <= y * (big + 1),
                y == a * v,
                a * big <= x * (big + 1),
                v >= 0,
                a >= 0,
                big > 0,
        ;
        assert(x * (big + 1) * (big + 1) * v <= x * (big + 1) * (big + 1) * (big - 1)) by (nonlinear_arith)
            requires
                v <= big - 1,
                x >= 0,
                big > 0,
        ;
        assert(x * (big + 1) * (big + 1) * (big - 1) <= (dd + 1) * 0x2000_0000_0000_0000_0000_0000_0000int * big * big - 1)
            by (nonlinear_arith)
            requires
                x == d * 7205759403792794,
                0 <= d <= 20 * dd + 19,
                0 <= dd <= 200,
                big == 0x10_0000_0000_0000int,
        ;
        assert(b < (dd + 1) * 0x2000_0000_0000_0000_0000_0000_0000int) by (nonlinear_arith)
            requires
                b * big * big <= (dd + 1) * 0x2000_0000_0000_0000_0000_0000_0000int * big * big - 1,
                big > 0,
                b >= 0,
        ;
        assert(b as int / 0x2000_0000_0000_0000_0000_0000_0000int <= dd);
    }
}

/// Delay before retrying after the `attempts`-th failure.
pub open spec fn retry_delay(base: int, max_delay: int, attempts: nat, random: u64) -> int {
    let d = backoff(base, attempts) + jitter(backoff(base, attempts), random);
    if d < max_delay {
        d
    } else {
        max_delay
    }
}

/// The retry table after a failure of `operation` on `target` at `now`, and
/// the delay it reports (none once the operation is given up).
pub open spec fn after_failure(
    m: Map<Seq<char>, RetryEntry>,
    operation: Seq<char>,
    target: Seq<char>,
    now: u64,
    random: u64,
) -> (Map<Seq<char>, RetryEntry>, Option<u64>) {
    let k = retry_key(operation, target);
    let attempts: nat = if m.contains_key(k) {
        (m[k].attempts + 1) as nat
    } else {
        1
    };
    if attempts >= MAX_RETRY_ATTEMPTS {
        (m.remove(k), None)
    } else {
        let delay = retry_delay(BASE_RETRY_DELAY_MS as int, MAX_RETRY_DELAY_MS as int, attempts, random);
        let e = RetryEntry {
            last_attempt: now,
            attempts: attempts as u32,
            in_backoff: true,
            current_delay_ms: delay as u64,
            operation: if m.contains_key(k) { m[k].operation } else { operation },
            target: if m.contains_key(k) { m[k].target } else { target },
        };
        (m.insert(k, e), Some(delay as u64))
    }
}

/// Whether the backoff of an entry has run out at `now`.
pub open spec fn backoff_elapsed(e: RetryEntry, now: u64) -> bool {
    e.in_backoff && (now - e.last_attempt) * 1000 >= e.current_delay_ms
}

/// Whether `now` is late enough for every entry and the elapsed
/// milliseconds fit in a `u64`.
pub open spec fn clock_after_all(m: Map<Seq<char>, RetryEntry>, now: u64) -> bool {
    forall|k: Seq<char>|
        #[trigger] m.contains_key(k) ==> m[k].last_attempt <= now && (now - m[k].last_attempt) * 1000
            <= u64::MAX
}

/// Manages retries for network operations with exponential backoff.
pub struct RetryManager {
    retries: Vec<RetryStatus>,
    max_attempts: u32,
    base_delay_ms: u64,
    max_delay_ms: u64,
}

impl View for RetryManager {
    type V = Map<Seq<char>, RetryEntry>;

    closed spec fn view(&self) -> Map<Seq<char>, RetryEntry> {
        entries_map(self.entries())
    }
}

impl RetryManager {
    closed spec fn entries(&self) -> Seq<RetryEntry> {
        self.retries@.map_values(|s: RetryStatus| s@)
    }

    /// The manager's own consistency: one entry per key, the default limits,
    /// and every tracked operation short of its last attempt.
    pub closed spec fn wf(&self) -> bool {
        &&& keys_distinct(self.entries())
        &&& self.max_attempts == MAX_RETRY_ATTEMPTS
        &&& self.base_delay_ms == BASE_RETRY_DELAY_MS
        &&& self.max_delay_ms == MAX_RETRY_DELAY_MS
        &&& forall|i: int|
            0 <= i < self.retries@.len() ==> 1 <= (#[trigger] self.retries@[i]).attempts
                < MAX_RETRY_ATTEMPTS
    }

    /// Every tracked operation has had at least one and fewer than the
    /// maximum number of attempts.
    pub proof fn lemma_tracked_attempts(&self, k: Seq<char>)
        requires
            self.wf(),
            self@.contains_key(k),
        ensures
            1 <= self@[k].attempts < MAX_RETRY_ATTEMPTS,
            entry_key(self@[k]) == k,
    {
        lemma_entries_map_lookup(self.entries(), k);
        let i = choose|i: int| 0 <= i < self.entries().len() && entry_key(self.entries()[i]) == k;
        assert(self.entries()[i] == self.retries@[i]@);
    }

    /// A manager tracking nothing, with the default limits.
    pub fn new() -> (r: RetryManager)
        ensures
            r.wf(),
            r@ == Map::<Seq<char>, RetryEntry>::empty(),
    {
        let r = RetryManager {
            retries: Vec::new(),
            max_attempts: MAX_RETRY_ATTEMPTS,
            base_delay_ms: BASE_RETRY_DELAY_MS,
            max_delay_ms: MAX_RETRY_DELAY_MS,
        };
        assert(r.entries() =~= Seq::<RetryEntry>::empty());
        r
    }

    fn find(&self, key: &str) -> (r: Option<usize>)
        requires
            self.wf(),
        ensures
            match r {
                Some(i) => i < self.retries@.len() && entry_key(self.entries()[i as int]) == key@,
                None => !self@.contains_key(key@),
            },
    {
        let mut i: usize = 0;
        while i < self.retries.len()
            invariant
                self.wf(),
                i <= self.retries@.len(),
                forall|j: int| 0 <= j < i ==> entry_key(self.entries()[j]) != key@,
            decreases self.retries.len() - i,
        {
            let k = join2(self.retries[i].operation.as_str(), ":").concat(
                self.retries[i].target.as_str(),
            );
            assert(self.entries()[i as int] == self.retries@[i as int]@);
            if crate::text::str_eq(k.as_str(), key) {
                return Some(i);
            }
            i = i + 1;
        }
        proof {
            lemma_entries_map_lookup(self.entries(), key@);
        }
        None
    }

    /// Records a failed attempt at `now` (seconds) with the random word
    /// `random`, and returns the delay before the next attempt in
    /// milliseconds, or `None` when the operation is given up.
    pub fn record_failure_at(&mut self, operation: &str, target: &str, now: u64, random: u64) -> (r:
        Option<u64>)
        requires
            old(self).wf(),
        ensures
            final(self).wf(),
            (final(self)@, r) == after_failure(old(self)@, operation@, target@, now, random),
    {
        let key = join2(operation, ":").concat(target);
        let found = self.find(key.as_str());
        let ghost s = self.entries();
        proof {
            lemma_entries_map_lookup(s, key@);
        }
        let (attempts, op, tg) = match found {
            Some(i) => {
                assert(self.entries()[i as int] == self.retries@[i as int]@);
                let a = self.retries[i].attempts + 1;
                (a, self.retries[i].operation.clone(), self.retries[i].target.clone())
            },
            None => (1u32, operation.to_owned(), target.to_owned()),
        };
        if attempts >= self.max_attempts {
            match found {
                Some(i) => {
                    let _ = self.retries.remove(i);
                    proof {
                        lemma_entries_map_remove(s, i as int);
                        assert(self.entries() =~= s.remove(i as int));
                    }
                },
                None => {
                    assert(self@ =~= self@.remove(key@));
                },
            }
            return None;
        }
        let base = self.backoff_ms(attempts);
        let jit = jitter_ms(base, random);
        let sum = base + jit;
        let delay = if sum < self.max_delay_ms { sum } else { self.max_delay_ms };
        let status = RetryStatus {
            last_attempt: now,
            attempts,
            in_backoff: true,
            current_delay_ms: delay,
            operation: op,
            target: tg,
        };
        let ghost v = status@;
        match found {
            Some(i) => {
                self.retries.set(i, status);
                proof {
                    lemma_entries_map_update(s, i as int, v);
                    assert(self.entries() =~= s.update(i as int, v));
                }
            },
            None => {
                self.retries.push(status);
                proof {
                    assert(entry_key(v) == key@);
                    lemma_entries_map_push(s, v);
                    assert(self.entries() =~= s.push(v));
                }
            },
        }
        Some(delay)
    }

    /// Backoff before jitter after the `attempts`-th failure.
    fn backoff_ms(&self, attempts: u32) -> (r: u64)
        requires
            self.wf(),
            1 <= attempts < MAX_RETRY_ATTEMPTS,
        ensures
            r == backoff(BASE_RETRY_DELAY_MS as int, attempts as nat),
            r <= 4000,
    {
        let mut p: u64 = 1;
        let mut k: u32 = 1;
        while k < attempts
            invariant
                1 <= k <= attempts < MAX_RETRY_ATTEMPTS,
                p == two_pow((k - 1) as nat),
                k == 1 ==> p == 1,
                k == 2 ==> p == 2,
                k == 3 ==> p == 4,
                k == 4 ==> p == 8,
            decreases attempts - k,
        {
            p = p * 2;
            k = k + 1;
        }
        assert(p <= 8);
        self.base_delay_ms * p
    }

    /// Records a failed attempt now, with fresh randomness for the jitter,
    /// and returns the delay before the next attempt in milliseconds, or
    /// `None` when the operation is given up.
    pub fn record_failure(&mut self, operation: &str, target: &str) -> (r: Option<u64>)
        requires
            old(self).wf(),
        ensures
            final(self).wf(),
            exists|now: u64, random: u64|
                (final(self)@, r) == after_failure(old(self)@, operation@, target@, now, random),
    {
        let now = crate::system::seconds_since_epoch();
        // Without a random word from the system, the delay gets no jitter.
        let random = match crate::system::random_u64() {
            Some(w) => w,
            None => 0,
        };
        self.record_failure_at(operation, target, now, random)
    }

    /// Forgets the operation after a success.
    pub fn record_success(&mut self, operation: &str, target: &str)
        requires
            old(self).wf(),
        ensures
            final(self).wf(),
            final(self)@ == old(self)@.remove(retry_key(operation@, target@)),
    {
        let key = join2(operation, ":").concat(target);
        let ghost s = self.entries();
        match self.find(key.as_str()) {
            Some(i) => {
                let _ = self.retries.remove(i);
                proof {
                    lemma_entries_map_remove(s, i as int);
                    assert(self.entries() =~= s.remove(i as int));
                }
            },
            None => {
                assert(self@ =~= self@.remove(key@));
            },
        }
    }

    /// Whether the operation is waiting out a backoff.
    pub fn is_in_backoff(&self, operation: &str, target: &str) -> (r: bool)
        requires
            self.wf(),
        ensures
            r == (self@.contains_key(retry_key(operation@, target@)) && self@[retry_key(
                operation@,
                target@,
            )].in_backoff),
    {
        let key = join2(operation, ":").concat(target);
        match self.find(key.as_str()) {
            Some(i) => {
                proof {
                    lemma_entries_map_lookup(self.entries(), key@);
                }
                assert(self.entries()[i as int] == self.retries@[i as int]@);
                self.retries[i].in_backoff
            },
            None => false,
        }
    }

    /// Lets the operation proceed: it is no longer waiting out a backoff.
    pub fn clear_backoff(&mut self, operation: &str, target: &str)
        requires
            old(self).wf(),
        ensures
            final(self).wf(),
            final(self)@ == if old(self)@.contains_key(retry_key(operation@, target@)) {
                old(self)@.insert(
                    retry_key(operation@, target@),
                    RetryEntry {
                        in_backoff: false,
                        ..old(self)@[retry_key(operation@, target@)]
                    },
                )
            } else {
                old(self)@
            },
    {
        let key = join2(operation, ":").concat(target);
        let ghost s = self.entries();
        match self.find(key.as_str()) {
            Some(i) => {
                proof {
                    lemma_entries_map_lookup(s, key@);
                }
                assert(s[i as int] == self.retries@[i as int]@);
                let old_status = self.retries[i].duplicate();
                let status = RetryStatus { in_backoff: false, ..old_status };
                let ghost v = status@;
                self.retries.set(i, status);
                proof {
                    lemma_entries_map_update(s, i as int, v);
                    assert(self.entries() =~= s.update(i as int, v));
                }
            },
            None => {},
        }
    }

    /// Every tracked retry status, each once.
    pub fn get_all_retries(&self) -> (r: Vec<RetryStatus>)
        requires
            self.wf(),
        ensures
            r@.len() == self@.dom().len(),
            forall|i: int|
                0 <= i < r@.len() ==> self@.contains_key(entry_key(#[trigger] r@[i]@)) && self@[entry_key(
                    r@[i]@,
                )] == r@[i]@,
            keys_distinct(r@.map_values(|s: RetryStatus| s@)),
            lists_all(self@, r@.map_values(|s: RetryStatus| s@)),
    {
        let mut out: Vec<RetryStatus> = Vec::new();
        let mut i: usize = 0;
        while i < self.retries.len()
            invariant
                self.wf(),
                i <= self.retries@.len(),
                out@.map_values(|s: RetryStatus| s@) == self.entries().take(i as int),
            decreases self.retries.len() - i,
        {
            let st = self.retries[i].duplicate();
            let ghost before = out@;
            out.push(st);
            proof {
                assert(out@.map_values(|s: RetryStatus| s@) =~= before.map_values(
                    |s: RetryStatus| s@,
                ).push(st@));
                assert(self.entries()[i as int] == self.retries@[i as int]@);
                assert(self.entries().take(i + 1) =~= self.entries().take(i as int).push(
                    self.entries()[i as int],
                ));
            }
            i = i + 1;
        }
        proof {
            let s = self.entries();
            assert(s.take(s.len() as int) =~= s);
            let ov = out@.map_values(|s: RetryStatus| s@);
            assert forall|j: int| 0 <= j < out@.len() implies self@.contains_key(
                entry_key(#[trigger] out@[j]@),
            ) && self@[entry_key(out@[j]@)] == out@[j]@ by {
                assert(ov[j] == out@[j]@);
                lemma_entries_map_lookup(s, entry_key(out@[j]@));
            }
            lemma_entries_map_lookup(s, Seq::empty());
            assert forall|k: Seq<char>| #[trigger] self@.contains_key(k) implies exists|j: int|
                0 <= j < ov.len() && entry_key(ov[j]) == k by {
                lemma_entries_map_lookup(s, k);
            }
        }
        out
    }

    /// The operations whose backoff has run out at `now` (seconds), as
    /// `(operation, target)` pairs, each once.
    pub fn due_retries(&self, now: u64) -> (r: Vec<(String, String)>)
        requires
            self.wf(),
            clock_after_all(self@, now),
        ensures
            forall|i: int|
                0 <= i < r@.len() ==> {
                    let k = retry_key((#[trigger] r@[i]).0@, r@[i].1@);
                    &&& self@.contains_key(k)
                    &&& backoff_elapsed(self@[k], now)
                    &&& r@[i].0@ == self@[k].operation
                    &&& r@[i].1@ == self@[k].target
                },
            forall|k: Seq<char>|
                #[trigger] self@.contains_key(k) && backoff_elapsed(self@[k], now) ==> exists|i: int|
                    0 <= i < r@.len() && retry_key(r@[i].0@, r@[i].1@) == k,
            forall|i: int, j: int|
                0 <= i < r@.len() && 0 <= j < r@.len() && i != j ==> retry_key(
                    (#[trigger] r@[i]).0@,
                    r@[i].1@,
                ) != retry_key((#[trigger] r@[j]).0@, r@[j].1@),
    {
        let ghost s = self.entries();
        let mut out: Vec<(String, String)> = Vec::new();
        let ghost mut idx: Seq<int> = Seq::empty();
        let mut i: usize = 0;
        proof {
            lemma_entries_map_lookup(s, Seq::empty());
        }
        while i < self.retries.len()
            invariant
                self.wf(),
                s == self.entries(),
                clock_after_all(self@, now),
                i <= self.retries@.len(),
                idx.len() == out@.len(),
                forall|a: int| 0 <= a < idx.len() ==> 0 <= #[trigger] idx[a] < i,
                forall|a: int, b: int| 0 <= a < b < idx.len() ==> idx[a] < idx[b],
                forall|a: int|
                    0 <= a < idx.len() ==> retry_key((#[trigger] out@[a]).0@, out@[a].1@) == entry_key(
                        s[idx[a]],
                    ) && backoff_elapsed(s[idx[a]], now) && out@[a].0@ == s[idx[a]].operation
                        && out@[a].1@ == s[idx[a]].target,
                forall|j: int|
                    0 <= j < i && backoff_elapsed(#[trigger] s[j], now) ==> exists|a: int|
                        0 <= a < idx.len() && idx[a] == j,
            decreases self.retries.len() - i,
        {
            assert(s[i as int] == self.retries@[i as int]@);
            proof {
                lemma_entries_map_lookup(s, entry_key(s[i as int]));
                assert(self@.contains_key(entry_key(s[i as int])));
                assert(self@[entry_key(s[i as int])] == s[i as int]);
            }
            let st = &self.retries[i];
            let mut due = false;
            if st.in_backoff {
                let elapsed = (now - st.last_attempt) * 1000;
                if elapsed >= st.current_delay_ms {
                    due = true;
                }
            }
            assert(due == backoff_elapsed(s[i as int], now));
            if due {
                let pair = (st.operation.clone(), st.target.clone());
                let ghost before = out@;
                out.push(pair);
                proof {
                    let old_idx = idx;
                    assert forall|j: int|
                        0 <= j < i && backoff_elapsed(#[trigger] s[j], now) implies exists|a: int|
                        0 <= a < old_idx.len() && old_idx[a] == j by {}
                    idx = idx.push(i as int);
                    assert(out@[out@.len() - 1] == pair);
                    assert(retry_key(pair.0@, pair.1@) == entry_key(s[i as int]));
                    assert forall|a: int|
                        0 <= a < idx.len() implies retry_key((#[trigger] out@[a]).0@, out@[a].1@)
                        == entry_key(s[idx[a]]) && backoff_elapsed(s[idx[a]], now) && out@[a].0@
                        == s[idx[a]].operation && out@[a].1@ == s[idx[a]].target by {
                        if a < idx.len() - 1 {
                            assert(out@[a] == before[a]);
                        }
                    }
                    assert forall|j: int|
                        0 <= j < i + 1 && backoff_elapsed(#[trigger] s[j], now) implies exists|a: int|
                        0 <= a < idx.len() && idx[a] == j by {
                        if j == i {
                            assert(idx[idx.len() - 1] == j);
                        } else {
                            let a = choose|a: int| 0 <= a < old_idx.len() && old_idx[a] == j;
                            assert(idx[a] == j);
                        }
                    }
                }
            }
            i = i + 1;
        }
        proof {
            assert forall|a: int|
                0 <= a < out@.len() implies {
                let k = retry_key((#[trigger] out@[a]).0@, out@[a].1@);
                &&& self@.contains_key(k)
                &&& backoff_elapsed(self@[k], now)
                &&& out@[a].0@ == self@[k].operation
                &&& out@[a].1@ == self@[k].target
            } by {
                lemma_entries_map_lookup(s, entry_key(s[idx[a]]));
            }
            assert forall|k: Seq<char>|
                #[trigger] self@.contains_key(k) && backoff_elapsed(self@[k], now) implies exists|
                a: int,
            | 0 <= a < out@.len() && retry_key(out@[a].0@, out@[a].1@) == k by {
                lemma_entries_map_lookup(s, k);
                let j = choose|j: int| 0 <= j < s.len() && entry_key(s[j]) == k;
                let a = choose|a: int| 0 <= a < idx.len() && idx[a] == j;
                assert(retry_key(out@[a].0@, out@[a].1@) == k);
            }
            assert forall|a: int, b: int|
                0 <= a < out@.len() && 0 <= b < out@.len() && a != b implies retry_key(
                (#[trigger] out@[a]).0@,
                out@[a].1@,
            ) != retry_key((#[trigger] out@[b]).0@, out@[b].1@) by {
                assert(idx[a] != idx[b]);
            }
        }
        out
    }
}

/// A failure reports a delay of at least the exponential backoff and at most
/// five percent more, never above the maximum delay, and leaves the
/// operation waiting out that delay; it touches no other operation.
pub proof fn law_failure_delay_bounds(
    m: Map<Seq<char>, RetryEntry>,
    operation: Seq<char>,
    target: Seq<char>,
    now: u64,
    random: u64,
    other: Seq<char>,
)
    ensures
        ({
            let k = retry_key(operation, target);
            let (m2, r) = after_failure(m, operation, target, now, random);
            let n: nat = if m.contains_key(k) { (m[k].attempts + 1) as nat } else { 1 };
            &&& r matches Some(d) ==> {
                &&& d <= MAX_RETRY_DELAY_MS
                &&& (d == MAX_RETRY_DELAY_MS || backoff(BASE_RETRY_DELAY_MS as int, n) <= d)
                &&& d <= backoff(BASE_RETRY_DELAY_MS as int, n) + backoff(
                    BASE_RETRY_DELAY_MS as int,
                    n,
                ) / 20
                &&& m2.contains_key(k) && m2[k].in_backoff && m2[k].current_delay_ms == d
                &&& m2[k].attempts == n && m2[k].last_attempt == now
            }
            &&& r is None <==> n >= MAX_RETRY_ATTEMPTS
            &&& r is None ==> !m2.contains_key(k)
            &&& other != k ==> m2.contains_key(other) == m.contains_key(other) && m2[other]
                == m[other]
        }),
{
    let k = retry_key(operation, target);
    let n: nat = if m.contains_key(k) { (m[k].attempts + 1) as nat } else { 1 };
    if n < MAX_RETRY_ATTEMPTS {
        let b = backoff(BASE_RETRY_DELAY_MS as int, n);
        reveal_with_fuel(two_pow, 4);
        assert(1 <= n <= 4);
        assert(0 <= b <= 4000) by {
            if n == 1 {
                assert(b == 500);
            } else if n == 2 {
                assert(b == 1000);
            } else if n == 3 {
                assert(b == 2000);
            } else {
                assert(b == 4000);
            }
        }
        lemma_jitter_bounds(b, random);
    }
}

pub proof fn lemma_two_pow_positive(n: nat)
    ensures
        two_pow(n) >= 1,
    decreases n,
{
    if n > 0 {
        lemma_two_pow_positive((n - 1) as nat);
    }
}

/// The backoff doubles with each failure: 500, 1000, 2000 and 4000
/// milliseconds before jitter for the first four failures.
pub proof fn law_backoff_doubles()
    ensures
        backoff(BASE_RETRY_DELAY_MS as int, 1) == 500,
        backoff(BASE_RETRY_DELAY_MS as int, 2) == 1000,
        backoff(BASE_RETRY_DELAY_MS as int, 3) == 2000,
        backoff(BASE_RETRY_DELAY_MS as int, 4) == 4000,
        forall|n: nat| n >= 1 ==> #[trigger] backoff(BASE_RETRY_DELAY_MS as int, n + 1) == 2 * backoff(
            BASE_RETRY_DELAY_MS as int,
            n,
        ),
{
    reveal_with_fuel(two_pow, 4);
    assert forall|n: nat| n >= 1 implies #[trigger] backoff(BASE_RETRY_DELAY_MS as int, n + 1) == 2
        * backoff(BASE_RETRY_DELAY_MS as int, n) by {
        assert(two_pow(n) == 2 * two_pow((n - 1) as nat));
        assert(BASE_RETRY_DELAY_MS as int * (2 * two_pow((n - 1) as nat)) == 2 * (
        BASE_RETRY_DELAY_MS as int * two_pow((n - 1) as nat))) by (nonlinear_arith);
    }
}

/// An operation that keeps failing gets a delay after each of its first four
/// failures and is given up at the fifth, which forgets it.
pub proof fn law_gives_up_after_max_attempts(
    m: Map<Seq<char>, RetryEntry>,
    operation: Seq<char>,
    target: Seq<char>,
    now: Seq<u64>,
    random: Seq<u64>,
)
    requires
        !m.contains_key(retry_key(operation, target)),
        now.len() == 5,
        random.len() == 5,
    ensures
        ({
            let (m1, r1) = after_failure(m, operation, target, now[0], random[0]);
            let (m2, r2) = after_failure(m1, operation, target, now[1], random[1]);
            let (m3, r3) = after_failure(m2, operation, target, now[2], random[2]);
            let (m4, r4) = after_failure(m3, operation, target, now[3], random[3]);
            let (m5, r5) = after_failure(m4, operation, target, now[4], random[4]);
            &&& r1 is Some && r2 is Some && r3 is Some && r4 is Some
            &&& r5 is None
            &&& m5 == m
        }),
{
    let k = retry_key(operation, target);
    let (m1, r1) = after_failure(m, operation, target, now[0], random[0]);
    let (m2, r2) = after_failure(m1, operation, target, now[1], random[1]);
    let (m3, r3) = after_failure(m2, operation, target, now[2], random[2]);
    let (m4, r4) = after_failure(m3, operation, target, now[3], random[3]);
    let (m5, r5) = after_failure(m4, operation, target, now[4], random[4]);
    assert(m1[k].attempts == 1);
    assert(m2[k].attempts == 2);
    assert(m3[k].attempts == 3);
    assert(m4[k].attempts == 4);
    assert(m5 =~= m);
}

/// A success forgets the operation, so it is no longer in backoff; a failure
/// followed by a success leaves the table as it was before the failure.
pub proof fn law_success_forgets(
    m: Map<Seq<char>, RetryEntry>,
    operation: Seq<char>,
    target: Seq<char>,
    now: u64,
    random: u64,
)
    ensures
        !m.remove(retry_key(operation, target)).contains_key(retry_key(operation, target)),
        !m.contains_key(retry_key(operation, target)) ==> after_failure(
            m,
            operation,
            target,
            now,
            random,
        ).0.remove(retry_key(operation, target)) == m,
{
    let k = retry_key(operation, target);
    if !m.contains_key(k) {
        let m2 = after_failure(m, operation, target, now, random).0;
        assert(m2.remove(k) =~= m);
    }
}

/// Whether a listing holds every tracked entry of a table exactly once.
pub open spec fn lists_all(m: Map<Seq<char>, RetryEntry>, l: Seq<RetryEntry>) -> bool {
    &&& keys_distinct(l)
    &&& forall|i: int|
        0 <= i < l.len() ==> m.contains_key(entry_key(#[trigger] l[i])) && m[entry_key(l[i])] == l[i]
    &&& forall|k: Seq<char>|
        #[trigger] m.contains_key(k) ==> exists|i: int| 0 <= i < l.len() && entry_key(l[i]) == k
}

/// The table after failures of `operation` on `target`, one for each
/// `(now, random)` draw, in order.
pub open spec fn after_failures(
    m: Map<Seq<char>, RetryEntry>,
    operation: Seq<char>,
    target: Seq<char>,
    draws: Seq<(u64, u64)>,
) -> Map<Seq<char>, RetryEntry>
    decreases draws.len(),
{
    if draws.len() == 0 {
        m
    } else {
        after_failure(
            after_failures(m, operation, target, draws.drop_last()),
            operation,
            target,
            draws.last().0,
            draws.last().1,
        ).0
    }
}

/// However many times an operation failed, a success forgets it: the table
/// is what it was before the first of those failures, the operation is no
/// longer in backoff, and its next failure counts as its first attempt.
pub proof fn law_success_after_failures_forgets(
    m: Map<Seq<char>, RetryEntry>,
    operation: Seq<char>,
    target: Seq<char>,
    draws: Seq<(u64, u64)>,
    now: u64,
    random: u64,
)
    requires
        !m.contains_key(retry_key(operation, target)),
    ensures
        after_failures(m, operation, target, draws).remove(retry_key(operation, target)) == m,
        ({
            let (m2, r) = after_failure(
                after_failures(m, operation, target, draws).remove(retry_key(operation, target)),
                operation,
                target,
                now,
                random,
            );
            r is Some && m2[retry_key(operation, target)].attempts == 1
        }),
    decreases draws.len(),
{
    let k = retry_key(operation, target);
    if draws.len() > 0 {
        law_success_after_failures_forgets(m, operation, target, draws.drop_last(), now, random);
        let prev = after_failures(m, operation, target, draws.drop_last());
        let next = after_failure(prev, operation, target, draws.last().0, draws.last().1).0;
        assert(next.remove(k) =~= prev.remove(k));
    } else {
        assert(m.remove(k) =~= m);
    }
}

/// Every failure that reports a delay makes its operation due once that
/// delay has passed and not before, whatever its number of attempts so far:
/// at a later instant `later` the operation is due exactly when the
/// milliseconds since the failure reach the reported delay.
pub proof fn law_failure_comes_due_after_its_delay(
    m: Map<Seq<char>, RetryEntry>,
    operation: Seq<char>,
    target: Seq<char>,
    now: u64,
    random: u64,
    later: u64,
)
    requires
        now <= later,
    ensures
        ({
            let (m2, r) = after_failure(m, operation, target, now, random);
            let k = retry_key(operation, target);
            r matches Some(d) ==> {
                &&& m2.contains_key(k)
                &&& (backoff_elapsed(m2[k], later) <==> (later - now) * 1000 >= d)
            }
        }),
{
    law_failure_delay_bounds(m, operation, target, now, random, retry_key(operation, target));
}

/// Every tracked operation is waiting out a backoff of at most the maximum
/// delay, after one to four attempts.
pub open spec fn statuses_in_backoff(m: Map<Seq<char>, RetryEntry>) -> bool {
    forall|k: Seq<char>|
        #[trigger] m.contains_key(k) ==> m[k].in_backoff && m[k].current_delay_ms <= MAX_RETRY_DELAY_MS
            && 1 <= m[k].attempts < MAX_RETRY_ATTEMPTS
}

/// A new table tracks nothing, and failures and successes keep every tracked
/// operation in backoff with a delay of at most the maximum: so after any
/// sequence of them, every listed status is in backoff within the cap.
pub proof fn law_statuses_stay_in_backoff(
    m: Map<Seq<char>, RetryEntry>,
    operation: Seq<char>,
    target: Seq<char>,
    now: u64,
    random: u64,
)
    requires
        statuses_in_backoff(m),
    ensures
        statuses_in_backoff(Map::<Seq<char>, RetryEntry>::empty()),
        statuses_in_backoff(after_failure(m, operation, target, now, random).0),
        statuses_in_backoff(m.remove(retry_key(operation, target))),
{
    let k = retry_key(operation, target);
    let (m2, r) = after_failure(m, operation, target, now, random);
    law_failure_delay_bounds(m, operation, target, now, random, k);
    assert forall|j: Seq<char>| #[trigger] m2.contains_key(j) implies m2[j].in_backoff
        && m2[j].current_delay_ms <= MAX_RETRY_DELAY_MS && 1 <= m2[j].attempts < MAX_RETRY_ATTEMPTS by {
        law_failure_delay_bounds(m, operation, target, now, random, j);
        if j != k {
            assert(m.contains_key(j));
        }
    }
}

/// A call that changes a retry table: a failure of an operation on a target
/// at an instant with a random word, or a success.
pub enum RetryCall {
    Failure { operation: Seq<char>, target: Seq<char>, now: u64, random: u64 },
    Success { operation: Seq<char>, target: Seq<char> },
}

/// The table after the calls, in order.
pub open spec fn after_calls(m: Map<Seq<char>, RetryEntry>, calls: Seq<RetryCall>) -> Map<
    Seq<char>,
    RetryEntry,
>
    decreases calls.len(),
{
    if calls.len() == 0 {
        m
    } else {
        let before = after_calls(m, calls.drop_last());
        match calls.last() {
            RetryCall::Failure { operation, target, now, random } => after_failure(
                before,
                operation,
                target,
                now,
                random,
            ).0,
            RetryCall::Success { operation, target } => before.remove(retry_key(operation, target)),
        }
    }
}

/// After any sequence of failures and successes on a new table, every
/// tracked operation is in backoff with a delay of at most the maximum and
/// one to four attempts; and so is every status of a listing of the table.
pub proof fn law_reachable_statuses_in_backoff(calls: Seq<RetryCall>, listing: Seq<RetryEntry>)
    ensures
        statuses_in_backoff(after_calls(Map::empty(), calls)),
        lists_all(after_calls(Map::empty(), calls), listing) ==> forall|i: int|
            0 <= i < listing.len() ==> (#[trigger] listing[i]).in_backoff && listing[i].current_delay_ms
                <= MAX_RETRY_DELAY_MS && 1 <= listing[i].attempts < MAX_RETRY_ATTEMPTS,
    decreases calls.len(),
{
    let m = after_calls(Map::empty(), calls);
    if calls.len() == 0 {
        assert(statuses_in_backoff(Map::<Seq<char>, RetryEntry>::empty()));
    } else {
        law_reachable_statuses_in_backoff(calls.drop_last(), listing);
        let before = after_calls(Map::empty(), calls.drop_last());
        match calls.last() {
            RetryCall::Failure { operation, target, now, random } => {
                law_statuses_stay_in_backoff(before, operation, target, now, random);
            },
            RetryCall::Success { operation, target } => {
                law_statuses_stay_in_backoff(before, operation, target, 0, 0);
            },
        }
    }
    if lists_all(m, listing) {
        assert forall|i: int| 0 <= i < listing.len() implies (#[trigger] listing[i]).in_backoff
            && listing[i].current_delay_ms <= MAX_RETRY_DELAY_MS && 1 <= listing[i].attempts
            < MAX_RETRY_ATTEMPTS by {
            assert(m.contains_key(entry_key(listing[i])));
        }
    }
}

/// Two retry keys of colon-free operations are equal only for equal
/// operations and targets.
pub proof fn lemma_retry_key_injective(o1: Seq<char>, t1: Seq<char>, o2: Seq<char>, t2: Seq<char>)
    requires
        !o1.contains(':'),
        !o2.contains(':'),
        retry_key(o1, t1) == retry_key(o2, t2),
    ensures
        o1 == o2,
        t1 == t2,
{
    reveal_strlit(":");
    let s = retry_key(o1, t1);
    assert(s == o1 + ":"@ + t1);
    assert(s == o2 + ":"@ + t2);
    if o1.len() < o2.len() {
        assert(s[o1.len() as int] == ':');
        assert(s[o1.len() as int] == o2[o1.len() as int]);
        assert(o2.contains(':'));
    } else if o2.len() < o1.len() {
        assert(s[o2.len() as int] == ':');
        assert(s[o2.len() as int] == o1[o2.len() as int]);
        assert(o1.contains(':'));
    }
    assert(o1 =~= s.subrange(0, o1.len() as int));
    assert(o2 =~= s.subrange(0, o2.len() as int));
    assert(t1 =~= s.subrange(o1.len() as int + 1, s.len() as int));
    assert(t2 =~= s.subrange(o2.len() as int + 1, s.len() as int));
}

/// For colon-free operations, the backoff query agrees with the listing of
/// all retries: an operation on a target is in backoff exactly when a
/// listed status for that operation and target is in backoff.
pub proof fn law_backoff_query_matches_listing(
    m: Map<Seq<char>, RetryEntry>,
    listing: Seq<RetryEntry>,
    operation: Seq<char>,
    target: Seq<char>,
)
    requires
        lists_all(m, listing),
        !operation.contains(':'),
        forall|i: int| 0 <= i < listing.len() ==> !(#[trigger] listing[i]).operation.contains(':'),
    ensures
        (m.contains_key(retry_key(operation, target)) && m[retry_key(operation, target)].in_backoff)
            <==> exists|i: int|
            0 <= i < listing.len() && (#[trigger] listing[i]).operation == operation
                && listing[i].target == target && listing[i].in_backoff,
{
    let k = retry_key(operation, target);
    if m.contains_key(k) && m[k].in_backoff {
        let i = choose|i: int| 0 <= i < listing.len() && entry_key(listing[i]) == k;
        assert(m.contains_key(entry_key(listing[i])));
        lemma_retry_key_injective(listing[i].operation, listing[i].target, operation, target);
    }
    if exists|i: int|
        0 <= i < listing.len() && (#[trigger] listing[i]).operation == operation && listing[i].target
            == target && listing[i].in_backoff
    {
        let i = choose|i: int|
            0 <= i < listing.len() && (#[trigger] listing[i]).operation == operation && listing[i].target
                == target && listing[i].in_backoff;
        assert(entry_key(listing[i]) == k);
        assert(m.contains_key(entry_key(listing[i])));
    }
}

/// `x` rounded to 53 significant bits, to nearest with ties to even.
fn round53(x: u128) -> (r: u128)
    requires
        x < 0x40_0000_0000_0000_0000_0000_0000_0000,
    ensures
        r == round53_from(x as nat, 1),
{
    let mut p: u128 = 1;
    while x / p >= 0x20_0000_0000_0000
        invariant
            1 <= p <= 0x4_0000_0000_0000_0000,
            round53_from(x as nat, p as nat) == round53_from(x as nat, 1),
            x < 0x40_0000_0000_0000_0000_0000_0000_0000,
        decreases x - p,
    {
        proof {
            assert(p <= x / 0x20_0000_0000_0000) by (nonlinear_arith)
                requires
                    p > 0,
                    x / p >= 0x20_0000_0000_0000,
            ;
            assert(x >= 2 * p) by (nonlinear_arith)
                requires
                    p > 0,
                    x / p >= 0x20_0000_0000_0000,
            ;
        }
        p = p * 2;
    }
    let q = x / p;
    let rem = x % p;
    if p <= 1 {
        x
    } else if rem > p / 2 || (rem == p / 2 && q % 2 == 1) {
        proof {
            assert((q + 1) * p <= 0x20_0000_0000_0000 * 0x4_0000_0000_0000_0000) by (nonlinear_arith)
                requires
                    q < 0x20_0000_0000_0000,
                    p <= 0x4_0000_0000_0000_0000,
            ;
        }
        (q + 1) * p
    } else {
        proof {
            assert(q * p <= x) by (nonlinear_arith)
                requires
                    p > 0,
                    q == x / p,
            ;
        }
        q * p
    }
}

/// Jitter for a delay of `d` milliseconds from the random word `random`.
fn jitter_ms(d: u64, random: u64) -> (r: u64)
    requires
        d <= 4000,
    ensures
        r == jitter(d as int, random),
        r <= d / 20,
{
    proof {
        lemma_jitter_bounds(d as int, random);
    }
    assert(random >> 11u64 == random / 2048) by (bit_vector);
    let u: u64 = random >> 11u64;
    let half: u64 = 0x10_0000_0000_0000;
    if u <= half {
        0
    } else {
        assert(u - half < half) by {
            assert(random / 2048 < 0x20_0000_0000_0000);
        }
        let x: u128 = d as u128 * 7205759403792794u128;
        let a = round53(x);
        proof {
            lemma_round53_bound(x as nat, 1);
            assert(a <= 0x4_0000_0000_0000_0000);
            assert(a * ((u - half) as int) < 0x40_0000_0000_0000_0000_0000_0000_0000int) by (nonlinear_arith)
                requires
                    a <= 0x4_0000_0000_0000_0000,
                    0 <= u - half < 0x10_0000_0000_0000int,
            ;
        }
        let y: u128 = a * (u - half) as u128;
        let b = round53(y);
        (b / 0x2000_0000_0000_0000_0000_0000_0000u128) as u64
    }
}

} // verus!
