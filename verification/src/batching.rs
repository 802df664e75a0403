//! The decisions of a request batcher: how long to wait, when a batch is
//! full, when a waiting batch is due, and the settings a batcher is built
//! with.
use vstd::prelude::*;
use std::marker::PhantomData;

verus! {

/// A span of time, in whole nanoseconds.
#[derive(Debug, Clone, Copy, PartialEq, Eq, Structural)]
pub struct Duration {
    secs: u64,
    nanos: u32,
}

impl View for Duration {
    type V = nat;

    /// The length of the span in nanoseconds.
    closed spec fn view(&self) -> nat {
        self.secs as nat * 1_000_000_000 + self.nanos as nat
    }
}

impl Duration {
    #[verifier::type_invariant]
    closed spec fn inv(self) -> bool {
        self.nanos < 1_000_000_000
    }

    /// The empty span.
    #[allow(non_snake_case)]
    pub fn ZERO() -> (d: Duration)
        ensures
            d@ == 0,
    {
        Duration { secs: 0, nanos: 0 }
    }

    /// A span of `secs` seconds and `nanos` nanoseconds; whole seconds in
    /// `nanos` carry over into the seconds, which must not overflow.
    pub fn new(secs: u64, nanos: u32) -> (d: Duration)
        requires
            secs + nanos / 1_000_000_000 <= u64::MAX,
        ensures
            d@ == secs * 1_000_000_000 + nanos,
    {
        if nanos < 1_000_000_000 {
            Duration { secs, nanos }
        } else {
            let extra = nanos / 1_000_000_000;
            let rest = nanos % 1_000_000_000;
            assert(nanos == extra * 1_000_000_000 + rest && rest < 1_000_000_000) by (nonlinear_arith)
                requires
                    extra == nanos / 1_000_000_000,
                    rest == nanos % 1_000_000_000,
            ;
            assert((secs + extra) * 1_000_000_000 + rest == secs * 1_000_000_000 + nanos) by (nonlinear_arith)
                requires
                    nanos == extra * 1_000_000_000 + rest,
            ;
            Duration { secs: secs + extra as u64, nanos: rest }
        }
    }

    /// A span of `ms` milliseconds.
    pub fn from_millis(ms: u64) -> (d: Duration)
        ensures
            d@ == ms * 1_000_000,
    {
        let secs = ms / 1000;
        let rest = ms % 1000;
        assert(rest < 1000 && ms == secs * 1000 + rest) by (nonlinear_arith)
            requires
                secs == ms / 1000,
                rest == ms % 1000,
        ;
        let nanos = (rest as u32) * 1_000_000;
        assert(secs * 1_000_000_000 + nanos == ms * 1_000_000) by (nonlinear_arith)
            requires
                ms == secs * 1000 + rest,
                nanos == rest * 1_000_000,
        ;
        Duration { secs, nanos }
    }

    /// The whole seconds of the span.
    pub fn as_secs(&self) -> (s: u64)
        ensures
            s == self@ / 1_000_000_000,
    {
        proof {
            use_type_invariant(self);
            vstd::arithmetic::div_mod::lemma_fundamental_div_mod_converse(
                self@ as int, 1_000_000_000, self.secs as int, self.nanos as int);
        }
        self.secs
    }

    /// The nanoseconds beyond the whole seconds.
    pub fn subsec_nanos(&self) -> (n: u32)
        ensures
            n == self@ % 1_000_000_000,
    {
        proof {
            use_type_invariant(self);
            vstd::arithmetic::div_mod::lemma_fundamental_div_mod_converse(
                self@ as int, 1_000_000_000, self.secs as int, self.nanos as int);
        }
        self.nanos
    }

    /// Whether the span is empty.
    pub fn is_zero(&self) -> (b: bool)
        ensures
            b == (self@ == 0),
    {
        self.secs == 0 && self.nanos == 0
    }

    /// `self - other`, or the empty span when `other` is longer.
    pub fn saturating_sub(self, other: Duration) -> (d: Duration)
        ensures
            d@ == if self@ >= other@ { self@ - other@ } else { 0 },
    {
        proof {
            use_type_invariant(self);
            use_type_invariant(other);
        }
        if self.secs > other.secs || (self.secs == other.secs && self.nanos >= other.nanos) {
            if self.nanos >= other.nanos {
                Duration { secs: self.secs - other.secs, nanos: self.nanos - other.nanos }
            } else {
                assert(self.secs > other.secs);
                Duration { secs: self.secs - other.secs - 1, nanos: self.nanos + 1_000_000_000 - other.nanos }
            }
        } else {
            Duration { secs: 0, nanos: 0 }
        }
    }
}

/// `n`, or 1 when `n` is 0: a batch holds at least one request and at least
/// one batch runs at a time.
pub fn at_least_one(n: usize) -> (r: usize)
    ensures
        r == if n == 0 { 1 } else { n },
{
    if n == 0 { 1 } else { n }
}

/// The settings of a builder as the contracts see them.
pub struct BuilderView {
    /// The largest number of requests in one batch.
    pub batch_size: usize,
    /// The largest number of batches running at once.
    pub concurrency: usize,
    /// How long a batch may wait for more requests, in nanoseconds.
    pub delay: nat,
}

/// A builder for a batcher: its batch size, its concurrency and how
/// long a batch may wait before it runs.
#[derive(Copy, Debug)]
pub struct BatcherBuilder<E> {
    batch_size: usize,
    concurrency: usize,
    delay: Duration,
    _marker: PhantomData<E>,
}

impl<E> View for BatcherBuilder<E> {
    type V = BuilderView;

    closed spec fn view(&self) -> BuilderView {
        BuilderView { batch_size: self.batch_size, concurrency: self.concurrency, delay: self.delay@ }
    }
}

impl<E> Clone for BatcherBuilder<E> {
    fn clone(&self) -> (b: Self)
        ensures
            b@ == self@,
    {
        BatcherBuilder { batch_size: self.batch_size, concurrency: self.concurrency, delay: self.delay, _marker: PhantomData }
    }
}

impl<E> Default for BatcherBuilder<E> {
    fn default() -> (b: Self)
        ensures
            b@ == (BuilderView { batch_size: 1000, concurrency: 50, delay: 5_000_000 }),
    {
        Self::new()
    }
}

impl<E> BatcherBuilder<E> {
    /// Creates a builder with a batch size of 1000, a concurrency of 50 and
    /// a delay of 5 milliseconds.
    pub fn new() -> (b: Self)
        ensures
            b@ == (BuilderView { batch_size: 1000, concurrency: 50, delay: 5_000_000 }),
    {
        BatcherBuilder { batch_size: 1000, concurrency: 50, delay: Duration::from_millis(5), _marker: PhantomData }
    }

    /// Sets the batch size.
    pub fn batch_size(self, batch_size: usize) -> (b: Self)
        ensures
            b@ == (BuilderView { batch_size, ..self@ }),
    {
        let mut b = self;
        b.with_batch_size(batch_size);
        b
    }

    /// Sets the delay.
    pub fn delay(self, delay: Duration) -> (b: Self)
        ensures
            b@ == (BuilderView { delay: delay@, ..self@ }),
    {
        let mut b = self;
        b.with_delay(delay);
        b
    }

    /// Sets the concurrency.
    pub fn concurrency(self, concurrency: usize) -> (b: Self)
        ensures
            b@ == (BuilderView { concurrency, ..self@ }),
    {
        let mut b = self;
        b.with_concurrency(concurrency);
        b
    }

    /// Sets the concurrency in place.
    pub fn with_concurrency(&mut self, concurrency: usize) -> (b: &mut Self)
        ensures
            b@ == (BuilderView { concurrency, ..old(self)@ }),
            final(self)@ == final(b)@,
    {
        self.concurrency = concurrency;
        self
    }

    /// Sets the batch size in place.
    pub fn with_batch_size(&mut self, batch_size: usize) -> (b: &mut Self)
        ensures
            b@ == (BuilderView { batch_size, ..old(self)@ }),
            final(self)@ == final(b)@,
    {
        self.batch_size = batch_size;
        self
    }

    /// Sets the delay in place.
    pub fn with_delay(&mut self, delay: Duration) -> (b: &mut Self)
        ensures
            b@ == (BuilderView { delay: delay@, ..old(self)@ }),
            final(self)@ == final(b)@,
    {
        self.delay = delay;
        self
    }

    /// The batch size that was set.
    pub fn get_batch_size(&self) -> (n: usize)
        ensures
            n == self@.batch_size,
    {
        self.batch_size
    }

    /// The concurrency that was set.
    pub fn get_concurrency(&self) -> (n: usize)
        ensures
            n == self@.concurrency,
    {
        self.concurrency
    }

    /// The delay that was set.
    pub fn get_delay(&self) -> (d: Duration)
        ensures
            d@ == self@.delay,
    {
        self.delay
    }
}

/// A builder for a data loader: its batch size, its concurrency and how
/// long a batch may wait before it runs.
#[derive(Copy, Debug)]
pub struct DataLoaderBuilder<E> {
    batch_size: usize,
    concurrency: usize,
    delay: Duration,
    _phantom: PhantomData<E>,
}

impl<E> View for DataLoaderBuilder<E> {
    type V = BuilderView;

    closed spec fn view(&self) -> BuilderView {
        BuilderView { batch_size: self.batch_size, concurrency: self.concurrency, delay: self.delay@ }
    }
}

impl<E> Clone for DataLoaderBuilder<E> {
    fn clone(&self) -> (b: Self)
        ensures
            b@ == self@,
    {
        DataLoaderBuilder { batch_size: self.batch_size, concurrency: self.concurrency, delay: self.delay, _phantom: PhantomData }
    }
}

impl<E> Default for DataLoaderBuilder<E> {
    fn default() -> (b: Self)
        ensures
            b@ == (BuilderView { batch_size: 1000, concurrency: 50, delay: 5_000_000 }),
    {
        Self::new()
    }
}

impl<E> DataLoaderBuilder<E> {
    /// Creates a builder with a batch size of 1000, a concurrency of 50 and
    /// a delay of 5 milliseconds.
    pub fn new() -> (b: Self)
        ensures
            b@ == (BuilderView { batch_size: 1000, concurrency: 50, delay: 5_000_000 }),
    {
        DataLoaderBuilder { batch_size: 1000, concurrency: 50, delay: Duration::from_millis(5), _phantom: PhantomData }
    }

    /// Sets the batch size.
    pub fn batch_size(self, batch_size: usize) -> (b: Self)
        ensures
            b@ == (BuilderView { batch_size, ..self@ }),
    {
        let mut b = self;
        b.with_batch_size(batch_size);
        b
    }

    /// Sets the delay.
    pub fn delay(self, delay: Duration) -> (b: Self)
        ensures
            b@ == (BuilderView { delay: delay@, ..self@ }),
    {
        let mut b = self;
        b.with_delay(delay);
        b
    }

    /// Sets the concurrency.
    pub fn concurrency(self, concurrency: usize) -> (b: Self)
        ensures
            b@ == (BuilderView { concurrency, ..self@ }),
    {
        let mut b = self;
        b.with_concurrency(concurrency);
        b
    }

    /// Sets the concurrency in place.
    pub fn with_concurrency(&mut self, concurrency: usize) -> (b: &mut Self)
        ensures
            b@ == (BuilderView { concurrency, ..old(self)@ }),
            final(self)@ == final(b)@,
    {
        self.concurrency = concurrency;
        self
    }

    /// Sets the batch size in place.
    pub fn with_batch_size(&mut self, batch_size: usize) -> (b: &mut Self)
        ensures
            b@ == (BuilderView { batch_size, ..old(self)@ }),
            final(self)@ == final(b)@,
    {
        self.batch_size = batch_size;
        self
    }

    /// Sets the delay in place.
    pub fn with_delay(&mut self, delay: Duration) -> (b: &mut Self)
        ensures
            b@ == (BuilderView { delay: delay@, ..old(self)@ }),
            final(self)@ == final(b)@,
    {
        self.delay = delay;
        self
    }

    /// The batch size that was set.
    pub fn get_batch_size(&self) -> (n: usize)
        ensures
            n == self@.batch_size,
    {
        self.batch_size
    }

    /// The concurrency that was set.
    pub fn get_concurrency(&self) -> (n: usize)
        ensures
            n == self@.concurrency,
    {
        self.concurrency
    }

    /// The delay that was set.
    pub fn get_delay(&self) -> (d: Duration)
        ensures
            d@ == self@.delay,
    {
        self.delay
    }
}

/// What the batch timer does when it wakes: whether to run the waiting
/// batch now, and how long to sleep before waking again.
#[derive(Debug, Clone, Copy, PartialEq, Eq)]
pub struct TimerStep {
    /// Run the waiting batch now.
    pub run_batch: bool,
    /// How long to sleep before the next wake-up.
    pub sleep: Duration,
}

/// Decides what the batch timer does when it wakes. With no batch waiting
/// it sleeps a full delay. A batch that has waited `delay` or longer runs
/// now, and the timer sleeps a full delay; a younger one keeps waiting, and
/// the timer sleeps until the batch is due.
pub fn timer_step(delay: Duration, batch_age: Option<Duration>) -> (r: TimerStep)
    ensures
        match batch_age {
            None => !r.run_batch && r.sleep@ == delay@,
            Some(age) => if age@ >= delay@ {
                r.run_batch && r.sleep@ == delay@
            } else {
                !r.run_batch && r.sleep@ == delay@ - age@
            },
        },
{
    match batch_age {
        None => TimerStep { run_batch: false, sleep: delay },
        Some(age) => {
            let remaining = delay.saturating_sub(age);
            if remaining.is_zero() {
                TimerStep { run_batch: true, sleep: delay }
            } else {
                TimerStep { run_batch: false, sleep: remaining }
            }
        },
    }
}

/// The requests gathered for the next batch, in the order they came.
pub struct PendingBatch<T> {
    items: Vec<T>,
}

impl<T> View for PendingBatch<T> {
    type V = Seq<T>;

    closed spec fn view(&self) -> Seq<T> {
        self.items@
    }
}

impl<T> PendingBatch<T> {
    /// An empty batch.
    pub fn new() -> (b: PendingBatch<T>)
        ensures
            b@ == Seq::<T>::empty(),
    {
        PendingBatch { items: Vec::new() }
    }

    /// The number of requests gathered.
    pub fn len(&self) -> (n: usize)
        ensures
            n == self@.len(),
    {
        self.items.len()
    }

    /// Adds a request. When that makes `batch_size` requests (or more), the
    /// whole batch is returned, to run, and the pending batch starts empty;
    /// otherwise the request waits and nothing is returned.
    pub fn push(&mut self, item: T, batch_size: usize) -> (full: Option<Vec<T>>)
        ensures
            old(self)@.len() + 1 >= batch_size ==> (full matches Some(b) && b@ == old(self)@.push(item)
                && final(self)@ == Seq::<T>::empty()),
            old(self)@.len() + 1 < batch_size ==> full is None && final(self)@ == old(self)@.push(item),
    {
        self.items.push(item);
        if self.items.len() >= batch_size {
            Some(self.take())
        } else {
            None
        }
    }

    /// Takes every gathered request, leaving the batch empty.
    pub fn take(&mut self) -> (b: Vec<T>)
        ensures
            b@ == old(self)@,
            final(self)@ == Seq::<T>::empty(),
    {
        let mut out: Vec<T> = Vec::new();
        std::mem::swap(&mut out, &mut self.items);
        out
    }
}

/// A batch that is handed over by [`PendingBatch::push`] holds exactly
/// `batch_size` requests when fewer were waiting before, so no batch that
/// is filled one request at a time ever holds more than the batch size; and
/// the requests come out in the order they went in, none lost or repeated.
pub proof fn lemma_push_keeps_batches_bounded<T>(waiting: Seq<T>, item: T, batch_size: usize)
    requires
        waiting.len() < batch_size,
    ensures
        waiting.len() + 1 >= batch_size ==> waiting.push(item).len() == batch_size,
        waiting.len() + 1 < batch_size ==> waiting.push(item).len() < batch_size,
        waiting.push(item) == waiting + seq![item],
{
    assert(waiting.push(item) =~= waiting + seq![item]);
}

/// The number of distinct keys gathered for the next load.
#[derive(Debug)]
pub struct PendingKeys {
    count: usize,
}

impl View for PendingKeys {
    type V = nat;

    closed spec fn view(&self) -> nat {
        self.count as nat
    }
}

impl PendingKeys {
    /// No keys gathered.
    pub fn new() -> (k: PendingKeys)
        ensures
            k@ == 0,
    {
        PendingKeys { count: 0 }
    }

    /// Offers a key, given whether it was new to the gathered set. Returns
    /// whether the set now holds `batch_size` keys (or more) and must be
    /// loaded; the count then starts again from zero.
    pub fn offer(&mut self, is_new: bool, batch_size: usize) -> (full: bool)
        ensures
            full == (old(self)@ + (if is_new { 1nat } else { 0nat }) >= batch_size),
            final(self)@ == if full { 0 } else { old(self)@ + (if is_new { 1nat } else { 0nat }) },
    {
        let full = if is_new {
            batch_size == 0 || self.count >= batch_size - 1
        } else {
            self.count >= batch_size
        };
        if full {
            self.count = 0;
        } else if is_new {
            self.count = self.count + 1;
        }
        full
    }
}

/// Whether a load of many keys succeeds: every batch it waited on was
/// loaded; one failed batch fails the whole load.
pub fn load_outcome(batch_ok: &Vec<bool>) -> (ok: bool)
    ensures
        ok == forall|i: int| 0 <= i < batch_ok@.len() ==> batch_ok@[i],
{
    let mut i: usize = 0;
    while i < batch_ok.len()
        invariant
            i <= batch_ok@.len(),
            forall|j: int| 0 <= j < i ==> batch_ok@[j],
        decreases batch_ok@.len() - i,
    {
        if !batch_ok[i] {
            return false;
        }
        i = i + 1;
    }
    true
}

/// Every key set handed to the fetcher holds between 1 and `batch_size`
/// keys (the loader uses `max(batch_size, 1)`): a set starts with a new key,
/// gathers fewer than `batch_size` keys while it waits, and is handed over
/// when an offer brings it to `batch_size`, or earlier by the timer.
pub proof fn lemma_key_batches_bounded(count: nat, is_new: bool, batch_size: nat)
    requires
        batch_size >= 1,
        count < batch_size,
        count == 0 ==> is_new,
    ensures
        ({
            let n = count + (if is_new { 1nat } else { 0nat });
            &&& 1 <= n <= batch_size
            &&& n >= batch_size ==> n == batch_size
            &&& n < batch_size ==> 1 <= n < batch_size
        }),
{
}

} // verus!
