//! The settings of an application's async runtime, decided from the
//! values of its environment variables.
use vstd::prelude::*;
use crate::parse::{parse_int, parse_int_spec, parse_bool, parse_bool_spec};

verus! {

/// How the async runtime is to be built.
#[derive(Debug, Clone, Copy, PartialEq, Eq, Structural)]
pub struct RuntimeSettings {
    /// Run on the current thread only (one worker thread).
    pub current_thread: bool,
    /// The number of worker threads, if known.
    pub worker_threads: Option<usize>,
    /// The most threads for blocking work, if set.
    pub max_blocking_threads: Option<usize>,
    /// Turn on the timer driver.
    pub enable_time: bool,
    /// Turn on the I/O driver.
    pub enable_io: bool,
    /// The stack size of worker threads, if set.
    pub thread_stack_size: Option<usize>,
    /// How often the global queue is polled, if set.
    pub global_queue_interval: Option<u32>,
    /// How often external events are polled, if set.
    pub event_interval: Option<u32>,
    /// The most I/O events handled per tick, if set.
    pub max_io_events_per_tick: Option<usize>,
}

/// The `usize` that the text `b` denotes, if any.
pub open spec fn parsed_usize(b: Seq<u8>) -> Option<usize> {
    match parse_int_spec(b, 0, usize::MAX as int) {
        Ok(v) => Some(v as usize),
        Err(_) => None,
    }
}

/// The `u32` that the text `b` denotes, if any.
pub open spec fn parsed_u32(b: Seq<u8>) -> Option<u32> {
    match parse_int_spec(b, 0, u32::MAX as int) {
        Ok(v) => Some(v as u32),
        Err(_) => None,
    }
}

/// Whether the text `b` turns a switch off: it spells `true`.
pub open spec fn switched_off(b: Seq<u8>) -> bool {
    parse_bool_spec(b) == Some(true)
}

/// The settings that the variables' values give. The worker count comes
/// from its variable, or else from the available parallelism; exactly one
/// worker means a current-thread runtime. The timer and I/O drivers are on
/// unless their variable says `true`. A value that does not parse leaves
/// its setting unset.
pub open spec fn runtime_settings_spec(
    worker_threads: Seq<u8>,
    available_parallelism: Option<usize>,
    max_blocking_threads: Seq<u8>,
    disable_time: Seq<u8>,
    disable_io: Seq<u8>,
    thread_stack_size: Seq<u8>,
    global_queue_interval: Seq<u8>,
    event_interval: Seq<u8>,
    max_io_events_per_tick: Seq<u8>,
) -> RuntimeSettings {
    let workers = match parsed_usize(worker_threads) {
        Some(n) => Some(n),
        None => available_parallelism,
    };
    RuntimeSettings {
        current_thread: workers == Some(1usize),
        worker_threads: workers,
        max_blocking_threads: parsed_usize(max_blocking_threads),
        enable_time: !switched_off(disable_time),
        enable_io: !switched_off(disable_io),
        thread_stack_size: parsed_usize(thread_stack_size),
        global_queue_interval: parsed_u32(global_queue_interval),
        event_interval: parsed_u32(event_interval),
        max_io_events_per_tick: parsed_usize(max_io_events_per_tick),
    }
}

/// Parses a `usize`.
fn parse_usize(b: &[u8]) -> (r: Option<usize>)
    ensures
        r == parsed_usize(b@),
{
    let r = parse_int(b, 0, usize::MAX as i128);
    match r {
        Ok(v) => {
            proof {
                let spec_r = parse_int_spec(b@, 0, usize::MAX as int);
                assert(spec_r is Ok && spec_r->Ok_0 == v as int);
            }
            Some(v as usize)
        },
        Err(_) => None,
    }
}

/// Parses a `u32`.
fn parse_u32(b: &[u8]) -> (r: Option<u32>)
    ensures
        r == parsed_u32(b@),
{
    let r = parse_int(b, 0, u32::MAX as i128);
    match r {
        Ok(v) => {
            proof {
                let spec_r = parse_int_spec(b@, 0, u32::MAX as int);
                assert(spec_r is Ok && spec_r->Ok_0 == v as int);
            }
            Some(v as u32)
        },
        Err(_) => None,
    }
}

/// Decides the runtime settings from the values of the variables
/// `TOKIO_WORKER_THREADS`, `TOKIO_MAX_BLOCKING_THREADS`,
/// `TOKIO_DISABLE_TIME`, `TOKIO_DISABLE_IO`, `TOKIO_THREAD_STACK_SIZE`,
/// `TOKIO_GLOBAL_QUEUE_INTERVAL`, `TOKIO_EVENT_INTERVAL` and
/// `TOKIO_MAX_IO_EVENTS_PER_TICK` (the empty text for a variable that is not
/// set) and the machine's available parallelism.
pub fn runtime_settings(
    worker_threads: &str,
    available_parallelism: Option<usize>,
    max_blocking_threads: &str,
    disable_time: &str,
    disable_io: &str,
    thread_stack_size: &str,
    global_queue_interval: &str,
    event_interval: &str,
    max_io_events_per_tick: &str,
) -> (s: RuntimeSettings)
    ensures
        s == runtime_settings_spec(
            vstd::utf8::encode_utf8(worker_threads@),
            available_parallelism,
            vstd::utf8::encode_utf8(max_blocking_threads@),
            vstd::utf8::encode_utf8(disable_time@),
            vstd::utf8::encode_utf8(disable_io@),
            vstd::utf8::encode_utf8(thread_stack_size@),
            vstd::utf8::encode_utf8(global_queue_interval@),
            vstd::utf8::encode_utf8(event_interval@),
            vstd::utf8::encode_utf8(max_io_events_per_tick@),
        ),
        s.current_thread == (s.worker_threads == Some(1usize)),
        parsed_usize(vstd::utf8::encode_utf8(worker_threads@)) is None ==> s.worker_threads == available_parallelism,
{
    let workers = match parse_usize(worker_threads.as_bytes()) {
        Some(n) => Some(n),
        None => available_parallelism,
    };
    let current_thread = match workers {
        Some(n) => n == 1,
        None => false,
    };
    RuntimeSettings {
        current_thread,
        worker_threads: workers,
        max_blocking_threads: parse_usize(max_blocking_threads.as_bytes()),
        enable_time: !(parse_bool(disable_time.as_bytes()) == Some(true)),
        enable_io: !(parse_bool(disable_io.as_bytes()) == Some(true)),
        thread_stack_size: parse_usize(thread_stack_size.as_bytes()),
        global_queue_interval: parse_u32(global_queue_interval.as_bytes()),
        event_interval: parse_u32(event_interval.as_bytes()),
        max_io_events_per_tick: parse_usize(max_io_events_per_tick.as_bytes()),
    }
}

/// The runtime runs on the current thread exactly when the decided worker
/// count is one, whether that count came from `TOKIO_WORKER_THREADS` or from
/// the available parallelism; a worker count that parses always wins over
/// the available parallelism, and without one the parallelism decides.
pub proof fn lemma_current_thread_iff_one_worker(
    worker_threads: Seq<u8>,
    available_parallelism: Option<usize>,
    max_blocking_threads: Seq<u8>,
    disable_time: Seq<u8>,
    disable_io: Seq<u8>,
    thread_stack_size: Seq<u8>,
    global_queue_interval: Seq<u8>,
    event_interval: Seq<u8>,
    max_io_events_per_tick: Seq<u8>,
)
    ensures
        ({
            let s = runtime_settings_spec(
                worker_threads,
                available_parallelism,
                max_blocking_threads,
                disable_time,
                disable_io,
                thread_stack_size,
                global_queue_interval,
                event_interval,
                max_io_events_per_tick,
            );
            &&& s.current_thread == (s.worker_threads == Some(1usize))
            &&& parsed_usize(worker_threads) matches Some(n) ==> s.worker_threads == Some(n)
            &&& parsed_usize(worker_threads) is None ==> s.worker_threads == available_parallelism
        }),
{
}

} // verus!
