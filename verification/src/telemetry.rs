//! The decisions of the telemetry HTTP service: which endpoint a path
//! names, the status each endpoint answers with, and the query parameters
//! of the CPU profile endpoint.
use vstd::prelude::*;
use crate::parse::{bytes_eq, parse_int, parse_int_spec, IntErrorKind};

verus! {

/// The endpoints of the telemetry service.
#[derive(Debug, Clone, Copy, PartialEq, Eq, Structural)]
pub enum TelemetryEndpoint {
    /// `/health`
    Health,
    /// `/metrics`
    Metrics,
    /// `/pprof/cpu`
    PprofCpu,
    /// `/opentelemetry/flush`
    OpentelemetryFlush,
    /// Any other path, answered with 404 "not found".
    NotFound,
}

/// Whether the strings `a` and `b` are equal, decided on their UTF-8 bytes.
fn str_eq(a: &str, b: &str) -> (r: bool)
    ensures
        r == (a@ == b@),
{
    let r = bytes_eq(a.as_bytes(), b.as_bytes());
    proof {
        vstd::utf8::encode_utf8_decode_utf8(a@);
        vstd::utf8::encode_utf8_decode_utf8(b@);
    }
    r
}

/// The endpoint that a request path names.
pub fn telemetry_route(path: &str) -> (e: TelemetryEndpoint)
    ensures
        (path@ == "/health"@) <==> (e == TelemetryEndpoint::Health),
        (path@ == "/metrics"@) <==> (e == TelemetryEndpoint::Metrics),
        (path@ == "/pprof/cpu"@) <==> (e == TelemetryEndpoint::PprofCpu),
        (path@ == "/opentelemetry/flush"@) <==> (e == TelemetryEndpoint::OpentelemetryFlush),
        (e == TelemetryEndpoint::NotFound) <==> !(path@ == "/health"@ || path@ == "/metrics"@
            || path@ == "/pprof/cpu"@ || path@ == "/opentelemetry/flush"@),
{
    proof {
        reveal_strlit("/health");
        reveal_strlit("/metrics");
        reveal_strlit("/pprof/cpu");
        reveal_strlit("/opentelemetry/flush");
        assert("/health"@.len() == 7 && "/metrics"@.len() == 8);
        assert("/pprof/cpu"@.len() == 10 && "/opentelemetry/flush"@.len() == 20);
    }
    if str_eq(path, "/health") {
        TelemetryEndpoint::Health
    } else if str_eq(path, "/metrics") {
        TelemetryEndpoint::Metrics
    } else if str_eq(path, "/pprof/cpu") {
        TelemetryEndpoint::PprofCpu
    } else if str_eq(path, "/opentelemetry/flush") {
        TelemetryEndpoint::OpentelemetryFlush
    } else {
        TelemetryEndpoint::NotFound
    }
}

/// The status of `/health`: 200 when the health check passes, else 500.
pub fn health_status(healthy: bool) -> (status: u16)
    ensures
        status == if healthy { 200u16 } else { 500u16 },
{
    if healthy { 200 } else { 500 }
}

/// The status of `/metrics`: 404 without a metrics registry, 500 when the
/// metrics do not encode, else 200.
pub fn metrics_status(has_registry: bool, encoded: bool) -> (status: u16)
    ensures
        status == if !has_registry { 404u16 } else if !encoded { 500u16 } else { 200u16 },
{
    if !has_registry {
        404
    } else if !encoded {
        500
    } else {
        200
    }
}

/// The status of `/pprof/cpu`: 400 for bad query parameters, 200 when the
/// profile is captured, else 500.
pub fn pprof_status(params_ok: bool, captured: bool) -> (status: u16)
    ensures
        status == if !params_ok { 400u16 } else if captured { 200u16 } else { 500u16 },
{
    if !params_ok {
        400
    } else if captured {
        200
    } else {
        500
    }
}

/// The status of `/opentelemetry/flush`: 404 without OpenTelemetry, 200
/// when it is disabled or the flush succeeds, else 500.
pub fn flush_status(configured: bool, enabled: bool, flushed: bool) -> (status: u16)
    ensures
        status == if !configured { 404u16 } else if !enabled || flushed { 200u16 } else { 500u16 },
{
    if !configured {
        404
    } else if !enabled || flushed {
        200
    } else {
        500
    }
}

/// The parameters of a CPU profile.
#[derive(Debug, Clone, PartialEq, Eq)]
pub struct PprofParams {
    /// Sampling frequency in Hz.
    pub freq: i32,
    /// How long to capture, in seconds.
    pub duration_secs: u64,
    /// Functions to leave out of the profile.
    pub ignore: Vec<String>,
}

/// A query parameter of the CPU profile endpoint that does not parse.
#[derive(Debug, Clone, Copy, PartialEq, Eq, Structural)]
pub enum PprofParamError {
    /// `freq` is not an `i32`.
    InvalidFreq(IntErrorKind),
    /// `duration` is not a `u64`.
    InvalidDuration(IntErrorKind),
}

/// The parameters gathered so far while the query pairs are walked.
pub struct PprofState {
    pub freq: i32,
    pub duration_secs: u64,
    pub ignore: Seq<Seq<char>>,
}

/// Walks the query pairs in order: `freq` and `duration` take the last
/// value given, the first that does not parse fails the walk, `ignore`
/// values are appended, and other keys are skipped.
pub open spec fn pprof_walk(pairs: Seq<(Seq<char>, Seq<char>)>, st: PprofState) -> Result<PprofState, PprofParamError>
    decreases pairs.len(),
{
    if pairs.len() == 0 {
        Ok(st)
    } else {
        let (key, value) = pairs[0];
        let bytes = vstd::utf8::encode_utf8(value);
        if key == "freq"@ {
            match parse_int_spec(bytes, i32::MIN as int, i32::MAX as int) {
                Ok(v) => pprof_walk(pairs.skip(1), PprofState { freq: v as i32, ..st }),
                Err(e) => Err(PprofParamError::InvalidFreq(e)),
            }
        } else if key == "duration"@ {
            match parse_int_spec(bytes, 0, u64::MAX as int) {
                Ok(v) => pprof_walk(pairs.skip(1), PprofState { duration_secs: v as u64, ..st }),
                Err(e) => Err(PprofParamError::InvalidDuration(e)),
            }
        } else if key == "ignore"@ {
            pprof_walk(pairs.skip(1), PprofState { ignore: st.ignore.push(value), ..st })
        } else {
            pprof_walk(pairs.skip(1), st)
        }
    }
}

/// The parameters that the query pairs give, starting from a frequency of
/// 100 Hz, a duration of 5 s and nothing ignored.
pub open spec fn pprof_params_spec(pairs: Seq<(Seq<char>, Seq<char>)>) -> Result<PprofState, PprofParamError> {
    pprof_walk(pairs, PprofState { freq: 100, duration_secs: 5, ignore: Seq::empty() })
}

/// The characters of each string.
pub open spec fn string_views(v: Seq<String>) -> Seq<Seq<char>> {
    v.map_values(|s: String| s@)
}

/// Reads the CPU profile parameters from the query's key/value pairs.
pub fn pprof_params(query: &Vec<(String, String)>) -> (r: Result<PprofParams, PprofParamError>)
    ensures
        match pprof_params_spec(query@.map_values(|p: (String, String)| (p.0@, p.1@))) {
            Ok(st) => r matches Ok(p) && p.freq == st.freq && p.duration_secs == st.duration_secs
                && string_views(p.ignore@) == st.ignore,
            Err(e) => r == Err::<PprofParams, PprofParamError>(e),
        },
{
    let ghost pairs = query@.map_values(|p: (String, String)| (p.0@, p.1@));
    let ghost whole = pprof_params_spec(pairs);
    let mut freq: i32 = 100;
    let mut duration_secs: u64 = 5;
    let mut ignore: Vec<String> = Vec::new();
    let mut i: usize = 0;
    proof {
        reveal_strlit("freq");
        reveal_strlit("duration");
        reveal_strlit("ignore");
        assert(pairs.skip(0) =~= pairs);
        assert(string_views(ignore@) =~= Seq::<Seq<char>>::empty());
    }
    while i < query.len()
        invariant
            pairs == query@.map_values(|p: (String, String)| (p.0@, p.1@)),
            whole == pprof_params_spec(pairs),
            i <= query@.len(),
            whole == pprof_walk(pairs.skip(i as int), PprofState { freq, duration_secs, ignore: string_views(ignore@) }),
        decreases query@.len() - i,
    {
        let key = query[i].0.as_str();
        let value = query[i].1.as_str();
        proof {
            assert(pairs.skip(i as int)[0] == (key@, value@));
            assert(pairs.skip(i as int).skip(1) =~= pairs.skip(i + 1));
        }
        if str_eq(key, "freq") {
            match parse_int(value.as_bytes(), -2147483648, 2147483647) {
                Ok(v) => freq = v as i32,
                Err(e) => return Err(PprofParamError::InvalidFreq(e)),
            }
        } else if str_eq(key, "duration") {
            match parse_int(value.as_bytes(), 0, 18446744073709551615) {
                Ok(v) => duration_secs = v as u64,
                Err(e) => return Err(PprofParamError::InvalidDuration(e)),
            }
        } else if str_eq(key, "ignore") {
            let ghost before = ignore@;
            ignore.push(query[i].1.clone());
            proof {
                assert(string_views(ignore@) =~= string_views(before).push(value@));
            }
        }
        i = i + 1;
    }
    proof {
        assert(pairs.skip(i as int).len() == 0);
    }
    Ok(PprofParams { freq, duration_secs, ignore })
}

/// The text of a parse failure, as `ParseIntError` words it.
pub open spec fn int_error_text(e: IntErrorKind) -> Seq<char> {
    match e {
        IntErrorKind::Empty => "cannot parse integer from empty string"@,
        IntErrorKind::InvalidDigit => "invalid digit found in string"@,
        IntErrorKind::PosOverflow => "number too large to fit in target type"@,
        IntErrorKind::NegOverflow => "number too small to fit in target type"@,
    }
}

impl PprofParamError {
    /// The body of the 400 answer: `invalid freq: ` or `invalid duration: `
    /// followed by why the value does not parse.
    pub fn message(&self) -> (s: String)
        ensures
            s@ == match *self {
                PprofParamError::InvalidFreq(e) => "invalid freq: "@ + int_error_text(e),
                PprofParamError::InvalidDuration(e) => "invalid duration: "@ + int_error_text(e),
            },
    {
        let (prefix, kind) = match self {
            PprofParamError::InvalidFreq(e) => ("invalid freq: ", *e),
            PprofParamError::InvalidDuration(e) => ("invalid duration: ", *e),
        };
        let reason = match kind {
            IntErrorKind::Empty => "cannot parse integer from empty string",
            IntErrorKind::InvalidDigit => "invalid digit found in string",
            IntErrorKind::PosOverflow => "number too large to fit in target type",
            IntErrorKind::NegOverflow => "number too small to fit in target type",
        };
        String::from_str(prefix).concat(reason)
    }
}

} // verus!
