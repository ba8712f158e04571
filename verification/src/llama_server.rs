//! Settings of a managed `llama-server` child process and the checks made on it.
use crate::text::{chars_of, decimal, find_from, find_seq_from, str_eq, string_of, trim_end_char, u64_decimal};
use vstd::string::StringExecFns;
use vstd::prelude::*;

verus! {

/// How to launch `llama-server`.
#[derive(Debug)]
pub struct LlamaServerConfig {
    /// The program to run: a path, or a name looked up on PATH.
    pub binary: String,
    /// The model file, as a path.
    pub model: String,
    pub host: String,
    pub port: u16,
    pub context_size: u32,
    pub extra_args: Vec<String>,
}

/// Milliseconds between two readiness probes.
pub const HEALTH_POLL_INTERVAL_MS: u64 = 300;
/// Default time allowed for the model to load, in seconds.
pub const DEFAULT_READY_TIMEOUT_SECS: u64 = 90;

impl LlamaServerConfig {
    /// Defaults for serving `model`: `llama-server` from PATH on
    /// 127.0.0.1:8765 with a 32768-token context.
    pub fn new(model: String) -> (r: LlamaServerConfig)
        ensures
            r.binary@ == "llama-server"@,
            r.model@ == model@,
            r.host@ == "127.0.0.1"@,
            r.port == 8765,
            r.context_size == 32768,
            r.extra_args@.len() == 0,
    {
        LlamaServerConfig {
            binary: String::from_str("llama-server"),
            model,
            host: String::from_str("127.0.0.1"),
            port: 8765,
            context_size: 32768,
            extra_args: Vec::new(),
        }
    }

    /// Base URL of the server.
    pub fn url(&self) -> (r: String)
        ensures
            r@ == "http://"@ + self.host@ + ":"@ + decimal(self.port as nat),
    {
        let mut s = String::from_str("http://");
        s.append(self.host.as_str());
        s.append(":");
        s.append(string_of(u64_decimal(self.port as u64).as_slice()).as_str());
        s
    }
}

/// The URL probed for liveness: `url` without trailing slashes, then `/health`.
pub fn health_url(url: &str) -> (r: String)
    ensures
        r@ == trim_end_char(url@, '/') + "/health"@,
{
    let v = chars_of(url);
    let mut b: usize = v.len();
    assert(v@.subrange(0, v@.len() as int) =~= v@);
    while b > 0 && v[b - 1] == '/'
        invariant
            b <= v@.len(),
            trim_end_char(v@, '/') == trim_end_char(v@.subrange(0, b as int), '/'),
        decreases b,
    {
        assert(v@.subrange(0, b as int).drop_last() =~= v@.subrange(0, b - 1));
        b = b - 1;
    }
    let mut s = string_of(crate::text::subvec(v.as_slice(), 0, b).as_slice());
    s.append("/health");
    s
}

/// Whether a health reply says the server is up.
pub fn health_body_ok(body: &str) -> (r: bool)
    ensures
        r == (find_from(body@, "\"status\":\"ok\""@, 0) >= 0),
{
    let v = chars_of(body);
    let pat = chars_of("\"status\":\"ok\"");
    find_seq_from(v.as_slice(), pat.as_slice(), 0).is_some()
}

/// The URL polled until the model has loaded (`/v1/models` answers only
/// once the weights are in memory).
pub fn models_url(url: &str) -> (r: String)
    ensures
        r@ == url@ + "/v1/models"@,
{
    let mut s = String::from_str(url);
    s.append("/v1/models");
    s
}

/// What the readiness wait does after a probe.
#[derive(Debug, Clone, Copy, PartialEq, Eq, Structural)]
pub enum ReadyStep {
    /// The server answered: stop waiting.
    Ready,
    /// The deadline has passed: give up.
    TimedOut,
    /// Sleep one poll interval and probe again.
    Retry,
}

/// The readiness decision after a probe that succeeded or not, `elapsed_ms`
/// into a wait of `timeout_ms`.
pub fn ready_step(probe_ok: bool, elapsed_ms: u64, timeout_ms: u64) -> (r: ReadyStep)
    ensures
        probe_ok ==> r == ReadyStep::Ready,
        !probe_ok && elapsed_ms >= timeout_ms ==> r == ReadyStep::TimedOut,
        !probe_ok && elapsed_ms < timeout_ms ==> r == ReadyStep::Retry,
{
    if probe_ok {
        ReadyStep::Ready
    } else if elapsed_ms >= timeout_ms {
        ReadyStep::TimedOut
    } else {
        ReadyStep::Retry
    }
}

} // verus!
