//! Latency and throughput measurement against an HTTP echo service.
//!
//! The library holds the decisions of a speed test: the payload ladder, the
//! latency correction, the throughput formula, the adaptive runner that walks
//! the ladder, and the plan that sequences a whole run. Network exchanges and
//! clocks are performed by the caller, which hands the observed values back.
pub mod speedtest;
pub mod timing;

use vstd::prelude::*;

use crate::speedtest::PayloadSize;

verus! {

/// What the standard library's lowercase mapping makes of a string.
pub uninterp spec fn lower_of(s: Seq<char>) -> Seq<char>;

/// Relies on str::to_lowercase: the result depends on the characters alone.
#[verifier::external_body]
pub(crate) fn lowercase(s: &str) -> (r: String)
    ensures
        r@ == lower_of(s@),
{
    s.to_lowercase()
}

/// Character-wise equality of two strings.
pub(crate) fn str_eq(a: &str, b: &str) -> (r: bool)
    ensures
        r == (a@ == b@),
{
    let n = a.unicode_len();
    if n != b.unicode_len() {
        return false;
    }
    let mut i: usize = 0;
    while i < n
        invariant
            n == a@.len(),
            n == b@.len(),
            i <= n,
            a@.take(i as int) == b@.take(i as int),
        decreases n - i,
    {
        if a.get_char(i) != b.get_char(i) {
            return false;
        }
        i += 1;
        assert(a@.take(i as int) =~= a@.take(i - 1).push(a@[i - 1]));
        assert(b@.take(i as int) =~= b@.take(i - 1).push(b@[i - 1]));
    }
    assert(a@ =~= a@.take(n as int));
    assert(b@ =~= b@.take(n as int));
    true
}

/// How results are reported.
#[derive(Clone, Copy, Debug, PartialEq, Eq, Structural)]
pub enum OutputFormat {
    Csv,
    Json,
    JsonPretty,
    StdOut,
    Quiet,
}

pub open spec fn output_format_named(t: Seq<char>) -> Option<OutputFormat> {
    if t == "csv"@ {
        Some(OutputFormat::Csv)
    } else if t == "json"@ {
        Some(OutputFormat::Json)
    } else if t == "json_pretty"@ || t == "json-pretty"@ {
        Some(OutputFormat::JsonPretty)
    } else if t == "stdout"@ {
        Some(OutputFormat::StdOut)
    } else {
        None
    }
}

pub open spec fn output_format_error() -> Seq<char> {
    "Value needs to be one of csv, json or json-pretty"@
}

impl OutputFormat {
    /// The format named by an already lowercased string.
    pub fn from_folded(s: &str) -> (r: Result<Self, String>)
        ensures
            output_format_named(s@) matches Some(f) ==> r == Ok::<Self, String>(f),
            output_format_named(s@) is None ==> (r matches Err(e) && e@ == output_format_error()),
    {
        if str_eq(s, "csv") {
            Ok(OutputFormat::Csv)
        } else if str_eq(s, "json") {
            Ok(OutputFormat::Json)
        } else if str_eq(s, "json_pretty") || str_eq(s, "json-pretty") {
            Ok(OutputFormat::JsonPretty)
        } else if str_eq(s, "stdout") {
            Ok(OutputFormat::StdOut)
        } else {
            Err(String::from_str("Value needs to be one of csv, json or json-pretty"))
        }
    }

    /// The format named by a string, in any letter case.
    pub fn from(output_format_string: String) -> (r: Result<Self, String>)
        ensures
            output_format_named(lower_of(output_format_string@)) matches Some(f) ==> r == Ok::<
                Self,
                String,
            >(f),
            output_format_named(lower_of(output_format_string@)) is None ==> (r matches Err(e)
                && e@ == output_format_error()),
    {
        let folded = lowercase(output_format_string.as_str());
        Self::from_folded(folded.as_str())
    }
}

/// Configuration of a speed test run.
#[derive(Clone, Debug)]
pub struct SpeedTestOptions {
    /// Number of test runs per payload size.
    pub nr_tests: u32,
    /// Number of latency tests to run.
    pub nr_latency_tests: u32,
    /// The largest payload size to use.
    pub max_payload_size: PayloadSize,
    /// How results are reported.
    pub output_format: OutputFormat,
    /// Verbose diagnostics.
    pub verbose: bool,
    /// Source IPv4 address to force, if any.
    pub ipv4: Option<String>,
    /// Source IPv6 address to force, if any.
    pub ipv6: Option<String>,
    /// Keeps walking the ladder after a batch that took longer than the
    /// batch time limit.
    pub disable_dynamic_max_payload_size: bool,
    /// Test download speed only.
    pub download_only: bool,
    /// Test upload speed only.
    pub upload_only: bool,
}

impl Default for SpeedTestOptions {
    fn default() -> (r: Self)
        ensures
            r.nr_tests == 10,
            r.nr_latency_tests == 25,
            r.max_payload_size == PayloadSize::M25,
            r.output_format == OutputFormat::Quiet,
            !r.verbose,
            r.ipv4 is None,
            r.ipv6 is None,
            !r.disable_dynamic_max_payload_size,
            !r.download_only,
            !r.upload_only,
    {
        SpeedTestOptions {
            nr_tests: 10,
            nr_latency_tests: 25,
            max_payload_size: PayloadSize::M25,
            output_format: OutputFormat::Quiet,
            verbose: false,
            ipv4: None,
            ipv6: None,
            disable_dynamic_max_payload_size: false,
            download_only: false,
            upload_only: false,
        }
    }
}

impl SpeedTestOptions {
    pub open spec fn spec_should_download(&self) -> bool {
        self.download_only || !self.upload_only
    }

    pub open spec fn spec_should_upload(&self) -> bool {
        self.upload_only || !self.download_only
    }

    /// Downloads run unless only uploads were asked for.
    pub fn should_download(&self) -> (r: bool)
        ensures
            r == self.spec_should_download(),
    {
        self.download_only || !self.upload_only
    }

    /// Uploads run unless only downloads were asked for.
    pub fn should_upload(&self) -> (r: bool)
        ensures
            r == self.spec_should_upload(),
    {
        self.upload_only || !self.download_only
    }
}

} // verus!
