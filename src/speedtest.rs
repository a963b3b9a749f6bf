use vstd::prelude::*;

use crate::{lowercase, lower_of, str_eq, SpeedTestOptions};

verus! {

/// The direction of a throughput measurement.
#[derive(Clone, Copy, Debug, Hash, PartialEq, Eq, Structural)]
pub enum TestType {
    Download,
    Upload,
}

/// The fixed catalog of payload sizes.
#[derive(Clone, Copy, Debug, PartialEq, Eq, Structural)]
pub enum PayloadSize {
    K100,
    M1,
    M10,
    M25,
    M100,
}

/// The ladder of payload sizes in bytes, in ascending order.
pub open spec fn ladder() -> Seq<usize> {
    seq![100_000usize, 1_000_000usize, 10_000_000usize, 25_000_000usize, 100_000_000usize]
}

impl PayloadSize {
    /// The number of ladder entries up to and including this size.
    pub open spec fn rung_count(self) -> nat {
        match self {
            PayloadSize::K100 => 1,
            PayloadSize::M1 => 2,
            PayloadSize::M10 => 3,
            PayloadSize::M25 => 4,
            PayloadSize::M100 => 5,
        }
    }

    pub open spec fn spec_bytes(self) -> usize {
        ladder()[self.rung_count() - 1]
    }

    /// The exact byte count of this size.
    pub fn bytes(&self) -> (r: usize)
        ensures
            r == self.spec_bytes(),
    {
        match self {
            PayloadSize::K100 => 100_000,
            PayloadSize::M1 => 1_000_000,
            PayloadSize::M10 => 10_000_000,
            PayloadSize::M25 => 25_000_000,
            PayloadSize::M100 => 100_000_000,
        }
    }

    /// The prefix of the ladder that ends with the given maximum.
    pub fn sizes_from_max(max_payload_size: PayloadSize) -> (r: Vec<usize>)
        ensures
            r@ == ladder().take(max_payload_size.rung_count() as int),
    {
        let payload_bytes: Vec<usize> = vec![100_000, 1_000_000, 10_000_000, 25_000_000, 100_000_000];
        let n: usize = match max_payload_size {
            PayloadSize::K100 => 1,
            PayloadSize::M1 => 2,
            PayloadSize::M10 => 3,
            PayloadSize::M25 => 4,
            PayloadSize::M100 => 5,
        };
        let mut r: Vec<usize> = Vec::new();
        let mut i: usize = 0;
        while i < n
            invariant
                n == max_payload_size.rung_count(),
                payload_bytes@ == ladder(),
                i <= n,
                r@ == ladder().take(i as int),
            decreases n - i,
        {
            r.push(payload_bytes[i]);
            i += 1;
            assert(r@ =~= ladder().take(i as int));
        }
        r
    }
}

/// Every truncation of the ladder is a non-empty, strictly increasing prefix
/// of it, ending with the chosen maximum.
pub proof fn lemma_ladder_prefix(max_payload_size: PayloadSize)
    ensures
        ({
            let p = ladder().take(max_payload_size.rung_count() as int);
            &&& 1 <= p.len() <= 5
            &&& p.last() == max_payload_size.spec_bytes()
            &&& forall|i: int, j: int| 0 <= i < j < p.len() ==> p[i] < p[j]
            &&& p.is_prefix_of(ladder())
        }),
{
    assert(ladder().len() == 5);
}

/// One completed throughput probe.
#[derive(Clone, Copy, Debug, PartialEq, Eq, Structural)]
pub struct Measurement {
    pub test_type: TestType,
    pub payload_size: usize,
    /// Throughput in bits per second; megabits per second are this divided
    /// by one million.
    pub bits_per_sec: u128,
}

/// A batch that takes longer than this many microseconds ends the ladder
/// walk when dynamic sizing is on.
pub const BATCH_TIME_LIMIT_MICROS: u64 = 5_000_000;

/// What the caller of an [`AdaptiveTestRunner`] is to do next.
#[derive(Clone, Copy, Debug, PartialEq, Eq, Structural)]
pub enum RunnerAction {
    /// Start the batch timer for a batch at this payload size.
    StartBatch { payload_size: usize },
    /// Run one throughput probe at this payload size.
    Probe { payload_size: usize },
    /// Stop the batch timer and report how long the batch took.
    EndBatch,
    /// The walk is over.
    Done,
}

/// The abstract state of a ladder walk.
pub struct RunnerState {
    pub test_type: TestType,
    pub ladder: Seq<usize>,
    pub nr_tests: nat,
    pub dynamic_sizing: bool,
    /// Index of the current ladder entry.
    pub rung: nat,
    /// Whether the batch of the current entry has started.
    pub in_batch: bool,
    /// Probes done in the current batch.
    pub done_in_batch: nat,
    /// Whether a slow batch ended the walk.
    pub stopped: bool,
    pub measurements: Seq<Measurement>,
}

impl RunnerState {
    pub open spec fn wf(self) -> bool {
        &&& self.rung <= self.ladder.len()
        &&& self.stopped ==> self.rung < self.ladder.len()
        &&& self.in_batch ==> self.rung < self.ladder.len() && !self.stopped
        &&& !self.in_batch ==> self.done_in_batch == 0
        &&& self.done_in_batch <= self.nr_tests
        &&& self.nr_tests <= u32::MAX
        &&& self.measurements.len() == self.batches_closed() * self.nr_tests + self.done_in_batch
        &&& forall|i: int|
            0 <= i < self.measurements.len() ==> (#[trigger] self.measurements[i]).test_type
                == self.test_type
    }

    /// Batches whose probes are all done: those before the current entry,
    /// and the current one where a slow batch ended the walk.
    pub open spec fn batches_closed(self) -> nat {
        if self.stopped {
            self.rung + 1
        } else {
            self.rung
        }
    }

    pub open spec fn next_action(self) -> RunnerAction {
        if self.stopped || self.rung >= self.ladder.len() {
            RunnerAction::Done
        } else if !self.in_batch {
            RunnerAction::StartBatch { payload_size: self.ladder[self.rung as int] }
        } else if self.done_in_batch < self.nr_tests {
            RunnerAction::Probe { payload_size: self.ladder[self.rung as int] }
        } else {
            RunnerAction::EndBatch
        }
    }

    /// Whether a batch that took `elapsed_micros` ends the walk.
    pub open spec fn cuts_walk(self, elapsed_micros: u64) -> bool {
        self.dynamic_sizing && elapsed_micros > BATCH_TIME_LIMIT_MICROS
    }

    pub open spec fn after_start(self) -> RunnerState {
        RunnerState { in_batch: true, ..self }
    }

    pub open spec fn after_probe(self, bits_per_sec: u128) -> RunnerState {
        RunnerState {
            done_in_batch: self.done_in_batch + 1,
            measurements: self.measurements.push(
                Measurement {
                    test_type: self.test_type,
                    payload_size: self.ladder[self.rung as int],
                    bits_per_sec,
                },
            ),
            ..self
        }
    }

    pub open spec fn after_batch(self, elapsed_micros: u64) -> RunnerState {
        if self.cuts_walk(elapsed_micros) {
            RunnerState { in_batch: false, done_in_batch: 0, stopped: true, ..self }
        } else {
            RunnerState { in_batch: false, done_in_batch: 0, rung: self.rung + 1, ..self }
        }
    }
}

/// Walks the payload ladder for one test type: a batch of `nr_tests` probes
/// per size, in ladder order, stopping early after a slow batch unless
/// dynamic sizing is disabled.
pub struct AdaptiveTestRunner {
    test_type: TestType,
    payload_sizes: Vec<usize>,
    nr_tests: u32,
    dynamic_sizing: bool,
    rung: usize,
    in_batch: bool,
    done_in_batch: u32,
    stopped: bool,
    measurements: Vec<Measurement>,
}

impl View for AdaptiveTestRunner {
    type V = RunnerState;

    closed spec fn view(&self) -> RunnerState {
        RunnerState {
            test_type: self.test_type,
            ladder: self.payload_sizes@,
            nr_tests: self.nr_tests as nat,
            dynamic_sizing: self.dynamic_sizing,
            rung: self.rung as nat,
            in_batch: self.in_batch,
            done_in_batch: self.done_in_batch as nat,
            stopped: self.stopped,
            measurements: self.measurements@,
        }
    }
}

impl AdaptiveTestRunner {
    pub open spec fn wf(&self) -> bool {
        self@.wf()
    }

    pub fn new(
        test_type: TestType,
        payload_sizes: Vec<usize>,
        nr_tests: u32,
        disable_dynamic_max_payload_size: bool,
    ) -> (r: Self)
        ensures
            r.wf(),
            r@ == (RunnerState {
                test_type,
                ladder: payload_sizes@,
                nr_tests: nr_tests as nat,
                dynamic_sizing: !disable_dynamic_max_payload_size,
                rung: 0,
                in_batch: false,
                done_in_batch: 0,
                stopped: false,
                measurements: Seq::empty(),
            }),
    {
        let r = AdaptiveTestRunner {
            test_type,
            payload_sizes,
            nr_tests,
            dynamic_sizing: !disable_dynamic_max_payload_size,
            rung: 0,
            in_batch: false,
            done_in_batch: 0,
            stopped: false,
            measurements: Vec::new(),
        };
        assert(r@.batches_closed() * r@.nr_tests == 0);
        r
    }

    pub fn next_action(&self) -> (r: RunnerAction)
        requires
            self.wf(),
        ensures
            r == self@.next_action(),
    {
        if self.stopped || self.rung >= self.payload_sizes.len() {
            RunnerAction::Done
        } else if !self.in_batch {
            RunnerAction::StartBatch { payload_size: self.payload_sizes[self.rung] }
        } else if self.done_in_batch < self.nr_tests {
            RunnerAction::Probe { payload_size: self.payload_sizes[self.rung] }
        } else {
            RunnerAction::EndBatch
        }
    }

    /// The caller has started the batch timer.
    pub fn start_batch(&mut self)
        requires
            old(self).wf(),
            old(self)@.next_action() is StartBatch,
        ensures
            final(self).wf(),
            final(self)@ == old(self)@.after_start(),
    {
        self.in_batch = true;
    }

    /// The caller has run one probe, which measured `bits_per_sec`.
    pub fn record_probe(&mut self, bits_per_sec: u128)
        requires
            old(self).wf(),
            old(self)@.next_action() is Probe,
        ensures
            final(self).wf(),
            final(self)@ == old(self)@.after_probe(bits_per_sec),
    {
        let m = Measurement {
            test_type: self.test_type,
            payload_size: self.payload_sizes[self.rung],
            bits_per_sec,
        };
        self.measurements.push(m);
        self.done_in_batch = self.done_in_batch + 1;
        assert(self@.measurements.last().test_type == self@.test_type);
    }

    /// The caller has stopped the batch timer after `elapsed_micros`.
    pub fn end_batch(&mut self, elapsed_micros: u64)
        requires
            old(self).wf(),
            old(self)@.next_action() is EndBatch,
        ensures
            final(self).wf(),
            final(self)@ == old(self)@.after_batch(elapsed_micros),
    {
        assert(self.rung < self.payload_sizes.len());
        self.in_batch = false;
        self.done_in_batch = 0;
        proof {
            let r = self.rung as nat;
            let n = self.nr_tests as nat;
            assert((r + 1) * n == r * n + n) by (nonlinear_arith);
        }
        if self.dynamic_sizing && elapsed_micros > BATCH_TIME_LIMIT_MICROS {
            self.stopped = true;
        } else {
            self.rung = self.rung + 1;
        }
    }

    pub fn test_type(&self) -> (r: TestType)
        ensures
            r == self@.test_type,
    {
        self.test_type
    }

    pub fn measurements(&self) -> (r: &Vec<Measurement>)
        ensures
            r@ == self@.measurements,
    {
        &self.measurements
    }

    pub fn into_measurements(self) -> (r: Vec<Measurement>)
        ensures
            r@ == self@.measurements,
    {
        self.measurements
    }
}

/// After a batch slower than the limit, with dynamic sizing on, the walk
/// is over: no later ladder entry is attempted.
pub proof fn lemma_slow_batch_ends_walk(s: RunnerState, elapsed_micros: u64)
    requires
        s.wf(),
        s.next_action() == RunnerAction::EndBatch,
        s.dynamic_sizing,
        elapsed_micros > BATCH_TIME_LIMIT_MICROS,
    ensures
        s.after_batch(elapsed_micros).next_action() == RunnerAction::Done,
        s.after_batch(elapsed_micros).measurements == s.measurements,
{
    assert((s.rung + 1) * s.nr_tests == s.rung * s.nr_tests + s.nr_tests) by (nonlinear_arith);
}

/// With dynamic sizing off, every batch is followed by the next ladder
/// entry, whatever it took.
pub proof fn lemma_static_sizing_walks_whole_ladder(s: RunnerState, elapsed_micros: u64)
    requires
        s.wf(),
        s.next_action() == RunnerAction::EndBatch,
        !s.dynamic_sizing,
    ensures
        s.after_batch(elapsed_micros).wf(),
        s.after_batch(elapsed_micros).rung == s.rung + 1,
        s.rung + 1 < s.ladder.len() ==> s.after_batch(elapsed_micros).next_action()
            == (RunnerAction::StartBatch { payload_size: s.ladder[s.rung + 1int] }),
        s.rung + 1 == s.ladder.len() ==> s.after_batch(elapsed_micros).next_action()
            == RunnerAction::Done,
{
    assert((s.rung + 1) * s.nr_tests == s.rung * s.nr_tests + s.nr_tests) by (nonlinear_arith);
}

/// A finished walk holds `nr_tests` measurements of its own test type for
/// each ladder entry it attempted: every entry, unless a slow batch ended
/// it early, and then the entries up to and including the slow one.
pub proof fn lemma_finished_walk(s: RunnerState)
    requires
        s.wf(),
        s.next_action() == RunnerAction::Done,
    ensures
        s.stopped ==> s.measurements.len() == (s.rung + 1) * s.nr_tests && s.rung < s.ladder.len(),
        !s.stopped ==> s.measurements.len() == s.ladder.len() * s.nr_tests,
        forall|i: int| 0 <= i < s.measurements.len() ==> (#[trigger] s.measurements[i]).test_type == s.test_type,
{
}

pub open spec fn payload_size_named(t: Seq<char>) -> Option<PayloadSize> {
    if t == "100_000"@ || t == "100000"@ || t == "100k"@ || t == "100kb"@ {
        Some(PayloadSize::K100)
    } else if t == "1_000_000"@ || t == "1000000"@ || t == "1m"@ || t == "1mb"@ {
        Some(PayloadSize::M1)
    } else if t == "10_000_000"@ || t == "10000000"@ || t == "10m"@ || t == "10mb"@ {
        Some(PayloadSize::M10)
    } else if t == "25_000_000"@ || t == "25000000"@ || t == "25m"@ || t == "25mb"@ {
        Some(PayloadSize::M25)
    } else if t == "100_000_000"@ || t == "100000000"@ || t == "100m"@ || t == "100mb"@ {
        Some(PayloadSize::M100)
    } else {
        None
    }
}

pub open spec fn payload_size_error() -> Seq<char> {
    "Value needs to be one of 100k, 1m, 10m, 25m or 100m"@
}

impl PayloadSize {
    /// The size named by an already lowercased string.
    pub fn from_folded(s: &str) -> (r: Result<Self, String>)
        ensures
            payload_size_named(s@) matches Some(p) ==> r == Ok::<Self, String>(p),
            payload_size_named(s@) is None ==> (r matches Err(e) && e@ == payload_size_error()),
    {
        if str_eq(s, "100_000") || str_eq(s, "100000") || str_eq(s, "100k") || str_eq(s, "100kb") {
            Ok(PayloadSize::K100)
        } else if str_eq(s, "1_000_000") || str_eq(s, "1000000") || str_eq(s, "1m") || str_eq(s, "1mb") {
            Ok(PayloadSize::M1)
        } else if str_eq(s, "10_000_000") || str_eq(s, "10000000") || str_eq(s, "10m") || str_eq(s, "10mb") {
            Ok(PayloadSize::M10)
        } else if str_eq(s, "25_000_000") || str_eq(s, "25000000") || str_eq(s, "25m") || str_eq(s, "25mb") {
            Ok(PayloadSize::M25)
        } else if str_eq(s, "100_000_000") || str_eq(s, "100000000") || str_eq(s, "100m") || str_eq(s, "100mb") {
            Ok(PayloadSize::M100)
        } else {
            Err(String::from_str("Value needs to be one of 100k, 1m, 10m, 25m or 100m"))
        }
    }

    /// The size named by a string, in any letter case.
    pub fn from(payload_string: String) -> (r: Result<Self, String>)
        ensures
            payload_size_named(lower_of(payload_string@)) matches Some(p) ==> r == Ok::<Self, String>(p),
            payload_size_named(lower_of(payload_string@)) is None ==> (r matches Err(e) && e@
                == payload_size_error()),
    {
        let folded = lowercase(payload_string.as_str());
        Self::from_folded(folded.as_str())
    }
}

/// What stands for a metadata field that the service did not report.
pub open spec fn unknown_text() -> Seq<char> {
    "<unknown>"@
}

pub open spec fn value_or(value: Option<String>, na_value: Seq<char>) -> Seq<char> {
    match value {
        Some(v) => v@,
        None => na_value,
    }
}

/// A header's value, or `na_value` where the header was absent or
/// unreadable.
pub fn extract_header_value(value: Option<String>, na_value: &str) -> (r: String)
    ensures
        r@ == value_or(value, na_value@),
{
    match value {
        Some(v) => v,
        None => String::from_str(na_value),
    }
}

/// Descriptive facts about the connection, as the service reports them.
pub struct MetadataView {
    pub city: Seq<char>,
    pub country: Seq<char>,
    pub ip: Seq<char>,
    pub asn: Seq<char>,
    pub colo: Seq<char>,
}

pub struct Metadata {
    city: String,
    country: String,
    ip: String,
    asn: String,
    colo: String,
}

impl View for Metadata {
    type V = MetadataView;

    closed spec fn view(&self) -> MetadataView {
        MetadataView {
            city: self.city@,
            country: self.country@,
            ip: self.ip@,
            asn: self.asn@,
            colo: self.colo@,
        }
    }
}

impl Metadata {
    /// Metadata from the reported header values; each absent one becomes
    /// `<unknown>`.
    pub fn from_headers(
        city: Option<String>,
        country: Option<String>,
        ip: Option<String>,
        asn: Option<String>,
        colo: Option<String>,
    ) -> (r: Metadata)
        ensures
            r@.city == value_or(city, unknown_text()),
            r@.country == value_or(country, unknown_text()),
            r@.ip == value_or(ip, unknown_text()),
            r@.asn == value_or(asn, unknown_text()),
            r@.colo == value_or(colo, unknown_text()),
    {
        Metadata {
            city: extract_header_value(city, "<unknown>"),
            country: extract_header_value(country, "<unknown>"),
            ip: extract_header_value(ip, "<unknown>"),
            asn: extract_header_value(asn, "<unknown>"),
            colo: extract_header_value(colo, "<unknown>"),
        }
    }

    pub open spec fn spec_describe(self) -> Seq<char> {
        "City: "@ + self@.city + "\nCountry: "@ + self@.country + "\nIp: "@ + self@.ip + "\nAsn: "@
            + self@.asn + "\nColo: "@ + self@.colo
    }

    /// One line per field: `City: ..`, `Country: ..`, `Ip: ..`, `Asn: ..`,
    /// `Colo: ..`.
    pub fn describe(&self) -> (r: String)
        ensures
            r@ == self.spec_describe(),
    {
        let mut r = String::from_str("City: ");
        r.append(self.city.as_str());
        r.append("\nCountry: ");
        r.append(self.country.as_str());
        r.append("\nIp: ");
        r.append(self.ip.as_str());
        r.append("\nAsn: ");
        r.append(self.asn.as_str());
        r.append("\nColo: ");
        r.append(self.colo.as_str());
        r
    }

    pub fn city(&self) -> (r: &String)
        ensures
            r@ == self@.city,
    {
        &self.city
    }

    pub fn country(&self) -> (r: &String)
        ensures
            r@ == self@.country,
    {
        &self.country
    }

    pub fn ip(&self) -> (r: &String)
        ensures
            r@ == self@.ip,
    {
        &self.ip
    }

    pub fn asn(&self) -> (r: &String)
        ensures
            r@ == self@.asn,
    {
        &self.asn
    }

    pub fn colo(&self) -> (r: &String)
        ensures
            r@ == self@.colo,
    {
        &self.colo
    }
}

/// The sum of a sequence of latencies.
pub open spec fn sum_of(s: Seq<u64>) -> int
    decreases s.len(),
{
    if s.len() == 0 {
        0
    } else {
        sum_of(s.drop_last()) + s.last()
    }
}

/// The arithmetic mean of latencies, rounded down.
pub fn average_latency(samples: &Vec<u64>) -> (r: u64)
    requires
        0 < samples@.len() <= 0x1_0000_0000,
    ensures
        r == sum_of(samples@) / (samples@.len() as int),
{
    let n = samples.len();
    let mut acc: u128 = 0;
    let mut i: usize = 0;
    while i < n
        invariant
            n == samples@.len(),
            n <= 0x1_0000_0000,
            i <= n,
            acc == sum_of(samples@.take(i as int)),
            acc <= i * 0xffff_ffff_ffff_ffffu128,
        decreases n - i,
    {
        assert(samples@.take(i + 1).drop_last() =~= samples@.take(i as int));
        acc = acc + samples[i] as u128;
        i += 1;
        assert(acc <= i * 0xffff_ffff_ffff_ffffu128) by (nonlinear_arith)
            requires
                acc <= (i - 1) * 0xffff_ffff_ffff_ffffu128 + 0xffff_ffff_ffff_ffffu128,
        ;
    }
    assert(samples@.take(n as int) =~= samples@);
    let avg = acc / (n as u128);
    assert(avg <= 0xffff_ffff_ffff_ffffu128) by (nonlinear_arith)
        requires
            avg == acc / (n as u128),
            acc <= n * 0xffff_ffff_ffff_ffffu128,
            n > 0,
    ;
    avg as u64
}

/// The abstract state of a latency series.
pub struct LatencySeriesState {
    /// Probes the series runs in all: one more than the configured count.
    pub runs: nat,
    pub samples: Seq<u64>,
}

/// A series of latency probes, run one after another; the caller performs
/// each probe and records its latency in call order.
pub struct LatencySeries {
    runs: u64,
    samples: Vec<u64>,
}

impl View for LatencySeries {
    type V = LatencySeriesState;

    closed spec fn view(&self) -> LatencySeriesState {
        LatencySeriesState { runs: self.runs as nat, samples: self.samples@ }
    }
}

impl LatencySeries {
    pub open spec fn wf(&self) -> bool {
        &&& self@.samples.len() <= self@.runs
        &&& 0 < self@.runs <= 0x1_0000_0000
    }

    /// A series for `nr_latency_tests`: it runs `nr_latency_tests + 1`
    /// probes.
    pub fn new(nr_latency_tests: u32) -> (r: Self)
        ensures
            r.wf(),
            r@.runs == nr_latency_tests + 1,
            r@.samples == Seq::<u64>::empty(),
    {
        LatencySeries { runs: nr_latency_tests as u64 + 1, samples: Vec::new() }
    }

    /// Whether another probe is due.
    pub fn needs_probe(&self) -> (r: bool)
        requires
            self.wf(),
        ensures
            r == (self@.samples.len() < self@.runs),
    {
        (self.samples.len() as u64) < self.runs
    }

    /// Records the latency that the next probe measured.
    pub fn record(&mut self, latency_micros: u64)
        requires
            old(self).wf(),
            old(self)@.samples.len() < old(self)@.runs,
        ensures
            final(self).wf(),
            final(self)@.runs == old(self)@.runs,
            final(self)@.samples == old(self)@.samples.push(latency_micros),
    {
        self.samples.push(latency_micros);
    }

    /// The samples in call order and their mean.
    pub fn finish(self) -> (r: (Vec<u64>, u64))
        requires
            self.wf(),
            self@.samples.len() == self@.runs,
        ensures
            r.0@ == self@.samples,
            r.0@.len() == self@.runs,
            r.1 == sum_of(r.0@) / (r.0@.len() as int),
    {
        let avg = average_latency(&self.samples);
        (self.samples, avg)
    }
}

/// The runner that a run starts for one test type.
pub open spec fn planned_runner(options: SpeedTestOptions, test_type: TestType) -> RunnerState {
    RunnerState {
        test_type,
        ladder: ladder().take(options.max_payload_size.rung_count() as int),
        nr_tests: options.nr_tests as nat,
        dynamic_sizing: !options.disable_dynamic_max_payload_size,
        rung: 0,
        in_batch: false,
        done_in_batch: 0,
        stopped: false,
        measurements: Seq::empty(),
    }
}

/// The runners of a run, in order: downloads first, then uploads, each where
/// enabled.
pub open spec fn planned_runners(options: SpeedTestOptions) -> Seq<RunnerState> {
    (if options.spec_should_download() {
        seq![planned_runner(options, TestType::Download)]
    } else {
        Seq::empty()
    }) + (if options.spec_should_upload() {
        seq![planned_runner(options, TestType::Upload)]
    } else {
        Seq::empty()
    })
}

/// The throughput runners of a run.
pub fn test_plan(options: &SpeedTestOptions) -> (r: Vec<AdaptiveTestRunner>)
    ensures
        r@.len() == planned_runners(*options).len(),
        forall|i: int| 0 <= i < r@.len() ==> (#[trigger] r@[i]).wf() && r@[i]@ == planned_runners(*options)[i],
{
    let mut r: Vec<AdaptiveTestRunner> = Vec::new();
    if options.should_download() {
        let sizes = PayloadSize::sizes_from_max(options.max_payload_size);
        r.push(AdaptiveTestRunner::new(TestType::Download, sizes, options.nr_tests, options.disable_dynamic_max_payload_size));
    }
    if options.should_upload() {
        let sizes = PayloadSize::sizes_from_max(options.max_payload_size);
        r.push(AdaptiveTestRunner::new(TestType::Upload, sizes, options.nr_tests, options.disable_dynamic_max_payload_size));
    }
    assert(r@.len() == planned_runners(*options).len());
    r
}

/// The measurements of several runners, one runner after another, each in
/// its own order.
pub open spec fn concat_measurements(runners: Seq<RunnerState>) -> Seq<Measurement>
    decreases runners.len(),
{
    if runners.len() == 0 {
        Seq::empty()
    } else {
        concat_measurements(runners.drop_last()) + runners.last().measurements
    }
}

/// Gathers the measurements of finished runners into one list.
pub fn collect_measurements(runners: &Vec<AdaptiveTestRunner>) -> (r: Vec<Measurement>)
    ensures
        r@ == concat_measurements(runners@.map_values(|x: AdaptiveTestRunner| x@)),
{
    let ghost views = runners@.map_values(|x: AdaptiveTestRunner| x@);
    let mut r: Vec<Measurement> = Vec::new();
    let mut i: usize = 0;
    while i < runners.len()
        invariant
            i <= runners@.len(),
            views == runners@.map_values(|x: AdaptiveTestRunner| x@),
            r@ == concat_measurements(views.take(i as int)),
        decreases runners@.len() - i,
    {
        let ms = runners[i].measurements();
        let ghost before = r@;
        let mut j: usize = 0;
        while j < ms.len()
            invariant
                j <= ms@.len(),
                r@ == before + ms@.take(j as int),
            decreases ms@.len() - j,
        {
            r.push(ms[j]);
            j += 1;
            assert(r@ =~= before + ms@.take(j as int));
        }
        assert(ms@.take(j as int) =~= ms@);
        assert(views.take(i + 1).drop_last() =~= views.take(i as int));
        i += 1;
    }
    assert(views.take(i as int) =~= views);
    r
}

/// A finished series for a configured count `nr_latency_tests` holds
/// `nr_latency_tests + 1` samples.
pub proof fn lemma_series_sample_count(nr_latency_tests: u32, s: LatencySeriesState)
    requires
        s.runs == nr_latency_tests + 1,
        s.samples.len() <= s.runs,
        !(s.samples.len() < s.runs),
    ensures
        s.samples.len() == nr_latency_tests + 1,
{
}

} // verus!
