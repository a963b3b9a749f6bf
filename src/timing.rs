//! Durations in whole microseconds: reading a server-reported duration in
//! milliseconds, correcting a round trip by it, and turning a transfer into
//! a throughput.
use vstd::prelude::*;

verus! {

pub open spec fn is_digit(c: char) -> bool {
    '0' <= c && c <= '9'
}

pub open spec fn digit_value(c: char) -> nat {
    ((c as u32) - ('0' as u32)) as nat
}

pub open spec fn all_digits(s: Seq<char>) -> bool {
    forall|i: int| 0 <= i < s.len() ==> is_digit(#[trigger] s[i])
}

/// The value of a run of decimal digits, most significant first.
pub open spec fn digits_value(s: Seq<char>) -> nat
    decreases s.len(),
{
    if s.len() == 0 {
        0
    } else {
        digits_value(s.drop_last()) * 10 + digit_value(s.last())
    }
}

/// The fraction digits of a millisecond value, in microseconds: the first
/// three digits, the rest dropped.
pub open spec fn fraction_micros(f: Seq<char>) -> nat {
    if f.len() >= 3 {
        digits_value(f.take(3))
    } else if f.len() == 2 {
        digits_value(f) * 10
    } else if f.len() == 1 {
        digits_value(f) * 100
    } else {
        0
    }
}

/// `s` reads as digits, optionally followed by a '.' at `k` and more digits,
/// with at least one digit in all.
pub open spec fn split_at_dot(s: Seq<char>, k: int) -> bool {
    &&& 0 <= k <= s.len()
    &&& all_digits(s.take(k))
    &&& (k == s.len() || (s[k] == '.' && all_digits(s.skip(k + 1))))
    &&& (k > 0 || s.len() > k + 1)
}

pub open spec fn fraction_part(s: Seq<char>, k: int) -> Seq<char> {
    if k < s.len() {
        s.skip(k + 1)
    } else {
        Seq::empty()
    }
}

pub open spec fn micros_at(s: Seq<char>, k: int) -> nat {
    digits_value(s.take(k)) * 1000 + fraction_micros(fraction_part(s, k))
}

/// Whether `s` is a decimal number of milliseconds.
pub open spec fn is_millis_text(s: Seq<char>) -> bool {
    exists|k: int| split_at_dot(s, k)
}

/// The number of whole microseconds in the milliseconds that `s` reads as.
pub open spec fn millis_text_micros(s: Seq<char>) -> nat
    recommends
        is_millis_text(s),
{
    micros_at(s, choose|k: int| split_at_dot(s, k))
}

proof fn lemma_split_unique(s: Seq<char>, k1: int, k2: int)
    requires
        split_at_dot(s, k1),
        split_at_dot(s, k2),
    ensures
        k1 == k2,
{
    if k1 < k2 {
        assert(s.take(k2)[k1] == s[k1]);
        assert(is_digit(s.take(k2)[k1]));
    } else if k2 < k1 {
        assert(s.take(k1)[k2] == s[k2]);
        assert(is_digit(s.take(k1)[k2]));
    }
}

proof fn lemma_digits_value_prefix(s: Seq<char>, j: int)
    requires
        0 <= j <= s.len(),
    ensures
        digits_value(s.take(j)) <= digits_value(s),
    decreases s.len(),
{
    if j < s.len() {
        assert(s.drop_last().take(j) =~= s.take(j));
        lemma_digits_value_prefix(s.drop_last(), j);
    } else {
        assert(s.take(j) =~= s);
    }
}

/// Reads a decimal number of milliseconds (`12`, `12.5`, `.5`, `12.`) as
/// whole microseconds; `None` when `s` is no such number or the value does
/// not fit in a `u64`.
pub fn parse_millis_as_micros(s: &str) -> (r: Option<u64>)
    ensures
        r is Some <==> (is_millis_text(s@) && millis_text_micros(s@) <= u64::MAX),
        r matches Some(v) ==> v == millis_text_micros(s@),
{
    let n = s.unicode_len();
    let mut k: usize = 0;
    while k < n && s.get_char(k) != '.'
        invariant
            n == s@.len(),
            k <= n,
            forall|i: int| 0 <= i < k ==> s@[i] != '.',
        decreases n - k,
    {
        k += 1;
    }
    // the integer digits
    let mut acc: u64 = 0;
    let mut i: usize = 0;
    while i < k
        invariant
            n == s@.len(),
            k <= n,
            i <= k,
            forall|j: int| 0 <= j < k ==> s@[j] != '.',
            k < n ==> s@[k as int] == '.',
            all_digits(s@.take(i as int)),
            acc == digits_value(s@.take(i as int)),
        decreases k - i,
    {
        let c = s.get_char(i);
        if !('0' <= c && c <= '9') {
            proof {
                assert forall|j: int| !split_at_dot(s@, j) by {
                    if split_at_dot(s@, j) {
                        if j < k {
                            assert(s@[j] == '.');
                        } else {
                            assert(s@.take(j)[i as int] == c);
                        }
                    }
                }
            }
            return None;
        }
        let d: u64 = (c as u32 - '0' as u32) as u64;
        assert(s@.take(i + 1).drop_last() =~= s@.take(i as int));
        if acc > (u64::MAX - d) / 10 {
            proof {
                lemma_no_fit(s@, k as int, i as int + 1);
            }
            return None;
        }
        acc = acc * 10 + d;
        i += 1;
        assert(all_digits(s@.take(i as int))) by {
            assert forall|j: int| 0 <= j < i implies is_digit(#[trigger] s@.take(i as int)[j]) by {
                if j < i - 1 {
                    assert(s@.take(i as int)[j] == s@.take(i - 1)[j]);
                }
            }
        }
    }
    assert(s@.take(k as int) =~= s@.take(i as int));
    // the fraction digits
    let mut frac: u64 = 0;
    if k < n {
        let mut j: usize = k + 1;
        while j < n
            invariant
                n == s@.len(),
                k < n,
                k + 1 <= j <= n,
                forall|m: int| 0 <= m < k ==> s@[m] != '.',
                s@[k as int] == '.',
                forall|m: int| k + 1 <= m < j ==> is_digit(#[trigger] s@[m]),
            decreases n - j,
        {
            let c = s.get_char(j);
            if !('0' <= c && c <= '9') {
                proof {
                    assert forall|m: int| !split_at_dot(s@, m) by {
                        if split_at_dot(s@, m) {
                            lemma_split_at_dot_is_k(s@, k as int, m);
                            assert(s@.skip(k + 1)[j - k - 1] == c);
                        }
                    }
                }
                return None;
            }
            j += 1;
        }
        if k == 0 && n == 1 {
            proof {
                assert forall|m: int| !split_at_dot(s@, m) by {
                    if split_at_dot(s@, m) {
                        lemma_split_at_dot_is_k(s@, k as int, m);
                    }
                }
            }
            return None;
        }
        let f = n - k - 1;
        let ghost fs = s@.skip(k + 1);
        assert(all_digits(fs));
        if f >= 1 {
            let c0 = s.get_char(k + 1);
            assert(c0 == fs[0]);
            frac = (c0 as u32 - '0' as u32) as u64 * 100;
            if f >= 2 {
                let c1 = s.get_char(k + 2);
                assert(c1 == fs[1]);
                frac = frac + (c1 as u32 - '0' as u32) as u64 * 10;
                if f >= 3 {
                    let c2 = s.get_char(k + 3);
                    assert(c2 == fs[2]);
                    frac = frac + (c2 as u32 - '0' as u32) as u64;
                }
            }
        }
        proof {
            reveal_with_fuel(digits_value, 4);
            if f >= 3 {
                assert(fs.take(3).drop_last().drop_last().drop_last() =~= Seq::<char>::empty());
                assert(fs.take(3).drop_last().drop_last() =~= seq![fs[0]]);
                assert(fs.take(3).drop_last() =~= seq![fs[0], fs[1]]);
            } else if f == 2 {
                assert(fs.drop_last().drop_last() =~= Seq::<char>::empty());
                assert(fs.drop_last() =~= seq![fs[0]]);
            } else if f == 1 {
                assert(fs.drop_last() =~= Seq::<char>::empty());
            }
        }
        assert(split_at_dot(s@, k as int));
    } else {
        if n == 0 {
            proof {
                assert forall|m: int| !split_at_dot(s@, m) by {}
            }
            return None;
        }
        assert(s@.take(k as int) =~= s@);
        assert(split_at_dot(s@, k as int));
    }
    proof {
        lemma_split_unique(s@, k as int, choose|m: int| split_at_dot(s@, m));
    }
    assert(frac == fraction_micros(fraction_part(s@, k as int)));
    if acc > (u64::MAX - frac) / 1000 {
        return None;
    }
    Some(acc * 1000 + frac)
}

proof fn lemma_split_at_dot_is_k(s: Seq<char>, k: int, m: int)
    requires
        0 <= k < s.len(),
        s[k] == '.',
        forall|i: int| 0 <= i < k ==> s[i] != '.',
        split_at_dot(s, m),
    ensures
        m == k,
{
    if m < k {
        assert(s[m] == '.');
    } else if m > k {
        assert(s.take(m)[k] == s[k]);
    }
}

proof fn lemma_no_fit(s: Seq<char>, k: int, i: int)
    requires
        0 < i <= k <= s.len(),
        forall|j: int| 0 <= j < k ==> s[j] != '.',
        digits_value(s.take(i)) > u64::MAX,
    ensures
        !(is_millis_text(s) && millis_text_micros(s) <= u64::MAX),
{
    if is_millis_text(s) {
        let m = choose|m: int| split_at_dot(s, m);
        assert(m >= k) by {
            if m < k {
                assert(s[m] == '.');
            }
        }
        assert(s.take(m).take(i) =~= s.take(i));
        lemma_digits_value_prefix(s.take(m), i);
    }
}

/// Why a latency probe produced no value.
#[derive(Clone, Copy, Debug, PartialEq, Eq, Structural)]
pub enum ProbeError {
    /// The response carried no timing header.
    MissingServerTiming,
    /// The timing header held no readable request duration.
    MalformedServerTiming,
}

/// The round trip less the server's processing time, clamped at zero.
pub open spec fn corrected_latency(total_rtt_micros: u64, server_micros: u64) -> u64 {
    if total_rtt_micros >= server_micros {
        (total_rtt_micros - server_micros) as u64
    } else {
        0
    }
}

/// Subtracts the server's processing time from a round trip; a server time
/// larger than the round trip gives zero, never a negative latency.
pub fn latency_from_timing(total_rtt_micros: u64, server_micros: u64) -> (r: u64)
    ensures
        r == corrected_latency(total_rtt_micros, server_micros),
        r <= total_rtt_micros,
        total_rtt_micros < server_micros ==> r == 0,
{
    if total_rtt_micros >= server_micros {
        total_rtt_micros - server_micros
    } else {
        0
    }
}

/// The duration text that the timing header's request-duration directive
/// holds, if any.
pub uninterp spec fn duration_capture(header: Seq<char>) -> Option<Seq<char>>;

pub open spec fn text_view(o: Option<String>) -> Option<Seq<char>> {
    match o {
        Some(s) => Some(s@),
        None => None,
    }
}

/// Relies on regex::Regex::captures for the pattern
/// `cfRequestDuration;dur=([\d.]+)`: the first group of the leftmost match,
/// which is never empty.
#[verifier::external_body]
fn capture_request_duration(header: &str) -> (r: Option<String>)
    ensures
        text_view(r) == duration_capture(header@),
        r matches Some(d) ==> d@.len() > 0,
{
    let re = regex::Regex::new(r"cfRequestDuration;dur=([\d.]+)").unwrap();
    match re.captures(header) {
        Some(c) => match c.get(1) {
            Some(m) => Some(m.as_str().to_string()),
            None => None,
        },
        None => None,
    }
}

/// The outcome of a latency probe, given the round trip and the duration
/// text found in the timing header.
pub open spec fn latency_outcome(total_rtt_micros: u64, duration: Option<Seq<char>>) -> Result<u64, ProbeError> {
    match duration {
        Some(d) => if is_millis_text(d) && millis_text_micros(d) <= u64::MAX {
            Ok(corrected_latency(total_rtt_micros, millis_text_micros(d) as u64))
        } else {
            Err(ProbeError::MalformedServerTiming)
        },
        None => Err(ProbeError::MalformedServerTiming),
    }
}

/// The latency of a probe from its round trip and the duration text of its
/// timing header.
pub fn latency_from_duration(total_rtt_micros: u64, duration: Option<String>) -> (r: Result<u64, ProbeError>)
    ensures
        r == latency_outcome(total_rtt_micros, text_view(duration)),
{
    match duration {
        Some(d) => match parse_millis_as_micros(d.as_str()) {
            Some(server_micros) => Ok(latency_from_timing(total_rtt_micros, server_micros)),
            None => Err(ProbeError::MalformedServerTiming),
        },
        None => Err(ProbeError::MalformedServerTiming),
    }
}

/// The latency of a probe from its round trip and its timing header, if the
/// response had one.
pub fn test_latency(total_rtt_micros: u64, server_timing: Option<String>) -> (r: Result<u64, ProbeError>)
    ensures
        server_timing is None ==> r == Err::<u64, ProbeError>(ProbeError::MissingServerTiming),
        server_timing matches Some(h) ==> r == latency_outcome(total_rtt_micros, duration_capture(h@)),
{
    match server_timing {
        Some(h) => latency_from_duration(total_rtt_micros, capture_request_duration(h.as_str())),
        None => Err(ProbeError::MissingServerTiming),
    }
}

/// Throughput in bits per second of `payload_bytes` moved in
/// `elapsed_micros` microseconds, rounded down.
pub open spec fn bits_per_second(payload_bytes: nat, elapsed_micros: nat) -> nat {
    (payload_bytes * 8 * 1_000_000) / elapsed_micros
}

/// The throughput of a transfer; megabits per second are the result divided
/// by one million.
pub fn throughput_bits_per_sec(payload_bytes: usize, elapsed_micros: u64) -> (r: u128)
    requires
        elapsed_micros > 0,
    ensures
        r == bits_per_second(payload_bytes as nat, elapsed_micros as nat),
{
    let b: u128 = payload_bytes as u128;
    assert(b * 8 * 1_000_000 < 0x1_0000_0000_0000_0000_0000_0000) by (nonlinear_arith)
        requires b < 0x1_0000_0000_0000_0000,
    ;
    (b * 8 * 1_000_000) / (elapsed_micros as u128)
}

/// An upload body: `payload_bytes` bytes, each of them 1.
pub fn upload_payload(payload_bytes: usize) -> (r: Vec<u8>)
    ensures
        r@ == Seq::new(payload_bytes as nat, |i: int| 1u8),
{
    let mut r: Vec<u8> = Vec::with_capacity(payload_bytes);
    let mut i: usize = 0;
    while i < payload_bytes
        invariant
            i <= payload_bytes,
            r@ == Seq::new(i as nat, |j: int| 1u8),
        decreases payload_bytes - i,
    {
        r.push(1u8);
        i += 1;
        assert(r@ =~= Seq::new(i as nat, |j: int| 1u8));
    }
    r
}

} // verus!
