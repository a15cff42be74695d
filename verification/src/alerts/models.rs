//! The data of alert rules and of the alerts they fire.

use vstd::prelude::*;

verus! {

/// Largest magnitude of seconds that a [`Timestamp`] may hold; chrono's range of
/// dates (about 262,000 years either side of 1970) lies within it.
pub const TIMESTAMP_SECS_BOUND: i64 = 0x800_0000_0000i64;

/// A point in time: seconds since 1970-01-01 UTC and the nanoseconds past that second.
#[derive(Debug, Clone, Copy, PartialEq, Eq, Structural)]
pub struct Timestamp {
    pub secs: i64,
    pub nanos: u32,
}

impl Timestamp {
    /// The seconds lie in the representable range and the nanoseconds below one second.
    pub open spec fn wf(self) -> bool {
        &&& -TIMESTAMP_SECS_BOUND <= self.secs <= TIMESTAMP_SECS_BOUND
        &&& self.nanos < 1_000_000_000
    }

    /// The instant as a number of nanoseconds.
    pub open spec fn total_nanos(self) -> int {
        self.secs * 1_000_000_000 + self.nanos
    }
}

/// Reads the system clock with `std::time::SystemTime::now` and measures the reading
/// from 1970-01-01 UTC with `SystemTime::duration_since(UNIX_EPOCH)`: `(false, s, n)`
/// for a reading `s` seconds and `n` nanoseconds after that instant, `(true, s, n)`
/// for one that far before it (the duration that the error carries). Which reading
/// comes back is not stated (it is the clock's); a duration's sub-second part is
/// below one second.
#[verifier::external_body]
pub(crate) fn read_system_clock() -> (r: (bool, u64, u32))
    ensures
        r.2 < 1_000_000_000,
{
    match std::time::SystemTime::now().duration_since(std::time::UNIX_EPOCH) {
        Ok(d) => (false, d.as_secs(), d.subsec_nanos()),
        Err(e) => (true, e.duration().as_secs(), e.duration().subsec_nanos()),
    }
}

/// The time of a clock reading (see `read_system_clock`), kept within the range of
/// a valid `Timestamp`: readings further from 1970 than that count as its ends.
pub open spec fn reading_time(before: bool, s: u64, n: u32) -> Timestamp {
    if !before {
        if s >= TIMESTAMP_SECS_BOUND {
            Timestamp { secs: TIMESTAMP_SECS_BOUND, nanos: 0 }
        } else {
            Timestamp { secs: s as i64, nanos: n }
        }
    } else if s >= TIMESTAMP_SECS_BOUND {
        Timestamp { secs: (-TIMESTAMP_SECS_BOUND) as i64, nanos: 0 }
    } else if n == 0 {
        Timestamp { secs: -(s as int) as i64, nanos: 0 }
    } else {
        Timestamp { secs: (-(s as int) - 1) as i64, nanos: (1_000_000_000 - n) as u32 }
    }
}

/// The current time by the system clock, also when the clock reads before 1970.
pub(crate) fn current_time() -> (t: Timestamp)
    ensures
        t.wf(),
        exists|before: bool, s: u64, n: u32| n < 1_000_000_000 && t == reading_time(before, s, n),
{
    let (before, s, n) = read_system_clock();
    let t = if !before {
        if s >= TIMESTAMP_SECS_BOUND as u64 {
            Timestamp { secs: TIMESTAMP_SECS_BOUND, nanos: 0 }
        } else {
            Timestamp { secs: s as i64, nanos: n }
        }
    } else if s >= TIMESTAMP_SECS_BOUND as u64 {
        Timestamp { secs: -TIMESTAMP_SECS_BOUND, nanos: 0 }
    } else if n == 0 {
        Timestamp { secs: -(s as i64), nanos: 0 }
    } else {
        Timestamp { secs: -(s as i64) - 1, nanos: 1_000_000_000 - n }
    };
    assert(t == reading_time(before, s, n));
    t
}

/// A single-precision percentage (a CPU usage sample or threshold). The library
/// never computes with the number itself: it holds the IEEE-754 bit pattern, by
/// which values are compared, and the renderings that messages and the rule file use.
#[derive(Debug, Clone)]
pub struct Percent {
    pub bits: u32,
    /// The `Display` rendering, as the rule editor shows it.
    pub text: String,
    /// The rendering with one decimal, as alert messages show it.
    pub one_decimal: String,
    /// The JSON rendering, as the rule file stores it.
    pub json: String,
}

/// The bit pattern without its sign bit.
pub open spec fn magnitude_bits(b: u32) -> int {
    (b as int) % 0x8000_0000
}

/// The bit pattern is a NaN.
pub open spec fn is_nan_bits(b: u32) -> bool {
    magnitude_bits(b) > 0x7f80_0000
}

/// An integer that orders non-NaN bit patterns as the values they encode
/// (both zeros map to zero).
pub open spec fn order_key(b: u32) -> int {
    if b >= 0x8000_0000 {
        -magnitude_bits(b)
    } else {
        b as int
    }
}

/// `a > b` on the encoded single-precision values (false when either is NaN).
pub open spec fn bits_greater(a: u32, b: u32) -> bool {
    !is_nan_bits(a) && !is_nan_bits(b) && order_key(a) > order_key(b)
}

impl Percent {
    /// Whether this value is greater than `other`.
    pub fn exceeds(&self, other: &Percent) -> (b: bool)
        ensures
            b == bits_greater(self.bits, other.bits),
    {
        let ma = self.bits % 0x8000_0000;
        let mb = other.bits % 0x8000_0000;
        if ma > 0x7f80_0000 || mb > 0x7f80_0000 {
            return false;
        }
        let ka: i64 = if self.bits >= 0x8000_0000 {
            -(ma as i64)
        } else {
            self.bits as i64
        };
        let kb: i64 = if other.bits >= 0x8000_0000 {
            -(mb as i64)
        } else {
            other.bits as i64
        };
        ka > kb
    }
}

/// What a rule watches for.
#[derive(Debug, Clone)]
pub enum AlertCondition {
    PortOpened { port: u16 },
    PortClosed { port: u16 },
    ExternalConnection { ip_pattern: String, exclude_private: bool },
    ProcessCpuThreshold { process_pattern: String, threshold_percent: Percent },
    ProcessMemoryThreshold { process_pattern: String, threshold_mb: u64 },
    UnknownProcessListening,
    PortRangeActivity { start_port: u16, end_port: u16 },
}

/// Bytes in a mebibyte.
pub const MIB: u64 = 1048576;

impl AlertCondition {
    /// A memory threshold, converted to bytes, fits in 64 bits.
    pub open spec fn evaluable(self) -> bool {
        match self {
            AlertCondition::ProcessMemoryThreshold { threshold_mb, .. } => threshold_mb * MIB
                <= u64::MAX,
            _ => true,
        }
    }

    /// Whether the condition can be evaluated: a memory threshold in bytes fits in
    /// 64 bits.
    pub fn is_evaluable(&self) -> (b: bool)
        ensures
            b == self.evaluable(),
    {
        match self {
            AlertCondition::ProcessMemoryThreshold { threshold_mb, .. } => *threshold_mb
                <= 17592186044415,
            _ => true,
        }
    }
}

/// How serious an alert is.
#[derive(Debug, Clone, Copy, PartialEq, Eq, Structural)]
pub enum AlertSeverity {
    Info,
    Warning,
    Critical,
}

/// A named condition with its severity and cooldown.
#[derive(Debug, Clone)]
pub struct AlertRule {
    pub id: String,
    pub name: String,
    pub condition: AlertCondition,
    pub enabled: bool,
    pub severity: AlertSeverity,
    pub cooldown_seconds: u64,
}

/// A fired alert.
#[derive(Debug, Clone)]
pub struct Alert {
    pub rule_id: String,
    pub message: String,
    pub severity: AlertSeverity,
    pub timestamp: Timestamp,
}

impl Alert {
    /// An alert stamped with the current time.
    pub fn new(rule_id: String, message: String, severity: AlertSeverity) -> (a: Alert)
        ensures
            a.rule_id == rule_id,
            a.message == message,
            a.severity == severity,
            a.timestamp.wf(),
    {
        Alert { rule_id, message, severity, timestamp: current_time() }
    }

    /// A copy of the alert.
    pub fn duplicate(&self) -> (a: Alert)
        ensures
            a == *self,
    {
        Alert {
            rule_id: self.rule_id.clone(),
            message: self.message.clone(),
            severity: self.severity,
            timestamp: self.timestamp,
        }
    }
}

} // verus!
