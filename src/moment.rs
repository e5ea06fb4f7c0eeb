//! Points in time as plain values, and the time bucket used in file names.
use vstd::prelude::*;

verus! {

/// Nanoseconds in one second.
pub const NANOS_PER_SEC: u32 = 1_000_000_000;

/// A point in UTC time: whole seconds since the Unix epoch and the
/// nanoseconds within that second.
#[derive(Clone, Copy, Debug, PartialEq, Eq, Structural)]
pub struct Moment {
    pub secs: i64,
    pub nanos: u32,
}

impl Moment {
    /// The nanoseconds within the second are below one second.
    pub open spec fn wf(self) -> bool {
        self.nanos < NANOS_PER_SEC
    }

    /// The moment as a count of nanoseconds since the epoch.
    pub open spec fn total_nanos(self) -> int {
        self.secs * (NANOS_PER_SEC as int) + self.nanos
    }

    /// Builds a moment from its two parts.
    pub fn new(secs: i64, nanos: u32) -> (r: Moment)
        requires
            nanos < NANOS_PER_SEC,
        ensures
            r.secs == secs,
            r.nanos == nanos,
            r.wf(),
    {
        Moment { secs, nanos }
    }

    /// Whether at least `secs` whole seconds have passed from `self` to
    /// `later`.
    pub fn reached_after(self, later: Moment, secs: u64) -> (r: bool)
        ensures
            r == (later.total_nanos() - self.total_nanos() >= secs * (NANOS_PER_SEC as int)),
    {
        let d_secs: i128 = later.secs as i128 - self.secs as i128;
        let d_nanos: i128 = later.nanos as i128 - self.nanos as i128;
        assert(-0x1_0000_0000_0000_0000 <= d_secs <= 0x1_0000_0000_0000_0000);
        assert(-0x1_0000_0000_0000_0000_0000_0000_0000 <= d_secs * 1_000_000_000
            <= 0x1_0000_0000_0000_0000_0000_0000_0000) by (nonlinear_arith)
            requires
                -0x1_0000_0000_0000_0000 <= d_secs <= 0x1_0000_0000_0000_0000,
        ;
        assert(secs * 1_000_000_000 <= 0x1_0000_0000_0000_0000_0000_0000_0000) by (nonlinear_arith)
            requires
                secs <= 0xffff_ffff_ffff_ffff,
        ;
        let elapsed: i128 = d_secs * 1_000_000_000 + d_nanos;
        assert(elapsed == later.total_nanos() - self.total_nanos()) by (nonlinear_arith)
            requires
                d_secs == later.secs - self.secs,
                d_nanos == later.nanos - self.nanos,
                elapsed == d_secs * 1_000_000_000 + d_nanos,
        ;
        elapsed >= secs as i128 * 1_000_000_000
    }
}

/// The pattern of the time-bucket label in file names: year, day of the
/// year, hour, minute and second, as `YYYY-DDD-HH-MM-SS` for years 0 to 9999.
pub open spec fn label_pattern() -> Seq<char> {
    seq!['%', 'Y', '-', '%', 'j', '-', '%', 'H', '-', '%', 'M', '-', '%', 'S']
}

/// The seconds (about 34,800 years either side of the epoch) for which a
/// label can always be formatted.
pub open spec fn formattable(secs: int) -> bool {
    -0x100_0000_0000 <= secs <= 0x100_0000_0000
}

/// The text that the strftime-style `pattern` gives for the UTC second that
/// starts `secs` seconds after the epoch.
pub uninterp spec fn bucket_label(pattern: Seq<char>, secs: int) -> Seq<char>;

/// The seconds of the years 0 to 9999, in which the label of
/// [`label_pattern`] has its fixed width.
pub open spec fn four_digit_year(secs: int) -> bool {
    -62_167_219_200 <= secs < 253_402_300_800
}

/// Relies on chrono's `DateTime::<Utc>::from_timestamp`, which gives `None`
/// only outside chrono's dates (years -262143 to 262142), and on its
/// `format`, whose text depends on the instant and the pattern alone. With
/// this pattern every field is zero-padded (year to 4 digits in the years 0
/// to 9999, day of the year to 3, hour, minute and second to 2), so no field
/// fails to format.
#[verifier::external_body]
pub(crate) fn format_bucket(secs: i64, pattern: &str) -> (r: Option<String>)
    requires
        pattern@ == label_pattern(),
    ensures
        r matches Some(s) ==> s@ == bucket_label(pattern@, secs as int),
        formattable(secs as int) ==> r is Some,
        four_digit_year(secs as int) && r is Some ==> r->0@.len() == 17,
{
    chrono::DateTime::<chrono::Utc>::from_timestamp(secs, 0).map(
        |t| t.format(pattern).to_string(),
    )
}

} // verus!
