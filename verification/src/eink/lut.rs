//! Custom LUT (look-up table) waveforms.
//!
//! A waveform LUT is the voltage sequence a controller applies to the pixels
//! during a refresh: a list of phases, each a voltage (-15V to +15V typically)
//! held for a duration. A set holds at most one LUT per waveform mode and can
//! be stored in a binary format (IT8951/UC8151 compatible) or, through
//! [`WaveformLutSet::from_json_document`], in a JSON document.
use vstd::prelude::*;
use crate::eink::text::{decimal, fmt_i64, fmt_u64, signed_decimal};
use crate::eink::waveform_mode::WaveformMode;

verus! {

/// Single voltage phase in a waveform.
#[derive(Debug, Clone, Copy, PartialEq, Eq)]
pub struct LutPhase {
    /// Voltage to apply in volts (-15 to +15 typical range)
    pub voltage: i8,
    /// Duration of this phase in microseconds
    pub duration_us: u16,
}

/// Sum of the phase durations, in microseconds.
pub open spec fn phases_total_us(s: Seq<LutPhase>) -> nat
    decreases s.len(),
{
    if s.len() == 0 {
        0
    } else {
        phases_total_us(s.drop_last()) + s.last().duration_us as nat
    }
}

/// Outcome of validating a list of phases: the first phase with a voltage
/// outside -20..=20 or a zero duration decides the error.
pub open spec fn phases_check(s: Seq<LutPhase>) -> Result<(), LutFault>
    decreases s.len(),
{
    if s.len() == 0 {
        Ok(())
    } else if s[0].voltage < -20 || s[0].voltage > 20 {
        Err(LutFault::Voltage(s[0].voltage))
    } else if s[0].duration_us == 0 {
        Err(LutFault::Duration(s[0].duration_us))
    } else {
        phases_check(s.drop_first())
    }
}

/// Complete waveform for one mode (e.g., GC16).
#[derive(Debug)]
pub struct WaveformLut {
    /// Waveform mode this LUT applies to
    pub mode: WaveformMode,
    /// Sequence of voltage phases
    pub phases: Vec<LutPhase>,
    /// Total duration in milliseconds (calculated from phases)
    pub total_duration_ms: u32,
    /// Valid temperature range for this waveform (min, max in °C)
    pub temperature_range: (i8, i8),
}

impl Clone for WaveformLut {
    fn clone(&self) -> (r: Self)
        ensures
            r.mode == self.mode,
            r.phases@ == self.phases@,
            r.total_duration_ms == self.total_duration_ms,
            r.temperature_range == self.temperature_range,
    {
        let phases = self.phases.clone();
        assert(phases@ =~= self.phases@);
        WaveformLut {
            mode: self.mode,
            phases,
            total_duration_ms: self.total_duration_ms,
            temperature_range: self.temperature_range,
        }
    }
}

/// `l` is the LUT that `WaveformLut::new(mode, phases, temp)` builds.
pub open spec fn lut_is(l: WaveformLut, mode: WaveformMode, phases: Seq<LutPhase>, temp: (i8, i8)) -> bool {
    &&& l.mode == mode
    &&& l.phases@ == phases
    &&& l.total_duration_ms as nat == phases_total_us(phases) / 1000
    &&& l.temperature_range == temp
}

/// A way in which loading a LUT set can fail; [`error_is`] relates it to the
/// [`LutError`] value that is returned.
#[derive(Debug, Clone, Copy, PartialEq, Eq)]
pub enum LutFault {
    /// The data does not start with `WFM\0`.
    BadMagic,
    /// The header is shorter than seven bytes.
    ShortHeader,
    /// A mode block header runs past the end of the data.
    TruncatedBlock,
    /// A phase runs past the end of the data.
    TruncatedPhase,
    /// The format version is not 1.
    Version(u8),
    /// A phase voltage lies outside -20..=20.
    Voltage(i8),
    /// A phase has a zero duration.
    Duration(u16),
}

/// LUT loading/parsing errors
#[derive(Debug)]
pub enum LutError {
    InvalidFormat(String),
    UnsupportedVersion(u8),
    InvalidVoltage(i8),
    InvalidDuration(u16),
    IoError(String),
    ParseError(String),
}

/// The message of a LUT error.
pub open spec fn lut_error_text(e: LutError) -> Seq<char> {
    match e {
        LutError::InvalidFormat(m) => "Invalid LUT format: "@ + m@,
        LutError::UnsupportedVersion(v) => "Unsupported LUT version: "@ + decimal(v as nat),
        LutError::InvalidVoltage(v) => "Invalid voltage: "@ + signed_decimal(v as int) + "V (must be -20 to +20)"@,
        LutError::InvalidDuration(d) => "Invalid duration: "@ + decimal(d as nat) + "\u{00B5}s"@,
        LutError::IoError(m) => "IO error: "@ + m@,
        LutError::ParseError(m) => "Parse error: "@ + m@,
    }
}

impl LutError {
    /// The error's message; see [`lut_error_text`].
    pub fn to_string(&self) -> (r: String)
        ensures
            r@ == lut_error_text(*self),
    {
        match self {
            LutError::InvalidFormat(m) => String::from_str("Invalid LUT format: ").concat(m.as_str()),
            LutError::UnsupportedVersion(v) => String::from_str("Unsupported LUT version: ").concat(
                fmt_u64(*v as u64).as_str(),
            ),
            LutError::InvalidVoltage(v) => String::from_str("Invalid voltage: ").concat(fmt_i64(*v as i64).as_str()).concat(
                "V (must be -20 to +20)",
            ),
            LutError::InvalidDuration(d) => String::from_str("Invalid duration: ").concat(fmt_u64(*d as u64).as_str()).concat(
                "\u{00B5}s",
            ),
            LutError::IoError(m) => String::from_str("IO error: ").concat(m.as_str()),
            LutError::ParseError(m) => String::from_str("Parse error: ").concat(m.as_str()),
        }
    }
}

/// `e` is the error value reported for `f`.
pub open spec fn error_is(e: LutError, f: LutFault) -> bool {
    match f {
        LutFault::BadMagic => e matches LutError::InvalidFormat(m) && m@ == "Invalid magic number"@,
        LutFault::ShortHeader => e matches LutError::InvalidFormat(m) && m@
            == "File too short for header"@,
        LutFault::TruncatedBlock => e matches LutError::InvalidFormat(m) && m@ == "Truncated file"@,
        LutFault::TruncatedPhase => e matches LutError::InvalidFormat(m) && m@
            == "Truncated phase data"@,
        LutFault::Version(v) => e == LutError::UnsupportedVersion(v),
        LutFault::Voltage(v) => e == LutError::InvalidVoltage(v),
        LutFault::Duration(d) => e == LutError::InvalidDuration(d),
    }
}

impl WaveformLut {
    /// Create new waveform LUT; the total duration is the sum of the phase
    /// durations, in whole milliseconds.
    pub fn new(mode: WaveformMode, phases: Vec<LutPhase>, temp_range: (i8, i8)) -> (r: Self)
        requires
            phases_total_us(phases@) <= u32::MAX,
        ensures
            lut_is(r, mode, phases@, temp_range),
    {
        let mut sum: u32 = 0;
        let mut i: usize = 0;
        while i < phases.len()
            invariant
                i <= phases@.len(),
                phases_total_us(phases@) <= u32::MAX,
                sum as nat == phases_total_us(phases@.subrange(0, i as int)),
            decreases phases@.len() - i,
        {
            proof {
                let s = phases@.subrange(0, i + 1);
                assert(s.drop_last() == phases@.subrange(0, i as int));
                lemma_total_prefix(phases@, i + 1);
            }
            sum = sum + phases[i].duration_us as u32;
            i = i + 1;
        }
        assert(phases@.subrange(0, phases@.len() as int) == phases@);
        WaveformLut { mode, phases, total_duration_ms: sum / 1000, temperature_range: temp_range }
    }

    /// Validate LUT data: every voltage within -20..=20 and every duration
    /// non-zero; the first offending phase is reported.
    pub fn validate(&self) -> (r: Result<(), LutError>)
        ensures
            phases_check(self.phases@) is Ok <==> r is Ok,
            phases_check(self.phases@) matches Err(f) ==> (r matches Err(e) && error_is(e, f)),
    {
        let mut i: usize = 0;
        assert(self.phases@.subrange(0, self.phases@.len() as int) == self.phases@);
        while i < self.phases.len()
            invariant
                i <= self.phases@.len(),
                phases_check(self.phases@) == phases_check(self.phases@.subrange(i as int, self.phases@.len() as int)),
            decreases self.phases@.len() - i,
        {
            let phase = self.phases[i];
            let ghost rest = self.phases@.subrange(i as int, self.phases@.len() as int);
            assert(rest[0] == phase);
            assert(rest.drop_first() == self.phases@.subrange(i + 1, self.phases@.len() as int));
            if phase.voltage < -20 || phase.voltage > 20 {
                return Err(LutError::InvalidVoltage(phase.voltage));
            }
            if phase.duration_us == 0 {
                return Err(LutError::InvalidDuration(phase.duration_us));
            }
            i = i + 1;
        }
        assert(self.phases@.subrange(i as int, self.phases@.len() as int) =~= Seq::<LutPhase>::empty());
        Ok(())
    }
}

/// The prefix sums of durations grow by one phase at a time and stay below the total.
pub proof fn lemma_total_prefix(s: Seq<LutPhase>, n: int)
    requires
        0 <= n <= s.len(),
    ensures
        phases_total_us(s.subrange(0, n)) <= phases_total_us(s),
        n > 0 ==> phases_total_us(s.subrange(0, n)) == phases_total_us(s.subrange(0, n - 1))
            + s[n - 1].duration_us as nat,
    decreases s.len() - n,
{
    if n > 0 {
        assert(s.subrange(0, n).drop_last() == s.subrange(0, n - 1));
    }
    if n < s.len() {
        lemma_total_prefix(s, n + 1);
        assert(s.subrange(0, n + 1).drop_last() == s.subrange(0, n));
    } else {
        assert(s.subrange(0, n) == s);
    }
}

/// Each phase lasts at most 65535µs, so `n` phases last at most `n * 65535`µs.
pub proof fn lemma_total_bound(s: Seq<LutPhase>)
    ensures
        phases_total_us(s) <= s.len() * 65535,
    decreases s.len(),
{
    if s.len() > 0 {
        lemma_total_bound(s.drop_last());
    }
}

/// Set of waveforms for a display: at most one LUT per mode.
#[derive(Debug, Clone)]
pub struct WaveformLutSet {
    pub gc16: Option<WaveformLut>,
    pub gl16: Option<WaveformLut>,
    pub du4: Option<WaveformLut>,
    pub du: Option<WaveformLut>,
    pub a2: Option<WaveformLut>,
    pub gcc16: Option<WaveformLut>,
    pub gcu: Option<WaveformLut>,
}

/// The mode stored under binary mode id `id` (0 to 6).
pub open spec fn mode_of_id(id: int) -> WaveformMode {
    if id == 0 {
        WaveformMode::GC16
    } else if id == 1 {
        WaveformMode::GL16
    } else if id == 2 {
        WaveformMode::DU4
    } else if id == 3 {
        WaveformMode::DU
    } else if id == 4 {
        WaveformMode::A2
    } else if id == 5 {
        WaveformMode::GCC16
    } else {
        WaveformMode::GCU
    }
}

/// The binary mode id of `mode`.
pub open spec fn id_of_mode(mode: WaveformMode) -> int {
    match mode {
        WaveformMode::GC16 => 0,
        WaveformMode::GL16 => 1,
        WaveformMode::DU4 => 2,
        WaveformMode::DU => 3,
        WaveformMode::A2 => 4,
        WaveformMode::GCC16 => 5,
        WaveformMode::GCU => 6,
    }
}

/// The contents of a LUT set slot by slot, in mode-id order: for each mode,
/// the phases and temperature range of its LUT, if any.
pub type LutSlots = Seq<Option<(Seq<LutPhase>, (i8, i8))>>;

/// A set with no LUT.
pub open spec fn empty_slots() -> LutSlots {
    Seq::new(7, |i: int| None)
}

impl WaveformLutSet {
    /// The LUT stored under mode id `id`.
    pub open spec fn slot(self, id: int) -> Option<WaveformLut> {
        if id == 0 {
            self.gc16
        } else if id == 1 {
            self.gl16
        } else if id == 2 {
            self.du4
        } else if id == 3 {
            self.du
        } else if id == 4 {
            self.a2
        } else if id == 5 {
            self.gcc16
        } else {
            self.gcu
        }
    }

    /// The set holds exactly the LUTs that `slots` describes, each with the
    /// mode of its slot.
    pub open spec fn holds(self, slots: LutSlots) -> bool {
        &&& slots.len() == 7
        &&& forall|id: int|
            0 <= id < 7 ==> (#[trigger] self.slot(id) is None <==> slots[id] is None)
        &&& forall|id: int|
            0 <= id < 7 && self.slot(id) is Some ==> lut_is(
                #[trigger] self.slot(id).unwrap(),
                mode_of_id(id),
                slots[id].unwrap().0,
                slots[id].unwrap().1,
            )
    }

    /// Create empty LUT set
    pub fn new() -> (r: Self)
        ensures
            forall|id: int| 0 <= id < 7 ==> #[trigger] r.slot(id) is None,
            r.holds(empty_slots()),
    {
        WaveformLutSet { gc16: None, gl16: None, du4: None, du: None, a2: None, gcc16: None, gcu: None }
    }

    /// Get LUT for specific mode
    pub fn get_lut(&self, mode: WaveformMode) -> (r: Option<&WaveformLut>)
        ensures
            r is Some <==> self.slot(id_of_mode(mode)) is Some,
            r matches Some(l) ==> *l == self.slot(id_of_mode(mode)).unwrap(),
    {
        match mode {
            WaveformMode::GC16 => self.gc16.as_ref(),
            WaveformMode::GL16 => self.gl16.as_ref(),
            WaveformMode::DU4 => self.du4.as_ref(),
            WaveformMode::DU => self.du.as_ref(),
            WaveformMode::A2 => self.a2.as_ref(),
            WaveformMode::GCC16 => self.gcc16.as_ref(),
            WaveformMode::GCU => self.gcu.as_ref(),
        }
    }

    /// Set LUT for specific mode (the slot of `lut.mode`), replacing any
    /// LUT that slot held.
    pub fn set_lut(&mut self, lut: WaveformLut)
        ensures
            final(self).slot(id_of_mode(lut.mode)) == Some(lut),
            forall|id: int|
                0 <= id < 7 && id != id_of_mode(lut.mode) ==> #[trigger] final(self).slot(id)
                    == old(self).slot(id),
    {
        match lut.mode {
            WaveformMode::GC16 => self.gc16 = Some(lut),
            WaveformMode::GL16 => self.gl16 = Some(lut),
            WaveformMode::DU4 => self.du4 = Some(lut),
            WaveformMode::DU => self.du = Some(lut),
            WaveformMode::A2 => self.a2 = Some(lut),
            WaveformMode::GCC16 => self.gcc16 = Some(lut),
            WaveformMode::GCU => self.gcu = Some(lut),
        }
    }
}

impl Default for WaveformLutSet {
    fn default() -> (r: Self)
        ensures
            r.holds(empty_slots()),
    {
        Self::new()
    }
}

/// A list of phases validates exactly when every voltage lies in -20..=20
/// and every duration is non-zero; a voltage error names a voltage of the
/// list outside that range, and a duration error a zero duration.
pub proof fn lemma_phases_valid_iff(s: Seq<LutPhase>)
    ensures
        phases_check(s) is Ok <==> forall|i: int|
            0 <= i < s.len() ==> -20 <= (#[trigger] s[i]).voltage <= 20 && s[i].duration_us > 0,
        phases_check(s) matches Err(LutFault::Voltage(v)) ==> (v < -20 || v > 20) && exists|i: int|
            0 <= i < s.len() && (#[trigger] s[i]).voltage == v,
        phases_check(s) matches Err(LutFault::Duration(d)) ==> d == 0 && exists|i: int|
            0 <= i < s.len() && (#[trigger] s[i]).duration_us == 0,
    decreases s.len(),
{
    if s.len() > 0 {
        let t = s.drop_first();
        lemma_phases_valid_iff(t);
        assert forall|i: int| 0 <= i < t.len() implies #[trigger] t[i] == s[i + 1] by {}
        if phases_check(s) is Ok {
            assert forall|i: int| 0 <= i < s.len() implies -20 <= (#[trigger] s[i]).voltage <= 20
                && s[i].duration_us > 0 by {
                if i > 0 {
                    assert(t[i - 1] == s[i]);
                }
            }
        }
        if let Err(LutFault::Voltage(v)) = phases_check(t) {
            if phases_check(s) == phases_check(t) {
                let j = choose|j: int| 0 <= j < t.len() && (#[trigger] t[j]).voltage == v;
                assert(s[j + 1].voltage == v);
            }
        }
        if let Err(LutFault::Duration(d)) = phases_check(t) {
            if phases_check(s) == phases_check(t) {
                let j = choose|j: int| 0 <= j < t.len() && (#[trigger] t[j]).duration_us == 0;
                assert(s[j + 1].duration_us == 0);
            }
        }
        if let Err(LutFault::Voltage(v)) = phases_check(s) {
            if s[0].voltage < -20 || s[0].voltage > 20 {
                assert(s[0].voltage == v);
            }
        }
        if let Err(LutFault::Duration(d)) = phases_check(s) {
            if s[0].duration_us == 0 {
                assert(s[0].duration_us == d);
            }
        }
    }
}

} // verus!
