//! Reading a binary LUT file (format in [`crate::eink::lut_binary`]).
use vstd::prelude::*;
use crate::eink::lut::{
    empty_slots, error_is, id_of_mode, lemma_total_bound, mode_of_id, LutError, LutPhase, WaveformLut,
    WaveformLutSet,
};
use crate::eink::lut_binary::{decode_blocks, decode_lut_bytes, magic, phases_at};
use crate::eink::waveform_mode::WaveformMode;

verus! {

impl WaveformLutSet {
    /// Load from a binary LUT file (format in the module documentation).
    ///
    /// Blocks with an unknown mode id are skipped; each LUT gets the
    /// temperature range `(t - 5, t + 5)` of the header temperature `t`, is
    /// validated, and replaces any earlier LUT of its mode.
    ///
    /// `None` where loading cannot go on: a temperature outside -123..=122
    /// reaching a known mode (its range would overflow).
    pub fn try_from_bytes(data: &[u8]) -> (r: Option<Result<Self, LutError>>)
        ensures
            decode_lut_bytes(data@) is None <==> r is None,
            decode_lut_bytes(data@) matches Some(Ok(slots)) ==> (r matches Some(Ok(s)) && s.holds(slots)),
            decode_lut_bytes(data@) matches Some(Err(f)) ==> (r matches Some(Err(e)) && error_is(e, f)),
    {
        if data.len() < 4 || !(data[0] == 87 && data[1] == 70 && data[2] == 77 && data[3] == 0) {
            proof {
                if data@.len() >= 4 {
                    assert(data@.subrange(0, 4) != magic()) by {
                        if data@.subrange(0, 4) == magic() {
                            assert(data@.subrange(0, 4)[0] == data@[0]);
                            assert(data@.subrange(0, 4)[1] == data@[1]);
                            assert(data@.subrange(0, 4)[2] == data@[2]);
                            assert(data@.subrange(0, 4)[3] == data@[3]);
                        }
                    }
                }
            }
            return Some(Err(LutError::InvalidFormat("Invalid magic number".to_owned())));
        }
        assert(data@.subrange(0, 4) =~= magic());
        if data.len() < 5 {
            return Some(Err(LutError::InvalidFormat("File too short for header".to_owned())));
        }
        let version = data[4];
        if version != 1 {
            return Some(Err(LutError::UnsupportedVersion(version)));
        }
        if data.len() < 7 {
            return Some(Err(LutError::InvalidFormat("File too short for header".to_owned())));
        }
        let temperature = data[5] as i8;
        let mode_count = data[6];

        let mut offset: usize = 7;
        let mut lut_set = WaveformLutSet::new();
        let ghost slots = empty_slots();
        let mut k: u8 = 0;
        while k < mode_count
            invariant
                k <= mode_count,
                7 <= offset <= data@.len(),
                temperature == data@[5] as i8,
                decode_blocks(data@, offset as int, (mode_count - k) as nat, temperature, slots)
                    == decode_lut_bytes(data@),
                lut_set.holds(slots),
            decreases mode_count - k,
        {
            if data.len() < 3 || offset > data.len() - 3 {
                return Some(Err(LutError::InvalidFormat("Truncated file".to_owned())));
            }
            let mode_id = data[offset];
            let phase_count: u16 = data[offset + 1] as u16 + (data[offset + 2] as u16) * 256;
            let ghost block = offset as int;
            offset = offset + 3;

            let mut phases: Vec<LutPhase> = Vec::new();
            let mut j: u16 = 0;
            while j < phase_count
                invariant
                    j <= phase_count,
                    k < mode_count,
                    7 <= block,
                    block + 3 <= data@.len(),
                    temperature == data@[5] as i8,
                        decode_blocks(data@, block, (mode_count - k) as nat, temperature, slots)
                        == decode_lut_bytes(data@),
                    data@[block + 1] as nat + 256 * data@[block + 2] as nat == phase_count,
                    lut_set.holds(slots),
                    offset == block + 3 + 3 * j,
                    offset <= data@.len(),
                    phases@ == phases_at(data@, block + 3, j as nat),
                decreases phase_count - j,
            {
                if data.len() < 3 || offset > data.len() - 3 {
                    proof {
                        assert(block + 3 + 3 * phase_count > data@.len());
                    }
                    return Some(Err(LutError::InvalidFormat("Truncated phase data".to_owned())));
                }
                let voltage = data[offset] as i8;
                let duration: u16 = data[offset + 1] as u16 + (data[offset + 2] as u16) * 256;
                phases.push(LutPhase { voltage, duration_us: duration });
                proof {
                    assert(phases@ =~= phases_at(data@, block + 3, (j + 1) as nat));
                }
                offset = offset + 3;
                j = j + 1;
            }
            let ghost decoded = phases@;
            let mode = if mode_id == 0 {
                WaveformMode::GC16
            } else if mode_id == 1 {
                WaveformMode::GL16
            } else if mode_id == 2 {
                WaveformMode::DU4
            } else if mode_id == 3 {
                WaveformMode::DU
            } else if mode_id == 4 {
                WaveformMode::A2
            } else if mode_id == 5 {
                WaveformMode::GCC16
            } else if mode_id == 6 {
                WaveformMode::GCU
            } else {
                k = k + 1;
                continue ;
            };
            if temperature < -123 || temperature > 122 {
                return None;
            }
            proof {
                lemma_total_bound(decoded);
                assert(decoded.len() * 65535 <= 65535 * 65535) by (nonlinear_arith)
                    requires
                        decoded.len() <= 65535,
                ;
            }
            let temp_range = (temperature - 5, temperature + 5);
            let lut = WaveformLut::new(mode, phases, temp_range);
            match lut.validate() {
                Err(e) => {
                    return Some(Err(e));
                },
                Ok(()) => {},
            }
            lut_set.set_lut(lut);
            proof {
                let new_slots = slots.update(
                    mode_id as int,
                    Some((decoded, ((temperature - 5) as i8, (temperature + 5) as i8))),
                );
                assert(id_of_mode(mode) == mode_id as int);
                assert(mode_of_id(mode_id as int) == mode);
                slots = new_slots;
            }
            k = k + 1;
        }
        Some(Ok(lut_set))
    }

    /// Load from a binary LUT file; see [`Self::try_from_bytes`]. The
    /// header temperature must not overflow the range of a LUT of a known
    /// mode (the only case where loading cannot go on).
    pub fn from_bytes(data: &[u8]) -> (r: Result<Self, LutError>)
        requires
            decode_lut_bytes(data@) is Some,
        ensures
            decode_lut_bytes(data@) matches Some(Ok(slots)) ==> (r matches Ok(s) && s.holds(slots)),
            decode_lut_bytes(data@) matches Some(Err(f)) ==> (r matches Err(e) && error_is(e, f)),
    {
        match Self::try_from_bytes(data) {
            Some(r) => r,
            None => {
                proof {
                    assert(false);
                }
                Err(LutError::InvalidFormat(String::new()))
            },
        }
    }
}

} // verus!
