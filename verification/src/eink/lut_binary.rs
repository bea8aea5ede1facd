//! Binary LUT format (IT8951/UC8151 compatible).
//!
//! ```text
//! [0-3]   Magic: "WFM\0"
//! [4]     Version: 1
//! [5]     Temperature (°C, signed)
//! [6]     Mode count
//! [7+]    Mode data blocks:
//!         [0]     Mode ID (0=GC16, 1=GL16, 2=DU4, 3=DU, 4=A2, 5=GCC16, 6=GCU)
//!         [1-2]   Phase count (u16 LE)
//!         [3+]    Phase data (3 bytes each):
//!                 [0]     Voltage (i8)
//!                 [1-2]   Duration (u16 LE)
//! ```
use vstd::prelude::*;
use crate::eink::lut::{empty_slots, phases_check, LutFault, LutPhase, LutSlots, WaveformLut, WaveformLutSet};

verus! {

/// The four magic bytes `WFM\0`.
pub open spec fn magic() -> Seq<u8> {
    seq![87u8, 70u8, 77u8, 0u8]
}

/// The phase whose three bytes start at `p`.
pub open spec fn phase_at(d: Seq<u8>, p: int) -> LutPhase {
    LutPhase { voltage: d[p] as i8, duration_us: (d[p + 1] as nat + 256 * d[p + 2] as nat) as u16 }
}

/// The `count` phases stored from offset `p` on.
pub open spec fn phases_at(d: Seq<u8>, p: int, count: nat) -> Seq<LutPhase> {
    Seq::new(count, |i: int| phase_at(d, p + 3 * i))
}

/// What loading the mode blocks from offset `off` on gives, with `n` blocks
/// left, the header temperature `temp`, and the LUTs read so far in
/// `slots`: `Some(Ok(..))` with the final contents, `Some(Err(..))` with the
/// reported fault, or `None` where loading stops by an arithmetic overflow
/// (a temperature outside -123..=122 given to a known mode).
pub open spec fn decode_blocks(d: Seq<u8>, off: int, n: nat, temp: i8, slots: LutSlots) -> Option<
    Result<LutSlots, LutFault>,
>
    decreases n,
{
    if n == 0 {
        Some(Ok(slots))
    } else if off + 3 > d.len() {
        Some(Err(LutFault::TruncatedBlock))
    } else {
        let id = d[off];
        let count: nat = d[off + 1] as nat + 256 * d[off + 2] as nat;
        let p = off + 3;
        if p + 3 * count > d.len() {
            Some(Err(LutFault::TruncatedPhase))
        } else {
            let phases = phases_at(d, p, count);
            let next = p + 3 * count;
            if id > 6 {
                decode_blocks(d, next, (n - 1) as nat, temp, slots)
            } else if temp < -123 || temp > 122 {
                None
            } else {
                match phases_check(phases) {
                    Err(f) => Some(Err(f)),
                    Ok(_) => decode_blocks(
                        d,
                        next,
                        (n - 1) as nat,
                        temp,
                        slots.update(id as int, Some((phases, ((temp - 5) as i8, (temp + 5) as i8)))),
                    ),
                }
            }
        }
    }
}

/// What loading a binary LUT file gives (see [`decode_blocks`]): a file
/// without the magic bytes is refused, then a header shorter than its
/// seven bytes (a version byte, when present, is checked first).
pub open spec fn decode_lut_bytes(d: Seq<u8>) -> Option<Result<LutSlots, LutFault>> {
    if d.len() < 4 || d.subrange(0, 4) != magic() {
        Some(Err(LutFault::BadMagic))
    } else if d.len() < 5 {
        Some(Err(LutFault::ShortHeader))
    } else if d[4] != 1 {
        Some(Err(LutFault::Version(d[4])))
    } else if d.len() < 7 {
        Some(Err(LutFault::ShortHeader))
    } else {
        decode_blocks(d, 7, d[6] as nat, d[5] as i8, empty_slots())
    }
}

/// The three bytes of a phase: voltage, then duration little-endian.
pub open spec fn encode_phase(p: LutPhase) -> Seq<u8> {
    seq![p.voltage as u8, (p.duration_us % 256) as u8, (p.duration_us / 256) as u8]
}

/// The bytes of a list of phases.
pub open spec fn encode_phases(s: Seq<LutPhase>) -> Seq<u8>
    decreases s.len(),
{
    if s.len() == 0 {
        Seq::<u8>::empty()
    } else {
        encode_phases(s.drop_last()) + encode_phase(s.last())
    }
}

/// A mode block: id, phase count (u16 little-endian, the length cut to 16
/// bits), then the phases.
pub open spec fn encode_block(id: u8, s: Seq<LutPhase>) -> Seq<u8> {
    seq![id, ((s.len() as u16) % 256) as u8, ((s.len() as u16) / 256) as u8] + encode_phases(s)
}

/// The block of slot `id`, empty when the slot holds no LUT.
pub open spec fn encode_slot(set: WaveformLutSet, id: int) -> Seq<u8> {
    match set.slot(id) {
        Some(l) => encode_block(id as u8, l.phases@),
        None => Seq::<u8>::empty(),
    }
}

/// The blocks of slots `0..k`, in order.
pub open spec fn encode_slots(set: WaveformLutSet, k: int) -> Seq<u8>
    decreases k,
{
    if k <= 0 {
        Seq::<u8>::empty()
    } else {
        encode_slots(set, k - 1) + encode_slot(set, k - 1)
    }
}

/// Number of slots from `k` on that hold a LUT.
pub open spec fn present_from(set: WaveformLutSet, k: int) -> nat
    decreases 7 - k,
{
    if k >= 7 {
        0
    } else {
        (if set.slot(k) is Some { 1nat } else { 0nat }) + present_from(set, k + 1)
    }
}

/// The binary file written for `set`: the header (version 1, 25°C, the
/// number of LUTs) and the blocks in mode-id order.
pub open spec fn encode_set(set: WaveformLutSet) -> Seq<u8> {
    magic() + seq![1u8, 25u8, present_from(set, 0) as u8] + encode_slots(set, 7)
}

/// The slots that reading back the file of `set` gives: each LUT's phases
/// with the range that the written temperature, 25°C, yields.
pub open spec fn written_slots(set: WaveformLutSet, k: int) -> LutSlots {
    Seq::new(
        7,
        |id: int|
            if id < k && set.slot(id) is Some {
                Some((set.slot(id).unwrap().phases@, (20i8, 30i8)))
            } else {
                None
            },
    )
}

/// Every LUT of `set` validates and has at most 65535 phases.
pub open spec fn set_writable(set: WaveformLutSet) -> bool {
    forall|id: int|
        0 <= id < 7 && #[trigger] set.slot(id) is Some ==> {
            &&& phases_check(set.slot(id).unwrap().phases@) is Ok
            &&& set.slot(id).unwrap().phases@.len() <= 65535
        }
}

proof fn lemma_voltage_byte(v: i8)
    ensures
        (v as u8) as i8 == v,
{
    assert((v as u8) as i8 == v) by (bit_vector);
}

proof fn lemma_le16(x: u16)
    ensures
        ((x % 256) as u8) as nat + 256 * ((x / 256) as u8) as nat == x as nat,
{
}

proof fn lemma_encode_phases(s: Seq<LutPhase>)
    ensures
        encode_phases(s).len() == 3 * s.len(),
        forall|i: int, j: int|
            0 <= i < s.len() && 0 <= j < 3 ==> #[trigger] encode_phases(s)[3 * i + j]
                == encode_phase(s[i])[j],
    decreases s.len(),
{
    if s.len() > 0 {
        lemma_encode_phases(s.drop_last());
        let e = encode_phases(s);
        assert forall|i: int, j: int| 0 <= i < s.len() && 0 <= j < 3 implies #[trigger] e[3 * i
            + j] == encode_phase(s[i])[j] by {
            if i < s.len() - 1 {
                assert(e[3 * i + j] == encode_phases(s.drop_last())[3 * i + j]);
            }
        }
    }
}

proof fn lemma_encode_slots_prefix(set: WaveformLutSet, k: int, m: int)
    requires
        0 <= k <= m,
    ensures
        encode_slots(set, k).len() <= encode_slots(set, m).len(),
        encode_slots(set, m).subrange(0, encode_slots(set, k).len() as int) == encode_slots(set, k),
    decreases m - k,
{
    if k < m {
        lemma_encode_slots_prefix(set, k, m - 1);
        let a = encode_slots(set, m - 1);
        let b = encode_slots(set, m);
        assert(b.subrange(0, a.len() as int) == a);
        assert(b.subrange(0, encode_slots(set, k).len() as int) == a.subrange(
            0,
            encode_slots(set, k).len() as int,
        ));
    } else {
        assert(encode_slots(set, m).subrange(0, encode_slots(set, m).len() as int) == encode_slots(
            set,
            m,
        ));
    }
}

proof fn lemma_phases_decode(d: Seq<u8>, p: int, s: Seq<LutPhase>)
    requires
        0 <= p,
        p + 3 * s.len() <= d.len(),
        d.subrange(p, p + 3 * s.len()) == encode_phases(s),
    ensures
        phases_at(d, p, s.len()) == s,
{
    lemma_encode_phases(s);
    assert forall|i: int| 0 <= i < s.len() implies #[trigger] phases_at(d, p, s.len())[i] == s[i] by {
        let e = encode_phases(s);
        assert(d[p + 3 * i] == e[3 * i + 0]);
        assert(d[p + 3 * i + 1] == e[3 * i + 1]);
        assert(d[p + 3 * i + 2] == e[3 * i + 2]);
        lemma_voltage_byte(s[i].voltage);
        lemma_le16(s[i].duration_us);
    }
    assert(phases_at(d, p, s.len()) =~= s);
}

/// The block written for slot `k` stands at its offset in the file: its
/// mode id, its phase count and its phases.
proof fn lemma_block_written(set: WaveformLutSet, k: int)
    requires
        0 <= k < 7,
        set_writable(set),
        set.slot(k) is Some,
    ensures
        ({
            let d = encode_set(set);
            let off: int = 7 + encode_slots(set, k).len() as int;
            let s = set.slot(k).unwrap().phases@;
            &&& off + 3 <= d.len()
            &&& d[off] == k as u8
            &&& d[off + 1] as nat + 256 * d[off + 2] as nat == s.len()
            &&& off + 3 + 3 * s.len() <= d.len()
            &&& phases_at(d, off + 3, s.len()) == s
            &&& 7 + encode_slots(set, k + 1).len() == off + 3 + 3 * s.len()
        }),
{
    let d = encode_set(set);
    lemma_encode_slots_prefix(set, k + 1, 7);
    let off: int = 7 + encode_slots(set, k).len() as int;
    let all = encode_slots(set, 7);
    assert(d.len() == 7 + all.len());
    assert(d.subrange(7, d.len() as int) == all);
    let l = set.slot(k).unwrap();
    let s = l.phases@;
    let blk = encode_block(k as u8, s);
    lemma_encode_phases(s);
    assert(encode_slots(set, k + 1) == encode_slots(set, k) + blk);
    let upto = encode_slots(set, k + 1);
    assert(all.subrange(0, upto.len() as int) == upto);
    assert forall|j: int| 0 <= j < blk.len() implies #[trigger] d[off + j] == blk[j] by {
        assert(d[off + j] == all[encode_slots(set, k).len() + j]);
        assert(all[encode_slots(set, k).len() + j] == upto[encode_slots(set, k).len() + j]);
    }
    assert(blk[0] == k as u8);
    assert(d[off + 0] == blk[0]);
    assert(d[off + 1] == blk[1]);
    assert(d[off + 2] == blk[2]);
    lemma_le16(s.len() as u16);
    assert(s.len() as u16 == s.len());
    assert(d.subrange(off + 3, off + 3 + 3 * s.len()) =~= encode_phases(s)) by {
        assert forall|j: int| 0 <= j < 3 * s.len() implies #[trigger] d.subrange(
            off + 3,
            off + 3 + 3 * s.len(),
        )[j] == encode_phases(s)[j] by {
            assert(d[off + (3 + j)] == blk[3 + j]);
            assert(blk[3 + j] == encode_phases(s)[j]);
        }
    }
    lemma_phases_decode(d, off + 3, s);
}

/// Reading the blocks of slots `k..7` of the written file gives the LUTs
/// that were written.
proof fn lemma_decode_written(set: WaveformLutSet, k: int)
    requires
        0 <= k <= 7,
        set_writable(set),
    ensures
        decode_blocks(
            encode_set(set),
            7 + encode_slots(set, k).len() as int,
            present_from(set, k),
            25i8,
            written_slots(set, k),
        ) == Some(Ok::<LutSlots, LutFault>(written_slots(set, 7))),
    decreases 7 - k,
{
    if k < 7 {
        lemma_decode_written(set, k + 1);
        if set.slot(k) is Some {
            lemma_block_written(set, k);
            let s = set.slot(k).unwrap().phases@;
            assert(written_slots(set, k).update(k, Some((s, (20i8, 30i8)))) =~= written_slots(
                set,
                k + 1,
            ));
        } else {
            assert(encode_slots(set, k + 1) == encode_slots(set, k));
            assert(written_slots(set, k) =~= written_slots(set, k + 1));
        }
    } else {
        assert(present_from(set, 7) == 0);
    }
}

/// Reading back the binary file written for a set gives that set's LUTs,
/// each with the temperature range (20, 30) of the written 25°C.
pub proof fn lemma_bytes_roundtrip(set: WaveformLutSet)
    requires
        set_writable(set),
    ensures
        decode_lut_bytes(encode_set(set)) == Some(Ok::<LutSlots, LutFault>(written_slots(set, 7))),
{
    let d = encode_set(set);
    lemma_decode_written(set, 0);
    assert(d.subrange(0, 4) =~= magic());
    assert(written_slots(set, 0) =~= empty_slots());
    reveal_with_fuel(present_from, 8);
    assert(present_from(set, 0) <= 7);
    assert(d[6] == present_from(set, 0) as u8);
    assert(d[5] as i8 == 25i8);
}

impl WaveformLutSet {
    /// Convert to binary format (temperature 25°C, LUTs in mode-id order).
    pub fn to_bytes(&self) -> (r: Vec<u8>)
        ensures
            r@ == encode_set(*self),
    {
        let mut data: Vec<u8> = Vec::new();
        data.push(87);
        data.push(70);
        data.push(77);
        data.push(0);
        data.push(1);
        data.push(25);
        let mut mode_count: u8 = 0;
        if self.gc16.is_some() {
            mode_count = mode_count + 1;
        }
        if self.gl16.is_some() {
            mode_count = mode_count + 1;
        }
        if self.du4.is_some() {
            mode_count = mode_count + 1;
        }
        if self.du.is_some() {
            mode_count = mode_count + 1;
        }
        if self.a2.is_some() {
            mode_count = mode_count + 1;
        }
        if self.gcc16.is_some() {
            mode_count = mode_count + 1;
        }
        if self.gcu.is_some() {
            mode_count = mode_count + 1;
        }
        proof {
            lemma_present_count(*self);
        }
        data.push(mode_count);
        let ghost header = magic() + seq![1u8, 25u8, present_from(*self, 0) as u8];
        assert(data@ =~= header + encode_slots(*self, 0));
        write_slot(&mut data, 0, &self.gc16, Ghost(*self));
        write_slot(&mut data, 1, &self.gl16, Ghost(*self));
        write_slot(&mut data, 2, &self.du4, Ghost(*self));
        write_slot(&mut data, 3, &self.du, Ghost(*self));
        write_slot(&mut data, 4, &self.a2, Ghost(*self));
        write_slot(&mut data, 5, &self.gcc16, Ghost(*self));
        write_slot(&mut data, 6, &self.gcu, Ghost(*self));
        data
    }
}

proof fn lemma_present_count(set: WaveformLutSet)
    ensures
        present_from(set, 0) == (if set.gc16 is Some { 1nat } else { 0nat }) + (if set.gl16 is Some { 1nat } else { 0nat })
            + (if set.du4 is Some { 1nat } else { 0nat }) + (if set.du is Some { 1nat } else { 0nat })
            + (if set.a2 is Some { 1nat } else { 0nat }) + (if set.gcc16 is Some { 1nat } else { 0nat })
            + (if set.gcu is Some { 1nat } else { 0nat }),
{
    reveal_with_fuel(present_from, 8);
}

/// Append the block of slot `id` of `set` (nothing for an empty slot),
/// given the header and the blocks of the slots before it.
fn write_slot(data: &mut Vec<u8>, id: u8, slot: &Option<WaveformLut>, Ghost(set): Ghost<WaveformLutSet>)
    requires
        id < 7,
        *slot == set.slot(id as int),
        old(data)@ == magic() + seq![1u8, 25u8, present_from(set, 0) as u8] + encode_slots(set, id as int),
    ensures
        final(data)@ == magic() + seq![1u8, 25u8, present_from(set, 0) as u8] + encode_slots(set, id + 1),
{
    if let Some(ref lut) = slot {
        write_lut_binary(data, id, lut);
    }
    assert(encode_slots(set, id + 1) == encode_slots(set, id as int) + encode_slot(set, id as int));
    assert(final(data)@ =~= magic() + seq![1u8, 25u8, present_from(set, 0) as u8] + encode_slots(set, id + 1));
}

/// Append the block of `lut` under `mode_id`.
pub fn write_lut_binary(data: &mut Vec<u8>, mode_id: u8, lut: &WaveformLut)
    ensures
        final(data)@ == old(data)@ + encode_block(mode_id, lut.phases@),
{
    let ghost start = data@;
    data.push(mode_id);
    let phase_count = lut.phases.len() as u16;
    data.push((phase_count % 256) as u8);
    data.push((phase_count / 256) as u8);
    let ghost head = data@;
    assert(head == start + seq![mode_id, (phase_count % 256) as u8, (phase_count / 256) as u8]);
    let mut i: usize = 0;
    while i < lut.phases.len()
        invariant
            i <= lut.phases@.len(),
            data@ == head + encode_phases(lut.phases@.subrange(0, i as int)),
        decreases lut.phases@.len() - i,
    {
        let phase = lut.phases[i];
        data.push(phase.voltage as u8);
        data.push((phase.duration_us % 256) as u8);
        data.push((phase.duration_us / 256) as u8);
        proof {
            let s = lut.phases@.subrange(0, i + 1);
            assert(s.drop_last() == lut.phases@.subrange(0, i as int));
            assert(s.last() == phase);
        }
        assert(data@ =~= head + encode_phases(lut.phases@.subrange(0, i + 1)));
        i = i + 1;
    }
    assert(lut.phases@.subrange(0, lut.phases@.len() as int) == lut.phases@);
    assert(data@ =~= start + encode_block(mode_id, lut.phases@));
}

} // verus!
