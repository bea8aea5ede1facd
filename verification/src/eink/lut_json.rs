//! The JSON document form of a LUT set, as plain values: a format version,
//! a temperature and, per waveform name, a list of phases.
//!
//! ```json
//! {
//!   "version": 1,
//!   "temperature": 25,
//!   "waveforms": {
//!     "GC16": { "phases": [ {"voltage": -15, "duration_us": 10000} ] }
//!   }
//! }
//! ```
use vstd::prelude::*;
use crate::eink::lut::{
    LutError, LutFault, LutPhase, LutSlots, WaveformLut, WaveformLutSet, empty_slots, error_is, mode_of_id,
    phases_check, phases_total_us,
};
use crate::eink::waveform_mode::WaveformMode;

verus! {

/// The mode id of a waveform name, if it names a mode.
pub open spec fn mode_named(name: Seq<char>) -> Option<int> {
    if name == "GC16"@ {
        Some(0)
    } else if name == "GL16"@ {
        Some(1)
    } else if name == "DU4"@ {
        Some(2)
    } else if name == "DU"@ {
        Some(3)
    } else if name == "A2"@ {
        Some(4)
    } else if name == "GCC16"@ {
        Some(5)
    } else if name == "GCU"@ {
        Some(6)
    } else {
        None
    }
}

/// The name of mode id `id` in a document.
pub open spec fn name_of_id(id: int) -> Seq<char> {
    if id == 0 {
        "GC16"@
    } else if id == 1 {
        "GL16"@
    } else if id == 2 {
        "DU4"@
    } else if id == 3 {
        "DU"@
    } else if id == 4 {
        "A2"@
    } else if id == 5 {
        "GCC16"@
    } else {
        "GCU"@
    }
}

/// The slots after loading the first `n` waveforms in order: unknown names
/// are skipped, a waveform with an invalid phase stops the load, and a valid
/// one becomes its mode's LUT for `temperature ± 5`°C.
pub open spec fn json_slots(entries: Seq<(Seq<char>, Seq<LutPhase>)>, temperature: i8, n: int) -> Result<LutSlots, LutFault>
    decreases n,
{
    if n <= 0 {
        Ok(empty_slots())
    } else {
        match json_slots(entries, temperature, n - 1) {
            Err(f) => Err(f),
            Ok(slots) => match mode_named(entries[n - 1].0) {
                None => Ok(slots),
                Some(id) => match phases_check(entries[n - 1].1) {
                    Err(f) => Err(f),
                    Ok(_) => Ok(slots.update(id, Some((entries[n - 1].1, ((temperature - 5) as i8, (temperature + 5) as i8))))),
                },
            },
        }
    }
}

/// The outcome of loading a document: version 1 is required, then the
/// waveforms load as [`json_slots`] says.
pub open spec fn json_load(version: u8, temperature: i8, entries: Seq<(Seq<char>, Seq<LutPhase>)>) -> Result<LutSlots, LutFault> {
    if version != 1 {
        Err(LutFault::Version(version))
    } else {
        json_slots(entries, temperature, entries.len() as int)
    }
}

/// The document entries as names and phase lists.
pub open spec fn entries_view(w: Seq<(String, Vec<LutPhase>)>) -> Seq<(Seq<char>, Seq<LutPhase>)> {
    w.map_values(|e: (String, Vec<LutPhase>)| (e.0@, e.1@))
}

/// The document entries of the LUTs in the first `n` slots of `set`, in
/// mode-id order: each mode's name and phases.
pub open spec fn doc_entries(set: WaveformLutSet, n: int) -> Seq<(Seq<char>, Seq<LutPhase>)>
    decreases n,
{
    if n <= 0 {
        Seq::empty()
    } else if set.slot(n - 1) is Some {
        doc_entries(set, n - 1).push((name_of_id(n - 1), set.slot(n - 1).unwrap().phases@))
    } else {
        doc_entries(set, n - 1)
    }
}

/// Once loading fails it stays failed.
proof fn lemma_json_err_sticks(entries: Seq<(Seq<char>, Seq<LutPhase>)>, temperature: i8, i: int, n: int)
    requires
        0 <= i <= n,
        json_slots(entries, temperature, i) is Err,
    ensures
        json_slots(entries, temperature, n) == json_slots(entries, temperature, i),
    decreases n - i,
{
    if n > i {
        lemma_json_err_sticks(entries, temperature, i, n - 1);
    }
}

/// Whether the entries name a mode at all.
pub open spec fn names_a_mode(entries: Seq<(Seq<char>, Seq<LutPhase>)>) -> bool {
    exists|k: int| 0 <= k < entries.len() && #[trigger] mode_named(entries[k].0) is Some
}

/// The mode id of a waveform name.
fn mode_id_of_name(name: &String) -> (r: Option<usize>)
    ensures
        match mode_named(name@) {
            Some(id) => r == Some(id as usize),
            None => r is None,
        },
{
    if *name == "GC16".to_owned() {
        Some(0)
    } else if *name == "GL16".to_owned() {
        Some(1)
    } else if *name == "DU4".to_owned() {
        Some(2)
    } else if *name == "DU".to_owned() {
        Some(3)
    } else if *name == "A2".to_owned() {
        Some(4)
    } else if *name == "GCC16".to_owned() {
        Some(5)
    } else if *name == "GCU".to_owned() {
        Some(6)
    } else {
        None
    }
}

/// The mode of mode id `id`.
fn mode_of_index(id: usize) -> (r: WaveformMode)
    requires
        id < 7,
    ensures
        r == mode_of_id(id as int),
{
    if id == 0 {
        WaveformMode::GC16
    } else if id == 1 {
        WaveformMode::GL16
    } else if id == 2 {
        WaveformMode::DU4
    } else if id == 3 {
        WaveformMode::DU
    } else if id == 4 {
        WaveformMode::A2
    } else if id == 5 {
        WaveformMode::GCC16
    } else {
        WaveformMode::GCU
    }
}

impl WaveformLutSet {
    /// Load a LUT set from the values of a JSON document; see
    /// [`json_load`]. A waveform takes the range `temperature ± 5`°C.
    pub fn from_json_document(version: u8, temperature: i8, waveforms: Vec<(String, Vec<LutPhase>)>) -> (r: Result<
        Self,
        LutError,
    >)
        requires
            version == 1 && names_a_mode(entries_view(waveforms@)) ==> -123 <= temperature <= 122,
            forall|k: int| 0 <= k < waveforms@.len() ==> phases_total_us(#[trigger] waveforms@[k].1@) <= u32::MAX,
        ensures
            match json_load(version, temperature, entries_view(waveforms@)) {
                Ok(slots) => r matches Ok(set) && set.holds(slots),
                Err(f) => r matches Err(e) && error_is(e, f),
            },
    {
        let ghost entries = entries_view(waveforms@);
        if version != 1 {
            return Err(LutError::UnsupportedVersion(version));
        }
        let mut set = WaveformLutSet::new();
        let mut i: usize = 0;
        while i < waveforms.len()
            invariant
                i <= waveforms@.len(),
                entries == entries_view(waveforms@),
                names_a_mode(entries) ==> -123 <= temperature <= 122,
                forall|k: int| 0 <= k < waveforms@.len() ==> phases_total_us(#[trigger] waveforms@[k].1@) <= u32::MAX,
                version == 1,
                json_slots(entries, temperature, i as int) matches Ok(slots) && set.holds(slots),
            decreases waveforms@.len() - i,
        {
            let ghost slots = json_slots(entries, temperature, i as int).unwrap();
            assert(entries[i as int] == (waveforms@[i as int].0@, waveforms@[i as int].1@));
            match mode_id_of_name(&waveforms[i].0) {
                None => {},
                Some(id) => {
                    assert(mode_named(entries[i as int].0) is Some);
                    let lo = temperature - 5;
                    let hi = temperature + 5;
                    let lut = WaveformLut::new(mode_of_index(id), waveforms[i].1.clone(), (lo, hi));
                    match lut.validate() {
                        Err(e) => {
                            proof {
                                lemma_json_err_sticks(entries, temperature, i + 1, waveforms@.len() as int);
                            }
                            return Err(e);
                        },
                        Ok(()) => {},
                    }
                    let ghost new_slots = slots.update(id as int, Some((entries[i as int].1, (lo, hi))));
                    set.set_lut(lut);
                    assert forall|j: int| 0 <= j < 7 implies (#[trigger] set.slot(j) is None <==> new_slots[j] is None) by {}
                    assert(set.holds(new_slots));
                },
            }
            i = i + 1;
        }
        Ok(set)
    }

    /// The values of a JSON document for this set: version 1, temperature
    /// 25°C, and one waveform per LUT, in mode-id order.
    pub fn to_json_document(&self) -> (r: (u8, i8, Vec<(String, Vec<LutPhase>)>))
        ensures
            r.0 == 1,
            r.1 == 25,
            entries_view(r.2@) == doc_entries(*self, 7),
    {
        let mut out: Vec<(String, Vec<LutPhase>)> = Vec::new();
        let mut id: usize = 0;
        while id < 7
            invariant
                id <= 7,
                entries_view(out@) == doc_entries(*self, id as int),
            decreases 7 - id,
        {
            let mode = mode_of_index(id);
            let ghost before = out@;
            match self.get_lut(mode) {
                Some(lut) => {
                    let name = if id == 0 {
                        "GC16".to_owned()
                    } else if id == 1 {
                        "GL16".to_owned()
                    } else if id == 2 {
                        "DU4".to_owned()
                    } else if id == 3 {
                        "DU".to_owned()
                    } else if id == 4 {
                        "A2".to_owned()
                    } else if id == 5 {
                        "GCC16".to_owned()
                    } else {
                        "GCU".to_owned()
                    };
                    let phases = lut.phases.clone();
                    assert(phases@ =~= lut.phases@);
                    out.push((name, phases));
                    assert(entries_view(out@) =~= entries_view(before).push((name_of_id(id as int), self.slot(id as int).unwrap().phases@)));
                },
                None => {
                    assert(entries_view(out@) =~= entries_view(before));
                },
            }
            id = id + 1;
        }
        (1, 25, out)
    }
}

/// Loading the first `m` entries reads no further.
proof fn lemma_json_prefix(e1: Seq<(Seq<char>, Seq<LutPhase>)>, e2: Seq<(Seq<char>, Seq<LutPhase>)>, t: i8, m: int)
    requires
        0 <= m <= e1.len(),
        m <= e2.len(),
        forall|k: int| 0 <= k < m ==> e1[k] == e2[k],
    ensures
        json_slots(e1, t, m) == json_slots(e2, t, m),
    decreases m,
{
    if m > 0 {
        lemma_json_prefix(e1, e2, t, m - 1);
    }
}

proof fn lemma_names() 
    ensures
        forall|id: int| 0 <= id < 7 ==> #[trigger] mode_named(name_of_id(id)) == Some(id),
{
    reveal_strlit("GC16");
    reveal_strlit("GL16");
    reveal_strlit("DU4");
    reveal_strlit("DU");
    reveal_strlit("A2");
    reveal_strlit("GCC16");
    reveal_strlit("GCU");
    assert("GL16"@[1] != "GC16"@[1]);
    assert("DU4"@[0] != "GC16"@[0] && "DU4"@[0] != "GL16"@[0]);
    assert("DU"@.len() != "GC16"@.len() && "DU"@.len() != "GL16"@.len() && "DU"@.len() != "DU4"@.len());
    assert("A2"@[0] != "GC16"@[0] && "A2"@[0] != "GL16"@[0] && "A2"@[0] != "DU4"@[0] && "A2"@[0] != "DU"@[0]);
    assert("GCC16"@.len() != "GC16"@.len() && "GCC16"@[1] != "GL16"@[1] && "GCC16"@[0] != "DU4"@[0]
        && "GCC16"@[0] != "DU"@[0] && "GCC16"@[0] != "A2"@[0]);
    assert("GCU"@.len() != "GC16"@.len() && "GCU"@[1] != "GL16"@[1] && "GCU"@[0] != "DU4"@[0]
        && "GCU"@[0] != "DU"@[0] && "GCU"@[0] != "A2"@[0] && "GCU"@.len() != "GCC16"@.len());
    assert(mode_named(name_of_id(0)) == Some(0int));
    assert(mode_named(name_of_id(1)) == Some(1int));
    assert(mode_named(name_of_id(2)) == Some(2int));
    assert(mode_named(name_of_id(3)) == Some(3int));
    assert(mode_named(name_of_id(4)) == Some(4int));
    assert(mode_named(name_of_id(5)) == Some(5int));
    assert(mode_named(name_of_id(6)) == Some(6int));
}

/// The slots that a document of the first `n` slots of `set` loads into:
/// each LUT's phases, for 20..=30°C.
pub open spec fn reloaded_slots(set: WaveformLutSet, n: int) -> LutSlots {
    Seq::new(7, |id: int| if id < n && set.slot(id) is Some {
        Some((set.slot(id).unwrap().phases@, (20i8, 30i8)))
    } else {
        None
    })
}

proof fn lemma_reload_upto(set: WaveformLutSet, n: int)
    requires
        0 <= n <= 7,
        forall|id: int| 0 <= id < 7 && #[trigger] set.slot(id) is Some ==> phases_check(set.slot(id).unwrap().phases@) is Ok,
    ensures
        json_slots(doc_entries(set, n), 25, doc_entries(set, n).len() as int) == Ok::<LutSlots, LutFault>(reloaded_slots(set, n)),
    decreases n,
{
    lemma_names();
    if n == 0 {
        assert(reloaded_slots(set, 0) =~= empty_slots());
    } else {
        lemma_reload_upto(set, n - 1);
        let prev = doc_entries(set, n - 1);
        let cur = doc_entries(set, n);
        lemma_json_prefix(prev, cur, 25, prev.len() as int);
        if set.slot(n - 1) is Some {
            assert(cur.len() == prev.len() + 1);
            assert(mode_named(cur[prev.len() as int].0) == Some(n - 1));
            assert(reloaded_slots(set, n) =~= reloaded_slots(set, n - 1).update(n - 1, Some((set.slot(n - 1).unwrap().phases@, (20i8, 30i8)))));
        } else {
            assert(cur == prev);
            assert(reloaded_slots(set, n) =~= reloaded_slots(set, n - 1));
        }
    }
}

/// A document written from a set loads back into the same LUTs, each for
/// 20..=30°C (the document's temperature is 25°C), when every LUT is valid.
pub proof fn lemma_json_roundtrip(set: WaveformLutSet)
    requires
        forall|id: int| 0 <= id < 7 && #[trigger] set.slot(id) is Some ==> phases_check(set.slot(id).unwrap().phases@) is Ok,
    ensures
        json_load(1, 25, doc_entries(set, 7)) == Ok::<LutSlots, LutFault>(reloaded_slots(set, 7)),
{
    lemma_reload_upto(set, 7);
}

} // verus!
