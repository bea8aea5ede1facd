//! Hardware quirks of display controllers, and which operations trigger
//! them.
//!
//! A quirk fires when the operation's name contains one of its keywords:
//! a rotation glitch on "rotation"; an SPI write hang on "spi_write" or
//! "init"; an uncontrollable refresh rate on "refresh"; a panel-specific
//! quirk on "init" or "vcom"; limited library support on "init". The first
//! two are errors that end a quirk check; the others are warnings.
use vstd::prelude::*;
use vstd::string::StringExecFns;
use vstd::string::StringSliceAdditionalSpecFns;

verus! {

/// A known controller quirk, with its description.
#[derive(Debug, Clone, PartialEq, Eq)]
pub enum Quirk {
    RotationGlitch { description: String },
    SpiWriteHang { description: String },
    UncontrollableRefreshRate { description: String },
    PanelSpecific { description: String },
    LimitedLibrarySupport { description: String },
}

/// The description of a quirk.
pub open spec fn quirk_text(q: Quirk) -> Seq<char> {
    match q {
        Quirk::RotationGlitch { description } => description@,
        Quirk::SpiWriteHang { description } => description@,
        Quirk::UncontrollableRefreshRate { description } => description@,
        Quirk::PanelSpecific { description } => description@,
        Quirk::LimitedLibrarySupport { description } => description@,
    }
}

/// `n` occurs in `h`.
pub open spec fn has_sub(h: Seq<u8>, n: Seq<u8>) -> bool {
    exists|i: int| 0 <= i && i + n.len() <= h.len() && #[trigger] h.subrange(i, i + n.len()) == n
}

/// Whether operation `op` (its bytes) triggers quirk `q`.
pub open spec fn fires(q: Quirk, op: Seq<u8>) -> bool {
    match q {
        Quirk::RotationGlitch { .. } => has_sub(op, "rotation".spec_bytes()),
        Quirk::SpiWriteHang { .. } => has_sub(op, "spi_write".spec_bytes()) || has_sub(op, "init".spec_bytes()),
        Quirk::UncontrollableRefreshRate { .. } => has_sub(op, "refresh".spec_bytes()),
        Quirk::PanelSpecific { .. } => has_sub(op, "init".spec_bytes()) || has_sub(op, "vcom".spec_bytes()),
        Quirk::LimitedLibrarySupport { .. } => has_sub(op, "init".spec_bytes()),
    }
}

/// Whether quirk `q`, once fired, is an error that ends a quirk check.
pub open spec fn is_error(q: Quirk) -> bool {
    q is RotationGlitch || q is SpiWriteHang
}

/// The first of the first `n` quirks that fires as an error.
pub open spec fn first_error(qs: Seq<Quirk>, op: Seq<u8>, n: int) -> Option<int>
    decreases n,
{
    if n <= 0 {
        None
    } else {
        match first_error(qs, op, n - 1) {
            Some(k) => Some(k),
            None => if fires(qs[n - 1], op) && is_error(qs[n - 1]) { Some(n - 1) } else { None },
        }
    }
}

/// The indices of the first `n` quirks that fire, in order.
pub open spec fn fired_upto(qs: Seq<Quirk>, op: Seq<u8>, n: int) -> Seq<usize>
    decreases n,
{
    if n <= 0 {
        Seq::empty()
    } else if fires(qs[n - 1], op) {
        fired_upto(qs, op, n - 1).push((n - 1) as usize)
    } else {
        fired_upto(qs, op, n - 1)
    }
}

/// The quirks a check goes through: up to and including the first error,
/// or all of them.
pub open spec fn checked_len(qs: Seq<Quirk>, op: Seq<u8>) -> int {
    match first_error(qs, op, qs.len() as int) {
        Some(k) => k + 1,
        None => qs.len() as int,
    }
}

/// The first `k + 1` quirks hold exactly one error, the last: then it is
/// the first error among any longer prefix.
proof fn lemma_first_error_stable(qs: Seq<Quirk>, op: Seq<u8>, k: int, n: int)
    requires
        0 <= k < n,
        first_error(qs, op, k + 1) == Some(k),
    ensures
        first_error(qs, op, n) == Some(k),
    decreases n,
{
    if n > k + 1 {
        lemma_first_error_stable(qs, op, k, n - 1);
    }
}

/// A check that meets its first error at quirk `k` stops there.
proof fn lemma_first_error_stops(qs: Seq<Quirk>, op: Seq<u8>, k: int)
    requires
        0 <= k < qs.len(),
        first_error(qs, op, k) is None,
        fires(qs[k], op),
        is_error(qs[k]),
    ensures
        first_error(qs, op, qs.len() as int) == Some(k),
        checked_len(qs, op) == k + 1,
{
    lemma_first_error_stable(qs, op, k, qs.len() as int);
}

/// The message of an error quirk: `⚠️  QUIRK TRIGGERED: ` and its
/// description.
pub open spec fn quirk_error_text(description: Seq<char>) -> Seq<char> {
    "⚠️  QUIRK TRIGGERED: "@ + description
}

/// The error message of a quirk: its description after the fixed prefix.
fn quirk_error_message(description: &String) -> (r: String)
    ensures
        r@ == quirk_error_text(description@),
{
    String::from_str("⚠️  QUIRK TRIGGERED: ").concat(description.as_str())
}

/// Whether `n` occurs in `h` at `i`.
fn matches_at(h: &[u8], n: &[u8], i: usize) -> (r: bool)
    requires
        i + n@.len() <= h@.len() <= usize::MAX,
    ensures
        r == (h@.subrange(i as int, i + n@.len()) == n@),
{
    let mut j: usize = 0;
    while j < n.len()
        invariant
            i + n@.len() <= h@.len() <= usize::MAX,
            j <= n@.len(),
            forall|t: int| 0 <= t < j ==> h@[i + t] == n@[t],
        decreases n@.len() - j,
    {
        if h[i + j] != n[j] {
            assert(h@.subrange(i as int, i + n@.len())[j as int] != n@[j as int]);
            return false;
        }
        j = j + 1;
    }
    assert(h@.subrange(i as int, i + n@.len()) =~= n@);
    true
}

/// Whether `n` occurs in `h`.
pub fn contains_bytes(h: &[u8], n: &[u8]) -> (r: bool)
    ensures
        r == has_sub(h@, n@),
{
    if n.len() > h.len() {
        return false;
    }
    let last = h.len() - n.len();
    let mut i: usize = 0;
    loop
        invariant
            last == h@.len() - n@.len(),
            h@.len() <= usize::MAX,
            i <= last,
            forall|k: int| 0 <= k < i ==> #[trigger] h@.subrange(k, k + n@.len()) != n@,
        ensures
            forall|k: int| 0 <= k <= last ==> #[trigger] h@.subrange(k, k + n@.len()) != n@,
        decreases last - i,
    {
        if matches_at(h, n, i) {
            return true;
        }
        if i == last {
            break;
        }
        i = i + 1;
    }
    false
}

/// Whether `operation` fires quirk `q`.
fn quirk_fires(q: &Quirk, operation: &str) -> (r: bool)
    ensures
        r == fires(*q, operation.spec_bytes()),
{
    let op = operation.as_bytes();
    match q {
        Quirk::RotationGlitch { .. } => contains_bytes(op, "rotation".as_bytes()),
        Quirk::SpiWriteHang { .. } => contains_bytes(op, "spi_write".as_bytes()) || contains_bytes(op, "init".as_bytes()),
        Quirk::UncontrollableRefreshRate { .. } => contains_bytes(op, "refresh".as_bytes()),
        Quirk::PanelSpecific { .. } => contains_bytes(op, "init".as_bytes()) || contains_bytes(op, "vcom".as_bytes()),
        Quirk::LimitedLibrarySupport { .. } => contains_bytes(op, "init".as_bytes()),
    }
}

/// Whether quirk `q` is an error.
fn quirk_is_error(q: &Quirk) -> (r: bool)
    ensures
        r == is_error(*q),
{
    match q {
        Quirk::RotationGlitch { .. } | Quirk::SpiWriteHang { .. } => true,
        _ => false,
    }
}

/// The description of a quirk.
fn quirk_description(q: &Quirk) -> (r: &String)
    ensures
        r@ == quirk_text(*q),
{
    match q {
        Quirk::RotationGlitch { description } => description,
        Quirk::SpiWriteHang { description } => description,
        Quirk::UncontrollableRefreshRate { description } => description,
        Quirk::PanelSpecific { description } => description,
        Quirk::LimitedLibrarySupport { description } => description,
    }
}

/// Go through `quirks` in order for `operation`: each quirk that the
/// operation triggers is recorded, and the first that is an error ends the
/// check with its message. Returns the result, the indices of the quirks
/// triggered and the description of the last of them.
pub fn check_quirk_list(quirks: &[Quirk], operation: &str) -> (r: (Result<(), String>, Vec<usize>, Option<String>))
    ensures
        ({
            let qs = quirks@;
            let op = operation.spec_bytes();
            let fired = fired_upto(qs, op, checked_len(qs, op));
            &&& r.1@ == fired
            &&& match first_error(qs, op, qs.len() as int) {
                Some(k) => r.0 matches Err(m) && m@ == quirk_error_text(quirk_text(qs[k])),
                None => r.0 is Ok,
            }
            &&& fired.len() == 0 ==> r.2 is None
            &&& fired.len() > 0 ==> (r.2 matches Some(s) && s@ == quirk_text(qs[fired.last() as int]))
        }),
{
    let ghost op = operation.spec_bytes();
    let mut fired: Vec<usize> = Vec::new();
    let mut active: Option<String> = None;
    let mut i: usize = 0;
    while i < quirks.len()
        invariant
            i <= quirks@.len(),
            op == operation.spec_bytes(),
            first_error(quirks@, op, i as int) is None,
            fired@ == fired_upto(quirks@, op, i as int),
            fired@.len() == 0 <==> active is None,
            fired@.len() > 0 ==> (active matches Some(s) && s@ == quirk_text(quirks@[fired@.last() as int])),
        decreases quirks@.len() - i,
    {
        let q = &quirks[i];
        if quirk_fires(q, operation) {
            fired.push(i);
            let description = quirk_description(q);
            active = Some(description.clone());
            if quirk_is_error(q) {
                let message = quirk_error_message(description);
                proof {
                    lemma_first_error_stops(quirks@, op, i as int);
                }
                return (Err(message), fired, active);
            }
        }
        i = i + 1;
    }
    (Ok(()), fired, active)
}

} // verus!
