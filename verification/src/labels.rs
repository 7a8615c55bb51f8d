//! Label-file lines: one line per distinct robot class, each field printed
//! with exactly two decimals.
//!
//! The line layout is `cx cy cz depth width height 0.00 LABEL` followed by
//! a newline. When several located detections share a class, the last one
//! wins; lines are emitted in the fixed class order, so the same set of
//! located detections always produces the same bytes.

use vstd::prelude::*;
use crate::rat::Rat;
use crate::locator::{RobotLabel, RobotLocation};

verus! {

/// The decimal digits of a non-negative integer, most significant first.
pub open spec fn spec_digits(n: int) -> Seq<u8>
    decreases n,
{
    if n <= 9 {
        seq![(48 + if n < 0 { 0 } else { n }) as u8]
    } else {
        spec_digits(n / 10).push((48 + n % 10) as u8)
    }
}

/// Append the decimal digits of `n`.
pub fn push_digits(out: &mut Vec<u8>, n: u64)
    ensures
        final(out)@ == old(out)@ + spec_digits(n as int),
    decreases n,
{
    if n <= 9 {
        out.push(48 + (n as u8));
        proof {
            assert(out@ =~= old(out)@ + spec_digits(n as int));
        }
    } else {
        push_digits(out, n / 10);
        out.push(48 + ((n % 10) as u8));
        proof {
            assert(out@ =~= old(out)@ + spec_digits(n as int));
        }
    }
}

/// The hundredths-scaled magnitude of `r`, rounded half away from zero:
/// the integer nearest to `100 * |r|`.
pub open spec fn spec_hundredths(r: Rat) -> int {
    (200 * crate::rat::iabs(r.num as int) + r.den) / (2 * (r.den as int))
}

/// The two-decimal rendering of `r`: an optional minus sign, the integer
/// part, a point, and exactly two fractional digits.
#[verifier::opaque]
pub open spec fn spec_decimal2(r: Rat) -> Seq<u8> {
    let s = spec_hundredths(r);
    let sign: Seq<u8> = if r.num < 0 && s != 0 { seq![45u8] } else { Seq::empty() };
    sign + spec_digits(s / 100) + seq![46u8] + spec_digits((s % 100) / 10)
        + spec_digits(s % 10)
}

/// Append the two-decimal rendering of `r`.
pub fn push_decimal2(out: &mut Vec<u8>, r: &Rat)
    requires
        r.wf(),
    ensures
        final(out)@ == old(out)@ + spec_decimal2(*r),
{
    let n_abs: u64 = if r.num < 0 {
        (-r.num) as u64
    } else {
        r.num as u64
    };
    let den: u64 = r.den as u64;
    proof {
        assert(200 * (n_abs as int) + den as int <= 200 * 0x4000_0000_0000_0000
            + 0x4000_0000_0000_0000) by (nonlinear_arith)
            requires
                n_abs <= 0x4000_0000_0000_0000,
                0 < den <= 0x4000_0000_0000_0000;
    }
    let wide: u128 = 200 * (n_abs as u128) + (den as u128);
    let s128: u128 = wide / (2 * (den as u128));
    proof {
        let si = spec_hundredths(*r);
        assert(s128 as int == si);
        vstd::arithmetic::div_mod::lemma_fundamental_div_mod(
            200 * (n_abs as int) + den as int, 2 * (den as int));
        assert(si >= 0) by (nonlinear_arith)
            requires
                200 * (n_abs as int) + den as int == 2 * (den as int) * si
                    + (200 * (n_abs as int) + den as int) % (2 * (den as int)),
                0 <= (200 * (n_abs as int) + den as int) % (2 * (den as int)),
                n_abs >= 0,
                den > 0;
        assert(si <= 201 * 0x4000_0000_0000_0000) by (nonlinear_arith)
            requires
                200 * (n_abs as int) + den as int == 2 * (den as int) * si
                    + (200 * (n_abs as int) + den as int) % (2 * (den as int)),
                0 <= (200 * (n_abs as int) + den as int) % (2 * (den as int)),
                si >= 0,
                n_abs <= 0x4000_0000_0000_0000,
                0 < den <= 0x4000_0000_0000_0000;
    }
    proof {
        reveal(spec_decimal2);
    }
    let s: u128 = s128;
    let ghost start = out@;
    if r.num < 0 && s != 0 {
        out.push(45);
    }
    push_digits(out, (s / 100) as u64);
    out.push(46);
    push_digits(out, ((s % 100) / 10) as u64);
    push_digits(out, (s % 10) as u64);
    proof {
        assert(out@ =~= start + spec_decimal2(*r));
    }
}

/// The abbreviated class name as bytes.
pub open spec fn spec_abbr_bytes(label: RobotLabel) -> Seq<u8> {
    match label {
        RobotLabel::Hero => seq![82u8, 49u8],
        RobotLabel::Engineer => seq![82u8, 50u8],
        RobotLabel::InfantryThree => seq![82u8, 51u8],
        RobotLabel::InfantryFour => seq![82u8, 52u8],
        RobotLabel::InfantryFive => seq![82u8, 53u8],
        RobotLabel::Sentry => seq![82u8, 55u8],
    }
}

/// Append the abbreviated class name.
pub fn push_abbr(out: &mut Vec<u8>, label: &RobotLabel)
    ensures
        final(out)@ == old(out)@ + spec_abbr_bytes(*label),
{
    out.push(82);
    let digit: u8 = match label {
        RobotLabel::Hero => 49,
        RobotLabel::Engineer => 50,
        RobotLabel::InfantryThree => 51,
        RobotLabel::InfantryFour => 52,
        RobotLabel::InfantryFive => 53,
        RobotLabel::Sentry => 55,
    };
    out.push(digit);
    proof {
        assert(out@ =~= old(out)@ + spec_abbr_bytes(*label));
    }
}

/// One label-file line: six two-decimal fields, a literal `0.00`, and the
/// class abbreviation, space separated and newline terminated.
pub open spec fn spec_label_line(label: RobotLabel, loc: RobotLocation) -> Seq<u8> {
    spec_decimal2(loc.center.x) + seq![32u8]
        + spec_decimal2(loc.center.y) + seq![32u8]
        + spec_decimal2(loc.center.z) + seq![32u8]
        + spec_decimal2(loc.depth) + seq![32u8]
        + spec_decimal2(loc.width) + seq![32u8]
        + spec_decimal2(loc.height) + seq![32u8]
        + seq![48u8, 46u8, 48u8, 48u8, 32u8]
        + spec_abbr_bytes(label) + seq![10u8]
}

/// Append one label-file line.
#[verifier::rlimit(100)]
pub fn push_label_line(out: &mut Vec<u8>, label: &RobotLabel, loc: &RobotLocation)
    requires
        loc.wf(),
    ensures
        final(out)@ == old(out)@ + spec_label_line(*label, *loc),
{
    let ghost start = out@;
    push_decimal2(out, &loc.center.x);
    out.push(32);
    let ghost s1 = start + spec_decimal2(loc.center.x) + seq![32u8];
    proof {
        assert(out@ =~= s1);
    }
    push_decimal2(out, &loc.center.y);
    out.push(32);
    let ghost s2 = s1 + spec_decimal2(loc.center.y) + seq![32u8];
    proof {
        assert(out@ =~= s2);
    }
    push_decimal2(out, &loc.center.z);
    out.push(32);
    let ghost s3 = s2 + spec_decimal2(loc.center.z) + seq![32u8];
    proof {
        assert(out@ =~= s3);
    }
    push_decimal2(out, &loc.depth);
    out.push(32);
    let ghost s4 = s3 + spec_decimal2(loc.depth) + seq![32u8];
    proof {
        assert(out@ =~= s4);
    }
    push_decimal2(out, &loc.width);
    out.push(32);
    let ghost s5 = s4 + spec_decimal2(loc.width) + seq![32u8];
    proof {
        assert(out@ =~= s5);
    }
    push_decimal2(out, &loc.height);
    out.push(32);
    let ghost s6 = s5 + spec_decimal2(loc.height) + seq![32u8];
    proof {
        assert(out@ =~= s6);
    }
    out.push(48);
    out.push(46);
    out.push(48);
    out.push(48);
    out.push(32);
    push_abbr(out, label);
    out.push(10);
    proof {
        assert(out@ =~= s6 + seq![48u8, 46u8, 48u8, 48u8, 32u8] + spec_abbr_bytes(*label)
            + seq![10u8]);
        assert(out@ =~= start + spec_label_line(*label, *loc));
    }
}

/// The per-class slots after folding the first `n` located detections:
/// the last detection with a given class wins its slot.
pub open spec fn spec_slots(entries: Seq<(RobotLabel, RobotLocation)>, n: int)
    -> Seq<Option<RobotLocation>>
    decreases n,
{
    if n <= 0 {
        Seq::new(6, |i: int| None)
    } else {
        let prev = spec_slots(entries, n - 1);
        prev.update(entries[n - 1].0.spec_index(), Some(entries[n - 1].1))
    }
}

/// The label of slot `i` (the inverse of `RobotLabel::spec_index`).
pub open spec fn spec_label_of(i: int) -> RobotLabel {
    if i == 0 {
        RobotLabel::Hero
    } else if i == 1 {
        RobotLabel::Engineer
    } else if i == 2 {
        RobotLabel::InfantryThree
    } else if i == 3 {
        RobotLabel::InfantryFour
    } else if i == 4 {
        RobotLabel::InfantryFive
    } else {
        RobotLabel::Sentry
    }
}

fn label_of(i: usize) -> (r: RobotLabel)
    requires
        i < 6,
    ensures
        r == spec_label_of(i as int),
{
    if i == 0 {
        RobotLabel::Hero
    } else if i == 1 {
        RobotLabel::Engineer
    } else if i == 2 {
        RobotLabel::InfantryThree
    } else if i == 3 {
        RobotLabel::InfantryFour
    } else if i == 4 {
        RobotLabel::InfantryFive
    } else {
        RobotLabel::Sentry
    }
}

/// The lines of the slots with index at least `i`, in class order.
pub open spec fn spec_lines_from(slots: Seq<Option<RobotLocation>>, i: int) -> Seq<u8>
    decreases 6 - i,
{
    if i >= 6 || i < 0 {
        Seq::empty()
    } else {
        (match slots[i] {
            None => Seq::empty(),
            Some(loc) => spec_label_line(spec_label_of(i), loc),
        }) + spec_lines_from(slots, i + 1)
    }
}

/// The whole label file for a set of located detections.
pub open spec fn spec_label_file(entries: Seq<(RobotLabel, RobotLocation)>) -> Seq<u8> {
    spec_lines_from(spec_slots(entries, entries.len() as int), 0)
}

/// Render the label file for one frame's located detections. The output
/// is a deterministic function of the input: the same detections always
/// produce byte-identical output, so rewriting a frame's file is
/// idempotent.
pub fn label_file_lines(entries: &Vec<(RobotLabel, RobotLocation)>) -> (out: Vec<u8>)
    requires
        forall|k: int| 0 <= k < entries@.len() ==> (#[trigger] entries@[k]).1.wf(),
    ensures
        out@ == spec_label_file(entries@),
{
    let mut slots: Vec<Option<RobotLocation>> = Vec::new();
    let mut i: usize = 0;
    while i < 6
        invariant
            i <= 6,
            slots.len() == i,
            forall|k: int| 0 <= k < i ==> (#[trigger] slots[k]) is None,
        decreases 6 - i,
    {
        slots.push(None);
        i = i + 1;
    }
    proof {
        assert(slots@ =~= spec_slots(entries@, 0));
    }
    let mut k: usize = 0;
    while k < entries.len()
        invariant
            k <= entries@.len(),
            forall|j: int| 0 <= j < entries@.len() ==> (#[trigger] entries@[j]).1.wf(),
            slots.len() == 6,
            slots@ == spec_slots(entries@, k as int),
        decreases entries@.len() - k,
    {
        let (label, loc) = entries[k];
        let idx = label.index();
        slots[idx] = Some(loc);
        k = k + 1;
    }
    proof {
        assert(forall|j: int| 0 <= j < 6 ==> ((#[trigger] slots@[j]) matches Some(loc)
            ==> loc.wf())) by {
            lemma_slots_wf(entries@, entries@.len() as int);
        }
    }
    let mut out: Vec<u8> = Vec::new();
    let mut i: usize = 6;
    while i > 0
        invariant
            i <= 6,
            slots.len() == 6,
            forall|j: int| 0 <= j < 6 ==> ((#[trigger] slots@[j]) matches Some(loc)
                ==> loc.wf()),
            out@ == spec_lines_from(slots@, i as int),
        decreases i,
    {
        i = i - 1;
        let mut fresh: Vec<u8> = Vec::new();
        match &slots[i] {
            None => {},
            Some(loc) => {
                let label = label_of(i);
                push_label_line(&mut fresh, &label, loc);
            },
        }
        let mut rest = out;
        out = fresh;
        let mut m: usize = 0;
        let ghost rest_view = rest@;
        let ghost fresh_view = out@;
        while m < rest.len()
            invariant
                m <= rest_view.len(),
                rest@ == rest_view,
                out@ == fresh_view + rest_view.subrange(0, m as int),
            decreases rest_view.len() - m,
        {
            let b = rest[m];
            out.push(b);
            proof {
                assert(out@ =~= fresh_view + rest_view.subrange(0, m as int + 1));
            }
            m = m + 1;
        }
        proof {
            assert(rest_view.subrange(0, rest_view.len() as int) =~= rest_view);
            assert(out@ =~= spec_lines_from(slots@, i as int));
        }
    }
    out
}

/// The slot raster always has one cell per robot class.
pub proof fn lemma_slots_len(entries: Seq<(RobotLabel, RobotLocation)>, n: int)
    ensures
        spec_slots(entries, n).len() == 6,
    decreases n,
{
    if n > 0 {
        lemma_slots_len(entries, n - 1);
    }
}

/// Every filled slot holds a well-formed location.
pub proof fn lemma_slots_wf(entries: Seq<(RobotLabel, RobotLocation)>, n: int)
    requires
        n <= entries.len(),
        forall|k: int| 0 <= k < entries.len() ==> (#[trigger] entries[k]).1.wf(),
    ensures
        spec_slots(entries, n).len() == 6,
        forall|j: int| 0 <= j < 6 ==> ((#[trigger] spec_slots(entries, n)[j]) matches Some(loc)
            ==> loc.wf()),
    decreases n,
{
    if n > 0 {
        lemma_slots_wf(entries, n - 1);
    }
}

/// The last located detection with a given class wins that class's line:
/// if entry `k` carries `label` and no later entry does, the slot for
/// `label` holds exactly that entry's location.
pub proof fn lemma_label_last_wins(
    entries: Seq<(RobotLabel, RobotLocation)>,
    k: int,
    n: int,
)
    requires
        0 <= k < n <= entries.len(),
        forall|j: int| k < j < n ==> (#[trigger] entries[j]).0 != entries[k].0,
    ensures
        spec_slots(entries, n)[entries[k].0.spec_index()] == Some(entries[k].1),
    decreases n,
{
    lemma_slots_len(entries, k);
    lemma_slots_len(entries, n - 1);
    if n - 1 > k {
        lemma_label_last_wins(entries, k, n - 1);
        assert(entries[n - 1].0.spec_index() != entries[k].0.spec_index()) by {
            let a = entries[n - 1].0;
            let b = entries[k].0;
            assert(a != b);
            assert(a.spec_index() != b.spec_index());
        }
    }
}

} // verus!
