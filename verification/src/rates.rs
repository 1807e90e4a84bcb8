use vstd::prelude::*;

use crate::error::ConfigError;
use crate::sizes::lemma_u32_mul_fits_u64;
use crate::sizes::ScreenSize;

verus! {

/// One refresh rate for a given resolution. `freq` is the effective rate in
/// Hz derived from a mode descriptor's timing fields; `freq_index` is the raw
/// server-native rate value required to request this rate, and is meaningful
/// only paired with the `ScreenSize` it was derived for.
#[derive(Clone, Copy, Debug, PartialEq, Eq, Structural)]
pub struct RefreshRate {
    pub freq: u32,
    pub freq_index: i16,
}

/// One raw timing-mode record from the server's mode-descriptor catalog. It
/// is used only to derive an effective refresh rate from the pixel clock and
/// the horizontal and vertical totals, and is not retained past that use.
#[derive(Clone, Copy, Debug, PartialEq, Eq, Structural)]
pub struct ModeDescriptor {
    pub id: u64,
    pub width: u32,
    pub height: u32,
    pub dot_clock: u64,
    pub h_total: u32,
    pub v_total: u32,
}

/// Whether a mode descriptor describes the given resolution.
pub open spec fn mode_matches(m: ModeDescriptor, target: ScreenSize) -> bool {
    m.width == target.width && m.height == target.height
}

/// The mode descriptors that describe the given resolution, in catalog order.
pub open spec fn matching_modes(modes: Seq<ModeDescriptor>, target: ScreenSize) -> Seq<ModeDescriptor>
    decreases modes.len(),
{
    if modes.len() == 0 {
        Seq::empty()
    } else {
        let rest = matching_modes(modes.drop_last(), target);
        if mode_matches(modes.last(), target) {
            rest.push(modes.last())
        } else {
            rest
        }
    }
}

/// The divisor of a mode's rate computation: horizontal total times vertical
/// total.
pub open spec fn timing_divisor(m: ModeDescriptor) -> int {
    (m.h_total as int) * (m.v_total as int)
}

/// The effective refresh rate of one timing mode: the pixel clock divided by
/// the product of the horizontal and vertical totals, truncated to 32 bits as
/// the server convention has it.
pub open spec fn mode_rate(m: ModeDescriptor) -> u32
    recommends
        timing_divisor(m) != 0,
{
    (((m.dot_clock as int) / timing_divisor(m)) % 0x1_0000_0000) as u32
}

/// Computes `mode_rate` executably. The timing totals must be non-zero: a
/// descriptor with a zero total admits no rate.
pub fn compute_mode_rate(m: &ModeDescriptor) -> (rate: u32)
    requires
        m.h_total > 0,
        m.v_total > 0,
    ensures
        rate == mode_rate(*m),
{
    proof {
        lemma_u32_mul_fits_u64(m.h_total, m.v_total);
        assert(timing_divisor(*m) > 0) by (nonlinear_arith)
            requires
                m.h_total > 0,
                m.v_total > 0;
    }
    let divisor: u64 = (m.h_total as u64) * (m.v_total as u64);
    let quotient: u64 = m.dot_clock / divisor;
    (quotient % 0x1_0000_0000) as u32
}

/// Reads one descriptor out of the catalog; an index at or beyond the
/// catalog's reported count is invalid input.
pub fn mode_info_get(modes: &Vec<ModeDescriptor>, index: usize) -> (result: Result<
    ModeDescriptor,
    ConfigError,
>)
    ensures
        match result {
            Ok(m) => index < modes@.len() && m == modes@[index as int],
            Err(e) => e == ConfigError::InvalidInput && index >= modes@.len(),
        },
{
    if index >= modes.len() {
        Err(ConfigError::InvalidInput)
    } else {
        Ok(modes[index])
    }
}

/// Extending a catalog prefix by one descriptor extends its matching
/// subsequence exactly when the new descriptor matches the target.
proof fn lemma_matching_take_succ(modes: Seq<ModeDescriptor>, target: ScreenSize, i: int)
    requires
        0 <= i < modes.len(),
    ensures
        matching_modes(modes.take(i + 1), target) == if mode_matches(modes[i], target) {
            matching_modes(modes.take(i), target).push(modes[i])
        } else {
            matching_modes(modes.take(i), target)
        },
{
    assert(modes.take(i + 1).drop_last() =~= modes.take(i));
    assert(modes.take(i + 1).last() == modes[i]);
}

/// A prefix of the catalog never has more matching descriptors than the whole
/// catalog.
proof fn lemma_matching_take_len(modes: Seq<ModeDescriptor>, target: ScreenSize, i: int)
    requires
        0 <= i <= modes.len(),
    ensures
        matching_modes(modes.take(i), target).len() <= matching_modes(modes, target).len(),
    decreases modes.len() - i,
{
    if i == modes.len() {
        assert(modes.take(i) =~= modes);
    } else {
        lemma_matching_take_succ(modes, target, i);
        lemma_matching_take_len(modes, target, i + 1);
    }
}

/// Pairs the server's two independently-ordered lists for one resolution: the
/// raw refresh-rate values fetched for `target`, and the mode descriptors of
/// the whole screen filtered down to those matching `target`.
///
/// The pairing is strictly positional — the i-th matching descriptor's
/// computed rate is labelled with the i-th raw rate value. The server gives
/// no explicit cross-reference between the lists, so this depends on the
/// server preserving matching order between them; the only violation this
/// code can detect is a length mismatch, which fails the whole operation
/// rather than truncating or wrapping.
pub fn correlate_rates(
    raw_rates: &Vec<i16>,
    modes: &Vec<ModeDescriptor>,
    target: &ScreenSize,
) -> (result: Result<Vec<RefreshRate>, ConfigError>)
    requires
        forall|i: int|
            0 <= i < modes@.len() ==> modes@[i].h_total > 0 && modes@[i].v_total > 0,
    ensures
        match result {
            Ok(rates) => {
                &&& raw_rates@.len() > 0
                &&& matching_modes(modes@, *target).len() <= raw_rates@.len()
                &&& rates@.len() == matching_modes(modes@, *target).len()
                &&& forall|i: int|
                    0 <= i < rates@.len() ==> rates@[i] == (RefreshRate {
                        freq: mode_rate(matching_modes(modes@, *target)[i]),
                        freq_index: raw_rates@[i],
                    })
            },
            Err(e) => match e {
                ConfigError::NotFound => raw_rates@.len() == 0,
                ConfigError::InvalidData => raw_rates@.len() > 0 && matching_modes(
                    modes@,
                    *target,
                ).len() > raw_rates@.len(),
                _ => false,
            },
        },
{
    if raw_rates.len() == 0 {
        return Err(ConfigError::NotFound);
    }

    let num_modes: usize = modes.len();
    let mut refresh_rates: Vec<RefreshRate> = Vec::new();
    let mut freq_index: usize = 0;
    let mut i: usize = 0;
    while i < num_modes
        invariant
            i <= num_modes,
            num_modes == modes@.len(),
            raw_rates@.len() > 0,
            forall|j: int|
                0 <= j < modes@.len() ==> modes@[j].h_total > 0 && modes@[j].v_total > 0,
            freq_index == matching_modes(modes@.take(i as int), *target).len(),
            freq_index <= raw_rates@.len(),
            refresh_rates@.len() == freq_index,
            forall|k: int|
                0 <= k < freq_index ==> refresh_rates@[k] == (RefreshRate {
                    freq: mode_rate(matching_modes(modes@.take(i as int), *target)[k]),
                    freq_index: raw_rates@[k],
                }),
        decreases num_modes - i,
    {
        let mode_info = match mode_info_get(modes, i) {
            Ok(m) => m,
            Err(e) => return Err(e),
        };
        let refresh_rate: u32 = compute_mode_rate(&mode_info);

        proof {
            lemma_matching_take_succ(modes@, *target, i as int);
        }

        if mode_info.width == target.width && mode_info.height == target.height {
            if freq_index >= raw_rates.len() {
                proof {
                    lemma_matching_take_len(modes@, *target, i + 1 as int);
                }
                return Err(ConfigError::InvalidData);
            }
            refresh_rates.push(RefreshRate { freq: refresh_rate, freq_index: raw_rates[freq_index] });
            freq_index = freq_index + 1;
        }
        i = i + 1;
    }
    proof {
        assert(modes@.take(num_modes as int) =~= modes@);
    }
    Ok(refresh_rates)
}

/// Position `i` holds the selected rate: no entry has a higher frequency, and
/// every earlier entry has a strictly lower one (ties go to the first entry
/// encountered).
pub open spec fn best_rate_at(rates: Seq<RefreshRate>, i: int) -> bool {
    &&& 0 <= i < rates.len()
    &&& forall|j: int| 0 <= j < rates.len() ==> rates[j].freq <= rates[i].freq
    &&& forall|j: int| 0 <= j < i ==> rates[j].freq < rates[i].freq
}

/// Selects the numerically highest frequency from a non-empty rate catalog;
/// ties are broken by the first entry encountered, so the choice is
/// deterministic for a given catalog.
pub fn select_best_rate(rates: &Vec<RefreshRate>) -> (best: RefreshRate)
    requires
        rates@.len() > 0,
    ensures
        exists|i: int| best_rate_at(rates@, i) && best == rates@[i],
{
    let mut best: RefreshRate = rates[0];
    let mut best_idx: usize = 0;
    let mut j: usize = 1;
    while j < rates.len()
        invariant
            1 <= j <= rates@.len(),
            best_idx < j,
            best == rates@[best_idx as int],
            forall|k: int| 0 <= k < j ==> rates@[k].freq <= best.freq,
            forall|k: int| 0 <= k < best_idx ==> rates@[k].freq < best.freq,
        decreases rates@.len() - j,
    {
        if rates[j].freq > best.freq {
            best = rates[j];
            best_idx = j;
        }
        j = j + 1;
    }
    proof {
        assert(best_rate_at(rates@, best_idx as int));
    }
    best
}

/// Law: the rate choice is a function of the catalog alone. Any two values
/// that satisfy `select_best_rate`'s postcondition on the same catalog are
/// equal, so identical server-reported catalogs select identical rates across
/// runs.
pub proof fn lemma_rate_selection_deterministic(rates: Seq<RefreshRate>, a: RefreshRate, b: RefreshRate)
    requires
        exists|i: int| best_rate_at(rates, i) && a == rates[i],
        exists|i: int| best_rate_at(rates, i) && b == rates[i],
    ensures
        a == b,
{
    let ia = choose|i: int| best_rate_at(rates, i) && a == rates[i];
    let ib = choose|i: int| best_rate_at(rates, i) && b == rates[i];
    if ia < ib {
        assert(rates[ia].freq < rates[ib].freq);
        assert(rates[ib].freq <= rates[ia].freq);
    }
    if ib < ia {
        assert(rates[ib].freq < rates[ia].freq);
        assert(rates[ia].freq <= rates[ib].freq);
    }
}

} // verus!
