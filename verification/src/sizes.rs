use vstd::prelude::*;

use crate::error::ConfigError;

verus! {

/// One size record exactly as the display server reports it: signed native
/// integers, before any narrowing.
#[derive(Clone, Copy, Debug, PartialEq, Eq, Structural)]
pub struct RawSize {
    pub width: i32,
    pub height: i32,
}

/// One supported resolution. `size_index` is the server-assigned position
/// later required to request this size; it has no meaning outside the
/// connection and screen it was enumerated for.
#[derive(Clone, Copy, Debug, PartialEq, Eq, Structural)]
pub struct ScreenSize {
    pub width: u32,
    pub height: u32,
    pub size_index: i32,
}

/// Whether a raw size narrows to unsigned 32-bit values without loss.
pub open spec fn size_fits(r: RawSize) -> bool {
    0 <= r.width && 0 <= r.height
}

/// The narrowed catalog: each raw entry reinterpreted as unsigned, with its
/// position recorded as the server-native size index.
pub open spec fn narrowed(raw: Seq<RawSize>) -> Seq<ScreenSize> {
    Seq::new(raw.len(), |i: int| ScreenSize {
        width: raw[i].width as u32,
        height: raw[i].height as u32,
        size_index: i as i32,
    })
}

/// The pixel area of a resolution.
pub open spec fn area(s: ScreenSize) -> int {
    (s.width as int) * (s.height as int)
}

/// Position `i` holds the selected resolution: no entry has a larger area,
/// and every earlier entry has a strictly smaller one (ties go to the first
/// entry encountered).
pub open spec fn best_size_at(sizes: Seq<ScreenSize>, i: int) -> bool {
    &&& 0 <= i < sizes.len()
    &&& forall|j: int| 0 <= j < sizes.len() ==> area(sizes[j]) <= area(sizes[i])
    &&& forall|j: int| 0 <= j < i ==> area(sizes[j]) < area(sizes[i])
}

/// The product of two unsigned 32-bit values fits in 64 bits.
pub(crate) proof fn lemma_u32_mul_fits_u64(x: u32, y: u32)
    by (nonlinear_arith)
    ensures
        0 <= (x as int) * (y as int),
        (x as int) * (y as int) < 0x1_0000_0000_0000_0000,
{
}

/// The pixel area of a resolution, as the server convention computes it;
/// 64-bit so that no product of 32-bit dimensions can overflow.
fn area_of(s: &ScreenSize) -> (a: u64)
    ensures
        a == area(*s),
{
    proof {
        lemma_u32_mul_fits_u64(s.width, s.height);
    }
    (s.width as u64) * (s.height as u64)
}

/// Narrows every raw server size to unsigned 32-bit width and height,
/// preserving the server's ordering positionally: the index of each entry
/// becomes its `size_index`. Any value out of range fails the whole call; a
/// partial catalog is never returned.
pub fn narrow_sizes(raw: &Vec<RawSize>) -> (result: Result<Vec<ScreenSize>, ConfigError>)
    requires
        raw@.len() <= i32::MAX as int,
    ensures
        match result {
            Ok(sizes) => {
                &&& forall|i: int| 0 <= i < raw@.len() ==> size_fits(raw@[i])
                &&& sizes@ == narrowed(raw@)
            },
            Err(e) => {
                &&& e == ConfigError::Other
                &&& exists|i: int| 0 <= i < raw@.len() && !size_fits(raw@[i])
            },
        },
{
    let mut safe_sizes: Vec<ScreenSize> = Vec::new();
    let mut i: usize = 0;
    while i < raw.len()
        invariant
            i <= raw@.len(),
            raw@.len() <= i32::MAX as int,
            safe_sizes@ == narrowed(raw@).take(i as int),
            forall|j: int| 0 <= j < i ==> size_fits(raw@[j]),
        decreases raw@.len() - i,
    {
        let size = raw[i];
        if size.width < 0 || size.height < 0 {
            return Err(ConfigError::Other);
        }
        safe_sizes.push(ScreenSize {
            width: size.width as u32,
            height: size.height as u32,
            size_index: i as i32,
        });
        proof {
            assert(safe_sizes@ =~= narrowed(raw@).take(i + 1 as int));
        }
        i = i + 1;
    }
    proof {
        assert(safe_sizes@ =~= narrowed(raw@));
    }
    Ok(safe_sizes)
}

/// Selects the resolution with the largest pixel area; ties are broken by the
/// first entry encountered, so the choice is deterministic for a given
/// catalog. An empty catalog means the server advertises no usable size.
pub fn select_best_size(sizes: &Vec<ScreenSize>) -> (result: Result<ScreenSize, ConfigError>)
    ensures
        match result {
            Ok(best) => exists|i: int| best_size_at(sizes@, i) && best == sizes@[i],
            Err(e) => e == ConfigError::Unsupported && sizes@.len() == 0,
        },
{
    if sizes.len() == 0 {
        return Err(ConfigError::Unsupported);
    }
    let mut best: ScreenSize = sizes[0];
    let mut best_area: u64 = area_of(&best);
    let mut best_idx: usize = 0;
    let mut j: usize = 1;
    while j < sizes.len()
        invariant
            1 <= j <= sizes@.len(),
            best_idx < j,
            best == sizes@[best_idx as int],
            best_area == area(best),
            forall|k: int| 0 <= k < j ==> area(sizes@[k]) <= area(best),
            forall|k: int| 0 <= k < best_idx ==> area(sizes@[k]) < area(best),
        decreases sizes@.len() - j,
    {
        let candidate_area: u64 = area_of(&sizes[j]);
        if candidate_area > best_area {
            best = sizes[j];
            best_area = candidate_area;
            best_idx = j;
        }
        j = j + 1;
    }
    proof {
        assert(best_size_at(sizes@, best_idx as int));
    }
    Ok(best)
}

/// Law: the resolution choice is a function of the catalog alone. Any two
/// values that satisfy `select_best_size`'s postcondition on the same catalog
/// are equal, so identical server-reported catalogs select identical
/// resolutions across runs.
pub proof fn lemma_size_selection_deterministic(sizes: Seq<ScreenSize>, a: ScreenSize, b: ScreenSize)
    requires
        exists|i: int| best_size_at(sizes, i) && a == sizes[i],
        exists|i: int| best_size_at(sizes, i) && b == sizes[i],
    ensures
        a == b,
{
    let ia = choose|i: int| best_size_at(sizes, i) && a == sizes[i];
    let ib = choose|i: int| best_size_at(sizes, i) && b == sizes[i];
    if ia < ib {
        assert(area(sizes[ia]) < area(sizes[ib]));
        assert(area(sizes[ib]) <= area(sizes[ia]));
    }
    if ib < ia {
        assert(area(sizes[ib]) < area(sizes[ia]));
        assert(area(sizes[ia]) <= area(sizes[ib]));
    }
}

} // verus!
