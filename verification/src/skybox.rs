//! Skybox cubemap cycling.
//!
//! A fixed list of cubemap textures is cycled on a timer: starting from the
//! entry after the current one, the first whose required compressed-texture
//! format the hardware supports becomes the next skybox; if the search wraps
//! back to the current entry, no swap happens. Once the engine reports the
//! requested image loaded, a flat stacked 2D image is reinterpreted as a cube
//! texture array.

use vstd::prelude::*;

verus! {

/// No compressed-texture capability is required (plain PNG).
pub const FORMAT_NONE: u32 = 0;
/// Bit for ASTC LDR compressed-texture support.
pub const FORMAT_ASTC_LDR: u32 = 1;
/// Bit for BC compressed-texture support.
pub const FORMAT_BC: u32 = 2;
/// Bit for ETC2 compressed-texture support.
pub const FORMAT_ETC2: u32 = 4;

/// A required format is available when every one of its bits is among the
/// supported bits.
pub open spec fn format_supported(required: u32, supported: u32) -> bool {
    required & supported == required
}

/// Whether the hardware's supported-format bitset covers a requirement.
pub fn supports_format(supported: u32, required: u32) -> (r: bool)
    ensures
        r == format_supported(required, supported),
{
    required & supported == required
}

/// The index the cyclic search settles on when it starts `off` steps past
/// `index`: the first candidate whose format is supported, or `index` itself
/// when the search comes back around.
pub open spec fn spec_select_from(formats: Seq<u32>, index: int, supported: u32, off: int) -> int
    decreases formats.len() - off,
{
    if off >= formats.len() {
        index
    } else if format_supported(formats[(index + off) % (formats.len() as int)], supported) {
        (index + off) % (formats.len() as int)
    } else {
        spec_select_from(formats, index, supported, off + 1)
    }
}

/// The index after one swap attempt: the first entry past `index` (cyclically)
/// whose required format is supported, or `index` when none is.
pub open spec fn spec_select_next(formats: Seq<u32>, index: int, supported: u32) -> int {
    spec_select_from(formats, index, supported, 1)
}

/// Advances a cyclic index over a list of required formats, picking the first
/// entry after `index` whose format the `supported` bitset covers. Returns
/// `index` unchanged when no other entry qualifies.
pub fn select_next(formats: &Vec<u32>, index: usize, supported: u32) -> (new_index: usize)
    requires
        formats@.len() > 0,
        index < formats@.len(),
    ensures
        new_index as int == spec_select_next(formats@, index as int, supported),
        new_index < formats@.len(),
{
    let len: usize = formats.len();
    let mut off: usize = 1;
    while off < len
        invariant
            1 <= off <= len,
            index < len,
            len == formats@.len(),
            spec_select_next(formats@, index as int, supported) == spec_select_from(
                formats@,
                index as int,
                supported,
                off as int,
            ),
        decreases len - off,
    {
        let cand: usize = if off < len - index {
            index + off
        } else {
            off - (len - index)
        };
        proof {
            if index + off < len {
                vstd::arithmetic::div_mod::lemma_small_mod((index + off) as nat, len as nat);
            } else {
                vstd::arithmetic::div_mod::lemma_mod_sub_multiples_vanish(
                    index + off,
                    len as int,
                );
                vstd::arithmetic::div_mod::lemma_small_mod(
                    (index + off - len) as nat,
                    len as nat,
                );
            }
            assert(cand as int == (index + off) % (len as int));
        }
        if supports_format(supported, formats[cand]) {
            return cand;
        }
        off = off + 1;
    }
    index
}

/// The index after `n` swap attempts in a row, each starting where the last
/// one ended.
pub open spec fn spec_swaps(formats: Seq<u32>, index: int, supported: u32, n: nat) -> int
    decreases n,
{
    if n == 0 {
        index
    } else {
        spec_select_next(formats, spec_swaps(formats, index, supported, (n - 1) as nat), supported)
    }
}

/// With every format supported, one swap moves the index exactly one step
/// forward, cyclically.
pub proof fn lemma_select_all_supported(formats: Seq<u32>, index: int, supported: u32)
    requires
        0 < formats.len(),
        0 <= index < formats.len(),
        forall|j: int| 0 <= j < formats.len() ==> format_supported(#[trigger] formats[j], supported),
    ensures
        spec_select_next(formats, index, supported) == (index + 1) % (formats.len() as int),
{
    let len = formats.len() as int;
    if len == 1 {
        assert(index == 0);
        vstd::arithmetic::div_mod::lemma_mod_bound(index + 1, len);
    } else {
        vstd::arithmetic::div_mod::lemma_mod_bound(index + 1, len);
        assert(format_supported(formats[(index + 1) % len], supported));
    }
}

/// Law: after `n` consecutive swaps with every format supported, the index is
/// the initial index plus `n`, modulo the list length.
pub proof fn lemma_swaps_all_supported(formats: Seq<u32>, index: int, supported: u32, n: nat)
    requires
        0 < formats.len(),
        0 <= index < formats.len(),
        forall|j: int| 0 <= j < formats.len() ==> format_supported(#[trigger] formats[j], supported),
    ensures
        spec_swaps(formats, index, supported, n) == (index + n) % (formats.len() as int),
    decreases n,
{
    let len = formats.len() as int;
    if n == 0 {
        vstd::arithmetic::div_mod::lemma_small_mod(index as nat, len as nat);
    } else {
        lemma_swaps_all_supported(formats, index, supported, (n - 1) as nat);
        let prev = spec_swaps(formats, index, supported, (n - 1) as nat);
        vstd::arithmetic::div_mod::lemma_mod_bound(index + n - 1, len);
        lemma_select_all_supported(formats, prev, supported);
        vstd::arithmetic::div_mod::lemma_add_mod_noop(index + n - 1, 1, len);
        if len == 1 {
            vstd::arithmetic::div_mod::lemma_mod_bound(prev + 1, len);
            vstd::arithmetic::div_mod::lemma_mod_bound(index + n, len);
        } else {
            vstd::arithmetic::div_mod::lemma_small_mod(1nat, len as nat);
        }
    }
}

/// With no format supported, the cyclic search from any starting offset comes
/// back to the current index.
proof fn lemma_select_from_none_supported(formats: Seq<u32>, index: int, supported: u32, off: int)
    requires
        0 < formats.len(),
        0 <= index < formats.len(),
        1 <= off,
        forall|j: int|
            0 <= j < formats.len() ==> !format_supported(#[trigger] formats[j], supported),
    ensures
        spec_select_from(formats, index, supported, off) == index,
    decreases formats.len() - off,
{
    let len = formats.len() as int;
    if off < len {
        vstd::arithmetic::div_mod::lemma_mod_bound(index + off, len);
        assert(!format_supported(formats[(index + off) % len], supported));
        lemma_select_from_none_supported(formats, index, supported, off + 1);
    }
}

/// With no format supported, a swap attempt leaves the index unchanged.
pub proof fn lemma_select_none_supported(formats: Seq<u32>, index: int, supported: u32)
    requires
        0 < formats.len(),
        0 <= index < formats.len(),
        forall|j: int|
            0 <= j < formats.len() ==> !format_supported(#[trigger] formats[j], supported),
    ensures
        spec_select_next(formats, index, supported) == index,
{
    lemma_select_from_none_supported(formats, index, supported, 1);
}

/// Law: with no candidate format supported, any number of swap attempts — and
/// so any number of timer ticks — leaves the index exactly where it started.
pub proof fn lemma_swaps_none_supported(formats: Seq<u32>, index: int, supported: u32, n: nat)
    requires
        0 < formats.len(),
        0 <= index < formats.len(),
        forall|j: int|
            0 <= j < formats.len() ==> !format_supported(#[trigger] formats[j], supported),
    ensures
        spec_swaps(formats, index, supported, n) == index,
    decreases n,
{
    if n > 0 {
        lemma_swaps_none_supported(formats, index, supported, (n - 1) as nat);
        lemma_select_none_supported(formats, index, supported);
    }
}

/// How many cubemap variants the cycle runs over.
pub const CUBEMAP_COUNT: usize = 4;

/// How many whole time units must pass between swap attempts.
pub const CUBEMAP_SWAP_DELAY: u64 = 3;

/// The required compressed-texture format of each cubemap variant, in cycle
/// order.
pub open spec fn cubemap_required_formats() -> Seq<u32> {
    seq![FORMAT_NONE, FORMAT_ASTC_LDR, FORMAT_BC, FORMAT_ETC2]
}

/// The asset path of each cubemap variant, in cycle order.
pub open spec fn spec_cubemap_path(i: int) -> Seq<char> {
    if i == 0 {
        "textures/Ryfjallet_cubemap.png"@
    } else if i == 1 {
        "textures/Ryfjallet_cubemap_astc4x4.ktx2"@
    } else if i == 2 {
        "textures/Ryfjallet_cubemap_bc7.ktx2"@
    } else {
        "textures/Ryfjallet_cubemap_etc2.ktx2"@
    }
}

/// The required format of the cubemap variant at `i`.
pub fn cubemap_required_format(i: usize) -> (required: u32)
    requires
        i < CUBEMAP_COUNT,
    ensures
        required == cubemap_required_formats()[i as int],
{
    match i {
        0 => FORMAT_NONE,
        1 => FORMAT_ASTC_LDR,
        2 => FORMAT_BC,
        _ => FORMAT_ETC2,
    }
}

/// The asset path of the cubemap variant at `i`.
pub fn cubemap_path(i: usize) -> (path: &'static str)
    requires
        i < CUBEMAP_COUNT,
    ensures
        path@ == spec_cubemap_path(i as int),
{
    match i {
        0 => "textures/Ryfjallet_cubemap.png",
        1 => "textures/Ryfjallet_cubemap_astc4x4.ktx2",
        2 => "textures/Ryfjallet_cubemap_bc7.ktx2",
        _ => "textures/Ryfjallet_cubemap_etc2.ktx2",
    }
}

/// The cycle's required-format list as a vector, for the cyclic search.
fn cubemap_format_list() -> (formats: Vec<u32>)
    ensures
        formats@ == cubemap_required_formats(),
{
    let formats: Vec<u32> = vec![FORMAT_NONE, FORMAT_ASTC_LDR, FORMAT_BC, FORMAT_ETC2];
    proof {
        assert(formats@ =~= cubemap_required_formats());
    }
    formats
}

/// When the next swap attempt is due, in whole time units since start. Zero
/// means the schedule has not started yet.
#[derive(Clone, Copy, Debug, PartialEq, Eq, Structural)]
pub struct SwapTimer {
    pub next_swap: u64,
}

/// The skybox cycle's state: which cubemap variant is current, and whether
/// the most recently requested image has finished loading and been applied.
#[derive(Clone, Copy, Debug, PartialEq, Eq, Structural)]
pub struct Cubemap {
    pub is_loaded: bool,
    pub index: usize,
}

/// How far the engine has got with loading a requested asset.
#[derive(Clone, Copy, Debug, PartialEq, Eq, Structural)]
pub enum LoadState {
    NotLoaded,
    Loading,
    Loaded,
    Failed,
}

/// What the loader reads of the requested image: its extent and how many
/// array layers its texture currently has.
#[derive(Clone, Copy, Debug, PartialEq, Eq, Structural)]
pub struct ImageInfo {
    pub width: u32,
    pub height: u32,
    pub array_layer_count: u32,
}

/// What the engine must do to turn the loaded image into the skybox: if set,
/// first reinterpret the flat stacked 2D image as a cube array with this many
/// layers; then assign the image to every skybox render target.
#[derive(Clone, Copy, Debug, PartialEq, Eq, Structural)]
pub struct SkyboxPlan {
    pub reinterpret_layers: Option<u32>,
}

impl Cubemap {
    /// The cycle index always stays within the cubemap list.
    pub open spec fn wf(self) -> bool {
        self.index < CUBEMAP_COUNT
    }

    /// One timer tick of the cycler. The first tick only starts the schedule;
    /// later ticks before the deadline do nothing. On a due tick the deadline
    /// advances by the fixed delay and the cyclic search runs: if it finds an
    /// entry other than the current one whose format the hardware supports,
    /// the cycle moves there, marks the image not loaded, and returns the new
    /// index so the driver can request that asset; otherwise nothing changes.
    pub fn cycle_cubemap_asset(
        &mut self,
        timer: &mut SwapTimer,
        now: u64,
        supported_formats: u32,
    ) -> (swapped_to: Option<usize>)
        requires
            old(self).wf(),
            now <= u64::MAX - CUBEMAP_SWAP_DELAY,
            old(timer).next_swap <= u64::MAX - CUBEMAP_SWAP_DELAY,
        ensures
            final(self).wf(),
            old(timer).next_swap == 0 ==> final(timer).next_swap == now + CUBEMAP_SWAP_DELAY
                && *final(self) == *old(self) && swapped_to is None,
            old(timer).next_swap != 0 && now < old(timer).next_swap ==> *final(timer)
                == *old(timer) && *final(self) == *old(self) && swapped_to is None,
            old(timer).next_swap != 0 && now >= old(timer).next_swap ==> ({
                let next = spec_select_next(
                    cubemap_required_formats(),
                    old(self).index as int,
                    supported_formats,
                );
                &&& final(timer).next_swap == old(timer).next_swap + CUBEMAP_SWAP_DELAY
                &&& (next == old(self).index as int ==> *final(self) == *old(self) && swapped_to
                    is None)
                &&& (next != old(self).index as int ==> final(self).index as int == next
                    && final(self).is_loaded == false && swapped_to == Some(next as usize))
            }),
    {
        if timer.next_swap == 0 {
            timer.next_swap = now + CUBEMAP_SWAP_DELAY;
            return None;
        } else if now < timer.next_swap {
            return None;
        }
        timer.next_swap = timer.next_swap + CUBEMAP_SWAP_DELAY;
        let formats = cubemap_format_list();
        let new_index = select_next(&formats, self.index, supported_formats);
        if new_index == self.index {
            return None;
        }
        self.index = new_index;
        self.is_loaded = false;
        Some(new_index)
    }

    /// One poll of the asset server. Acts exactly when the requested image is
    /// reported loaded and has not been applied yet: the cycle is then marked
    /// loaded and the returned plan tells the driver how to apply the image —
    /// a flat image (one array layer) is reinterpreted as a cube array with
    /// height/width layers first. On any other poll nothing changes.
    pub fn skybox_initialization(&mut self, load_state: LoadState, image: ImageInfo) -> (plan:
        Option<SkyboxPlan>)
        requires
            !old(self).is_loaded && load_state == LoadState::Loaded && image.array_layer_count == 1
                ==> image.width > 0,
        ensures
            final(self).index == old(self).index,
            (plan is Some) <==> (!old(self).is_loaded && load_state == LoadState::Loaded),
            plan is Some ==> final(self).is_loaded == true && plan == Some(
                SkyboxPlan {
                    reinterpret_layers: if image.array_layer_count == 1 {
                        Some((image.height / image.width) as u32)
                    } else {
                        None
                    },
                },
            ),
            plan is None ==> *final(self) == *old(self),
    {
        if !self.is_loaded && matches!(load_state, LoadState::Loaded) {
            let reinterpret_layers: Option<u32> = if image.array_layer_count == 1 {
                Some(image.height / image.width)
            } else {
                None
            };
            self.is_loaded = true;
            Some(SkyboxPlan { reinterpret_layers })
        } else {
            None
        }
    }
}

} // verus!
