use scene_logic::skybox::{
    cubemap_path, cubemap_required_format, select_next, supports_format, Cubemap, ImageInfo,
    LoadState, SkyboxPlan, SwapTimer, CUBEMAP_COUNT, CUBEMAP_SWAP_DELAY, FORMAT_ASTC_LDR,
    FORMAT_BC, FORMAT_ETC2, FORMAT_NONE,
};

const ALL_FORMATS: u32 = FORMAT_ASTC_LDR | FORMAT_BC | FORMAT_ETC2;

fn format_list() -> Vec<u32> {
    (0..CUBEMAP_COUNT).map(cubemap_required_format).collect()
}

#[test]
fn format_support_is_bit_containment() {
    assert!(supports_format(0, FORMAT_NONE));
    assert!(supports_format(ALL_FORMATS, FORMAT_BC));
    assert!(!supports_format(FORMAT_ASTC_LDR, FORMAT_BC));
    assert!(supports_format(FORMAT_BC | FORMAT_ETC2, FORMAT_ETC2));
}

#[test]
fn select_advances_one_step_when_all_supported() {
    let formats = format_list();
    for index in 0..CUBEMAP_COUNT {
        assert_eq!(select_next(&formats, index, ALL_FORMATS), (index + 1) % CUBEMAP_COUNT);
    }
}

#[test]
fn eligible_swaps_advance_cyclically() {
    // index after n eligible swaps from 0 is n mod list length
    let formats = format_list();
    let mut index = 0;
    for n in 1..=10 {
        index = select_next(&formats, index, ALL_FORMATS);
        assert_eq!(index, n % CUBEMAP_COUNT);
    }
}

#[test]
fn select_skips_unsupported_formats() {
    let formats = format_list();
    // only BC available: from 0 the search skips the ASTC entry and lands on BC
    assert_eq!(select_next(&formats, 0, FORMAT_BC), 2);
    // nothing available: from 1 only the uncompressed entry qualifies
    assert_eq!(select_next(&formats, 1, 0), 0);
    // nothing available from the uncompressed entry itself: search wraps home
    assert_eq!(select_next(&formats, 0, 0), 0);
}

#[test]
fn no_supported_candidate_leaves_index_unchanged() {
    // a list whose every entry needs an unavailable format
    let formats = vec![FORMAT_ASTC_LDR, FORMAT_BC, FORMAT_ETC2];
    let mut index = 1;
    for _ in 0..12 {
        index = select_next(&formats, index, 0);
        assert_eq!(index, 1);
    }
}

#[test]
fn first_tick_only_starts_the_schedule() {
    let mut cubemap = Cubemap { is_loaded: true, index: 0 };
    let mut timer = SwapTimer { next_swap: 0 };
    let swapped = cubemap.cycle_cubemap_asset(&mut timer, 10, ALL_FORMATS);
    assert_eq!(swapped, None);
    assert_eq!(timer.next_swap, 10 + CUBEMAP_SWAP_DELAY);
    assert_eq!(cubemap, Cubemap { is_loaded: true, index: 0 });
}

#[test]
fn early_tick_does_nothing() {
    let mut cubemap = Cubemap { is_loaded: true, index: 2 };
    let mut timer = SwapTimer { next_swap: 9 };
    let swapped = cubemap.cycle_cubemap_asset(&mut timer, 8, ALL_FORMATS);
    assert_eq!(swapped, None);
    assert_eq!(timer.next_swap, 9);
    assert_eq!(cubemap, Cubemap { is_loaded: true, index: 2 });
}

#[test]
fn due_tick_swaps_and_requests_a_load() {
    let mut cubemap = Cubemap { is_loaded: true, index: 0 };
    let mut timer = SwapTimer { next_swap: 6 };
    let swapped = cubemap.cycle_cubemap_asset(&mut timer, 6, ALL_FORMATS);
    assert_eq!(swapped, Some(1));
    assert_eq!(timer.next_swap, 6 + CUBEMAP_SWAP_DELAY);
    assert_eq!(cubemap, Cubemap { is_loaded: false, index: 1 });
}

#[test]
fn due_tick_without_a_candidate_keeps_the_texture() {
    // only the uncompressed entry is eligible and it is already current
    let mut cubemap = Cubemap { is_loaded: true, index: 0 };
    let mut timer = SwapTimer { next_swap: 3 };
    let swapped = cubemap.cycle_cubemap_asset(&mut timer, 5, 0);
    assert_eq!(swapped, None);
    // the deadline still advances
    assert_eq!(timer.next_swap, 3 + CUBEMAP_SWAP_DELAY);
    assert_eq!(cubemap, Cubemap { is_loaded: true, index: 0 });
}

#[test]
fn repeated_ticks_with_all_formats_cycle_through_the_list() {
    let mut cubemap = Cubemap { is_loaded: true, index: 0 };
    let mut timer = SwapTimer { next_swap: 0 };
    let mut now = 0u64;
    cubemap.cycle_cubemap_asset(&mut timer, now, ALL_FORMATS);
    let mut seen = Vec::new();
    for _ in 0..8 {
        now = timer.next_swap;
        let swapped = cubemap.cycle_cubemap_asset(&mut timer, now, ALL_FORMATS);
        seen.push(swapped.expect("an eligible swap every tick"));
    }
    assert_eq!(seen, vec![1, 2, 3, 0, 1, 2, 3, 0]);
}

#[test]
fn cubemap_paths_follow_the_cycle_order() {
    assert_eq!(cubemap_path(0), "textures/Ryfjallet_cubemap.png");
    assert_eq!(cubemap_path(1), "textures/Ryfjallet_cubemap_astc4x4.ktx2");
    assert_eq!(cubemap_path(2), "textures/Ryfjallet_cubemap_bc7.ktx2");
    assert_eq!(cubemap_path(3), "textures/Ryfjallet_cubemap_etc2.ktx2");
}

#[test]
fn loader_reinterprets_flat_images() {
    let mut cubemap = Cubemap { is_loaded: false, index: 1 };
    let image = ImageInfo { width: 100, height: 600, array_layer_count: 1 };
    let plan = cubemap.skybox_initialization(LoadState::Loaded, image);
    assert_eq!(plan, Some(SkyboxPlan { reinterpret_layers: Some(6) }));
    assert!(cubemap.is_loaded);
    assert_eq!(cubemap.index, 1);
}

#[test]
fn loader_keeps_images_that_are_already_arrays() {
    let mut cubemap = Cubemap { is_loaded: false, index: 3 };
    let image = ImageInfo { width: 100, height: 600, array_layer_count: 6 };
    let plan = cubemap.skybox_initialization(LoadState::Loaded, image);
    assert_eq!(plan, Some(SkyboxPlan { reinterpret_layers: None }));
    assert!(cubemap.is_loaded);
}

#[test]
fn loader_waits_for_the_asset() {
    let image = ImageInfo { width: 100, height: 600, array_layer_count: 1 };
    for state in [LoadState::NotLoaded, LoadState::Loading, LoadState::Failed] {
        let mut cubemap = Cubemap { is_loaded: false, index: 2 };
        assert_eq!(cubemap.skybox_initialization(state, image), None);
        assert_eq!(cubemap, Cubemap { is_loaded: false, index: 2 });
    }
}

#[test]
fn loader_acts_only_once() {
    let mut cubemap = Cubemap { is_loaded: false, index: 0 };
    let image = ImageInfo { width: 128, height: 768, array_layer_count: 1 };
    assert!(cubemap.skybox_initialization(LoadState::Loaded, image).is_some());
    assert_eq!(cubemap.skybox_initialization(LoadState::Loaded, image), None);
    assert!(cubemap.is_loaded);
}
