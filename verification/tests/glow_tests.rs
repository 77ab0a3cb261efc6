use openlogi::glow::{depot_dir, glow_path, paint_mask, GlowMask};

#[test]
fn paint_mask_paints_only_on_runs() {
    // 3x2 mask, runs alternate off/on starting off: off2, on1, off2, on1.
    // Row-major pixels idx 2 and idx 5 are ON.
    let mask = GlowMask { width: 3, height: 2, runs: vec![2, 1, 2, 1] };
    let img = paint_mask(&mask, [10, 20, 30, 255]).expect("mask paints");
    assert_eq!(img.image.get_pixel(2, 0).0, [10, 20, 30, 255]);
    assert_eq!(img.image.get_pixel(2, 1).0, [10, 20, 30, 255]);
    assert_eq!(img.image.get_pixel(0, 0).0[3], 0);
}

#[test]
fn paint_mask_rejects_bad_run_total() {
    let mask = GlowMask { width: 4, height: 4, runs: vec![3, 2] };
    assert!(paint_mask(&mask, [0, 0, 0, 255]).is_none());
}

#[test]
fn paint_mask_rejects_out_of_range_dimensions() {
    assert!(paint_mask(&GlowMask { width: 0, height: 4, runs: vec![] }, [1, 1, 1, 1]).is_none());
    assert!(paint_mask(&GlowMask { width: 8193, height: 1, runs: vec![8193] }, [1, 1, 1, 1]).is_none());
    assert!(paint_mask(&GlowMask { width: 2, height: 2, runs: vec![u32::MAX, 5] }, [1, 1, 1, 1]).is_none());
}

#[test]
fn paint_mask_full_and_empty_runs() {
    let mask = GlowMask { width: 2, height: 2, runs: vec![0, 3, 1] };
    let img = paint_mask(&mask, [9, 8, 7, 6]).expect("paints");
    assert_eq!(img.image.get_pixel(0, 0).0, [9, 8, 7, 6]);
    assert_eq!(img.image.get_pixel(1, 0).0, [9, 8, 7, 6]);
    assert_eq!(img.image.get_pixel(0, 1).0, [9, 8, 7, 6]);
    assert_eq!(img.image.get_pixel(1, 1).0, [0, 0, 0, 0]);
}

#[test]
fn glow_paths_stay_in_the_cache_root() {
    assert_eq!(depot_dir("/cache", "g513"), Some("/cache/g513".to_string()));
    assert_eq!(depot_dir("/cache", "../g513"), None);
    assert_eq!(
        glow_path("/cache", "g513", "ff3b30"),
        Some("/cache/g513/glow-ff3b30.png".to_string())
    );
    assert_eq!(glow_path("/cache", "..", "ff3b30"), None);
}
