use forge_paint::env::{
    bundled_hdris, half_side, hdri_name, is_hdr_file, mip_count_for, mip_plan, mip_sizes,
    mip_sources, PREFILTER_H, PREFILTER_MIPS, PREFILTER_W,
};

#[test]
fn sizes_go_down_to_a_pixel() {
    for dim in [0u32, 1, 2, 3, 4, 255, 256, 257, 1 << 31, u32::MAX] {
        assert_eq!(mip_count_for(dim), 32 - dim.max(1).leading_zeros());
    }
    assert_eq!(
        mip_sizes(256, 128),
        vec![(256, 128), (128, 64), (64, 32), (32, 16), (16, 8), (8, 4), (4, 2), (2, 1), (1, 1)]
    );
    let blurred = mip_sizes(PREFILTER_W, PREFILTER_H);
    assert_eq!(blurred[PREFILTER_MIPS as usize - 1], (16, 8));
    assert_eq!(mip_sizes(5, 3), vec![(5, 3), (2, 1), (1, 1)]);
    assert_eq!(mip_sizes(1, 1), vec![(1, 1)]);
    assert_eq!((half_side(9), half_side(1)), (4, 1));
}

#[test]
fn pixels_are_made_from_four() {
    assert_eq!(mip_sources(1, 0, 4, 2), [2, 3, 6, 7]);
    assert_eq!(mip_sources(0, 0, 1, 2), [0, 0, 1, 1]);
    let plan = mip_plan(5, 3);
    assert_eq!(plan, vec![[0, 1, 5, 6], [2, 3, 7, 8]]);
    assert_eq!(mip_plan(1, 1), vec![[0, 0, 0, 0]]);
}

#[test]
fn environment_images_are_listed_by_name() {
    let paths: Vec<String> = ["h/b.HDR", "h/readme.txt", "h/a.exr", "h/noext", "h/c.hdr"]
        .iter()
        .map(|s| s.to_string())
        .collect();
    let names: Vec<String> = bundled_hdris(&paths).into_iter().map(|p| p.0).collect();
    assert_eq!(names, vec!["a", "b", "c"]);
    assert!(is_hdr_file("x.Exr"));
    assert!(!is_hdr_file("x.png"));
    assert_eq!(hdri_name("sky/noon.hdr"), "noon");
    assert_eq!(hdri_name(".."), "hdri");
}
