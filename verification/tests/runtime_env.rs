use forge_paint::runtime_env::{
    bundled_copy, bundled_variables, check_probe_frame, conversion_report, convert_route, delight_candidates, delight_runtime_candidates,
    existing_dirs, gltf_detail, hdnsi_roots, join_list, log_candidates, obj_detail,
    path_has_component_case_insensitive, probe_exit_code, probe_label,
    probe_request, relaunch_target,
    search_path, unsupported_message, usd_failure_message, usd_plugin_dll_candidates, Bundle,
    ConvertRoute, PluginWalk, ProbeRequest, ProgramFolder,
};

fn strings(list: &[&str]) -> Vec<String> {
    list.iter().map(|s| s.to_string()).collect()
}

#[test]
fn models_are_converted_by_extension() {
    assert_eq!(convert_route("a/b.OBJ"), ConvertRoute::Obj);
    assert_eq!(convert_route("b.glb"), ConvertRoute::Gltf);
    assert_eq!(convert_route("b.GLTF"), ConvertRoute::Gltf);
    for name in ["b.abc", "b.usd", "b.usda", "b.usdc"] {
        assert_eq!(convert_route(name), ConvertRoute::Usd);
    }
    assert_eq!(convert_route("b.UsdZ"), ConvertRoute::Usd);
    assert_eq!(convert_route("b.fbx"), ConvertRoute::Unsupported);
    assert_eq!(convert_route("obj"), ConvertRoute::Unsupported);
    assert_eq!(
        unsupported_message("b.FBX"),
        "unsupported source format `.fbx` (supported: .obj, .gltf, .glb, .abc, .usd*)"
    );
    assert_eq!(
        unsupported_message("b"),
        "unsupported source format `.` (supported: .obj, .gltf, .glb, .abc, .usd*)"
    );
    assert_eq!(
        usd_failure_message("a.abc", "b.usda"),
        "USD could not open a.abc as a layer (for .abc this needs the usdAbc plugin) or could not write b.usda"
    );
}

#[test]
fn conversions_are_reported() {
    assert_eq!(obj_detail(4, 2), "4 verts, 2 tris");
    assert_eq!(gltf_detail(1, 4, 2), "1 meshes, 4 verts, 2 tris");
    assert_eq!(
        conversion_report("a.obj", "a.usda", Ok(obj_detail(4, 2))),
        ("converted a.obj -> a.usda (4 verts, 2 tris)".to_string(), 0)
    );
    assert_eq!(
        conversion_report("a.obj", "a.usda", Err("no faces".to_string())),
        ("conversion failed: no faces".to_string(), 1)
    );
}

#[test]
fn probes_end_with_a_code() {
    assert!(matches!(probe_request(false, Some("s".to_string()), None), ProbeRequest::NotAsked));
    assert!(matches!(probe_request(true, None, None), ProbeRequest::MissingStage(2)));
    match probe_request(true, Some("s".to_string()), Some(String::new())) {
        ProbeRequest::Run(stage, delegate) => assert_eq!((stage.as_str(), delegate), ("s", None)),
        _ => panic!(),
    }
    match probe_request(true, Some("s".to_string()), Some("HdStorm".to_string())) {
        ProbeRequest::Run(_, delegate) => assert_eq!(delegate, Some("HdStorm".to_string())),
        _ => panic!(),
    }
    assert_eq!(check_probe_frame(64 * 64 * 4), Ok(()));
    assert_eq!(
        check_probe_frame(10),
        Err("Hydra probe returned 10 bytes, expected 16384".to_string())
    );
    assert_eq!((probe_exit_code(true), probe_exit_code(false)), (0, 3));
    assert_eq!(probe_label(Some("HdStorm")), "HdStorm");
    assert_eq!(probe_label(None), "default delegate");
}

#[test]
fn logs_go_to_the_first_place() {
    assert_eq!(
        log_candidates(Some("/l".to_string()), Some("/opt/fp/fp".to_string()), "/tmp"),
        strings(&["/l", "/opt/fp/forge-paint.log", "/tmp/forge-paint.log"])
    );
    assert_eq!(log_candidates(None, None, "/tmp"), strings(&["/tmp/forge-paint.log"]));
}

#[test]
fn installations_are_looked_for() {
    let folders = vec![ProgramFolder {
        base: "/p".to_string(),
        entries: strings(&["Other", "My3DELIGHT2"]),
    }];
    assert_eq!(
        delight_candidates(&strings(&["/d"]), "/bundle", &folders),
        strings(&["/d", "/bundle/3Delight", "/p/3Delight", "/p/3DelightNSI", "/p/My3DELIGHT2"])
    );
    assert_eq!(
        existing_dirs(&strings(&["/a", "/b", "/a/", "/c"]), &vec![true, false, true, true]),
        strings(&["/a", "/c"])
    );
    assert_eq!(delight_runtime_candidates(&strings(&["/d"])), strings(&["/d", "/d/bin", "/d/lib"]));
    assert_eq!(
        hdnsi_roots("/d"),
        strings(&[
            "/d/hdNSI",
            "/d/usd/hdNSI",
            "/d/plugin/usd/hdNSI",
            "/d/plugins/usd/hdNSI",
            "/d/hydra/hdNSI"
        ])
    );
    assert_eq!(
        usd_plugin_dll_candidates(&strings(&["/a/b/c/d/e", "/x"])),
        strings(&["/a/b/c/d/e", "/a/b/c/d", "/a/b/c", "/a/b", "/x", "/"])
    );
}

#[test]
fn components_are_found_in_any_case() {
    assert!(path_has_component_case_insensitive("/d/HDNSI/plugin", "hdNSI"));
    assert!(!path_has_component_case_insensitive("/d/hdNSI2/plugin", "hdNSI"));
    assert!(path_has_component_case_insensitive("/d", "/"));
    assert!(path_has_component_case_insensitive("./d", "."));
    assert!(!path_has_component_case_insensitive("d/./e", "."));
}

#[test]
fn plugin_folders_are_walked() {
    let mut walk = PluginWalk::new("/u", false);
    let first = walk.next().unwrap();
    walk.visit(&first, false, &strings(&["/u/a", "/u/b"]));
    let second = walk.next().unwrap();
    assert_eq!((second.path.as_str(), second.depth), ("/u/b", 1));
    walk.visit(&second, true, &strings(&["/u/b/c"]));
    let third = walk.next().unwrap();
    assert_eq!(third.path, "/u/b/c");
    walk.visit(&third, true, &vec![]);
    let fourth = walk.next().unwrap();
    walk.visit(&fourth, false, &vec![]);
    assert!(walk.next().is_none());
    assert_eq!(walk.found, strings(&["/u", "/u/b", "/u/b/c"]));
}

#[test]
fn installations_are_walked_only_so_deep() {
    let mut walk = PluginWalk::new("/d", true);
    let mut dir = walk.next().unwrap();
    for _ in 0..7 {
        let child = format!("{}/hdNSI", dir.path);
        walk.visit(&dir, true, &vec![child]);
        dir = walk.next().unwrap();
    }
    assert_eq!(dir.depth, 7);
    walk.visit(&dir, true, &strings(&["/d/deeper"]));
    assert!(walk.next().is_none());
    assert_eq!(walk.found.len(), 7);
    assert_eq!(walk.found[0], "/d/hdNSI");
}

#[test]
fn search_paths_begin_with_the_new_folders() {
    assert_eq!(join_list(&strings(&["a", "b"]), ";"), "a;b");
    assert_eq!(join_list(&vec![], ";"), "");
    assert_eq!(search_path(&strings(&["a", "b"]), ";", Some("c")), "a;b;c");
    assert_eq!(search_path(&strings(&["a", "b"]), ";", Some("")), "a;b");
    assert_eq!(search_path(&strings(&["a", "b"]), ";", None), "a;b");
}

#[test]
fn bundles_are_started_again_once() {
    assert_eq!(bundled_copy("/b/fp"), Some("/b/usd/lib/fp".to_string()));
    let again = |boot, usd, copy| relaunch_target(boot, Some("/b/fp"), usd, copy);
    assert_eq!(again(false, true, true), Some("/b/usd/lib/fp".to_string()));
    assert_eq!(again(true, true, true), None);
    assert_eq!(again(false, false, true), None);
    assert_eq!(again(false, true, false), None);
    assert_eq!(relaunch_target(false, None, true, true), None);
}

#[test]
fn bundles_set_variables() {
    let mut bundle = Bundle {
        windows: true,
        usd_dir: "/b/usd".to_string(),
        has_usd: true,
        delight_roots: strings(&["/d", "/e"]),
        delight_is_set: false,
        plugin_paths: strings(&["/p", "/q", "/p/"]),
        plugins_before: Some("/old".to_string()),
        library_dirs: strings(&["/p", "/b/usd/lib"]),
        runtime_dirs: strings(&["/d/bin"]),
        path_before: None,
    };
    let pair = |a: &str, b: &str| (a.to_string(), b.to_string());
    assert_eq!(
        bundled_variables(&bundle),
        vec![
            pair("DELIGHT", "/d"),
            pair("PXR_PLUGINPATH_NAME", "/p;/q;/old"),
            pair("PATH", "/b/usd/lib;/b/usd/bin;/p;/d/bin"),
        ]
    );
    bundle.windows = false;
    assert_eq!(bundled_variables(&bundle), vec![pair("PXR_PLUGINPATH_NAME", "/p:/q:/old")]);
    bundle.has_usd = false;
    assert!(bundled_variables(&bundle).is_empty());
}
