use forge_paint::asset_browser::{
    bundled_asset_candidates, bundled_files, initial_open, mesh_assets, scan_status, BundledKind,
};
use forge_paint::export::{
    next_version, outdated_version, plan_exports, sync_status, udim_path, version_path,
    ExportChannel,
};
use forge_paint::exr_import::{
    assemble_rgba, is_exr_path, looks_like_unsupported_dwa, next_step, plan_channels, ExrAttempt,
    ExrStep,
};
use forge_paint::material_graph::ShaderPin;
use forge_paint::preview_material::{usda_asset_path, write_usd_preview_material};
use forge_paint::stage_materials::{
    collect_resolved_stage_textures, stage_material_texture_groups, DetectedMaterialTextures,
    StageMaterial, StageTextureRef,
};
use forge_paint::stage_textures::{
    classify_texture_pin, default_converted_usd_path, extracted_texture_lookup, first_existing,
    is_usd_stage_path, is_usdz_path, material_slot_for_pin, package_inner_path,
    resolve_texture_reference, texture_udim, ConvertibleModelKind, ExtractedTexture, MaterialSlot,
    Resolution,
};

fn strings(list: &[&str]) -> Vec<String> {
    list.iter().map(|s| s.to_string()).collect()
}

#[test]
fn stages_are_known_by_extension() {
    assert!(is_usd_stage_path("a.USDA"));
    assert!(is_usd_stage_path("a.usdz"));
    assert!(!is_usd_stage_path("a.obj"));
    assert!(is_usdz_path("a.UsdZ"));
    assert!(!is_usdz_path("a.usd"));
    assert_eq!(default_converted_usd_path("/m/a.obj"), "/m/a.usda");
    assert!(matches!(ConvertibleModelKind::from_path("a.OBJ"), Some(ConvertibleModelKind::Obj)));
    assert!(ConvertibleModelKind::from_path("a.fbx").is_none());
}

#[test]
fn textures_are_known_by_name() {
    for (name, pin) in [
        ("rock_BaseColor.png", Some(ShaderPin::DiffuseColor)),
        ("rock_base.png", Some(ShaderPin::DiffuseColor)),
        ("rock_nrm.1001.png", Some(ShaderPin::Normal)),
        ("rock_ao.png", Some(ShaderPin::Occlusion)),
        ("rock_rough.png", Some(ShaderPin::Roughness)),
        ("metallic.png", Some(ShaderPin::Metallic)),
        ("roughness/x.png", Some(ShaderPin::Roughness)),
        ("plain.png", None),
    ] {
        assert_eq!(classify_texture_pin(name), pin, "{name}");
    }
    assert_eq!(material_slot_for_pin(ShaderPin::Normal), Some(MaterialSlot::Normal));
    assert_eq!(material_slot_for_pin(ShaderPin::Occlusion), None);
    assert_eq!(texture_udim("rock.1012.png"), Some(1012));
    assert_eq!(texture_udim("rock_4096.png"), None);
    assert_eq!(package_inner_path("a.usdz[tex/b.png]"), Some("tex/b.png".to_string()));
    assert_eq!(package_inner_path("a.usdz"), None);
}

#[test]
fn references_are_resolved() {
    let extracted = vec![ExtractedTexture {
        package_path: "Tex/B.png".to_string(),
        normalized: "Tex/B.png".to_string(),
        path: "/tmp/x/B.png".to_string(),
    }];
    let lookup = extracted_texture_lookup(&extracted);
    assert_eq!(lookup.get("tex/b.png"), Some("/tmp/x/B.png".to_string()));
    let found = |reference: &str, inner: Option<&str>| {
        resolve_texture_reference("/s/stage.usda", reference, reference, inner, &lookup)
    };
    assert!(matches!(found("s.usdz[Tex/B.png]", Some("Tex/B.png")), Resolution::Found(_)));
    assert!(matches!(found("other/b.PNG", None), Resolution::Found(_)));
    match found("tex/c.png", None) {
        Resolution::OnDisk(files) => assert_eq!(files, strings(&["/s/tex/c.png"])),
        Resolution::Found(_) => panic!(),
    }
    match found("/abs/c.png", None) {
        Resolution::OnDisk(files) => assert_eq!(files, strings(&["/abs/c.png", "/abs/c.png"])),
        Resolution::Found(_) => panic!(),
    }
    match found("  ", None) {
        Resolution::OnDisk(files) => assert!(files.is_empty()),
        Resolution::Found(_) => panic!(),
    }
    let files = strings(&["/a", "/b", "/c"]);
    assert_eq!(first_existing(&files, &vec![false, true, true]), Some("/b".to_string()));
    assert_eq!(first_existing(&files, &vec![false; 3]), None);
}

fn material(prim: &str, uv: Option<&str>, textures: &[(&str, Option<&str>)]) -> StageMaterial {
    StageMaterial {
        prim_path: prim.to_string(),
        uv_primvar_name: uv.map(|s| s.to_string()),
        textures: textures
            .iter()
            .map(|t| StageTextureRef {
                reference: t.0.to_string(),
                resolved: t.1.map(|s| s.to_string()),
            })
            .collect(),
    }
}

#[test]
fn prims_with_the_same_textures_share_a_material() {
    let materials = vec![
        material("/b", None, &[("c_basecolor.png", Some("/t/c_basecolor.png"))]),
        material("/a", None, &[("c_basecolor.png", Some("/t/c_basecolor.png"))]),
        material("/d", None, &[("n_normal.png", Some("/t/n_normal.png"))]),
        material("/e", None, &[("missing_basecolor.png", None)]),
    ];
    let groups = stage_material_texture_groups(&materials);
    assert_eq!(groups.len(), 2);
    let all: Vec<Vec<String>> = groups.iter().map(|g| g.prims.clone()).collect();
    assert!(all.contains(&strings(&["/d"])));
    assert_eq!(all.iter().map(|p| p.len()).sum::<usize>(), 3);
    let resolved = collect_resolved_stage_textures(&materials, &vec![]);
    assert_eq!(resolved.len(), 3);
    assert_eq!(resolved[0].slot, Some(MaterialSlot::BaseColor));
}

#[test]
fn previews_name_their_textures() {
    let mut textures = DetectedMaterialTextures::empty("st".to_string());
    assert!(textures.is_empty());
    textures.set(ShaderPin::DiffuseColor, "/t/a.png".to_string());
    textures.set(ShaderPin::Normal, "/t/n.png".to_string());
    assert!(!textures.is_empty());
    assert_eq!(
        textures.texture_nodes(),
        vec![
            ("/t/a.png".to_string(), ShaderPin::DiffuseColor),
            ("/t/n.png".to_string(), ShaderPin::Normal)
        ]
    );
    let text = write_usd_preview_material(&textures);
    assert!(text.starts_with("#usda 1.0"));
    assert!(text.contains("@/t/a.png@"));
    assert!(text.contains("@/t/n.png@"));
    assert!(text.contains("UsdPreviewSurface"));
    assert_eq!(usda_asset_path("C:\\t\\a.png"), "C:/t/a.png");
}

#[test]
fn exports_are_planned() {
    let plan = plan_exports("/out", &vec![1001, 1011], 64, 256).unwrap();
    let paths: Vec<&str> = plan.iter().map(|e| e.path.as_str()).collect();
    let expected: Vec<String> = [1001, 1011]
        .iter()
        .flat_map(|t| {
            ExportChannel::ALL.iter().map(move |c| format!("/out/{}.{}.png", c.name(), t))
        })
        .collect();
    assert_eq!(paths, expected);
    assert_eq!(plan[5].layer, 1);
    assert_eq!(
        plan_exports("/out", &vec![1001], 10, 256).err().unwrap(),
        "export resolution 10 yields stride 40, not 256-aligned"
    );
    let name = ExportChannel::BaseColor.name();
    assert_eq!(udim_path(&plan, "/out", name), format!("/out/{name}.<UDIM>.png"));
    assert_eq!(udim_path(&plan, "/out", "other"), "");
}

#[test]
fn case_does_not_classify() {
    for (a, b) in [("/t/Wood_BaseColor.PNG", "/T/wood_basecolor.png"), ("METAL.x", "metal.X")] {
        assert_eq!(classify_texture_pin(a), classify_texture_pin(b));
        assert!(classify_texture_pin(a).is_some());
    }
}

#[test]
fn versions_are_counted() {
    let mut seq = 0u64;
    assert_eq!(next_version(&mut seq), 1);
    assert_eq!(outdated_version(seq), None);
    assert_eq!(next_version(&mut seq), 2);
    assert_eq!(outdated_version(seq), Some(0));
    assert_eq!(version_path("/p", 2), "/p/v2");
    assert_eq!(sync_status(2, 6), "synced v2 (2 tiles)");
    let mut last = u64::MAX;
    assert_eq!(next_version(&mut last), u64::MAX);
}

#[test]
fn channels_are_found_by_name() {
    let plan = plan_channels(&strings(&["A", "b", "g", "R"])).unwrap();
    assert_eq!(
        (plan.red, plan.green, plan.blue, plan.alpha, plan.grey),
        (Some(3), Some(2), Some(1), Some(0), None)
    );
    let grey = plan_channels(&strings(&["Z"])).unwrap();
    assert_eq!(grey.grey, Some(0));
    assert!(plan_channels(&vec![]).is_none());
    let rgba = assemble_rgba(
        plan,
        &vec![vec![9], vec![3], vec![2], vec![1]],
        &vec![vec![200], vec![0], vec![0], vec![0]],
        1,
    );
    assert_eq!(rgba, vec![1, 2, 3, 200]);
    assert!(is_exr_path("a.EXR"));
    assert!(!is_exr_path("a.png"));
}

#[test]
fn unreadable_images_are_converted_once() {
    assert!(looks_like_unsupported_dwa("DWAA compression"));
    assert!(looks_like_unsupported_dwa("compression method not supported"));
    assert!(!looks_like_unsupported_dwa("file not found"));
    let failed = |m: &str| ExrAttempt::Failed { message: m.to_string() };
    assert!(matches!(next_step(&ExrAttempt::Read, "a.exr"), ExrStep::Use));
    assert!(matches!(next_step(&failed("dwab"), "a.exr"), ExrStep::Convert));
    match next_step(&failed("bad magic"), "a.exr") {
        ExrStep::GiveUp { message } => assert_eq!(message, "read EXR a.exr: bad magic"),
        _ => panic!(),
    }
    let again = ExrAttempt::NotReadAgain { message: "x".to_string() };
    match next_step(&again, "a.exr") {
        ExrStep::GiveUp { message } => {
            assert_eq!(message, "EXR a.exr: transcoded via external tool but re-read still failed: x")
        }
        _ => panic!(),
    }
    let none =
        ExrAttempt::NotConverted { message: "m".to_string(), conversion: "no tool".to_string() };
    match next_step(&none, "a.exr") {
        ExrStep::GiveUp { message } => {
            assert!(message.contains("no tool") && message.ends_with("Exr error: m"))
        }
        _ => panic!(),
    }
}

#[test]
fn bundled_files_are_looked_for() {
    assert_eq!(
        bundled_asset_candidates("assets/hdri", Some("/w"), Some("/o/b/fp"), "/src"),
        strings(&["assets/hdri", "/w/assets/hdri", "/o/b/assets/hdri", "/o/assets/hdri", "/assets/hdri",
            "/src/assets/hdri"])
    );
    let paths = strings(&["/a/z.png", "/a/m.usdc", "/a/b.JPG", "/a/readme"]);
    assert_eq!(bundled_files(&paths, BundledKind::Image), vec![2, 0]);
    let meshes = mesh_assets(&paths);
    assert_eq!((meshes.len(), meshes[0].name.as_str()), (1, "m"));
    assert!(scan_status(0, 0).is_none());
    assert!(scan_status(2, 1).is_some());
    let path = |s: &str| Some(s.to_string());
    assert_eq!(initial_open(path("/n"), path("/d"), true, path("/b")), path("/n"));
    assert_eq!(initial_open(None, path("/d"), true, path("/b")), path("/d"));
    assert_eq!(initial_open(None, path("/d"), false, path("/b")), path("/b"));
}
