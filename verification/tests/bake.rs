use forge_paint::bake::{
    bake_layers, layer_bytes, make_config, max_ray_length, pixels_to_bytes, BakeSettings, BakerMap,
    Distribution, MapFormat, MapKind, MeshMaps, NormalConvention, PreviewResult, Sample,
};
use forge_paint::bake_cli::{bake_config, parse_distribution, parse_normal_format, BakeArgs};
use forge_paint::bake_panel::{
    cage_label, high_poly_label, kinds_to_bake, record_bake, slot_status, BakedMap, SlotStatus,
    PANEL_KINDS,
};
use forge_paint::paint::panel::preset_tooltip;
use forge_paint::paint::presets::SmartMaterialPreset;
use forge_paint::paint::smart_mask::{
    source_is_baked, source_label, SmartMaskParams, SmartMaskSource,
};
use forge_paint::single::Single;

fn single(x: f32) -> Single {
    Single { bits: x.to_bits() }
}

fn sample(x: f32) -> Sample {
    Sample {
        byte: (x.clamp(0.0, 1.0) * 255.0 + 0.5) as u8,
        half: half::f16::from_f32(x).to_bits(),
    }
}

#[test]
fn maps_have_formats() {
    assert_eq!(MapKind::AmbientOcclusion.label(), "Ambient occlusion");
    assert_eq!(MapKind::BentNormal.map_type(), BakerMap::BentNormals);
    assert_eq!(MapKind::Thickness.texture_format(), MapFormat::R8Unorm);
    assert_eq!(MapFormat::Rgba16Float.bytes_per_pixel(), 8);
    assert_eq!(MapFormat::Rgba8Unorm.bytes_per_row(16), 64);
}

#[test]
fn rays_always_have_a_length() {
    assert_eq!(f32::from_bits(max_ray_length(single(2.5)).bits), 2.5);
    assert_eq!(f32::from_bits(max_ray_length(single(0.0)).bits), f32::MAX);
    assert_eq!(f32::from_bits(max_ray_length(single(-1.0)).bits), f32::MAX);
    let config = make_config(512, &BakeSettings::default());
    assert_eq!((config.width, config.height), (512, 512));
}

#[test]
fn pixels_become_bytes() {
    let grey = PreviewResult::Gray(vec![sample(0.0), sample(0.5), sample(1.0), sample(2.0)], 2, 2);
    let (bytes, w, h) = pixels_to_bytes(MapKind::AmbientOcclusion, &grey);
    assert_eq!((bytes, w, h), (vec![0, 128, 255, 255], 2, 2));
    let colour = PreviewResult::Rgb(vec![[sample(0.0), sample(0.5), sample(1.0)]], 1, 1);
    let (bytes, _, _) = pixels_to_bytes(MapKind::Normal, &colour);
    assert_eq!(bytes, vec![0, 128, 255, 255]);
    let (bytes, _, _) = pixels_to_bytes(MapKind::Position, &colour);
    let expected: Vec<u8> = [0.0f32, 0.5, 1.0, 1.0]
        .iter()
        .flat_map(|x| half::f16::from_f32(*x).to_bits().to_le_bytes())
        .collect();
    assert_eq!(bytes, expected);
}

#[test]
fn maps_of_another_size_are_refused() {
    let grey = PreviewResult::Gray(vec![sample(1.0)], 1, 1);
    assert_eq!(layer_bytes(MapKind::AmbientOcclusion, &grey, 1001, 1), Ok(Some(vec![255])));
    assert!(layer_bytes(MapKind::AmbientOcclusion, &grey, 1001, 2).is_err());
    assert_eq!(bake_layers(&vec![1001, 1002]), Ok(2));
    assert_eq!(bake_layers(&vec![]), Err("no tiles to bake".to_string()));
}

#[test]
fn baked_maps_have_places() {
    let mut maps: MeshMaps<u32> = MeshMaps::new_empty();
    assert!(maps.slot(MapKind::Curvature).is_none());
    maps.set(MapKind::Curvature, 7);
    assert_eq!(maps.slot(MapKind::Curvature), Some(&7));
    assert!(maps.slot(MapKind::Thickness).is_none());
    maps.clear(MapKind::Curvature);
    assert!(maps.slot(MapKind::Curvature).is_none());
}

#[test]
fn baked_maps_grow_stale() {
    let mut maps: MeshMaps<BakedMap> = MeshMaps::new_empty();
    assert_eq!(slot_status(&maps, MapKind::Id, 2, 1), SlotStatus::Empty);
    let status = record_bake(&mut maps, MapKind::Id, 2, 512, 1, None);
    assert!(status.error.is_none());
    assert_eq!(slot_status(&maps, MapKind::Id, 2, 1), SlotStatus::Current);
    assert_eq!(slot_status(&maps, MapKind::Id, 3, 1), SlotStatus::OtherTiles);
    assert_eq!(slot_status(&maps, MapKind::Id, 2, 2), SlotStatus::Stale);
    let failed = record_bake(&mut maps, MapKind::Height, 2, 512, 1, Some("no rays".to_string()));
    assert_eq!(failed.error, Some("no rays".to_string()));
    assert_eq!(slot_status(&maps, MapKind::Height, 2, 1), SlotStatus::Empty);
    assert!(failed.text("0.1").contains("no rays"));
    assert_eq!(kinds_to_bake(true, None), PANEL_KINDS.to_vec());
    assert_eq!(kinds_to_bake(false, Some(MapKind::Id)), vec![MapKind::Id]);
    assert!(kinds_to_bake(false, None).is_empty());
}

#[test]
fn cages_need_as_many_vertices() {
    assert!(cage_label("/m/cage.obj", 8, 8).is_ok());
    assert!(cage_label("/m/cage.obj", 7, 8).is_err());
    assert!(high_poly_label("/m/high.usd", 12).contains("12"));
}

fn args() -> BakeArgs {
    BakeArgs {
        lowpoly: "low.obj".to_string(),
        highpoly: None,
        cage: None,
        width: 1024,
        height: 512,
        output: "out".to_string(),
        prefix: "p".to_string(),
        frontal_distance: single(0.1),
        rear_distance: single(0.2),
        no_ignore_backface: false,
        dilation: 16,
        no_normal: false,
        world_normal: false,
        no_ao: true,
        no_curvature: false,
        no_position: true,
        thickness: true,
        height_map: false,
        bent_normals: false,
        id: false,
        ao_rays: 64,
        ao_max_distance: single(0.0),
        ao_spread: single(180.0),
        ao_distribution: "Uniform".to_string(),
        thickness_rays: None,
        thickness_max_distance: None,
        thickness_spread: single(180.0),
        bent_rays: Some(9),
        bent_max_distance: Some(single(3.0)),
        normal_format: "DirectX".to_string(),
        curvature_intensity: single(1.0),
        curvature_detail: single(1.0),
        curvature_radius: single(1.0),
        aa: 2,
        no_gpu: true,
        match_by_name: false,
        low_suffix: "_low".to_string(),
        high_suffix: "_high".to_string(),
    }
}

#[test]
fn command_lines_become_settings() {
    let config = bake_config(&args());
    assert_eq!((config.width, config.height, config.aa_factor), (1024, 512, 2));
    let maps = config.maps.unwrap();
    assert!(maps.normal && maps.curvature && maps.thickness);
    assert!(!maps.ao && !maps.position && !maps.id);
    assert!(maps.world_normal, "curvature is made from world normals");
    assert_eq!(config.thickness_settings.ray_count, 64);
    assert_eq!(config.bent_normal_settings.ray_count, 9);
    assert!(!config.use_gpu);
    assert_eq!(config.normal_format, NormalConvention::DirectX);
    assert_eq!(parse_normal_format("dx"), NormalConvention::DirectX);
    assert_eq!(parse_normal_format("GL"), NormalConvention::OpenGL);
    assert_eq!(parse_normal_format("anything"), NormalConvention::DirectX);
    assert_eq!(parse_distribution("uniform"), Distribution::Uniform);
    assert_eq!(parse_distribution("other"), Distribution::Cosine);
}

#[test]
fn untuned_commands_bake_as_the_program_does() {
    let untuned = BakeArgs {
        ao_rays: 128,
        ao_distribution: "cosine".to_string(),
        bent_rays: None,
        bent_max_distance: None,
        normal_format: "directx".to_string(),
        aa: 1,
        no_gpu: false,
        ..args()
    };
    let told = bake_config(&untuned);
    let own = make_config(512, &BakeSettings::default());
    assert_eq!(own.ao_settings.ray_count, 128);
    assert_eq!(told.ao_settings, own.ao_settings);
    assert_eq!(told.thickness_settings, own.thickness_settings);
    assert_eq!(told.bent_normal_settings, own.bent_normal_settings);
    assert_eq!(told.normal_format, own.normal_format);
    assert_eq!((told.aa_factor, told.use_gpu), (own.aa_factor, own.use_gpu));
}

#[test]
fn masks_are_made_from_baked_maps() {
    let mut maps: MeshMaps<u32> = MeshMaps::new_empty();
    assert!(!source_is_baked(&maps, SmartMaskSource::CurvatureConvex));
    assert!(source_is_baked(&maps, SmartMaskSource::WorldYUp));
    maps.set(MapKind::Curvature, 1);
    assert!(source_is_baked(&maps, SmartMaskSource::CurvatureConcave));
    assert!(!source_is_baked(&maps, SmartMaskSource::Thickness));
    assert_eq!(source_label(SmartMaskSource::Thickness, false), "Thickness (no bake)");
    assert_eq!(source_label(SmartMaskSource::Thickness, true), "Thickness");
    assert_eq!(SmartMaskSource::AoCrevice.required_map(), MapKind::AmbientOcclusion);
    assert!(SmartMaskSource::Thickness.source_map(&maps).is_err());
    assert_eq!(SmartMaskSource::CurvatureConvex.source_map(&maps), Ok(MapKind::Curvature));
    let (ready, _) = preset_tooltip(SmartMaterialPreset::EdgeWear, &maps);
    assert!(ready);
}

#[test]
fn bands_are_put_in_order() {
    let params = SmartMaskParams { low: single(0.8), high: single(0.2), ..SmartMaskParams::default() };
    let ordered = params.ordered();
    assert!(ordered.low.less(ordered.high));
    for preset in SmartMaterialPreset::ALL {
        let mask = preset.smart_mask();
        assert!(mask.low.less(mask.high));
    }
}
