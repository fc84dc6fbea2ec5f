use forge_paint::camera::{OrbitCamera, PointerInput};
use forge_paint::hydra_startup::{HydraStartup, ProbeStatus, StartupStep};
use forge_paint::hydra_view::{
    adopted_delegate, delegate_label, delegate_switch, frame_size, glam_to_hydra, startup_delegate,
    take_paint_sync, HydraView, StudioRig,
};
use forge_paint::lights::{
    add_light, lights_caption, remove_light, Light, LightKind, MAX_LIGHTS,
};
use forge_paint::paint::brush::PaintChannel;
use forge_paint::paint::target::PaintTarget;
use forge_paint::renderer::{note_mode, switch_label, RendererChoice, RendererMode};
use forge_paint::selection::{selected_status, ToldSelection};
use forge_paint::single::{Pair, Single, Triple};
use forge_paint::stage_textures::ConvertibleModelKind;
use forge_paint::status::{
    conversion_action, converted_status, hook_command, human_bytes, load_failed_status, loaded_status, open_step,
    project_label, reload_status, replicates_materials, seeds_paint, uri_request, written_status,
    ConversionDialogAction, HookEnd, LoadCounts, OpenStep,
};
use forge_paint::tools::{
    picker_outcome, tool_for_keys, BrushTarget, PickerInput, PropertiesTab, Tool, ToolKeys,
    ToolState, ViewMode,
};
use forge_paint::uv_view::{
    atlas_source, channel_is_offered, grid_extent, hidden_wireframe, is_painting, stamp_layer,
    stroke_steps, AtlasSource, GridExtent, StrokeAnchor, TileThumbs,
};

fn single(x: f32) -> Single {
    Single { bits: x.to_bits() }
}

fn strings(list: &[&str]) -> Vec<String> {
    list.iter().map(|s| s.to_string()).collect()
}

#[test]
fn files_are_opened_or_converted() {
    assert!(matches!(open_step("a.usda"), OpenStep::Load));
    assert!(matches!(open_step("asset://x"), OpenStep::Load));
    match open_step("a.obj") {
        OpenStep::OfferConversion(ConvertibleModelKind::Obj, text) => {
            assert_eq!(text, "OBJ needs USD conversion.")
        }
        _ => panic!(),
    }
    match open_step("a.fbx") {
        OpenStep::Refuse(text) => assert_eq!(
            text,
            "Unsupported file type: a.fbx. Choose a USD file directly, or choose OBJ to convert."
        ),
        _ => panic!(),
    }
    assert_eq!(conversion_action(true, true, false), ConversionDialogAction::Convert);
    assert_eq!(conversion_action(false, true, false), ConversionDialogAction::Cancel);
    assert_eq!(conversion_action(true, false, false), ConversionDialogAction::Undecided);
    assert_eq!(uri_request("  asset://x ", true), Some("asset://x".to_string()));
    assert_eq!(uri_request("   ", true), None);
    assert_eq!(uri_request("x", false), None);
}

#[test]
fn loading_is_reported() {
    let nothing = LoadCounts { sidecars: 0, extracted: 0, imported: 0, seeded: 0, replicated: 0 };
    assert_eq!(
        loaded_status("a.usda", 8, 12, 1, &nothing),
        "Loaded a.usda — 8 verts, 12 tris, 1 UDIM tiles"
    );
    let some = LoadCounts { sidecars: 2, extracted: 0, imported: 3, seeded: 0, replicated: 1 };
    assert_eq!(
        loaded_status("a.usda", 8, 12, 1, &some),
        "Loaded a.usda — 8 verts, 12 tris, 1 UDIM tiles — loaded 2 sidecar(s), imported 3 texture(s), replicated 1 material(s)"
    );
    assert_eq!(
        load_failed_status("a.usda", "no such file"),
        "Failed to load a.usda: no such file"
    );
    assert_eq!(
        converted_status("a.obj", "a.usda", 4, 2),
        "Converted a.obj to a.usda — 4 verts, 2 tris"
    );
    assert!(seeds_paint(0) && !seeds_paint(1));
    assert!(replicates_materials(0) && !replicates_materials(2));
    assert_eq!(reload_status(2, "/w"), "Reloaded 2 sidecar(s) from /w");
    assert_eq!(reload_status(0, "/w"), "No sidecars at /w");
    assert_eq!(
        written_status("Saved", 3, "/w", HookEnd::Succeeded.message().as_str()),
        "Saved 3 files to /w · post-export hook ok"
    );
    assert_eq!(
        HookEnd::Failed("exit status: 1".to_string()).message(),
        " · post-export hook failed (exit status: 1)"
    );
    assert_eq!(HookEnd::Error("e".to_string()).message(), " · post-export hook error: e");
    assert_eq!(hook_command(Some("sync {dir} {dir}"), "/w"), Some("sync /w /w".to_string()));
    assert_eq!(hook_command(Some("  "), "/w"), None);
    assert_eq!(hook_command(None, "/w"), None);
    assert_eq!(project_label(Some("x")), "forge:x");
    assert_eq!(project_label(Some("")), "standalone");
    assert_eq!(project_label(None), "standalone");
}

#[test]
fn sizes_are_readable() {
    let text = |n: u64| {
        let kb = 1024.0f64;
        let f = n as f64;
        if f < kb {
            format!("{n} B")
        } else if f < kb * kb {
            format!("{:.1} KB", f / kb)
        } else if f < kb * kb * kb {
            format!("{:.1} MB", f / (kb * kb))
        } else {
            format!("{:.2} GB", f / (kb * kb * kb))
        }
    };
    for n in [0u64, 1, 1023, 1024, 1536, 1075, 1048575, 1048576, 5_000_000, 1 << 30, u64::MAX,
        9_007_199_254_740_993]
    {
        assert_eq!(human_bytes(n), text(n), "{n}");
    }
}

#[test]
fn tools_put_the_stencil_away() {
    let brush = BrushTarget { channel: PaintChannel::BaseColor, mask_edit: false };
    let mut state = ToolState {
        tool: Tool::Paint,
        active_stencil: None,
        show_stencil_picker: false,
        view_mode: ViewMode::Material,
        uv_channel: ViewMode::BaseColor,
        brush,
    };
    assert!(!state.activate_stencil(3, 2, false));
    assert_eq!(state.active_stencil, None);
    assert!(state.activate_stencil(0, 2, false));
    assert!(!state.activate_stencil(1, 2, true));
    assert_eq!(state.active_stencil, Some(1));
    state.switch_tool(Tool::Erase);
    assert_eq!(state.active_stencil, None);
    assert_eq!(state.tool, Tool::Erase);
    state.active_stencil = Some(1);
    state.switch_tool(Tool::Paint);
    assert_eq!(state.active_stencil, None);
    state.set_uv_channel(ViewMode::Roughness, false);
    assert_eq!(state.brush.effective(), PaintChannel::Roughness);
    state.set_view_mode(ViewMode::Mask, true);
    assert_eq!(state.brush.effective(), PaintChannel::Mask);
    state.brush.take_choice(true, false);
    assert_eq!(state.brush.effective(), PaintChannel::Roughness);
    let keys = ToolKeys { v: false, b: false, e: true, g: true, i: false };
    assert_eq!(tool_for_keys(keys), Some(Tool::Erase));
    let none = ToolKeys { v: false, b: false, e: false, g: false, i: false };
    assert_eq!(tool_for_keys(none), None);
    let picked = PickerInput { open: true, cancel: false, picked: Some(2), import: false };
    let outcome = picker_outcome(picked);
    assert_eq!((outcome.stays_open, outcome.take), (false, Some(2)));
}

#[test]
fn atlases_show_what_can_be_painted() {
    assert!(channel_is_offered(ViewMode::Normal, false));
    assert!(!channel_is_offered(ViewMode::Mask, false));
    assert_eq!(atlas_source(ViewMode::Height, false), Some(AtlasSource::Displacement));
    assert_eq!(atlas_source(ViewMode::Mask, false), None);
    let mut thumbs = TileThumbs { ids: Vec::new(), channel: None, layer_idx: None };
    assert!(thumbs.refresh(2, ViewMode::BaseColor, 0));
    assert_eq!(thumbs.ids.len(), 2);
    assert!(!thumbs.refresh(2, ViewMode::BaseColor, 0));
    assert!(thumbs.refresh(2, ViewMode::Roughness, 0));
    let all = GridExtent { x_min: -1000, x_max: 1000, y_min: 0, y_max: 3 };
    let shown = grid_extent(all);
    assert_eq!((shown.x_min, shown.x_max, shown.y_min, shown.y_max), (-50, 50, 0, 3));
    assert!(hidden_wireframe(50_000).is_none());
    assert_eq!(
        hidden_wireframe(50_001).unwrap(),
        "UV wireframe hidden — 50001 triangles exceed cap of 50000"
    );
    assert_eq!((stroke_steps(0), stroke_steps(7), stroke_steps(1000)), (1, 7, 128));
    let target = PaintTarget { tiles: vec![1001, 1012], resolution: 8 };
    assert_eq!(stamp_layer(&target, 1, 1), Some(1));
    assert_eq!(stamp_layer(&target, -1, 0), None);
    assert_eq!(stamp_layer(&target, 10, 0), None);
    let mut anchor = StrokeAnchor { uv: None, pressure: None };
    assert_eq!(anchor.pressure_or(single(0.5)), single(0.5));
    anchor.advance(true, Some(Pair { u: single(0.1), v: single(0.2) }), single(0.75));
    assert_eq!(anchor.pressure_or(single(0.5)), single(0.75));
    assert!(anchor.uv.is_some());
    anchor.advance(false, None, single(0.75));
    assert!(anchor.uv.is_none());
    assert!(is_painting(ViewMode::BaseColor, true, false));
}

#[test]
fn the_camera_stays_within_its_bounds() {
    let mut camera = OrbitCamera::default();
    camera.orbit_to(single(1.0), single(9.0));
    assert_eq!(f32::from_bits(camera.pitch.bits), 1.5);
    camera.zoom_to(single(0.0));
    assert_eq!(f32::from_bits(camera.distance.bits), 0.05);
    camera.zoom_to(single(1e9));
    assert_eq!(f32::from_bits(camera.distance.bits), 10000.0);
    camera.pan_to(Triple { x: single(1.0), y: single(2.0), z: single(3.0) });
    assert_eq!(f32::from_bits(camera.target.z.bits), 3.0);
    camera.reset();
    assert_eq!(f32::from_bits(camera.target.z.bits), 3.0);
    assert!(camera.distance.equals(OrbitCamera::default().distance));
    let input = PointerInput {
        primary_drag: true,
        middle_drag: false,
        ctrl: false,
        mac_cmd: false,
        command: false,
        shift: false,
        alt: false,
        drag: Pair { u: single(1.0), v: single(0.0) },
        scroll: single(0.0),
    };
    assert!(!input.moves().any());
}

#[test]
fn lights_are_counted() {
    let mut lights = Vec::new();
    for _ in 0..MAX_LIGHTS {
        assert!(add_light(&mut lights, LightKind::Spot));
    }
    assert!(!add_light(&mut lights, LightKind::Directional));
    assert_eq!(lights.len(), 8);
    remove_light(&mut lights, 0);
    assert_eq!(lights.len(), 7);
    assert!(lights_caption(7).contains('7'));
    let mut spot = Light::new_spot();
    spot.set_inner_cone(single(60.0));
    assert!(!spot.outer_cone_deg.less(spot.inner_cone_deg));
    spot.set_outer_cone(single(5.0));
    assert!(!spot.outer_cone_deg.less(spot.inner_cone_deg));
    assert_eq!(LightKind::Spot.label(), "Spot");
}

#[test]
fn renderers_are_picked() {
    let mut choice = RendererChoice { mode: RendererMode::Hydra, delegate: None };
    choice.settle(&vec![]);
    assert_eq!(choice.mode, RendererMode::Wgpu);
    let available = strings(&["HdStormRendererPlugin"]);
    let current = choice.current_id(&available);
    choice.pick(current.as_str(), "HdStormRendererPlugin");
    assert_eq!(choice.mode, RendererMode::Hydra);
    assert_eq!(choice.delegate, Some("HdStormRendererPlugin".to_string()));
    assert_eq!(RendererMode::Wgpu.toggled(), RendererMode::Hydra);
    assert_eq!(switch_label(RendererMode::Hydra), "Switch to wgpu painter");
    let mut pending = false;
    note_mode(RendererMode::Hydra, RendererMode::Hydra, &mut pending);
    assert!(!pending);
    note_mode(RendererMode::Wgpu, RendererMode::Hydra, &mut pending);
    assert!(pending);
    assert!(take_paint_sync(&mut pending, 0));
    assert!(!pending);
}

#[test]
fn selections_are_told_once() {
    let mut told = ToldSelection::new();
    assert!(!told.tell(&vec![]));
    assert!(told.tell(&strings(&["/a", "/b"])));
    assert!(!told.tell(&strings(&["/b", "/a", "/a"])));
    assert!(told.tell(&strings(&["/a"])));
    assert_eq!(told.paths, strings(&["/a"]));
    assert_eq!(selected_status("/a", true), Some("Selected /a".to_string()));
    assert_eq!(selected_status("/a", false), None);
}

#[test]
fn hydra_is_told_once() {
    let mut view = HydraView::new("/s/a.usda");
    assert!(!view.is_stale("/s/a.usda"));
    assert!(view.is_stale("/s/b.usda"));
    assert!(view.resize(64, 32));
    assert!(!view.resize(64, 32));
    assert!(view.set_purposes(true, false, false));
    assert!(!view.set_purposes(true, false, false));
    let rig = StudioRig {
        key_dir: Triple { x: single(0.0), y: single(1.0), z: single(0.0) },
        key_intensity: single(1.0),
        fill_ratio: single(0.5),
        rim_ratio: single(0.25),
        enabled: true,
    };
    assert!(view.set_rig(rig).is_some());
    assert!(view.set_rig(rig).is_none());
    assert!(view.wants_external_material("/m.usda", ""));
    view.note_external_material("/m.usda", "");
    assert!(!view.wants_external_material("/m.usda", ""));
    assert!(view.clear_external_material());
    assert!(!view.clear_external_material());
    assert_eq!(frame_size(0, 100), (64, 100));
    assert!(!delegate_label("HdStormRendererPlugin").is_empty());
    let list = strings(&["A", "B"]);
    assert_eq!(delegate_switch(Some("B"), "A"), Some("B"));
    assert_eq!(delegate_switch(Some("A"), "A"), None);
    assert_eq!(startup_delegate(Some("B"), &list), Some("B"));
    assert_eq!(adopted_delegate(None, "A"), Some("A".to_string()));
    let mut m = [[single(0.0); 4]; 4];
    m[1][2] = single(7.0);
    assert_eq!(glam_to_hydra(&m)[6], single(7.0));
}

#[test]
fn startup_checks_are_followed() {
    let mut state = None;
    assert_eq!(HydraStartup::begin(&mut state, "/s", None, false), StartupStep::Ready);
    assert_eq!(HydraStartup::begin(&mut state, "/s", None, true), StartupStep::Start);
    state = Some(HydraStartup::launched("/s", None, None));
    assert_eq!(HydraStartup::begin(&mut state, "/s", None, true), StartupStep::Poll);
    let going = state.take().unwrap().polled(ProbeStatus::Pending { elapsed_ms: 10 }).unwrap();
    assert!(going.failure.is_none());
    assert_eq!(going.overlay("0.0").title, "Starting Hydra");
    let late = going.polled(ProbeStatus::Pending { elapsed_ms: 15_000 }).unwrap();
    assert!(late.failure.clone().unwrap().starts_with("Hydra startup check timed out after 15s."));
    assert!(late.overlay("15.0").retry);
    state = Some(late);
    assert_eq!(HydraStartup::begin(&mut state, "/s", None, true), StartupStep::Failed);
    assert_eq!(HydraStartup::begin(&mut state, "/other", None, true), StartupStep::Start);
    let failed = HydraStartup::launched("/s", None, None)
        .polled(ProbeStatus::Exited(Some(-3)))
        .unwrap();
    assert!(failed.failure.unwrap().contains("(exit code -3)"));
    let gone = HydraStartup::launched("/s", None, None).polled(ProbeStatus::Succeeded);
    assert!(gone.is_none());
    let not = HydraStartup::launched("/s", None, Some("no file".to_string()));
    assert_eq!(not.failure.unwrap(), "Could not start the Hydra startup check: no file");
    let odd = HydraStartup::launched("/s", None, None)
        .polled(ProbeStatus::Unknown("e".to_string()))
        .unwrap();
    assert!(odd.failure.unwrap().ends_with("failed to report status: e"));
}

#[test]
fn pages_have_names() {
    let names: Vec<&str> = PropertiesTab::ALL.iter().map(|t| t.label()).collect();
    assert_eq!(names, vec!["Layers", "Lighting", "Bake", "Material", "Project"]);
    assert_eq!(PropertiesTab::default(), PropertiesTab::Layers);
}
