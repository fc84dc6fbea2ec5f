use forge_paint::asset_browser::{
    check_apply, plan_placements, slot_status, AssetAction, ImageTarget,
};
use forge_paint::paint::brush::{
    projection_format, scissor, ColorWrites, Footprint, ImageFormat, PaintChannel, Rect,
};
use forge_paint::paint::composite::{blend_state, draw_list, pipeline_index, BlendFactor};
use forge_paint::paint::layer::{
    fill_texels, BlendMode, FillParams, Layer, LayerKind, LayerStack,
};
use forge_paint::paint::panel::{edit_labels, layer_count_label, PaintSession};
use forge_paint::paint::presets::SmartMaterialPreset;
use forge_paint::paint::smart_mask::SmartMaskParams;
use forge_paint::paint::target::PaintTarget;
use forge_paint::single::Single;
use forge_paint::stage_materials::ResolvedStageTexture;
use forge_paint::stage_textures::MaterialSlot;
use forge_paint::tools::BrushTarget;

fn single(x: f32) -> Single {
    Single { bits: x.to_bits() }
}

fn names(stack: &LayerStack) -> Vec<&str> {
    stack.layers.iter().map(|l| l.name.as_str()).collect()
}

#[test]
fn layers_get_names_of_their_own() {
    let mut stack = LayerStack::new_with_initial_layer(1024, 1);
    assert_eq!(names(&stack), vec!["Layer 1"]);
    stack.add_layer();
    stack.add_layer();
    stack.add_fill_layer();
    assert_eq!(names(&stack), vec!["Layer 1", "Layer 2", "Layer 3", "Fill 4"]);
    assert_eq!(stack.active, 3);
    stack.remove_at(1);
    assert_eq!(names(&stack), vec!["Layer 1", "Layer 3", "Fill 4"]);
    assert_eq!(stack.active, 2);
    stack.add_layer();
    assert_eq!(names(&stack)[3], "Layer 4");
    stack.set_active(0);
    stack.add_layer();
    assert_eq!(names(&stack)[4], "Layer 5");
}

#[test]
fn the_last_layer_stays() {
    let mut stack = LayerStack::new_with_initial_layer(1024, 1);
    stack.remove_at(0);
    assert_eq!(names(&stack), vec!["Layer 1"]);
    stack.active_layer_mut().visible = false;
    assert!(!stack.active_layer().visible);
}

#[test]
fn only_fill_layers_take_a_fill() {
    let mut paint = Layer::new("a");
    assert!(!paint.is_fill());
    assert!(!paint.set_fill_params(FillParams::default()));
    let mut fill = Layer::new_fill("b");
    assert!(fill.is_fill());
    assert!(!fill.set_fill_params(FillParams::default()));
    let other = FillParams { roughness: single(0.25), ..FillParams::default() };
    assert!(fill.set_fill_params(other));
    assert!(fill.fill_params().unwrap().equals(&other));
    let texels = fill_texels([1, 2, 3], 4, 5);
    assert_eq!(texels.base_color, [1, 2, 3, 255]);
    assert_eq!((texels.roughness, texels.metallic), (4, 5));
    assert_eq!(texels.normal, [128, 128, 255, 255]);
}

#[test]
fn visible_layers_are_drawn_upwards() {
    let mut stack = LayerStack::new_with_initial_layer(1024, 2);
    stack.add_layer();
    stack.add_layer();
    stack.layers[1].visible = false;
    stack.layers[2].blend_mode = BlendMode::Screen;
    stack.layers[2].opacity = single(0.5);
    stack.add_mask_to(2);
    let draws = draw_list(&stack, 2);
    assert_eq!(draws.iter().map(|d| d.layer).collect::<Vec<usize>>(), vec![0, 2]);
    assert!(draws[1].masked && !draws[0].masked);
    assert_eq!(draws[1].blend_mode, BlendMode::Screen);
    assert_eq!(draws[1].opacity, single(0.5));
    assert_eq!(BlendMode::ALL.map(pipeline_index), [0, 1, 2, 3]);
    assert_eq!(blend_state(BlendMode::Add).color.dst_factor, BlendFactor::One);
    assert_eq!(BlendMode::Multiply.label(), "Multiply");
}

#[test]
fn sessions_keep_the_brush_on_the_layer() {
    let brush = BrushTarget { channel: PaintChannel::BaseColor, mask_edit: false };
    let stack = LayerStack::new_with_initial_layer(1024, 1);
    let mut session = PaintSession { stack, brush };
    session.add_mask(0);
    session.edit(0, true);
    assert!(session.brush.mask_edit);
    session.remove_mask(0);
    session.settle();
    assert!(!session.brush.mask_edit);
    session.add_mask(0);
    assert!(session.toggle_smart(0));
    let params = SmartMaskParams { contrast: single(3.0), ..SmartMaskParams::default() };
    assert!(session.set_smart_params(0, params));
    assert!(!session.set_smart_params(0, params));
    assert!(!session.toggle_smart(0));
    let at = session.add_preset(SmartMaterialPreset::CavityDirt);
    assert_eq!(at, 1);
    assert!(session.stack.layers[1].is_fill());
    assert!(session.stack.layers[1].mask.is_some());
    assert!(matches!(session.stack.layers[1].kind, LayerKind::Fill(_)));
    let labels = edit_labels(true, true);
    assert_ne!(labels.0, labels.1);
    assert!(layer_count_label(2).contains('2'));
}

#[test]
fn brushes_touch_pixels_of_the_tile() {
    let edges = |l: f32, t: f32, r: f32, b: f32| Footprint {
        left: single(l),
        top: single(t),
        right: single(r),
        bottom: single(b),
    };
    let size = single(64.0);
    assert_eq!(edges(1.5, 2.0, 3.2, 4.0).pixels(size), Some(Rect { x: 1, y: 2, w: 3, h: 2 }));
    assert_eq!(edges(-5.0, 60.5, 2.0, 90.0).pixels(size), Some(Rect { x: 0, y: 60, w: 2, h: 4 }));
    assert_eq!(edges(70.0, 0.0, 80.0, 5.0).pixels(size), None);
    assert_eq!(edges(-9.0, 0.0, -5.0, 5.0).pixels(size), None);
    assert_eq!(
        scissor(1, &edges(70.0, 0.0, 80.0, 5.0), 64, size),
        Some(Rect { x: 0, y: 0, w: 64, h: 64 })
    );
    assert_eq!(scissor(0, &edges(70.0, 0.0, 80.0, 5.0), 64, size), None);
    assert_eq!(PaintChannel::Mask.pipeline(), (ImageFormat::R8Unorm, ColorWrites::All));
    assert_eq!(projection_format(1), ImageFormat::Rg16Float);
}

#[test]
fn images_need_tiles_and_a_mask() {
    let slot = ImageTarget::Slot(MaterialSlot::BaseColor);
    assert_eq!(check_apply(slot, false, 1), Ok(()));
    assert_eq!(check_apply(slot, true, 0), Err("layer has no tiles".to_string()));
    assert_eq!(check_apply(ImageTarget::Mask, false, 0), Err("layer has no mask".to_string()));
    let mut stack = LayerStack::new_with_initial_layer(8, 1);
    let (at, text) = AssetAction::NewLayer.prepare(&mut stack, "rock", 1);
    assert_eq!((at, text.as_str()), (Some(1), "Created layer from 'rock'"));
    let (at, text) = AssetAction::ApplyMask.prepare(&mut stack, "rock", 1);
    assert_eq!((at, text.as_str()), (Some(1), "Applied 'rock' as mask"));
    assert!(stack.layers[1].mask.is_some());
    let (at, text) = AssetAction::ApplyBaseColor.prepare(&mut stack, "rock", 0);
    assert_eq!((at, text.as_str()), (None, "Apply failed: layer has no tiles"));
    assert_eq!(
        slot_status(MaterialSlot::Roughness, "rock", "Layer 1", 1),
        "Assigned 'rock' to Roughness on 'Layer 1'"
    );
}

#[test]
fn stage_images_are_placed_once() {
    let image = |path: &str, slot: Option<MaterialSlot>, udim: Option<u32>| ResolvedStageTexture {
        path: path.to_string(),
        slot,
        udim,
    };
    let textures = vec![
        image("/t/a.1002.png", Some(MaterialSlot::BaseColor), Some(1002)),
        image("/t/all.png", Some(MaterialSlot::Normal), None),
        image("/t/all.png", Some(MaterialSlot::Normal), None),
        image("/t/none.png", None, None),
        image("/t/missing.png", Some(MaterialSlot::Metallic), None),
        image("/t/b.1009.png", Some(MaterialSlot::BaseColor), Some(1009)),
    ];
    let assets = vec![Some(0), Some(1), Some(1), Some(2), None, Some(3)];
    let target = PaintTarget { tiles: vec![1001, 1002], resolution: 8 };
    let plan = plan_placements(&textures, &assets, &target);
    let seen: Vec<(usize, MaterialSlot, u32)> =
        plan.iter().map(|p| (p.asset, p.slot, p.layer)).collect();
    assert_eq!(
        seen,
        vec![
            (0, MaterialSlot::BaseColor, 1),
            (1, MaterialSlot::Normal, 0),
            (1, MaterialSlot::Normal, 1)
        ]
    );
}
