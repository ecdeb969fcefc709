use grimmod::addr::{Image, ImageAddr, ImageContainer, ImageContainerAddr, KnownBuffers, SurfaceAddr};
use grimmod::background::Background;
use grimmod::catalog::{HqImage, HqImageContainer};
use grimmod::graphics::{
    get_target, unpair_overlay_surfaces, Draw, DrawSetup, HqState, OverlayRegistry, Target,
    TargetMut, UploadAction,
};
use grimmod::pixels::HqImageAsyncData;

const BUFFERS: KnownBuffers =
    KnownBuffers { decompression: 0xD0, clean: 0xC0, clean_z: 0xC8, back: 0xB0, smush: 0x50 };

fn hq(addr: usize, index: usize) -> HqImage<()> {
    HqImage { name: format!("img{}", addr), index, width: 40, height: 40, scale: 2, original_addr: ImageAddr(addr), data: () }
}

fn container(addr: usize, images: &[usize]) -> HqImageContainer<()> {
    HqImageContainer {
        name: format!("c{}", addr),
        original_addr: ImageContainerAddr(addr),
        images: images.iter().enumerate().map(|(i, &a)| hq(a, i)).collect(),
    }
}

fn native(addr: usize, images: &[usize]) -> ImageContainer {
    ImageContainer {
        name: "x.bm".to_string(),
        original_addr: ImageContainerAddr(addr),
        images: images.iter().map(|&a| Image { addr: ImageAddr(a), width: 20, height: 20 }).collect(),
        image_addrs: images.iter().map(|&a| ImageAddr(a)).collect(),
    }
}

fn small_background() -> Background {
    Background { name: "bg".to_string(), width: 4, height: 4, scale: 1, original_addr: ImageAddr(0x100), buffer: vec![0; 64] }
}

#[test]
fn registry_pairs_and_unpairs() {
    let mut r = OverlayRegistry::new();
    r.insert(SurfaceAddr(1), ImageAddr(0x10));
    r.insert(SurfaceAddr(2), ImageAddr(0x14));
    r.insert(SurfaceAddr(3), ImageAddr(0x30));
    r.insert(SurfaceAddr(1), ImageAddr(0x11));
    assert_eq!(r.get(SurfaceAddr(1)), Some(ImageAddr(0x11)));
    assert_eq!(r.remove(SurfaceAddr(1)), Some(ImageAddr(0x11)));
    assert!(!r.contains_key(SurfaceAddr(1)));
    unpair_overlay_surfaces(&mut r, &container(0x1, &[0x10, 0x14]));
    assert!(!r.contains_key(SurfaceAddr(2)));
    assert_eq!(r.get(SurfaceAddr(3)), Some(ImageAddr(0x30)));
}

#[test]
fn load_collision_removes_entry_and_its_pairs() {
    let mut s: HqState<()> = HqState::new(BUFFERS);
    s.open_bm_image(&native(0xA, &[0x10, 0x14]), Some(container(0xA, &[0x10, 0x14])));
    s.open_bm_image(&native(0xC, &[0x30]), Some(container(0xC, &[0x30])));
    s.bind_image_surface(ImageAddr(0x10), SurfaceAddr(1));
    s.bind_image_surface(ImageAddr(0x14), SurfaceAddr(2));
    s.bind_image_surface(ImageAddr(0x30), SurfaceAddr(3));
    let removed = s.open_bm_image(&native(0xB, &[0x10]), Some(container(0xB, &[0x10]))).unwrap();
    assert_eq!(removed.original_addr, ImageContainerAddr(0xA));
    let addrs: Vec<usize> = s.catalog.iter().map(|c| c.original_addr.0).collect();
    assert_eq!(addrs, vec![0xC, 0xB]);
    assert!(!s.overlays.contains_key(SurfaceAddr(1)));
    assert!(!s.overlays.contains_key(SurfaceAddr(2)));
    assert!(s.overlays.contains_key(SurfaceAddr(3)));
}

#[test]
fn teardown_unloads_container_and_pairs() {
    let mut s: HqState<()> = HqState::new(BUFFERS);
    s.open_bm_image(&native(0xA, &[0x10]), Some(container(0xA, &[0x10])));
    s.bind_image_surface(ImageAddr(0x10), SurfaceAddr(1));
    assert!(s.manage_resource(1, ImageContainerAddr(0xA)).is_none());
    assert!(s.manage_resource(2, ImageContainerAddr(0xB)).is_none());
    assert_eq!(s.manage_resource(2, ImageContainerAddr(0xA)).unwrap().original_addr, ImageContainerAddr(0xA));
    assert!(s.catalog.is_empty());
    assert!(!s.overlays.contains_key(SurfaceAddr(1)));
}

#[test]
fn binding_through_decompression_buffer_uses_original() {
    let mut s: HqState<()> = HqState::new(BUFFERS);
    s.open_bm_image(&native(0xA, &[0x10]), Some(container(0xA, &[0x10])));
    s.decompress_image(ImageAddr(0x10));
    s.bind_image_surface(ImageAddr(0xD0), SurfaceAddr(7));
    assert_eq!(s.overlays.get(SurfaceAddr(7)), Some(ImageAddr(0x10)));
    s.bind_image_surface(ImageAddr(0x99), SurfaceAddr(7));
    assert!(!s.overlays.contains_key(SurfaceAddr(7)));
    s.bind_image_surface(ImageAddr(0x50), SurfaceAddr(9));
    assert_eq!(s.smush_surface, Some(SurfaceAddr(9)));
}

#[test]
fn deleting_textures_unpairs_their_surface() {
    let mut s: HqState<()> = HqState::new(BUFFERS);
    s.open_bm_image(&native(0xA, &[0x10]), Some(container(0xA, &[0x10])));
    s.bind_image_surface(ImageAddr(0x10), SurfaceAddr(0x100));
    s.delete_textures(0x120);
    assert!(!s.overlays.contains_key(SurfaceAddr(0x100)));
    s.delete_textures(0x10);
}

#[test]
fn targets_resolve_background_then_overlays() {
    let mut overlays = OverlayRegistry::new();
    overlays.insert(SurfaceAddr(5), ImageAddr(0x10));
    let under = Some(SurfaceAddr(1));
    assert_eq!(get_target(SurfaceAddr(1), under, &None, &overlays), None);
    assert_eq!(get_target(SurfaceAddr(1), under, &Some(small_background()), &overlays), Some(Target::Background));
    assert_eq!(get_target(SurfaceAddr(5), under, &None, &overlays), Some(Target::Image(ImageAddr(0x10))));
    assert_eq!(get_target(SurfaceAddr(6), under, &None, &overlays), None);
}

#[test]
fn upload_decisions() {
    let mut s: HqState<()> = HqState::new(BUFFERS);
    s.open_bm_image(&native(0xA, &[0x10]), Some(container(0xA, &[0x10])));
    s.bind_image_surface(ImageAddr(0x10), SurfaceAddr(5));
    let under = Some(SurfaceAddr(1));
    assert_eq!(s.surface_upload(SurfaceAddr(9), true, under), UploadAction::Native { reset_first: true });
    assert_eq!(s.surface_upload(SurfaceAddr(9), false, under), UploadAction::Native { reset_first: false });
    assert_eq!(s.surface_upload(SurfaceAddr(5), false, under), UploadAction::Skip);
    assert_eq!(s.target, None);
    assert_eq!(
        s.surface_upload(SurfaceAddr(5), true, under),
        UploadAction::Substitute(Target::Image(ImageAddr(0x10)))
    );
    assert!(matches!(s.with_target_hq_image(), Some(TargetMut::Image(h)) if h.original_addr == ImageAddr(0x10)));
    assert_eq!(s.target_row_length(), Some(40));
    s.finish_upload();
    assert!(s.with_target_hq_image().is_none());
    s.background = Some(small_background());
    assert_eq!(s.surface_upload(SurfaceAddr(1), true, under), UploadAction::Substitute(Target::Background));
    assert_eq!(s.target_row_length(), Some(4));
}

#[test]
fn draw_setup_overrides() {
    let mut s: HqState<()> = HqState::new(BUFFERS);
    s.open_bm_image(&native(0xA, &[0x10]), Some(container(0xA, &[0x10])));
    s.bind_image_surface(ImageAddr(0x10), SurfaceAddr(5));
    let under = Some(SurfaceAddr(1));
    let overlay = Draw { addr: 1, surface: SurfaceAddr(5), sampler: 3 };
    let bg_draw = Draw { addr: 2, surface: SurfaceAddr(1), sampler: 4 };
    assert!(overlay.is_hq(under, &s.background, &s.overlays));
    assert_eq!(s.setup_draw(Some(overlay), under), DrawSetup { swap_shader: true, linear_filter: true, blend: true });
    // the draw consumed the pair: the next draw of the surface is native
    assert!(!s.overlays.contains_key(SurfaceAddr(5)));
    assert_eq!(s.setup_draw(Some(overlay), under), DrawSetup { swap_shader: false, linear_filter: false, blend: false });
    assert_eq!(s.setup_draw(Some(bg_draw), under), DrawSetup { swap_shader: false, linear_filter: false, blend: false });
    s.background = Some(small_background());
    assert_eq!(s.setup_draw(Some(bg_draw), under), DrawSetup { swap_shader: true, linear_filter: true, blend: false });
    assert_eq!(s.setup_draw(None, under), DrawSetup { swap_shader: false, linear_filter: false, blend: false });
}

#[test]
fn stencil_only_for_video_surface_in_cutout_scene() {
    let mut s: HqState<()> = HqState::new(BUFFERS);
    s.bind_image_surface(ImageAddr(0x50), SurfaceAddr(9));
    let video = Draw { addr: 1, surface: SurfaceAddr(9), sampler: 0 };
    let other = Draw { addr: 1, surface: SurfaceAddr(8), sampler: 0 };
    assert!(s.draw_indexed_primitives(Some(video), true));
    assert!(!s.draw_indexed_primitives(Some(video), false));
    assert!(!s.draw_indexed_primitives(Some(other), true));
    assert!(Background::is_stencilled_video_scene(true, &Some(small_background()), true));
    assert!(!Background::is_stencilled_video_scene(true, &None, true));
}

#[test]
fn copy_to_clean_buffer_composites_and_video_drops_background() {
    let mut s: HqState<()> = HqState::new(BUFFERS);
    let mut d = HqImageAsyncData::new();
    d.loaded(vec![1; 1280 * 960 * 4], false);
    s.open_bm_image(&native(0xA, &[0x100]), Some(HqImageContainer {
        name: "scene".to_string(),
        original_addr: ImageContainerAddr(0xA),
        images: vec![HqImage { name: "scene".to_string(), index: 0, width: 1280, height: 960, scale: 2, original_addr: ImageAddr(0x100), data: () }],
    }));
    assert_eq!(s.copy_source(ImageAddr(0xC0), ImageAddr(0x100)), Some(ImageAddr(0x100)));
    assert_eq!(s.copy_source(ImageAddr(0xB0), ImageAddr(0x100)), None);
    let scene = Image { addr: ImageAddr(0x100), width: 640, height: 480 };
    s.copy_image(ImageAddr(0xC0), ImageAddr(0x100), Some(scene), 0, 0, &d, None, false);
    assert!(s.background.is_some());
    s.copy_image(ImageAddr(0xB0), ImageAddr(0x50), None, 0, 0, &d, Some((640, 480)), true);
    assert!(s.background.is_some());
    s.copy_image(ImageAddr(0xB0), ImageAddr(0x50), None, 0, 0, &d, Some((320, 240)), false);
    assert!(s.background.is_some());
    s.copy_image(ImageAddr(0xB0), ImageAddr(0x50), None, 0, 0, &d, Some((640, 480)), false);
    assert!(s.background.is_none());
}

#[test]
fn address_helpers() {
    let a = ImageAddr::from_ptr(0xD0);
    assert!(a.is_decompression_buffer(&BUFFERS));
    assert_eq!(a.original(&BUFFERS, None), a);
    assert_eq!(a.original(&BUFFERS, Some(ImageAddr(3))), ImageAddr(3));
    assert_eq!(ImageAddr(5).original(&BUFFERS, Some(ImageAddr(3))), ImageAddr(5));
    assert!(ImageAddr(0xC0).is_clean_buffer(&BUFFERS));
    assert!(ImageAddr(0xC8).is_clean_z_buffer(&BUFFERS));
    assert!(ImageAddr(0xB0).is_back_buffer(&BUFFERS));
    assert!(ImageAddr(0x50).is_smush_buffer(&BUFFERS));
    assert_eq!(a.underlying(), 0xD0);
    assert_eq!(SurfaceAddr::from_ptr(4), SurfaceAddr(4));
    assert_eq!(ImageContainerAddr::from_ptr(4), ImageContainerAddr(4));
    assert!(SurfaceAddr(4).is_bitmap_underlays(Some(SurfaceAddr(4))));
    assert!(!SurfaceAddr(4).is_bitmap_underlays(None));
}

#[test]
fn image_names_for_logs() {
    let catalog = vec![container(0xA, &[0x10])];
    assert_eq!(ImageAddr(0xC0).name(&BUFFERS, None, &catalog), "CLEAN_BUFFER");
    assert_eq!(ImageAddr(0xC8).name(&BUFFERS, None, &catalog), "CLEAN_Z_BUFFER");
    assert_eq!(ImageAddr(0xB0).name(&BUFFERS, None, &catalog), "BACK_BUFFER");
    assert_eq!(ImageAddr(0x50).name(&BUFFERS, None, &catalog), "SMUSH_BUFFER");
    assert_eq!(ImageAddr(0x10).name(&BUFFERS, None, &catalog), "img16");
    assert_eq!(ImageAddr(0x1f3).name(&BUFFERS, None, &catalog), "unknown/dynamic buffer (0x1f3)");
    assert_eq!(
        ImageAddr(0xD0).name(&BUFFERS, Some(ImageAddr(0x10)), &catalog),
        "DECOMPRESSION_BUFFER aka img16"
    );
    assert_eq!(catalog[0].images[0].format_addr(), "0x10");
    assert_eq!(hq(0, 0).format_addr(), "0x0");
    assert_eq!(hq(0xabcdef, 0).format_addr(), "0xabcdef");
}

#[test]
fn copy_to_a_buffer_that_is_both_clean_and_back() {
    let buffers = KnownBuffers { decompression: 0xD0, clean: 0xC0, clean_z: 0xC8, back: 0xC0, smush: 0x50 };
    let mut s: HqState<()> = HqState::new(buffers);
    s.background = Some(small_background());
    let mut d = HqImageAsyncData::new();
    d.failed();
    s.copy_image(ImageAddr(0xC0), ImageAddr(0x50), None, 0, 0, &d, Some((640, 480)), false);
    assert!(s.background.is_none());
}
