use grimmod::addr::{Image, ImageAddr, ImageContainer, ImageContainerAddr};
use grimmod::background::{Background, BackgroundWrites};
use grimmod::catalog::{HqImage, HqImageContainer};
use grimmod::pixels::HqImageAsyncData;

fn loaded(buffer: Vec<u8>, has_alpha: bool) -> HqImageAsyncData {
    let mut d = HqImageAsyncData::new();
    d.loaded(buffer, has_alpha);
    d
}

fn background(width: u32, height: u32, scale: u32, fill: u8) -> Background {
    Background {
        name: "bg".to_string(),
        width,
        height,
        scale,
        original_addr: ImageAddr(0x100),
        buffer: vec![fill; (width * height * 4) as usize],
    }
}

fn hq(index: usize, width: u32, height: u32, scale: u32, addr: usize) -> HqImage<()> {
    HqImage {
        name: "ov".to_string(),
        index,
        width,
        height,
        scale,
        original_addr: ImageAddr(addr),
        data: (),
    }
}

fn pixel(bg: &Background, row: usize, col: usize) -> [u8; 4] {
    let k = (row * bg.width as usize + col) * 4;
    [bg.buffer[k], bg.buffer[k + 1], bg.buffer[k + 2], bg.buffer[k + 3]]
}

#[test]
fn blend_full_alpha_takes_foreground() {
    assert_eq!(Background::blend_pixels((10, 20, 30, 40), (200, 150, 100, 255)), (200, 150, 100));
}

#[test]
fn blend_zero_alpha_keeps_background() {
    assert_eq!(Background::blend_pixels((10, 20, 30, 40), (200, 150, 100, 0)), (10, 20, 30));
}

#[test]
fn blend_half_alpha_exact() {
    // (200*128 + 0*127)/255 = 100
    assert_eq!(Background::blend_pixels((0, 0, 0, 0), (200, 200, 200, 128)), (100, 100, 100));
}

#[test]
fn opaque_overlay_reads_back_exactly() {
    let mut bg = background(8, 6, 2, 0);
    let src: Vec<u8> = (0..(4 * 2 * 4) as u8).collect();
    let ov = hq(0, 4, 2, 2, 0x200);
    bg.overlay(1, 1, &ov, &loaded(src.clone(), false));
    for r in 0..2 {
        for c in 0..4 {
            let k = (r * 4 + c) * 4;
            assert_eq!(pixel(&bg, 2 + r, 2 + c), [src[k], src[k + 1], src[k + 2], src[k + 3]]);
        }
    }
    assert_eq!(pixel(&bg, 0, 0), [0, 0, 0, 0]);
    assert_eq!(pixel(&bg, 4, 2), [0, 0, 0, 0]);
}

#[test]
fn alpha_overlay_blends_and_keeps_destination_alpha() {
    let mut bg = background(2, 1, 1, 100);
    let src = vec![200, 200, 200, 255, 200, 200, 200, 0];
    bg.overlay(0, 0, &hq(0, 2, 1, 1, 0x200), &loaded(src, true));
    assert_eq!(bg.buffer, vec![200, 200, 200, 100, 100, 100, 100, 100]);
}

#[test]
fn overlay_with_wrong_scale_is_skipped() {
    let mut bg = background(4, 4, 2, 7);
    bg.overlay(0, 0, &hq(0, 2, 2, 1, 0x200), &loaded(vec![1; 16], false));
    assert_eq!(bg.buffer, vec![7; 64]);
}

#[test]
fn overlay_out_of_bounds_is_skipped() {
    let mut bg = background(4, 4, 1, 7);
    bg.overlay(3, 3, &hq(0, 2, 2, 1, 0x200), &loaded(vec![1; 16], false));
    assert_eq!(bg.buffer, vec![7; 64]);
}

#[test]
fn overlay_of_failed_pixels_is_skipped() {
    let mut bg = background(4, 4, 1, 7);
    let mut d = HqImageAsyncData::new();
    d.failed();
    bg.overlay(0, 0, &hq(0, 2, 2, 1, 0x200), &d);
    assert_eq!(bg.buffer, vec![7; 64]);
}

#[test]
fn write_log_insert_remove_clear() {
    let mut w = BackgroundWrites::new();
    Background::save(&mut w, 1, 2, 3, 4);
    Background::save(&mut w, 1, 2, 5, 6);
    Background::save(&mut w, 7, 8, 9, 10);
    assert_eq!(w.remove((1, 2)), Some((5, 6)));
    assert_eq!(w.remove((1, 2)), None);
    w.clear();
    assert_eq!(w.remove((7, 8)), None);
}

fn door_catalog() -> Vec<HqImageContainer<()>> {
    // the scene background 0x100 (640x480 native, 1280x960 HQ) and an overlay 0x200
    vec![
        HqImageContainer {
            name: "scene".to_string(),
            original_addr: ImageContainerAddr(0x10),
            images: vec![hq(0, 1280, 960, 2, 0x100)],
        },
        HqImageContainer {
            name: "door".to_string(),
            original_addr: ImageContainerAddr(0x20),
            images: vec![hq(0, 40, 40, 2, 0x200)],
        },
    ]
}

#[test]
fn write_animate_restore_round_trip() {
    let catalog = door_catalog();
    let scene = Image { addr: ImageAddr(0x100), width: 640, height: 480 };
    let door = Image { addr: ImageAddr(0x200), width: 20, height: 20 };
    let other = Image { addr: ImageAddr(0x300), width: 20, height: 20 };
    let source: Vec<u8> = (0..1280 * 960 * 4).map(|i| (i % 251) as u8).collect();
    let source_data = loaded(source.clone(), false);
    let mut bg = None;
    let mut writes = BackgroundWrites::new();

    assert_eq!(Background::write_source(&scene, 0, 0, &catalog, &bg, &writes), Some(ImageAddr(0x100)));
    Background::write(&scene, 0, 0, &catalog, &mut bg, &mut writes, &source_data);
    assert_eq!(bg.as_ref().unwrap().buffer, source);
    assert_eq!(bg.as_ref().unwrap().scale, 2);

    let door_pixels = loaded(vec![9; 40 * 40 * 4], false);
    assert_eq!(Background::write_source(&door, 10, 10, &catalog, &bg, &writes), Some(ImageAddr(0x200)));
    Background::write(&door, 10, 10, &catalog, &mut bg, &mut writes, &door_pixels);
    let b = bg.as_ref().unwrap();
    // composited at (20,20), size 40x40
    assert_eq!(pixel(b, 20, 20), [9; 4]);
    assert_eq!(pixel(b, 59, 59), [9; 4]);
    assert_ne!(pixel(b, 60, 60), [9; 4]);
    assert_ne!(pixel(b, 19, 19), [9; 4]);

    assert_eq!(Background::write_source(&other, 10, 10, &catalog, &bg, &writes), Some(ImageAddr(0x100)));
    Background::write(&other, 10, 10, &catalog, &mut bg, &mut writes, &source_data);
    assert_eq!(bg.as_ref().unwrap().buffer, source);
    assert_eq!(writes.remove((10, 10)), None);
}

#[test]
fn restore_without_record_does_nothing() {
    let catalog = door_catalog();
    let mut bg = Some(background(4, 4, 1, 3));
    let mut writes = BackgroundWrites::new();
    let r = Background::restore(&mut bg, &mut writes, 1, 1, &catalog, &loaded(vec![0; 64], false));
    assert_eq!(r, None);
    assert_eq!(bg.unwrap().buffer, vec![3; 64]);
}

#[test]
fn scene_write_without_replacement_clears_background() {
    let catalog = door_catalog();
    let mut bg = Some(background(4, 4, 1, 3));
    let mut writes = BackgroundWrites::new();
    Background::save(&mut writes, 1, 1, 2, 2);
    let img = Image { addr: ImageAddr(0x999), width: 640, height: 480 };
    let mut d = HqImageAsyncData::new();
    d.failed();
    Background::write(&img, 0, 0, &catalog, &mut bg, &mut writes, &d);
    assert!(bg.is_none());
    assert_eq!(writes.remove((1, 1)), None);
}

#[test]
fn non_first_frame_does_not_record() {
    let mut bg = Some(background(4, 4, 1, 3));
    let mut writes = BackgroundWrites::new();
    Background::animate(&mut bg, &mut writes, 1, 1, &hq(1, 2, 2, 1, 0x200), &loaded(vec![1; 16], false));
    assert_eq!(writes.remove((1, 1)), None);
    Background::animate(&mut bg, &mut writes, 1, 1, &hq(0, 2, 2, 1, 0x200), &loaded(vec![1; 16], false));
    assert_eq!(writes.remove((1, 1)), Some((2, 2)));
}

#[test]
fn to_background_copies_loaded_pixels() {
    let img = hq(0, 2, 1, 1, 0x100);
    let b = img.to_background_mut(&loaded(vec![1, 2, 3, 4, 5, 6, 7, 8], false)).unwrap();
    assert_eq!((b.width, b.height, b.buffer.len()), (2, 1, 8));
    assert!(img.to_background_mut(&HqImageAsyncData::new()).is_none());
}

#[test]
fn container_accessors() {
    let c = ImageContainer {
        name: "x.bm".to_string(),
        original_addr: ImageContainerAddr(1),
        images: vec![],
        image_addrs: vec![ImageAddr(2)],
    };
    assert_eq!(c.name(), "x.bm");
    assert!(c.images().is_empty());
    assert_eq!(c.image_addrs(), &vec![ImageAddr(2)]);
}
