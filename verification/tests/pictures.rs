use wiparse_gui::screenshot::{
    can_scale_preview, check_screenshot, icon_from_bytes, load_photo, png_ihdr_dimensions,
    prepare_screenshot_preview, preview_size, try_screenshot_preview, ScreenshotError,
};
use wiparse_gui::tektronix::{
    capture_event, model_of, TektronixEvent, TektronixJob, TektronixPanel,
};

fn encoded(width: u32, height: u32, format: image::ImageFormat) -> Vec<u8> {
    let picture = image::RgbaImage::from_fn(width, height, |x, y| {
        image::Rgba([(x % 256) as u8, (y % 256) as u8, 7, 255])
    });
    let mut out = std::io::Cursor::new(Vec::new());
    image::DynamicImage::ImageRgba8(picture).write_to(&mut out, format).unwrap();
    out.into_inner()
}

#[test]
fn small_pictures_are_shown_as_they_are() {
    let png = encoded(3, 2, image::ImageFormat::Png);
    assert_eq!(png_ihdr_dimensions(&png), Some((3, 2)));
    let preview = prepare_screenshot_preview(&png, 1600).ok().unwrap();
    assert_eq!((preview.width, preview.height), (3, 2));
    assert_eq!(preview.rgba[0..8], [0, 0, 7, 255, 1, 0, 7, 255]);
    assert_eq!(preview.rgba.len(), 3 * 2 * 4);
}

#[test]
fn large_pictures_are_scaled_down() {
    let png = encoded(40, 20, image::ImageFormat::Png);
    let preview = prepare_screenshot_preview(&png, 10).ok().unwrap();
    assert_eq!((preview.width, preview.height), (10, 5));
    assert_eq!(preview.rgba.len(), 10 * 5 * 4);
    assert_eq!(preview_size(40, 20, 10), Some((10, 5)));
    assert_eq!(preview_size(1, 4000, 10), Some((1, 10)));
    assert_eq!(preview_size(10, 10, 10), None);
}

#[test]
fn only_pictures_that_can_be_summed_up_are_scaled() {
    assert!(can_scale_preview(8000, 8000, 1600));
    assert!(can_scale_preview(3000, 3000, 1));
    assert!(!can_scale_preview(8000, 8000, 1));
    assert!(can_scale_preview(64_000_000, 1, 1600));
    assert!(!can_scale_preview(64_000_000, 1, 60_000_000));
    assert!(can_scale_preview(0, 4000, 1600));
    assert!(can_scale_preview(5, 5, 0));

    let png = encoded(40, 20, image::ImageFormat::Png);
    let preview = try_screenshot_preview(&png, 10).unwrap().ok().unwrap();
    assert_eq!((preview.width, preview.height), (10, 5));
    let dense = encoded(4100, 4100, image::ImageFormat::Bmp);
    assert!(try_screenshot_preview(&dense, 1).unwrap().is_err());
    let blank = image::RgbaImage::new(4100, 4100);
    let mut out = std::io::Cursor::new(Vec::new());
    image::DynamicImage::ImageRgba8(blank).write_to(&mut out, image::ImageFormat::Png).unwrap();
    let dense = out.into_inner();
    assert!(try_screenshot_preview(&dense, 1).is_none());
    let preview = try_screenshot_preview(&dense, 1600).unwrap().ok().unwrap();
    assert_eq!((preview.width, preview.height), (1600, 1600));
}

#[test]
fn pictures_beyond_the_limits_are_refused() {
    let mut png = encoded(3, 2, image::ImageFormat::Png);
    png[16..24].copy_from_slice(&[0, 0, 0, 0, 0, 0, 0, 2]);
    let refused = prepare_screenshot_preview(&png, 10).err().unwrap();
    assert!(matches!(refused, ScreenshotError::Dimensions { width: 0, height: 2 }));
    assert_eq!(refused.message(), "PNG dimensions 0x2 exceed safety limit");

    let large = vec![0u8; 8 * 1024 * 1024 + 1];
    let refused = check_screenshot(&large).err().unwrap();
    assert_eq!(refused.message(), "screenshot payload is not a PNG and exceeds 8 MiB");
    let huge = vec![0u8; 32 * 1024 * 1024 + 1];
    let refused = check_screenshot(&huge).err().unwrap();
    assert_eq!(refused.message(), "PNG exceeds 32 MiB limit");

    let refused = prepare_screenshot_preview(&vec![1, 2, 3], 10).err().unwrap();
    assert!(matches!(refused, ScreenshotError::Decode(_)));
}

#[test]
fn other_formats_are_decoded_too() {
    let bmp = encoded(4, 4, image::ImageFormat::Bmp);
    assert_eq!(png_ihdr_dimensions(&bmp), None);
    let preview = prepare_screenshot_preview(&bmp, 100).ok().unwrap();
    assert_eq!((preview.width, preview.height), (4, 4));
}

#[test]
fn the_icon_of_the_window_has_its_size() {
    let right = encoded(32, 32, image::ImageFormat::Png);
    let icon = icon_from_bytes(&right).unwrap();
    assert_eq!((icon.width, icon.height), (32, 32));
    assert_eq!(icon.rgba[4..8], [1, 0, 7, 255]);
    let large = encoded(64, 48, image::ImageFormat::Png);
    let icon = icon_from_bytes(&large).unwrap();
    assert_eq!((icon.width, icon.height), (32, 32));
    assert_eq!(icon.rgba.len(), 32 * 32 * 4);
    assert!(icon_from_bytes(&vec![0]).is_none());
}

#[test]
fn a_scope_is_connected_and_captured() {
    let mut panel = TektronixPanel::new();
    assert_eq!(panel.status_text(), "Disconnected");
    assert!(!panel.live_active());
    assert_eq!(panel.press(TektronixJob::CaptureScreen), None);
    assert_eq!(panel.press(TektronixJob::Connect), Some(TektronixJob::Connect));
    panel.handle_event(TektronixEvent::Connected { idn: "TEKTRONIX,MSO44, C0,FV".into() });
    assert!(panel.connected);
    assert_eq!(panel.model, "MSO44");
    assert_eq!(panel.press(TektronixJob::Connect), None);
    assert_eq!(
        panel.press(TektronixJob::CaptureScreen),
        Some(TektronixJob::CaptureScreen)
    );
    let png = encoded(2, 2, image::ImageFormat::Png);
    let shown = panel.handle_event(capture_event("shot.png".into(), Some(png)));
    assert_eq!(shown.map(|i| (i.width, i.height)), Some((2, 2)));
    assert!(panel.status_text().contains("shot.png"));
    let kept = panel.handle_event(capture_event("raw.png".into(), Some(vec![1])));
    assert!(kept.is_none());
    panel.handle_event(TektronixEvent::Failed("timeout".into()));
    assert!(panel.status_text().contains("timeout"));
    assert_eq!(model_of("only"), "only");
}

#[test]
fn photos_are_loaded() {
    let jpg = encoded(6, 4, image::ImageFormat::Png);
    let photo = load_photo(&jpg).unwrap();
    assert_eq!((photo.width, photo.height), (6, 4));
    assert_eq!(photo.rgba.len(), 6 * 4 * 4);
    assert!(load_photo(&vec![9, 9]).is_none());
}
