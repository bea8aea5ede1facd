use soul_listener::eink::display::fill_checkerboard;
use soul_listener::eink::framebuffer::{ColorMode, Framebuffer};
use soul_listener::eink::pixel_color::{EinkColor, Gray4, SpectraColor};

#[test]
fn test_framebuffer_creation() {
    let fb = Framebuffer::new(100, 50);
    assert_eq!(fb.width, 100);
    assert_eq!(fb.height, 50);
    assert_eq!(fb.pixels.len(), 5000);
    assert_eq!(fb.color_mode, ColorMode::Grayscale);
}

#[test]
fn test_color_mode_creation() {
    let fb_gray = Framebuffer::with_color_mode(10, 10, ColorMode::Grayscale);
    assert_eq!(fb_gray.color_mode, ColorMode::Grayscale);
    let fb_spectra = Framebuffer::with_color_mode(10, 10, ColorMode::Spectra6);
    assert_eq!(fb_spectra.color_mode, ColorMode::Spectra6);
    let fb_kaleido = Framebuffer::with_color_mode(10, 10, ColorMode::Kaleido3);
    assert_eq!(fb_kaleido.color_mode, ColorMode::Kaleido3);
}

#[test]
fn test_set_get_pixel() {
    let mut fb = Framebuffer::new(10, 10);
    let black = EinkColor::Gray(Gray4::black());
    fb.set_pixel(5, 5, black);
    assert_eq!(fb.get_pixel(5, 5), Some(black));
    let white = EinkColor::Gray(Gray4::white());
    assert_eq!(fb.get_pixel(0, 0), Some(white));
}

#[test]
fn test_bounds_checking() {
    let mut fb = Framebuffer::new(10, 10);
    fb.set_pixel(100, 100, EinkColor::Gray(Gray4::black()));
    assert_eq!(fb.get_pixel(100, 100), None);
}

#[test]
fn test_rgba_conversion_grayscale() {
    let mut fb = Framebuffer::new(2, 2);
    fb.set_pixel(0, 0, EinkColor::Gray(Gray4::new(0)));
    fb.set_pixel(1, 0, EinkColor::Gray(Gray4::new(1)));
    fb.set_pixel(0, 1, EinkColor::Gray(Gray4::new(2)));
    fb.set_pixel(1, 1, EinkColor::Gray(Gray4::new(3)));
    let rgba = fb.to_rgba();
    assert_eq!(rgba.len(), 4);
    assert_eq!(rgba[0], 0xFF000000);
    assert_eq!(rgba[3], 0xFFFFFFFF);
}

#[test]
fn test_rgba_conversion_spectra6() {
    let mut fb = Framebuffer::with_color_mode(2, 2, ColorMode::Spectra6);
    fb.set_pixel(0, 0, EinkColor::Spectra6 { bw: Gray4::white(), color: SpectraColor::Red });
    let rgba = fb.to_rgba();
    let r = (rgba[0] >> 16) & 0xFF;
    assert_eq!(r, 255, "Red channel should be 255 for Red pigment");
}

#[test]
fn test_rgba_conversion_kaleido3() {
    let mut fb = Framebuffer::with_color_mode(2, 2, ColorMode::Kaleido3);
    fb.set_pixel(0, 0, EinkColor::Kaleido3 { r: 15, g: 0, b: 0 });
    let rgba = fb.to_rgba();
    assert_eq!(rgba[0], 0xFFFF0000);
}

#[test]
fn test_clear() {
    let mut fb = Framebuffer::new(10, 10);
    fb.set_pixel(5, 5, EinkColor::Gray(Gray4::black()));
    fb.clear();
    for y in 0..fb.height {
        for x in 0..fb.width {
            assert_eq!(fb.get_pixel(x, y), Some(EinkColor::Gray(Gray4::white())));
        }
    }
}

#[test]
fn test_from_gray4() {
    let gray_pixels = vec![Gray4::black(); 100];
    let fb = Framebuffer::from_gray4(10, 10, gray_pixels);
    assert_eq!(fb.width, 10);
    assert_eq!(fb.height, 10);
    assert_eq!(fb.color_mode, ColorMode::Grayscale);
    assert_eq!(fb.get_pixel(0, 0), Some(EinkColor::Gray(Gray4::black())));
}

#[test]
fn test_gray4_to_mode() {
    let fb_gray = Framebuffer::with_color_mode(10, 10, ColorMode::Grayscale);
    let converted = fb_gray.gray4_to_mode(Gray4::new(2));
    assert_eq!(converted, EinkColor::Gray(Gray4::new(2)));

    let fb_spectra = Framebuffer::with_color_mode(10, 10, ColorMode::Spectra6);
    let converted = fb_spectra.gray4_to_mode(Gray4::new(2));
    match converted {
        EinkColor::Spectra6 { bw, color } => {
            assert_eq!(bw.luma(), 2);
            assert_eq!(color, SpectraColor::NoColor);
        }
        _ => unreachable!("gray4_to_mode(Spectra6) returned unexpected variant"),
    }

    let fb_kaleido = Framebuffer::with_color_mode(10, 10, ColorMode::Kaleido3);
    let converted = fb_kaleido.gray4_to_mode(Gray4::new(2));
    match converted {
        EinkColor::Kaleido3 { r, g, b } => {
            assert_eq!(r, 10);
            assert_eq!(g, 10);
            assert_eq!(b, 10);
        }
        _ => unreachable!("gray4_to_mode(Kaleido3) returned unexpected variant"),
    }
}

#[test]
fn test_spectra6_conversion() {
    let color = EinkColor::Spectra6 { bw: Gray4::new(2), color: SpectraColor::Red };
    assert!(color.is_color());
    assert!(!color.is_grayscale());
    let rgba = color.to_rgba();
    let r = (rgba >> 24) & 0xFF;
    assert_eq!(r, 255);
}

#[test]
fn test_color_quantization() {
    let gray = EinkColor::Gray(Gray4::new(2));
    let quantized = gray.quantize(2);
    match quantized {
        EinkColor::Gray(g) => {
            let luma = g.luma();
            assert!(luma == 0 || luma == 3, "Should quantize to black or white");
        }
        _ => panic!("Should remain grayscale"),
    }
}

#[test]
fn test_from_trait() {
    let gray = Gray4::new(2);
    let color: EinkColor = gray.into();
    assert_eq!(color, EinkColor::Gray(gray));
}

#[test]
fn pixel_color_test_default() {
    let color = EinkColor::default();
    assert_eq!(color, EinkColor::Gray(Gray4::white()));
}

#[test]
fn argb_words_of_each_color() {
    // Gray levels are scaled by 85 per level.
    assert_eq!(EinkColor::from_gray4(Gray4::black()).to_rgba(), 0xFF000000);
    assert_eq!(EinkColor::Gray(Gray4::new(1)).to_rgba(), 0xFF555555);
    // Spectra pigments over a mid gray (level 2 → 170, capped at 128).
    let over = |c| EinkColor::Spectra6 { bw: Gray4::new(2), color: c }.to_rgba();
    assert_eq!(over(SpectraColor::NoColor), 0xFFAAAAAA);
    assert_eq!(over(SpectraColor::Red), 0xFFFF8080);
    assert_eq!(over(SpectraColor::Yellow), 0xFFFFFF80);
    assert_eq!(over(SpectraColor::Blue), 0xFF8080FF);
    assert_eq!(over(SpectraColor::Green), 0xFF80FFAA);
    // Kaleido channels are 4-bit, scaled by 17.
    assert_eq!(EinkColor::Kaleido3 { r: 15, g: 8, b: 0 }.to_rgba(), 0xFFFF8800);
    assert_eq!(EinkColor::Kaleido3 { r: 0, g: 15, b: 0 }.to_rgba(), 0xFF00FF00);
}

#[test]
fn gray4_keeps_low_four_bits() {
    assert_eq!(Gray4::new(0x1F).luma(), 15);
    assert_eq!(Gray4::new(16).luma(), 0);
}

#[test]
fn fill_and_checkerboard() {
    let mut fb = Framebuffer::new(20, 10);
    fb.fill(EinkColor::Gray(Gray4::new(7)));
    assert!(fb.pixels.iter().all(|p| *p == EinkColor::Gray(Gray4::new(7))));
    fill_checkerboard(&mut fb);
    assert_eq!(fb.get_pixel(0, 0), Some(EinkColor::Gray(Gray4::black())));
    assert_eq!(fb.get_pixel(7, 7), Some(EinkColor::Gray(Gray4::black())));
    assert_eq!(fb.get_pixel(8, 0), Some(EinkColor::Gray(Gray4::white())));
    assert_eq!(fb.get_pixel(0, 8), Some(EinkColor::Gray(Gray4::white())));
    assert_eq!(fb.get_pixel(8, 8), Some(EinkColor::Gray(Gray4::black())));
    assert_eq!(fb.get_pixel(16, 9), Some(EinkColor::Gray(Gray4::white())));
}

#[test]
fn quantize_color_levels() {
    // Four levels keep the 0..3 grays; two levels round 1 and 2 down to 0.
    assert_eq!(EinkColor::Gray(Gray4::new(2)).quantize(4), EinkColor::Gray(Gray4::new(2)));
    assert_eq!(EinkColor::Gray(Gray4::new(3)).quantize(2), EinkColor::Gray(Gray4::new(3)));
    assert_eq!(EinkColor::Gray(Gray4::new(9)).quantize(16), EinkColor::Gray(Gray4::new(9)));
    let c = EinkColor::Kaleido3 { r: 1, g: 2, b: 3 };
    assert_eq!(c.quantize(2), c);
}

#[test]
fn screenshot_bytes_scale_levels() {
    let mut fb = Framebuffer::new(3, 1);
    fb.set_pixel(0, 0, EinkColor::Gray(Gray4::new(3)));
    fb.set_pixel(1, 0, EinkColor::Gray(Gray4::new(15)));
    fb.set_pixel(2, 0, EinkColor::Kaleido3 { r: 15, g: 0, b: 0 });
    // 3 * 85 = 255; 15 * 85 = 1275 keeps its low byte 251; (15 / 3) * 17 = 85.
    assert_eq!(fb.to_gray_bytes(), vec![255, 251, 85]);
}
