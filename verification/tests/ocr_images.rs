use bedcode_mobile::borders::find_border_pixel_sets;
use bedcode_mobile::error::AppError;
use bedcode_mobile::imgops::{dilate_2x2, rot180, rot90_ccw, round32, ImgBuf, RgbaImage};
use bedcode_mobile::ocr::{
    ctc_kept_steps,
    engine_status, models_dir, onnxruntime_so_path, reset_resident, resident_loaded, route_engine,
    PpOcrContext, PpOcrEngine,
};

#[test]
fn rot90_ccw_basic() {
    let img = ImgBuf::new(vec![1, 0, 0, 2, 0, 0], 2, 1);
    let out = rot90_ccw(&img);
    assert_eq!((out.w, out.h), (1, 2));
    assert_eq!(out.rgb_at(0, 0), [2, 0, 0]);
    assert_eq!(out.rgb_at(0, 1), [1, 0, 0]);
}

#[test]
fn rot180_basic() {
    let img = ImgBuf::new(vec![1, 0, 0, 2, 0, 0, 3, 0, 0, 4, 0, 0], 2, 2);
    let out = rot180(&img);
    assert_eq!(out.rgb_at(0, 0), [4, 0, 0]);
    assert_eq!(out.rgb_at(1, 1), [1, 0, 0]);
    assert_eq!(out.rgb_at(1, 0), [3, 0, 0]);
    assert_eq!(out.rgb_at(0, 1), [2, 0, 0]);
}

#[test]
fn dilate_extends_down_right() {
    let mask = vec![
        false, false, false, false, //
        false, true, false, false, //
        false, false, false, false, //
        false, false, false, false, //
    ];
    let out = dilate_2x2(&mask, 4, 4);
    let expect = vec![
        false, false, false, false, //
        false, true, true, false, //
        false, true, true, false, //
        false, false, false, false, //
    ];
    assert_eq!(out, expect);
}

#[test]
fn round32_rounds_half_to_even_with_floor_of_32() {
    assert_eq!(round32(960), 960);
    assert_eq!(round32(975), 960);
    assert_eq!(round32(976), 960);
    assert_eq!(round32(1008), 1024);
    assert_eq!(round32(10), 32);
    assert_eq!(round32(-100), 32);
}

#[test]
fn resident_never_loaded_off_android() {
    assert!(!resident_loaded());
    reset_resident();
    assert!(!resident_loaded());
}

#[test]
fn onnx_so_path_joins_lib_dir() {
    let p = onnxruntime_so_path("/data/app/xx/lib/arm64");
    assert_eq!(p.rsplit('/').next().unwrap(), "libonnxruntime.so");
    assert_eq!(p, "/data/app/xx/lib/arm64/libonnxruntime.so");
    assert_eq!(models_dir("/data/user/0/app/files"), "/data/user/0/app/files/ocr_models");
}

#[test]
fn route_supports_offline() {
    let engine = route_engine("offline", String::new(), None).expect("offline must route");
    assert_eq!(engine.engine_id(), "offline");
    assert_eq!(engine, PpOcrEngine::new(PpOcrContext { data_dir: String::new(), onnxruntime_so: None }));
}

#[test]
fn route_rejects_unknown_engines() {
    for name in ["online:aws", "tesseract", ""] {
        let err = match route_engine(name, String::new(), None) {
            Err(AppError::InvalidInput(m)) => m,
            other => panic!("unexpected: {:?}", other),
        };
        assert!(err.contains("unsupported engine"), "got: {}", err);
        assert!(err.contains(name), "got: {}", err);
    }
}

#[test]
fn status_available_reflects_onnxruntime_so() {
    assert!(!engine_status(true, 5, Some(false)).available);
    assert!(engine_status(true, 5, Some(true)).available);
    let s = engine_status(false, 0, None);
    assert!(s.available);
    assert!(!s.engine_loaded);
    assert_eq!(s.supported_engines, vec!["offline".to_string()]);
}

fn message(r: Result<RgbaImage, AppError>) -> String {
    match r {
        Err(AppError::InvalidInput(m)) => m,
        other => panic!("unexpected: {:?}", other),
    }
}

#[test]
fn load_ok_when_size_matches() {
    let img = RgbaImage::from_rgba_bytes("/tmp/ok.rgba", vec![0u8; 4], 1, 1).unwrap();
    assert_eq!(img.pixels.len(), 4);
    assert_eq!(img.width, 1);
    assert_eq!(img.height, 1);
}

#[test]
fn load_rejects_size_mismatch() {
    let err = message(RgbaImage::from_rgba_bytes("/tmp/mismatch.rgba", vec![0u8; 3], 1, 1));
    assert!(err.contains("size mismatch"), "got: {}", err);
    assert!(err.contains("3 bytes"), "got: {}", err);
    assert!(err.contains("4"), "got: {}", err);
    assert_eq!(
        err,
        "plugin_ocr_recognize: RGBA file /tmp/mismatch.rgba size mismatch: 3 bytes, expected 4 (1x1x4)"
    );
}

#[test]
fn load_rejects_zero_dimension() {
    let err = message(RgbaImage::from_rgba_bytes("/tmp/z.rgba", Vec::new(), 0, 10));
    assert!(err.contains("invalid image size"), "got: {}", err);
    assert_eq!(err, "plugin_ocr_recognize: invalid image size 0x10 (must be > 0)");
}

#[test]
fn load_rejects_huge_pixel_count() {
    let err = message(RgbaImage::from_rgba_bytes("/tmp/h.rgba", Vec::new(), 9_000_000, 9));
    assert!(err.contains("too large"), "got: {}", err);
    assert_eq!(err, "plugin_ocr_recognize: image too large 9000000x9 (81000000 px, limit 40000000)");
}

#[test]
fn to_rgb_drops_alpha() {
    let img = RgbaImage::from_rgba_bytes("/tmp/rgb.rgba", vec![255, 0, 0, 9, 0, 255, 0, 8, 0, 0, 255, 7], 3, 1).unwrap();
    assert_eq!(img.to_rgb(), vec![255, 0, 0, 0, 255, 0, 0, 0, 255]);
}

#[test]
fn find_borders_rectangle_and_hole() {
    let mut mask = vec![0u8; 36];
    for y in 1..5 {
        for x in 1..5 {
            mask[y * 6 + x] = 1;
        }
    }
    for y in 2..4 {
        for x in 2..4 {
            mask[y * 6 + x] = 0;
        }
    }
    let borders = find_border_pixel_sets(&mask, 6, 6);
    assert_eq!(borders.len(), 2, "expected outer + hole, got {}", borders.len());
    assert_eq!(borders[0].len(), 12, "outer border pixels: {}", borders[0].len());
    assert_eq!(borders[1].len(), 8, "hole border pixels: {}", borders[1].len());
    assert!(borders[1].iter().all(|&(x, y)| (1..=4).contains(&x) && (1..=4).contains(&y)));
}

#[test]
fn find_borders_two_components() {
    let mut mask = vec![0u8; 60];
    mask[1 * 10 + 1] = 1;
    mask[1 * 10 + 2] = 1;
    mask[5 * 10 + 5] = 1;
    let borders = find_border_pixel_sets(&mask, 10, 6);
    assert_eq!(borders.len(), 2);
    assert_eq!(borders[0].len(), 2);
    assert_eq!(borders[1].len(), 1);
    assert_eq!(borders[0], vec![(1, 1), (2, 1)]);
    assert_eq!(borders[1], vec![(5, 5)]);
}

#[test]
fn find_borders_empty_mask() {
    assert!(find_border_pixel_sets(&[], 0, 0).is_empty());
    assert!(find_border_pixel_sets(&[0u8; 16], 4, 4).is_empty());
}

#[test]
fn find_borders_diagonal_pixels_form_one_component() {
    let mask = [1u8, 0, 0, 1];
    let borders = find_border_pixel_sets(&mask, 2, 2);
    assert_eq!(borders, vec![vec![(0, 0), (1, 1)]]);
}

#[test]
fn ctc_steps_drop_blanks_and_repeats() {
    // best labels per step: blank, 1, 1, 2, 4, 3, 3
    assert_eq!(ctc_kept_steps(&[0, 1, 1, 2, 4, 3, 3]), vec![1, 3, 4, 5]);
}

#[test]
fn ctc_steps_all_blank_is_empty() {
    assert_eq!(ctc_kept_steps(&[0, 0]), Vec::<usize>::new());
    assert_eq!(ctc_kept_steps(&[]), Vec::<usize>::new());
}

#[test]
fn ctc_steps_blank_separates_repeats() {
    // a blank between two equal labels keeps both
    assert_eq!(ctc_kept_steps(&[5, 0, 5, 5, 6624]), vec![0, 2, 4]);
}
