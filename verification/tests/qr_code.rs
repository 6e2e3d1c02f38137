use audio_sharing::qr::{grid_from_text, QrCode, QrCodeError, DARK_MODULE};
use audio_sharing::text::is_whitespace;

#[test]
fn whitespace_matches_std_for_every_char() {
    for u in 0u32..=0x10FFFF {
        if let Some(c) = char::from_u32(u) {
            assert_eq!(is_whitespace(c), c.is_whitespace(), "code point {:#x}", u);
        }
    }
}

#[test]
fn grid_from_text_reads_rows_and_cells() {
    let grid = grid_from_text("\u{2588} \u{2588}\n \u{2588} ");
    assert_eq!(grid, vec![vec![true, false, true], vec![false, true, false]]);
}

#[test]
fn grid_from_text_empty_text_is_one_empty_row() {
    assert_eq!(grid_from_text(""), vec![Vec::<bool>::new()]);
}

#[test]
fn grid_from_text_trailing_newline_gives_empty_row() {
    assert_eq!(grid_from_text("ab\n"), vec![vec![true, true], vec![]]);
    assert_eq!(grid_from_text("\n\n"), vec![vec![], vec![], vec![]]);
}

#[test]
fn grid_from_text_any_non_whitespace_is_dark() {
    assert_eq!(grid_from_text("x\t\u{3000}#"), vec![vec![true, false, false, true]]);
}

#[test]
fn empty_content_gives_version_one_code() {
    let code = QrCode::new("").expect("empty content encodes");
    assert_eq!(code.width(), 29);
    assert_eq!(code.height(), 29);
    assert_eq!(code.content(), "");
}

#[test]
fn address_code_is_square() {
    let code = QrCode::new("rtsp://192.168.1.10:8554/audio").expect("address encodes");
    let items = code.items();
    assert_eq!(code.width(), code.height());
    assert_eq!(items.len() as i32, code.height());
    for row in &items {
        assert_eq!(row.len() as i32, code.width());
    }
    assert_eq!(code.content(), "rtsp://192.168.1.10:8554/audio");
}

#[test]
fn code_cells_follow_the_qrcode_renderer() {
    let content = "rtsp://10.0.0.7:8554/audio";
    let code = QrCode::new(content).expect("address encodes");
    let rendered = qrcode::QrCode::new(content.as_bytes())
        .unwrap()
        .render::<char>()
        .quiet_zone(true)
        .module_dimensions(1, 1)
        .build();
    let expected: Vec<Vec<bool>> = rendered
        .split('\n')
        .map(|line| line.chars().map(|c| c == DARK_MODULE).collect())
        .collect();
    assert_eq!(code.items(), expected);
    // The quiet zone is light, and the finder pattern's corner is dark.
    assert!(code.items()[0].iter().all(|cell| !cell));
    assert!(code.items()[4][4]);
}

#[test]
fn too_long_content_is_refused() {
    let content = "a".repeat(5000);
    match QrCode::new(&content) {
        Err(QrCodeError::Encoding(e)) => assert_eq!(e, qrcode::types::QrError::DataTooLong),
        Ok(_) => panic!("5000 bytes cannot fit in a QR code"),
    }
}

#[test]
fn code_side_quiet_zone_and_finder_corners() {
    for content in ["", "rtsp://0.0.0.0:8554/audio", "rtsp://[fe80::1]:8554/audio", &"b".repeat(1200)] {
        let code = QrCode::new(content).expect("content encodes");
        let n = code.width() as usize;
        let version = match qrcode::QrCode::new(content.as_bytes()).unwrap().version() {
            qrcode::Version::Normal(v) => v as usize,
            qrcode::Version::Micro(_) => panic!("QrCode::new makes normal QR codes"),
        };
        assert!((1..=40).contains(&version));
        assert_eq!(n, 4 * version + 25);
        let items = code.items();
        for (r, row) in items.iter().enumerate() {
            for (c, cell) in row.iter().enumerate() {
                if r < 4 || r >= n - 4 || c < 4 || c >= n - 4 {
                    assert!(!cell, "quiet zone cell ({}, {}) is dark", r, c);
                }
            }
        }
        assert!(items[4][4]);
        assert!(items[4][n - 5]);
        assert!(items[n - 5][4]);
    }
}
