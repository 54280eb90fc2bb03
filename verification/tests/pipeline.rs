//! End-to-end and per-stage tests of the table-grid pipeline, on images and
//! masks built in code.

use img2csv::cells::{detect_cells, Cell};
use img2csv::features::{could_be_feature, detect_features, FeatureMask, FeaturePixel};
use img2csv::lines::{detect_lines, LineMask, LinePixel};
use img2csv::raster::{Grid, Image, Rgba};
use img2csv::{get_cells, Config};

fn gray(v: u8) -> Rgba {
    Rgba { r: v, g: v, b: v, a: 255 }
}

fn rgb(r: u8, g: u8, b: u8) -> Rgba {
    Rgba { r, g, b, a: 255 }
}

const WHITE: Rgba = Rgba { r: 255, g: 255, b: 255, a: 255 };
const BLACK: Rgba = Rgba { r: 0, g: 0, b: 0, a: 255 };

/// Asserts that each row of cells has the expected number of columns.
/// The cells vector must be sorted by (row, col).
fn assert_row_lengths(cells: &Vec<Cell>, lengths: &Vec<u32>) {
    let mut cur_row = 0;
    let mut col_count = 0;

    for cell in cells {
        if cell.row == cur_row {
            col_count += 1;
        } else {
            assert_eq!(col_count, lengths[cur_row as usize]);
            col_count = 1;
            cur_row += 1;
        }
    }

    assert_eq!(col_count, lengths[cur_row as usize]);
    assert_eq!(cur_row + 1, lengths.len() as u32);
}

#[test]
fn test_could_be_feature_threshold_boundary() {
    // The darkness threshold is inclusive: exactly 130 is a feature,
    // 131 is background.
    assert!(could_be_feature(&gray(130)));
    assert!(!could_be_feature(&gray(131)));
    assert!(could_be_feature(&gray(0)));
    assert!(!could_be_feature(&rgb(130, 130, 131)));
    assert!(!could_be_feature(&rgb(131, 130, 130)));
}

#[test]
fn test_feature_threshold_end_to_end() {
    // A pixel whose channels are exactly at the threshold is detected;
    // one just above is not. The pixel sits outside the suppressed border.
    let mut img: Image = Grid::new(32, 32, WHITE);
    img.set(16, 16, gray(130));
    let mask = detect_features(&img);
    assert_eq!(mask.get(16, 16), FeaturePixel::Feature);

    img.set(16, 16, gray(131));
    let mask = detect_features(&img);
    assert_eq!(mask.get(16, 16), FeaturePixel::Background);
}

#[test]
fn test_grayscale_is_luma_not_identity() {
    // Pure blue is bright in no channel but dark in luma terms
    // (722 * 255 / 10000 = 18), so it must classify as a feature; a
    // channel-wise check without the grayscale step would reject it.
    let mut img: Image = Grid::new(32, 32, WHITE);
    img.set(16, 16, rgb(0, 0, 255));
    let mask = detect_features(&img);
    assert_eq!(mask.get(16, 16), FeaturePixel::Feature);

    // Yellow is bright in luma terms ((2126 + 7152) * 255 / 10000 = 236).
    img.set(16, 16, rgb(255, 255, 0));
    let mask = detect_features(&img);
    assert_eq!(mask.get(16, 16), FeaturePixel::Background);
}

#[test]
fn test_detect_features_idempotent() {
    // Feature detection is a pure function: two runs on the same image
    // agree pixel for pixel.
    let mut img: Image = Grid::new(40, 40, WHITE);
    for x in 10..30 {
        img.set(x, 20, BLACK);
        img.set(20, x, rgb(60, 20, 200));
    }
    let m1 = detect_features(&img);
    let m2 = detect_features(&img);
    assert_eq!(m1.width, m2.width);
    assert_eq!(m1.height, m2.height);
    for y in 0..m1.height {
        for x in 0..m1.width {
            assert_eq!(m1.get(x, y), m2.get(x, y));
        }
    }
}

#[test]
fn test_border_suppression() {
    // On an all-black image, everything within 8 pixels of an edge is
    // background; the interior is feature.
    let img: Image = Grid::new(32, 32, BLACK);
    let mask = detect_features(&img);
    for y in 0..32 {
        for x in 0..32 {
            let border = x < 8 || x >= 32 - 8 || y < 8 || y >= 32 - 8;
            let expected = if border {
                FeaturePixel::Background
            } else {
                FeaturePixel::Feature
            };
            assert_eq!(mask.get(x, y), expected);
        }
    }
}

#[test]
fn test_masks_are_two_valued() {
    let mut img: Image = Grid::new(64, 64, WHITE);
    for x in 8..60 {
        img.set(x, 30, BLACK);
    }
    let fmask = detect_features(&img);
    for y in 0..64 {
        for x in 0..64 {
            assert!(matches!(
                fmask.get(x, y),
                FeaturePixel::Background | FeaturePixel::Feature
            ));
        }
    }
    let lmask = detect_lines(&fmask);
    for y in 0..64 {
        for x in 0..64 {
            assert!(matches!(lmask.get(x, y), LinePixel::Background | LinePixel::Line));
        }
    }
}

#[test]
fn test_detect_lines_horizontal_run() {
    // Features on row 20 at columns 10..65. Seeds run from column 10 (the
    // first feature) to 17 (the last start with at least 48 of 50 features),
    // so the painted run is exactly columns 10..67: length 57, at least the
    // 50-pixel minimum.
    let mut fmask: FeatureMask = Grid::new(70, 70, FeaturePixel::Background);
    for x in 10..65 {
        fmask.set(x, 20, FeaturePixel::Feature);
    }
    let lmask = detect_lines(&fmask);
    for x in 0..70 {
        let expected = if (10..67).contains(&x) { LinePixel::Line } else { LinePixel::Background };
        assert_eq!(lmask.get(x, 20), expected);
    }
    // No other row holds any line pixel.
    for y in 0..70 {
        if y != 20 {
            for x in 0..70 {
                assert_eq!(lmask.get(x, y), LinePixel::Background);
            }
        }
    }
}

#[test]
fn test_detect_lines_vertical_run() {
    let mut fmask: FeatureMask = Grid::new(70, 70, FeaturePixel::Background);
    for y in 10..65 {
        fmask.set(20, y, FeaturePixel::Feature);
    }
    let lmask = detect_lines(&fmask);
    for y in 0..70 {
        let expected = if (10..67).contains(&y) { LinePixel::Line } else { LinePixel::Background };
        assert_eq!(lmask.get(20, y), expected);
    }
}

#[test]
fn test_left_margin_closing_heuristic() {
    // A horizontal run that begins at column 9 (just past the suppressed
    // band) is extended back to the left wall.
    let mut fmask: FeatureMask = Grid::new(70, 70, FeaturePixel::Background);
    for x in 9..65 {
        fmask.set(x, 20, FeaturePixel::Feature);
    }
    let lmask = detect_lines(&fmask);
    for x in 0..9 {
        assert_eq!(lmask.get(x, 20), LinePixel::Line);
    }
    assert_eq!(lmask.get(9, 20), LinePixel::Line);
    assert_eq!(lmask.get(0, 21), LinePixel::Background);
}

#[test]
fn test_detect_cells_hand_built_mask() {
    // One row rule at y = 15 (left column) and one column rule probed at
    // (20, 7); the image edges close the rest.
    let mut lmask: LineMask = Grid::new(30, 30, LinePixel::Background);
    lmask.set(0, 15, LinePixel::Line);
    lmask.set(20, 7, LinePixel::Line);
    let cells = detect_cells(&lmask);
    let expected = vec![
        Cell { row: 0, col: 0, x: 0, y: 0, width: 19, height: 14 },
        Cell { row: 0, col: 1, x: 21, y: 0, width: 8, height: 14 },
        Cell { row: 1, col: 0, x: 0, y: 16, width: 29, height: 12 },
    ];
    assert_eq!(cells, expected);
}

#[test]
fn test_degenerate_tiny_images_yield_no_cells() {
    // Smaller than the minimum cell size in either axis: empty list, no
    // error.
    let img: Image = Grid::new(5, 5, WHITE);
    assert!(get_cells(&img).is_empty());

    let narrow: LineMask = Grid::new(7, 100, LinePixel::Line);
    assert!(detect_cells(&narrow).is_empty());

    let flat: LineMask = Grid::new(100, 9, LinePixel::Line);
    assert!(detect_cells(&flat).is_empty());

    let empty: Image = Grid::new(0, 0, WHITE);
    assert!(get_cells(&empty).is_empty());
}

/// Draws a ruled table on a white 300 x 200 image: full-width horizontal
/// rules at y = 50, 100, 150 and full-height vertical rules at x = 100, 200.
fn sample_table() -> Image {
    let mut img: Image = Grid::new(300, 200, WHITE);
    for x in 0..300 {
        img.set(x, 50, BLACK);
        img.set(x, 100, BLACK);
        img.set(x, 150, BLACK);
    }
    for y in 0..200 {
        img.set(100, y, BLACK);
        img.set(200, y, BLACK);
    }
    img
}

#[test]
fn test_end_to_end_sample_table() {
    // Four rows (three ruled plus the strip closed by the bottom edge) of
    // three columns each (two ruled plus the strip closed by the right
    // edge).
    let img = sample_table();
    let cells = get_cells(&img);
    assert_row_lengths(&cells, &vec![3, 3, 3, 3]);
    assert_eq!(cells.len(), 12);
    // The first row's cells, exactly.
    assert_eq!(cells[0], Cell { row: 0, col: 0, x: 0, y: 0, width: 99, height: 49 });
    assert_eq!(cells[1], Cell { row: 0, col: 1, x: 101, y: 0, width: 98, height: 49 });
    assert_eq!(cells[2], Cell { row: 0, col: 2, x: 201, y: 0, width: 98, height: 49 });
}

#[test]
fn test_cells_ordered_and_in_bounds() {
    // Row indices non-decreasing; columns count up from zero within each
    // row; every bounding box inside the image.
    let img = sample_table();
    let cells = get_cells(&img);
    assert!(!cells.is_empty());
    for i in 0..cells.len() {
        let c = &cells[i];
        assert!(c.x + c.width < 300);
        assert!(c.y + c.height < 200);
        if i == 0 || cells[i - 1].row != c.row {
            assert_eq!(c.col, 0);
        } else {
            assert_eq!(c.col, cells[i - 1].col + 1);
        }
        if i > 0 {
            assert!(cells[i - 1].row <= c.row);
        }
    }
}

#[test]
fn test_ragged_grid_row_lengths() {
    // A vertical rule that spans only the lower half of the image gives the
    // two rows different column counts.
    let mut img: Image = Grid::new(300, 200, WHITE);
    for x in 0..300 {
        img.set(x, 100, BLACK);
    }
    for y in 0..200 {
        img.set(150, y, BLACK);
    }
    for y in 100..200 {
        img.set(75, y, BLACK);
    }
    let cells = get_cells(&img);
    assert_row_lengths(&cells, &vec![2, 3]);
    let expected = vec![
        Cell { row: 0, col: 0, x: 0, y: 0, width: 149, height: 99 },
        Cell { row: 0, col: 1, x: 151, y: 0, width: 148, height: 99 },
        Cell { row: 1, col: 0, x: 0, y: 101, width: 74, height: 97 },
        Cell { row: 1, col: 1, x: 76, y: 101, width: 73, height: 97 },
        Cell { row: 1, col: 2, x: 151, y: 101, width: 148, height: 97 },
    ];
    assert_eq!(cells, expected);
}

#[test]
fn test_config_new() {
    let ok = Config::new(vec![String::from("img2csv"), String::from("table.png")]);
    assert_eq!(ok.unwrap().filename, "table.png");

    let missing = Config::new(vec![String::from("img2csv")]);
    match missing {
        Ok(_) => panic!("expected a configuration error"),
        Err(message) => assert_eq!(message, "Missing filename argument."),
    }
}
