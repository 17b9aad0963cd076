use image_csv::{
    column_major_scaling_8c, encode_table, legacy_red_table_8c, min_max_scaling_8c,
    min_max_scaling_8g, min_max_scaling_image8c, min_max_scaling_image8g, red_table_8c,
    EncodeError, GrayRaster, Normalized, RasterError, RgbPixel, RgbRaster, TableError,
};

fn to_f32(n: Normalized) -> f32 {
    n.num as f32 / n.den as f32
}

fn render(grid: &[Vec<Normalized>]) -> Vec<Vec<String>> {
    grid.iter().map(|row| row.iter().map(|n| to_f32(*n).to_string()).collect()).collect()
}

fn csv_lines(grid: &[Vec<Normalized>]) -> Vec<Vec<String>> {
    let bytes = encode_table(&render(grid)).unwrap();
    let text = String::from_utf8(bytes).unwrap();
    text.lines().map(|l| l.split(',').map(|s| s.to_string()).collect()).collect()
}

/// A colour raster whose red byte at (x, y) is 10 * (x + 1) + y.
fn marked_rgb(width: u32, height: u32) -> RgbRaster {
    let mut data = Vec::new();
    for y in 0..height {
        for x in 0..width {
            data.push((10 * (x + 1) + y) as u8);
            data.push(1);
            data.push(2);
        }
    }
    RgbRaster::new(width, height, data).unwrap()
}

fn reds(table: &[Vec<Normalized>]) -> Vec<Vec<u8>> {
    table.iter().map(|row| row.iter().map(|n| n.num).collect()).collect()
}

#[test]
fn normalize_every_byte() {
    for b in 0..=255u8 {
        let n = min_max_scaling_8g(b);
        assert_eq!(n, Normalized { num: b, den: 255 });
        assert_eq!(to_f32(n), b as f32 / 255.0);
    }
    assert_eq!(to_f32(min_max_scaling_8g(0)), 0.0);
    assert_eq!(to_f32(min_max_scaling_8g(255)), 1.0);
}

#[test]
fn normalize_three_channels() {
    let v = min_max_scaling_8c(RgbPixel { r: 0, g: 128, b: 255 });
    assert_eq!(
        v,
        vec![
            Normalized { num: 0, den: 255 },
            Normalized { num: 128, den: 255 },
            Normalized { num: 255, den: 255 },
        ]
    );
}

#[test]
fn solid_square_gray_image() {
    let n: u32 = 4;
    let g: u8 = 128;
    let image = GrayRaster::new(n, n, vec![g; 16]).unwrap();
    let grid = min_max_scaling_image8g(&image);
    let lines = csv_lines(&grid);
    assert_eq!(lines.len(), 4);
    for row in &lines {
        assert_eq!(row.len(), 4);
        for cell in row {
            assert_eq!(cell, "0.5019608");
            assert_eq!(cell.parse::<f32>().unwrap(), to_f32(min_max_scaling_8g(g)));
        }
    }
}

#[test]
fn gradient_two_by_three_is_row_major() {
    let luma: Vec<u8> = vec![0, 50, 100, 150, 200, 250];
    let image = GrayRaster::new(2, 3, luma.clone()).unwrap();
    let grid = min_max_scaling_image8g(&image);
    assert_eq!(grid.len(), 3);
    let lines = csv_lines(&grid);
    assert_eq!(lines.len(), 3);
    for r in 0..3usize {
        assert_eq!(grid[r].len(), 2);
        assert_eq!(lines[r].len(), 2);
        for c in 0..2usize {
            let expected = min_max_scaling_8g(luma[r * 2 + c]);
            assert_eq!(grid[r][c], expected);
            assert_eq!(image.pixel(c as u32, r as u32), luma[r * 2 + c]);
            assert_eq!(lines[r][c].parse::<f32>().unwrap(), to_f32(expected));
        }
    }
    assert_eq!(lines[1][0], "0.39215687");
}

#[test]
fn csv_round_trip_recovers_bytes() {
    let row: Vec<Normalized> = (0..=255u8).map(min_max_scaling_8g).collect();
    let lines = csv_lines(&[row]);
    assert_eq!(lines.len(), 1);
    assert_eq!(lines[0].len(), 256);
    for (b, cell) in lines[0].iter().enumerate() {
        let x: f32 = cell.parse().unwrap();
        assert_eq!((x * 255.0).round() as usize, b);
        assert!((x as f64 - b as f64 / 255.0).abs() <= 1.0 / 510.0);
    }
}

#[test]
fn colour_grid_keeps_three_channels() {
    let image = RgbRaster::new(2, 1, vec![255, 0, 0, 0, 0, 255]).unwrap();
    let grid = min_max_scaling_image8c(&image);
    assert_eq!(grid.len(), 1);
    assert_eq!(grid[0].len(), 2);
    assert_eq!(grid[0][0], vec![min_max_scaling_8g(255), min_max_scaling_8g(0), min_max_scaling_8g(0)]);
    assert_eq!(grid[0][1], vec![min_max_scaling_8g(0), min_max_scaling_8g(0), min_max_scaling_8g(255)]);
}

#[test]
fn red_table_is_row_major_on_wide_image() {
    let image = marked_rgb(3, 2);
    assert_eq!(reds(&red_table_8c(&image)), vec![vec![10, 20, 30], vec![11, 21, 31]]);
}

#[test]
fn column_major_flat_order() {
    let image = marked_rgb(3, 2);
    let flat = column_major_scaling_8c(&image);
    let red: Vec<u8> = flat.iter().map(|v| v[0].num).collect();
    assert_eq!(red, vec![10, 11, 20, 21, 30, 31]);
    assert!(flat.iter().all(|v| v.len() == 3 && v[1].num == 1 && v[2].num == 2));
}

#[test]
fn legacy_table_on_wide_image_is_misordered() {
    let image = marked_rgb(3, 2);
    let table = legacy_red_table_8c(&image).unwrap();
    assert_eq!(reds(&table), vec![vec![10, 20], vec![11, 21], vec![20, 30]]);
    assert_ne!(reds(&table), reds(&red_table_8c(&image)));
}

#[test]
fn legacy_table_on_tall_image_is_out_of_range() {
    let image = marked_rgb(2, 3);
    assert_eq!(legacy_red_table_8c(&image), Err(TableError::IndexOutOfRange));
}

#[test]
fn legacy_table_on_square_image_matches_row_major() {
    let image = marked_rgb(3, 3);
    let legacy = legacy_red_table_8c(&image).unwrap();
    assert_eq!(legacy, red_table_8c(&image));
    assert_eq!(reds(&legacy), vec![vec![10, 20, 30], vec![11, 21, 31], vec![12, 22, 32]]);
}

#[test]
fn luma_uses_bt709_weights() {
    let image = RgbRaster::new(
        4,
        1,
        vec![255, 0, 0, 0, 255, 0, 0, 0, 255, 77, 77, 77],
    )
    .unwrap();
    let gray = image.to_luma8();
    assert_eq!(gray.width(), 4);
    assert_eq!(gray.height(), 1);
    assert_eq!(gray.as_bytes(), &vec![54, 182, 18, 77]);
}

#[test]
fn raster_size_mismatch() {
    assert_eq!(GrayRaster::new(2, 2, vec![0; 3]).unwrap_err(), RasterError::SizeMismatch);
    assert_eq!(RgbRaster::new(2, 2, vec![0; 11]).unwrap_err(), RasterError::SizeMismatch);
    assert!(GrayRaster::new(0, 5, Vec::new()).is_ok());
}

#[test]
fn encode_plain_and_ragged_tables() {
    let rows = vec![
        vec!["a".to_string(), "b".to_string()],
        vec!["c".to_string(), "d".to_string()],
    ];
    assert_eq!(encode_table(&rows).unwrap(), b"a,b\nc,d\n".to_vec());
    let ragged = vec![vec!["a".to_string(), "b".to_string()], vec!["c".to_string()]];
    assert_eq!(encode_table(&ragged), Err(EncodeError::RaggedRow));
    assert_eq!(encode_table(&Vec::new()).unwrap(), Vec::<u8>::new());
}

fn csv_text_of(grid: &[Vec<Normalized>]) -> String {
    String::from_utf8(encode_table(&render(grid)).unwrap()).unwrap()
}

#[test]
fn solid_two_by_two_exact_text() {
    let image = GrayRaster::new(2, 2, vec![128; 4]).unwrap();
    let grid = min_max_scaling_image8g(&image);
    assert_eq!(csv_text_of(&grid), "0.5019608,0.5019608\n0.5019608,0.5019608\n");
}

#[test]
fn gradient_two_by_three_exact_text() {
    let image = GrayRaster::new(2, 3, vec![0, 255, 51, 102, 153, 204]).unwrap();
    let grid = min_max_scaling_image8g(&image);
    assert_eq!(csv_text_of(&grid), "0,1\n0.2,0.4\n0.6,0.8\n");
}

#[test]
fn encode_quotes_special_fields() {
    let rows = vec![vec!["a,b".to_string(), String::new()]];
    assert_eq!(encode_table(&rows).unwrap(), b"\"a,b\",\n".to_vec());
}
