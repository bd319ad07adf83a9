use rt::outputs::{Pixel, PpmRawOutput};
use rt::render::write_rows;

fn pixel_rows(rows: &[&[(u8, u8, u8)]]) -> Vec<Vec<Pixel>> {
    rows.iter()
        .map(|row| row.iter().map(|&(r, g, b)| Pixel::new(r, g, b)).collect())
        .collect()
}

#[test]
fn header_of_fresh_sink() {
    let out = PpmRawOutput::new(2, 2);
    assert_eq!(out.into_bytes(), b"P6\n2\n2\n255\n".to_vec());
}

#[test]
fn header_sizes_in_decimal() {
    assert_eq!(PpmRawOutput::new(1, 1).into_bytes(), b"P6\n1\n1\n255\n".to_vec());
    assert_eq!(PpmRawOutput::new(10, 255).into_bytes(), b"P6\n10\n255\n255\n".to_vec());
    assert_eq!(
        PpmRawOutput::new(640, 480).into_bytes(),
        b"P6\n640\n480\n255\n".to_vec()
    );
    assert_eq!(
        PpmRawOutput::new(4096, 100000).into_bytes(),
        b"P6\n4096\n100000\n255\n".to_vec()
    );
}

#[test]
fn sizes_are_kept() {
    let out = PpmRawOutput::new(640, 480);
    assert_eq!(out.xsize(), 640);
    assert_eq!(out.ysize(), 480);
}

#[test]
fn pixels_in_raster_order() {
    let mut out = PpmRawOutput::new(2, 2);
    out.put_pixel(0, 0, Pixel::new(1, 2, 3));
    out.put_pixel(1, 0, Pixel::new(4, 5, 6));
    out.flush_row();
    out.put_pixel(0, 1, Pixel::new(7, 8, 9));
    out.put_pixel(1, 1, Pixel::new(10, 11, 12));
    out.flush_row();
    let mut want = b"P6\n2\n2\n255\n".to_vec();
    want.extend_from_slice(&[1, 2, 3, 4, 5, 6, 7, 8, 9, 10, 11, 12]);
    assert_eq!(out.into_bytes(), want);
}

#[test]
fn flush_row_writes_nothing() {
    let mut out = PpmRawOutput::new(3, 1);
    out.put_pixel(0, 0, Pixel::new(9, 9, 9));
    out.flush_row();
    out.flush_row();
    let mut want = b"P6\n3\n1\n255\n".to_vec();
    want.extend_from_slice(&[9, 9, 9]);
    assert_eq!(out.into_bytes(), want);
}

#[test]
fn single_column_rows_advance() {
    let mut out = PpmRawOutput::new(1, 3);
    out.put_pixel(0, 0, Pixel::new(1, 1, 1));
    out.put_pixel(0, 1, Pixel::new(2, 2, 2));
    out.put_pixel(0, 2, Pixel::new(3, 3, 3));
    let mut want = b"P6\n1\n3\n255\n".to_vec();
    want.extend_from_slice(&[1, 1, 1, 2, 2, 2, 3, 3, 3]);
    assert_eq!(out.into_bytes(), want);
}

#[test]
fn write_rows_keeps_row_order() {
    let rows = pixel_rows(&[
        &[(1, 2, 3), (4, 5, 6)],
        &[(7, 8, 9), (10, 11, 12)],
    ]);
    let mut out = PpmRawOutput::new(2, 2);
    write_rows(&mut out, &rows);
    let mut want = b"P6\n2\n2\n255\n".to_vec();
    want.extend_from_slice(&[1, 2, 3, 4, 5, 6, 7, 8, 9, 10, 11, 12]);
    assert_eq!(out.into_bytes(), want);
}

#[test]
fn write_rows_twice_is_byte_identical() {
    let rows = pixel_rows(&[
        &[(200, 0, 0), (0, 200, 0), (0, 0, 200)],
        &[(10, 20, 30), (40, 50, 60), (70, 80, 90)],
    ]);
    let mut first = PpmRawOutput::new(3, 2);
    write_rows(&mut first, &rows);
    let mut second = PpmRawOutput::new(3, 2);
    write_rows(&mut second, &rows);
    assert_eq!(first.into_bytes(), second.into_bytes());
}

#[test]
fn write_rows_empty_image() {
    let mut out = PpmRawOutput::new(5, 0);
    let rows: Vec<Vec<Pixel>> = Vec::new();
    write_rows(&mut out, &rows);
    assert_eq!(out.into_bytes(), b"P6\n5\n0\n255\n".to_vec());
}
