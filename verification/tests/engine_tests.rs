use spectrogram::error::{ImageError, PipelineError};
use spectrogram::palette::{segment_index, segment_stops, segments, stop};
use spectrogram::pcm::{frames_from_bytes, DecodeError};
use spectrogram::raster::{
    check_pixel_buffer, raster_width, rasterize, sink_dimensions, Raster, Rgb,
};
use spectrogram::spectrum::{extract, lower_half, nyquist_bins, window_count, window_width};

fn grey(group: &[u8]) -> Rgb {
    let sum: u32 = group.iter().map(|&v| v as u32).sum();
    let mean = (sum / group.len() as u32) as u8;
    Rgb { r: mean, g: group.len() as u8, b: group[0] }
}

#[test]
fn frames_are_little_endian_words() {
    let bytes = [0x01, 0x02, 0x03, 0x04, 0x00, 0x00, 0x80, 0x3f];
    assert_eq!(frames_from_bytes(&bytes), Ok(vec![0x0403_0201, 0x3f80_0000]));
    assert_eq!(f32::from_bits(0x3f80_0000), 1.0);
}

#[test]
fn frames_agree_with_the_standard_decoding() {
    let samples = [0.0f32, -1.0, 0.5, 1.0e-7, f32::MAX];
    let mut bytes = Vec::new();
    for s in samples {
        bytes.extend_from_slice(&s.to_le_bytes());
    }
    let words = frames_from_bytes(&bytes).expect("aligned stream");
    let decoded: Vec<f32> = words.iter().map(|&w| f32::from_bits(w)).collect();
    assert_eq!(decoded, samples.to_vec());
}

#[test]
fn frames_of_nothing_are_none() {
    assert_eq!(frames_from_bytes(&[]), Ok(vec![]));
}

#[test]
fn frames_refuse_a_misaligned_stream() {
    assert_eq!(frames_from_bytes(&[1, 2, 3]), Err(DecodeError::Misaligned(3)));
    assert_eq!(
        frames_from_bytes(&[1, 2, 3, 4, 5]),
        Err(DecodeError::Misaligned(5))
    );
}

#[test]
fn window_width_is_the_integer_quotient() {
    assert_eq!(window_width(44_100, 32), 1378);
    assert_eq!(window_width(8000, 8), 1000);
    assert_eq!(window_width(8, 8), 1);
    assert_eq!(window_width(7, 8), 0);
}

#[test]
fn nyquist_bins_is_half_or_one() {
    assert_eq!(nyquist_bins(1000), 500);
    assert_eq!(nyquist_bins(1001), 500);
    assert_eq!(nyquist_bins(2), 1);
    assert_eq!(nyquist_bins(3), 1);
    assert_eq!(nyquist_bins(1), 1);
    assert_eq!(nyquist_bins(0), 0);
}

#[test]
fn window_count_drops_the_remainder() {
    assert_eq!(window_count(16_000, 1000), 16);
    assert_eq!(window_count(16_999, 1000), 16);
    assert_eq!(window_count(999, 1000), 0);
    assert_eq!(window_count(0, 3), 0);
}

#[test]
fn lower_half_keeps_the_first_bins() {
    assert_eq!(lower_half(&[10, 11, 12, 13, 14]), vec![10, 11]);
    assert_eq!(lower_half(&[10, 11, 12, 13]), vec![10, 11]);
    assert_eq!(lower_half(&[10]), vec![10]);
    assert_eq!(lower_half::<i32>(&[]), Vec::<i32>::new());
}

#[test]
fn extract_transforms_each_window_and_halves_it() {
    let samples = [1u8, 2, 3, 4, 5, 6, 7, 8, 9, 10, 11];
    let doubled = |w: &[u8]| w.iter().map(|&v| v as u32 * 2).collect::<Vec<u32>>();
    assert_eq!(
        extract(&samples, 4, doubled),
        Ok(vec![vec![2, 4], vec![10, 12]])
    );
}

#[test]
fn extract_with_window_of_one_keeps_the_single_bin() {
    let samples = [5u8, 6, 7];
    let same = |w: &[u8]| w.to_vec();
    assert_eq!(extract(&samples, 1, same), Ok(vec![vec![5], vec![6], vec![7]]));
}

#[test]
fn extract_refuses_less_than_one_window() {
    let samples = [1u8, 2, 3];
    let same = |w: &[u8]| w.to_vec();
    assert_eq!(extract(&samples, 4, same), Err(PipelineError::InsufficientData));
    assert_eq!(extract(&[], 1, same), Err(PipelineError::InsufficientData));
}

#[test]
fn raster_width_rounds_up() {
    assert_eq!(raster_width(500, 4), 125);
    assert_eq!(raster_width(500, 32), 16);
    assert_eq!(raster_width(5, 5), 1);
    assert_eq!(raster_width(6, 5), 2);
    assert_eq!(raster_width(1, 32), 1);
    assert_eq!(raster_width(0, 32), 0);
    assert_eq!(raster_width(usize::MAX, 1), usize::MAX);
    assert_eq!(raster_width(usize::MAX, usize::MAX), 1);
}

#[test]
fn rasterize_groups_bins_and_lays_rows_in_time_order() {
    let matrix = vec![vec![10u8, 20, 30, 40, 50], vec![1, 3, 5, 7, 9]];
    let raster: Raster = rasterize(&matrix, 2, grey);
    assert_eq!(raster.width, 3);
    assert_eq!(raster.height, 2);
    assert_eq!(
        raster.pixels,
        vec![
            15, 2, 10, 35, 2, 30, 50, 1, 50, // first window
            2, 2, 1, 6, 2, 5, 9, 1, 9, // second window
        ]
    );
    assert_eq!(raster.pixels.len(), raster.width * raster.height * 3);
}

#[test]
fn rasterize_with_wide_groups_makes_one_column() {
    let matrix = vec![vec![4u8, 8], vec![6, 2], vec![0, 0]];
    let raster = rasterize(&matrix, 32, grey);
    assert_eq!((raster.width, raster.height), (1, 3));
    assert_eq!(raster.pixels, vec![6, 2, 4, 4, 2, 6, 0, 2, 0]);
}

#[test]
fn sink_dimensions_fit_or_fail() {
    let small = Raster { width: 125, height: 2, pixels: vec![0; 750] };
    assert_eq!(sink_dimensions(&small), Ok((125, 2)));
    let wide = Raster { width: u32::MAX as usize + 1, height: 0, pixels: vec![] };
    assert_eq!(sink_dimensions(&wide), Err(ImageError::TooLarge));
    let tall = Raster { width: 0, height: u32::MAX as usize + 1, pixels: vec![] };
    assert_eq!(sink_dimensions(&tall), Err(ImageError::TooLarge));
}

#[test]
fn check_pixel_buffer_wants_three_bytes_a_pixel() {
    assert_eq!(check_pixel_buffer(2, 2, 12), Ok(()));
    assert_eq!(check_pixel_buffer(0, 7, 0), Ok(()));
    assert_eq!(
        check_pixel_buffer(2, 2, 3),
        Err(ImageError::LengthMismatch(12, 3))
    );
    assert_eq!(
        check_pixel_buffer(u32::MAX, u32::MAX, 0),
        Err(ImageError::LengthMismatch(
            3 * (u32::MAX as u128) * (u32::MAX as u128),
            0
        ))
    );
}

#[test]
fn palette_has_five_stops() {
    assert_eq!(segments(), 4);
    assert_eq!(stop(0), Rgb { r: 6, g: 4, b: 38 });
    assert_eq!(stop(1), Rgb { r: 16, g: 32, b: 130 });
    assert_eq!(stop(2), Rgb { r: 0, g: 116, b: 217 });
    assert_eq!(stop(3), Rgb { r: 255, g: 136, b: 0 });
    assert_eq!(stop(4), Rgb { r: 255, g: 221, b: 112 });
}

#[test]
fn palette_segments_clamp_to_the_last() {
    assert_eq!(segment_index(0), 0);
    assert_eq!(segment_index(3), 3);
    assert_eq!(segment_index(4), 3);
    assert_eq!(segment_index(usize::MAX), 3);
    assert_eq!(segment_stops(0), (stop(0), stop(1)));
    assert_eq!(segment_stops(3), (stop(3), stop(4)));
}
