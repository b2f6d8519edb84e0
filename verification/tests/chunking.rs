use rusterio::bounds::{ReadBounds, ViewBounds};
use rusterio::view::chunking::{fill_range, ResolutionChunker};

fn chunk(
    view: ((usize, usize), (usize, usize)),
    read: ((usize, usize), (usize, usize)),
    ratio: (usize, usize),
    data: &[u16],
) -> Vec<u16> {
    let view_bounds = ViewBounds::new(view.0, view.1);
    let read_bounds = ReadBounds::new(read.0, read.1);
    let mut out = vec![0u16; view.1 .0 * view.1 .1];
    ResolutionChunker::new(&view_bounds, &read_bounds, ratio)
        .read_resolution_chucked(data, &mut out)
        .unwrap();
    out
}

#[test]
fn whole_blocks_are_replicated() {
    let out = chunk(((0, 0), (4, 4)), ((0, 0), (2, 2)), (2, 2), &[1, 2, 3, 4]);
    assert_eq!(
        out,
        vec![
            1, 1, 2, 2, //
            1, 1, 2, 2, //
            3, 3, 4, 4, //
            3, 3, 4, 4,
        ]
    );
}

#[test]
fn blocks_can_be_wider_than_high() {
    let out = chunk(((0, 0), (6, 2)), ((0, 0), (2, 2)), (3, 1), &[1, 2, 3, 4]);
    assert_eq!(
        out,
        vec![
            1, 1, 1, 2, 2, 2, //
            3, 3, 3, 4, 4, 4,
        ]
    );
}

#[test]
fn blocks_are_cut_at_the_four_edges_of_the_window() {
    // columns 3..10 at 6 per pixel: 3 of the first pixel, 4 of the second;
    // rows 1..5 at 2 per pixel: 1 of the first, 2 of the second, 1 of the third
    let out = chunk(((3, 1), (7, 4)), ((0, 0), (2, 3)), (6, 2), &[1, 2, 3, 4, 5, 6]);
    assert_eq!(
        out,
        vec![
            1, 1, 1, 2, 2, 2, 2, //
            3, 3, 3, 4, 4, 4, 4, //
            3, 3, 3, 4, 4, 4, 4, //
            5, 5, 5, 6, 6, 6, 6,
        ]
    );
}

#[test]
fn every_view_pixel_has_the_value_of_the_pixel_it_lies_in() {
    let ratio = (3usize, 4usize);
    let offset = (7usize, 2usize);
    let shape = (11usize, 9usize);
    let first = (offset.0 / ratio.0, offset.1 / ratio.1);
    let last = (
        (offset.0 + shape.0 + ratio.0 - 1) / ratio.0,
        (offset.1 + shape.1 + ratio.1 - 1) / ratio.1,
    );
    let read_shape = (last.0 - first.0, last.1 - first.1);
    let data: Vec<u16> = (0..(read_shape.0 * read_shape.1) as u16).map(|v| 100 + v).collect();
    let out = chunk((offset, shape), (first, read_shape), ratio, &data);
    for row in 0..shape.1 {
        for col in 0..shape.0 {
            let source_row = (offset.1 + row) / ratio.1 - first.1;
            let source_col = (offset.0 + col) / ratio.0 - first.0;
            assert_eq!(
                out[row * shape.0 + col],
                data[source_row * read_shape.0 + source_col],
                "at row {} and column {}",
                row,
                col
            );
        }
    }
}

#[test]
fn a_row_holds_one_value_per_touched_pixel() {
    let data: Vec<u16> = vec![10, 20, 30, 40];
    let out = chunk(((0, 0), (12, 1)), ((0, 0), (4, 1)), (3, 1), &data);
    let mut distinct = out.clone();
    distinct.dedup();
    assert_eq!(distinct.len(), 12 / 3);
    let out = chunk(((2, 0), (12, 1)), ((0, 0), (5, 1)), (3, 1), &[10, 20, 30, 40, 50]);
    let mut distinct = out.clone();
    distinct.dedup();
    assert_eq!(distinct.len(), 12 / 3 + 1);
    assert_eq!(out, vec![10, 20, 20, 20, 30, 30, 30, 40, 40, 40, 50, 50]);
}

#[test]
fn a_ratio_of_one_copies_the_read() {
    let data: Vec<u16> = (0..12).collect();
    let out = chunk(((5, 9), (4, 3)), ((5, 9), (4, 3)), (1, 1), &data);
    assert_eq!(out, data);
}

#[test]
fn a_single_pixel_fills_the_window() {
    let out = chunk(((6, 6), (5, 4)), ((1, 1), (1, 1)), (6, 6), &[42]);
    assert_eq!(out, vec![42; 20]);
}

#[test]
fn an_empty_window_takes_nothing() {
    let out = chunk(((3, 0), (0, 4)), ((0, 0), (1, 2)), (6, 2), &[1, 2]);
    assert!(out.is_empty());
    let out = chunk(((0, 0), (4, 0)), ((0, 0), (2, 0)), (2, 2), &[]);
    assert!(out.is_empty());
}

#[test]
fn fill_range_sets_the_range_only() {
    let mut values = vec![1u8, 2, 3, 4, 5];
    fill_range(&mut values, 1, 4, 9);
    assert_eq!(values, vec![1, 9, 9, 9, 5]);
    fill_range(&mut values, 2, 2, 7);
    assert_eq!(values, vec![1, 9, 9, 9, 5]);
    fill_range(&mut values, 0, 5, 0);
    assert_eq!(values, vec![0; 5]);
}

#[test]
fn a_mirrored_window_is_laid_in_the_order_of_the_view() {
    let view_bounds = ViewBounds::new((0, 0), (4, 4));
    let read_bounds = ReadBounds::new((0, 0), (2, 2));
    let data = [1u16, 2, 3, 4];
    let mut out = vec![0u16; 16];
    ResolutionChunker::new(&view_bounds, &read_bounds, (2, 2))
        .mirror((false, true))
        .read_resolution_chucked(&data, &mut out)
        .unwrap();
    assert_eq!(
        out,
        vec![
            3, 3, 4, 4, //
            3, 3, 4, 4, //
            1, 1, 2, 2, //
            1, 1, 2, 2,
        ]
    );
    ResolutionChunker::new(&view_bounds, &read_bounds, (2, 2))
        .mirror((true, false))
        .read_resolution_chucked(&data, &mut out)
        .unwrap();
    assert_eq!(
        out,
        vec![
            2, 2, 1, 1, //
            2, 2, 1, 1, //
            4, 4, 3, 3, //
            4, 4, 3, 3,
        ]
    );
}

#[test]
fn a_mirrored_window_is_cut_at_the_edges_of_the_view() {
    // as in the window cut at its four edges, with the native rows and
    // columns counted from the other end
    let view_bounds = ViewBounds::new((3, 1), (7, 4));
    let read_bounds = ReadBounds::new((0, 0), (2, 3));
    let mut out = vec![0u16; 28];
    ResolutionChunker::new(&view_bounds, &read_bounds, (6, 2))
        .mirror((true, true))
        .read_resolution_chucked(&[1, 2, 3, 4, 5, 6], &mut out)
        .unwrap();
    assert_eq!(
        out,
        vec![
            6, 6, 6, 5, 5, 5, 5, //
            4, 4, 4, 3, 3, 3, 3, //
            4, 4, 4, 3, 3, 3, 3, //
            2, 2, 2, 1, 1, 1, 1,
        ]
    );
}
