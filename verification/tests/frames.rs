use raycaster::error::RenderError;
use raycaster::frame::check_viewport;
use raycaster::frame::set_column;
use raycaster::frame::set_row;

fn numbered(pixels: usize) -> Vec<u8> {
    let mut bytes = Vec::new();
    for p in 0..pixels {
        bytes.extend_from_slice(&[p as u8, 0, 0, 0]);
    }
    bytes
}

fn firsts(bytes: &[u8]) -> Vec<u8> {
    bytes.chunks(4).map(|c| c[0]).collect()
}

#[test]
fn viewport_must_lie_in_the_frame() {
    assert_eq!(check_viewport((0, 0, 4, 3), 4, 48), Ok(()));
    assert_eq!(check_viewport((0, 0, 4, 3), 4, 47), Err(RenderError::BufferTooSmall));
    assert_eq!(check_viewport((1, 0, 4, 3), 4, 48), Err(RenderError::BufferTooSmall));
    assert_eq!(check_viewport((1, 0, 3, 3), 4, 48), Ok(()));
    assert_eq!(check_viewport((0, 1, 4, 3), 4, 48), Err(RenderError::BufferTooSmall));
    assert_eq!(check_viewport((0, 1, 4, 2), 4, 48), Ok(()));
    assert_eq!(check_viewport((0, 0, 1, 1), 0, 100), Err(RenderError::BufferTooSmall));
    assert_eq!(check_viewport((0, 0, 1, 1), 1, 3), Err(RenderError::BufferTooSmall));
    assert_eq!(check_viewport((0, 0, 1, 1), 1, 4), Ok(()));
}

#[test]
fn frame_need_not_hold_the_rest_of_the_last_row() {
    assert_eq!(check_viewport((0, 0, 4, 3), 6, 64), Ok(()));
    assert_eq!(check_viewport((0, 0, 4, 3), 6, 63), Err(RenderError::BufferTooSmall));
    assert_eq!(check_viewport((0, 0, 4, 3), 6, 72), Ok(()));
    assert_eq!(check_viewport((1, 2, 3, 2), 6, (3 * 6 + 4) * 4), Ok(()));
    assert_eq!(check_viewport((1, 2, 3, 2), 6, (3 * 6 + 4) * 4 - 1), Err(RenderError::BufferTooSmall));
    assert_eq!(check_viewport((2, 0, 4, 1), 6, 24), Ok(()));
    assert_eq!(check_viewport((2, 0, 4, 1), 6, 23), Err(RenderError::BufferTooSmall));
}

#[test]
fn viewport_without_pixels_lies_in_every_frame() {
    assert_eq!(check_viewport((0, 0, 0, 0), 0, 0), Ok(()));
    assert_eq!(check_viewport((0, 5, 0, 5), 0, 0), Ok(()));
    assert_eq!(check_viewport((0, 0, 0, 3), 4, 0), Ok(()));
    assert_eq!(check_viewport((9, 9, 4, 0), 4, 0), Ok(()));
    assert_eq!(check_viewport((9, 9, 0, 4), 4, 8), Ok(()));
    assert_eq!(check_viewport((usize::MAX, usize::MAX, 0, 1), 1, 0), Ok(()));
}

#[test]
fn viewport_must_not_be_too_large() {
    assert_eq!(
        check_viewport((0, 0, 1 << 31, 1), usize::MAX, usize::MAX),
        Err(RenderError::ViewportTooLarge)
    );
    assert_eq!(
        check_viewport((0, 0, 1, 1 << 31), usize::MAX, usize::MAX),
        Err(RenderError::ViewportTooLarge)
    );
    assert_eq!(
        check_viewport((usize::MAX, usize::MAX, 1, 1), usize::MAX, usize::MAX),
        Err(RenderError::BufferTooSmall)
    );
    assert_eq!(
        check_viewport((0, usize::MAX, 1, 1), 1, usize::MAX),
        Err(RenderError::BufferTooSmall)
    );
    assert_eq!(
        check_viewport((0, 0, i32::MAX as usize, 1), i32::MAX as usize, 4 * i32::MAX as usize),
        Ok(())
    );
}

#[test]
fn column_is_set_into_its_place() {
    let mut frame = vec![0u8; 4 * 5 * 4];
    let line = numbered(4);
    let mut line = line;
    for p in 0..4 {
        line[4 * p] = 10 + p as u8;
    }
    set_column(&mut frame, (1, 1, 3, 3), 5, 2, &line);
    assert_eq!(
        firsts(&frame),
        vec![0, 0, 0, 0, 0, 0, 0, 0, 10, 0, 0, 0, 0, 11, 0, 0, 0, 0, 12, 0]
    );
    set_column(&mut frame, (1, 1, 3, 3), 5, 0, &line);
    assert_eq!(
        firsts(&frame),
        vec![0, 0, 0, 0, 0, 0, 10, 0, 10, 0, 0, 11, 0, 11, 0, 0, 12, 0, 12, 0]
    );
}

#[test]
fn column_carries_all_four_bytes() {
    let mut frame = vec![9u8; 2 * 2 * 4];
    let line = [1u8, 2, 3, 4, 5, 6, 7, 8];
    set_column(&mut frame, (0, 0, 2, 2), 2, 1, &line);
    assert_eq!(frame, vec![9, 9, 9, 9, 1, 2, 3, 4, 9, 9, 9, 9, 5, 6, 7, 8]);
}

#[test]
fn empty_viewport_takes_nothing() {
    let mut frame = vec![9u8; 16];
    set_column(&mut frame, (0, 0, 1, 0), 2, 0, &[]);
    assert_eq!(frame, vec![9u8; 16]);
}

#[test]
fn row_is_gathered_from_the_columns() {
    let columns = numbered(3 * 4);
    let mut line = vec![99u8; 6 * 4];
    set_row(&mut line, 2, 3, 4, 1, &columns);
    assert_eq!(firsts(&line), vec![99, 99, 1, 5, 9, 99]);
    set_row(&mut line, 0, 3, 4, 3, &columns);
    assert_eq!(firsts(&line), vec![3, 7, 11, 5, 9, 99]);
    set_row(&mut line, 0, 0, 4, 3, &columns);
    assert_eq!(firsts(&line), vec![3, 7, 11, 5, 9, 99]);
}

#[test]
fn column_is_set_into_a_frame_that_ends_with_the_viewport() {
    let mut frame = vec![9u8; (2 * 6 + 4) * 4];
    let line = [1u8, 1, 1, 1, 2, 2, 2, 2, 3, 3, 3, 3];
    set_column(&mut frame, (1, 0, 3, 3), 6, 2, &line);
    assert_eq!(
        firsts(&frame),
        vec![9, 9, 9, 1, 9, 9, 9, 9, 9, 2, 9, 9, 9, 9, 9, 3]
    );
}

#[test]
fn columns_and_rows_make_the_same_frame() {
    let width = 3;
    let height = 4;
    let columns = numbered(width * height);
    let mut by_columns = vec![200u8; 5 * 6 * 4];
    let mut by_rows = vec![200u8; 5 * 6 * 4];
    for x in 0..width {
        set_column(
            &mut by_columns,
            (1, 2, width, height),
            5,
            x,
            &columns[x * height * 4..(x + 1) * height * 4],
        );
    }
    for y in 0..height {
        set_row(&mut by_rows[(2 + y) * 5 * 4..(3 + y) * 5 * 4], 1, width, height, y, &columns);
    }
    assert_eq!(by_columns, by_rows);
    assert_eq!(&firsts(&by_columns)[10..15], &[200, 0, 4, 8, 200]);
    assert_eq!(&firsts(&by_columns)[25..30], &[200, 3, 7, 11, 200]);
}
