use lowtexpal::layout::cell_position;
use lowtexpal::texture_size;
use lowtexpal::LayoutError;

#[test]
fn size_table_at_the_named_counts() {
    let counts = [1usize, 2, 3, 4, 16, 64, 256];
    let sizes = [1u32, 2, 2, 2, 4, 8, 16];
    for i in 0..counts.len() {
        let size = texture_size(counts[i]).unwrap();
        assert_eq!(size, sizes[i]);
        assert!((size as usize) * (size as usize) >= counts[i]);
    }
}

#[test]
fn size_table_at_the_steps() {
    assert_eq!(texture_size(5), Ok(4));
    assert_eq!(texture_size(17), Ok(8));
    assert_eq!(texture_size(65), Ok(16));
    assert_eq!(texture_size(255), Ok(16));
}

#[test]
fn size_holds_every_count_up_to_the_limit() {
    for n in 0..=256usize {
        let size = texture_size(n).unwrap() as usize;
        assert!(size * size >= n);
    }
}

#[test]
fn size_for_no_entries_is_that_of_the_third_step() {
    assert_eq!(texture_size(0), Ok(4));
}

#[test]
fn more_than_256_entries_is_too_large() {
    assert_eq!(texture_size(257), Err(LayoutError::PaletteTooLarge));
    assert_eq!(texture_size(1000), Err(LayoutError::PaletteTooLarge));
    assert_eq!(texture_size(usize::MAX), Err(LayoutError::PaletteTooLarge));
}

#[test]
fn cells_fill_rows_from_the_top_left() {
    assert_eq!(cell_position(0, 4), Ok((0, 0)));
    assert_eq!(cell_position(1, 4), Ok((1, 0)));
    assert_eq!(cell_position(3, 4), Ok((3, 0)));
    assert_eq!(cell_position(4, 4), Ok((0, 1)));
    assert_eq!(cell_position(7, 4), Ok((3, 1)));
    assert_eq!(cell_position(15, 4), Ok((3, 3)));
    assert_eq!(cell_position(255, 16), Ok((15, 15)));
    assert_eq!(cell_position(0, 1), Ok((0, 0)));
}

#[test]
fn a_full_texture_takes_no_more() {
    assert_eq!(cell_position(16, 4), Err(LayoutError::LayoutOverflow));
    assert_eq!(cell_position(4, 2), Err(LayoutError::LayoutOverflow));
    assert_eq!(cell_position(1, 1), Err(LayoutError::LayoutOverflow));
    assert_eq!(cell_position(0, 0), Err(LayoutError::LayoutOverflow));
    assert_eq!(cell_position(usize::MAX, u32::MAX), Err(LayoutError::LayoutOverflow));
}
