use rollback_core::config::{parse_resolution, window_x_offset, Resolution, ResolutionError, Side};

#[test]
fn parse_resolution_reads_both_numbers() {
    assert_eq!(
        parse_resolution("3456,2234"),
        Ok(Resolution { width: 3456, height: 2234 })
    );
    assert_eq!(parse_resolution("1920,1080"), Ok(Resolution { width: 1920, height: 1080 }));
    assert_eq!(parse_resolution("1,2"), Ok(Resolution { width: 1, height: 2 }));
}

#[test]
fn parse_resolution_needs_a_comma() {
    assert_eq!(parse_resolution("800x600"), Err(ResolutionError::MissingComma));
    assert_eq!(parse_resolution(""), Err(ResolutionError::MissingComma));
    assert_eq!(parse_resolution("1234"), Err(ResolutionError::MissingComma));
}

#[test]
fn parse_resolution_rejects_bad_sides() {
    assert_eq!(parse_resolution(",5"), Err(ResolutionError::BadWidth));
    assert_eq!(parse_resolution("5,"), Err(ResolutionError::BadHeight));
    assert_eq!(parse_resolution("a5,6"), Err(ResolutionError::BadWidth));
    assert_eq!(parse_resolution("5,6b"), Err(ResolutionError::BadHeight));
    assert_eq!(parse_resolution("12,34,56"), Err(ResolutionError::BadHeight));
}

#[test]
fn parse_resolution_checks_the_32_bit_bound() {
    assert_eq!(
        parse_resolution("4294967295,1"),
        Ok(Resolution { width: u32::MAX, height: 1 })
    );
    assert_eq!(parse_resolution("4294967296,1"), Err(ResolutionError::BadWidth));
    assert_eq!(parse_resolution("1,99999999999"), Err(ResolutionError::BadHeight));
}

#[test]
fn window_offset_by_side() {
    assert_eq!(window_x_offset(Side::Left, 800), 0);
    assert_eq!(window_x_offset(Side::Right, 800), 800);
    assert_eq!(window_x_offset(Side::Left, 0), 0);
}
