use expurgator::error::{parse_compression, PackError};
use expurgator::filter::retain_inner_vec;

#[test]
fn test_retain_inner_vec() {
    let mut input = vec![
        String::from("1/2"),
        String::from("2/2"),
        String::from("3/3"),
        String::from("3/4"),
    ];

    let output = retain_inner_vec(&mut input, "3");

    assert_eq!(input.len(), 2);
    assert_eq!(input[0].as_str(), "1/2");
    assert_eq!(input[1].as_str(), "2/2");
    assert_eq!(output.len(), 2);
    assert_eq!(output[0].as_str(), "3/3");
    assert_eq!(output[1].as_str(), "3/4");
}

#[test]
fn test_parse_compression_level() {
    assert_eq!(parse_compression(5).unwrap(), 5);
    assert!(parse_compression(42).is_err());
}

#[test]
fn compression_levels_from_zero_to_nine() {
    assert_eq!(parse_compression(0).unwrap(), 0);
    assert_eq!(parse_compression(9).unwrap(), 9);
    assert!(matches!(parse_compression(10), Err(PackError::InvalidCompressionLevel)));
    assert!(matches!(parse_compression(u32::MAX), Err(PackError::InvalidCompressionLevel)));
}
