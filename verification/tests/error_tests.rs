use console2lce::error::ConversionError;
use console2lce::models::ChunkConversionContext;

#[test]
fn error_messages_name_their_kind() {
    assert_eq!(ConversionError::InvalidFormat("x".to_string()).message(), "Invalid format: x");
    assert_eq!(ConversionError::NbtError("bad".to_string()).message(), "NBT error: bad");
    assert_eq!(ConversionError::DecompressionFailed("d".to_string()).message(), "Decompression failed: d");
    assert_eq!(ConversionError::MissingData("m".to_string()).message(), "Missing data: m");
    let io = ConversionError::Io(std::io::Error::new(std::io::ErrorKind::Other, "disk gone"));
    assert_eq!(io.message(), "IO error: disk gone");
}

#[test]
fn unknown_block_recorded_once_in_order() {
    let mut ctx = ChunkConversionContext::new();
    ctx.record_unknown_modern_block("b");
    ctx.record_unknown_modern_block("a");
    ctx.record_unknown_modern_block("b");
    assert_eq!(ctx.unknown_blocks, vec!["b".to_string(), "a".to_string()]);
}

#[test]
fn io_errors_convert_into_conversion_errors() {
    let e: ConversionError = std::io::Error::new(std::io::ErrorKind::UnexpectedEof, "short").into();
    assert!(matches!(e, ConversionError::Io(_)));
    assert_eq!(e.message(), "IO error: short");
}
