use rostgis::utils::bytes_to_hex;
use rostgis::utils::hex_to_bytes;
use rostgis::utils::validate_srid;

#[test]
fn test_hex_conversion() {
    let hex = "deadbeef";
    let bytes = hex_to_bytes(hex).unwrap();
    assert_eq!(bytes, vec![0xde, 0xad, 0xbe, 0xef]);

    let hex_back = bytes_to_hex(&bytes);
    assert_eq!(hex_back, hex);
}

#[test]
fn test_srid_validation() {
    assert!(validate_srid(4326).is_ok());
    assert!(validate_srid(0).is_ok());
    assert!(validate_srid(-1).is_ok());
    assert!(validate_srid(-2).is_err());
}

#[test]
fn test_hex_with_prefix() {
    let hex = "0xdeadbeef";
    let bytes = hex_to_bytes(hex).unwrap();
    assert_eq!(bytes, vec![0xde, 0xad, 0xbe, 0xef]);
}

#[test]
fn test_hex_empty() {
    assert_eq!(hex_to_bytes("").unwrap(), Vec::<u8>::new());
    assert_eq!(bytes_to_hex(&[]), "");
}

#[test]
fn test_hex_odd_length_rejected() {
    let err = hex_to_bytes("abc").unwrap_err();
    assert_eq!(err.message, "Invalid hex string length");
}

#[test]
fn test_hex_bad_character_rejected() {
    let err = hex_to_bytes("zz").unwrap_err();
    assert_eq!(err.message, "Invalid hex character");
}

#[test]
fn test_hex_uppercase_accepted() {
    assert_eq!(hex_to_bytes("DEADBEEF").unwrap(), vec![0xde, 0xad, 0xbe, 0xef]);
}

#[test]
fn test_srid_error_message() {
    let err = validate_srid(-5).unwrap_err();
    assert_eq!(err.message, "Invalid SRID: must be >= -1");
}

#[test]
fn test_srid_constants() {
    assert!(validate_srid(rostgis::srid::UNKNOWN).is_ok());
    assert!(validate_srid(rostgis::srid::WGS84).is_ok());
    assert!(validate_srid(rostgis::srid::WEB_MERCATOR).is_ok());
    assert!(validate_srid(rostgis::srid::NAD83).is_ok());
}
