use expurgator::codec::{create_tar_decoder, decoder_for, TarEncoder};
use expurgator::error::PackError;
use expurgator::sniff::MimeKind;

#[test]
fn test_create_tar_encoder() {
    assert!(TarEncoder::new("application/gzip", 6).is_ok());
    assert!(TarEncoder::new("application/x-bzip2", 6).is_ok());
    assert!(TarEncoder::new("application/x-xz", 6).is_ok());
    assert!(TarEncoder::new("application/x-tar", 6).is_ok());
    assert!(TarEncoder::new("invalid", 6).is_err());
}

#[test]
fn test_create_tar_decoder() {
    let input = Vec::new();
    assert!(create_tar_decoder(&input, "application/gzip").is_ok());
    assert!(create_tar_decoder(&input, "application/x-bzip2").is_ok());
    assert!(create_tar_decoder(&input, "application/x-xz").is_ok());
    assert!(create_tar_decoder(&input, "application/x-tar").is_ok());
    assert!(create_tar_decoder(&input, "invalid").is_err());
}

#[test]
fn kinds_without_a_codec_are_refused_by_name() {
    assert!(matches!(
        TarEncoder::new("application/zip", 6),
        Err(PackError::UnsupportedEncodingFormat)
    ));
    assert!(matches!(
        TarEncoder::for_kind(MimeKind::Unsupported, 6),
        Err(PackError::UnsupportedEncodingFormat)
    ));
    assert!(matches!(
        create_tar_decoder(&[], "application/zip"),
        Err(PackError::UnsupportedDecodingFormat)
    ));
    assert!(matches!(
        decoder_for(&[], MimeKind::Unsupported),
        Err(PackError::UnsupportedDecodingFormat)
    ));
}

fn sample() -> Vec<u8> {
    let mut bytes = Vec::new();
    for i in 0..4000u32 {
        bytes.push((i % 7) as u8);
    }
    bytes
}

#[test]
fn gzip_round_trip() {
    let data = sample();
    let packed = TarEncoder::for_kind(MimeKind::Gzip, 6).unwrap().encode(&data).unwrap();
    assert_eq!(&packed[..2], &[0x1f, 0x8b]);
    assert!(packed.len() < data.len());
    let unpacked = decoder_for(&packed, MimeKind::Gzip).unwrap().decode().unwrap();
    assert_eq!(unpacked, data);
}

#[test]
fn bzip2_round_trip() {
    let data = sample();
    let packed = TarEncoder::for_kind(MimeKind::Bzip2, 9).unwrap().encode(&data).unwrap();
    assert_eq!(&packed[..3], b"BZh");
    let unpacked = decoder_for(&packed, MimeKind::Bzip2).unwrap().decode().unwrap();
    assert_eq!(unpacked, data);
}

#[test]
fn xz_round_trip() {
    let data = sample();
    let packed = TarEncoder::for_kind(MimeKind::Xz, 0).unwrap().encode(&data).unwrap();
    assert_eq!(&packed[..6], &[0xFD, b'7', b'z', b'X', b'Z', 0x00]);
    let unpacked = decoder_for(&packed, MimeKind::Xz).unwrap().decode().unwrap();
    assert_eq!(unpacked, data);
}

#[test]
fn plain_tar_passes_through() {
    let data = sample();
    let packed = TarEncoder::for_kind(MimeKind::Tar, 6).unwrap().encode(&data).unwrap();
    assert_eq!(packed, data);
    let unpacked = decoder_for(&packed, MimeKind::Tar).unwrap().decode().unwrap();
    assert_eq!(unpacked, data);
}

#[test]
fn broken_streams_fail_to_decode() {
    let garbage = [1u8, 2, 3, 4, 5, 6, 7, 8];
    for kind in [MimeKind::Gzip, MimeKind::Bzip2, MimeKind::Xz] {
        let res = decoder_for(&garbage, kind).unwrap().decode();
        assert!(matches!(res, Err(PackError::CodecFailure)));
    }
}

#[test]
fn bzip2_has_no_level_zero() {
    let res = TarEncoder::for_kind(MimeKind::Bzip2, 0).unwrap().encode(&sample());
    assert!(matches!(res, Err(PackError::CodecFailure)));
}
