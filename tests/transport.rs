use face_cutout::error::FaceError;
use face_cutout::transport::{package_cutout, package_swap, FaceOutput};

#[test]
fn cutout_packed_as_base64() {
    match package_cutout(&b"hello".to_vec(), None) {
        FaceOutput::Cutout { image } => assert_eq!(image, "aGVsbG8="),
        FaceOutput::Annotated { .. } => panic!("no annotated image was given"),
    }
}

#[test]
fn annotated_cutout_packs_both_images() {
    match package_cutout(&vec![0, 1, 2], Some(&vec![255])) {
        FaceOutput::Annotated { image, debug } => {
            assert_eq!(image, "AAEC");
            assert_eq!(debug, "/w==");
        }
        FaceOutput::Cutout { .. } => panic!("the annotated image was dropped"),
    }
}

#[test]
fn swap_packed_with_strength() {
    let out = package_swap(&b"ab".to_vec(), 350);
    assert_eq!(out.image, "YWI=");
    assert_eq!(out.strength, 350);
}

#[test]
fn error_messages_name_their_category() {
    assert_eq!(FaceError::DecodeError.message(), "画像の読み込みに失敗");
    assert_eq!(FaceError::DetectorUnavailable.message(), "xmlファイルが見つかりません");
    assert_eq!(FaceError::NoFaceDetected.message(), "顔が検出されませんでした");
    let all = [
        FaceError::DecodeError,
        FaceError::DetectorUnavailable,
        FaceError::NoFaceDetected,
        FaceError::InvalidDetection,
        FaceError::SegmentationFailed,
        FaceError::EncodeError,
    ];
    for (i, a) in all.iter().enumerate() {
        assert!(!a.message().is_empty());
        for b in &all[i + 1..] {
            assert_ne!(a.message(), b.message());
        }
    }
}

#[test]
fn base64_uses_plus_and_slash() {
    assert_eq!(package_swap(&vec![0xfb, 0xff], 0).image, "+/8=");
    assert_eq!(package_swap(&vec![0xfb, 0xff, 0xbf], 0).image, "+/+/");
}

#[test]
fn base64_of_every_remainder() {
    assert_eq!(package_swap(&Vec::new(), 0).image, "");
    assert_eq!(package_swap(&b"f".to_vec(), 0).image, "Zg==");
    assert_eq!(package_swap(&b"fo".to_vec(), 0).image, "Zm8=");
    assert_eq!(package_swap(&b"foo".to_vec(), 0).image, "Zm9v");
    assert_eq!(package_swap(&b"foobar".to_vec(), 0).image, "Zm9vYmFy");
    let long = package_swap(&vec![7u8; 1000], 0).image;
    assert_eq!(long.len(), 4 * ((1000 + 2) / 3));
}
