//! The error taxonomy shared by every stage of the engine.
use vstd::prelude::*;

verus! {

/// Why an operation of the engine could not produce its output.
#[derive(Clone, Copy, Debug, PartialEq, Eq, Structural)]
pub enum FaceError {
    /// The input image could not be decoded.
    DecodeError,
    /// The face classifier resource is missing.
    DetectorUnavailable,
    /// No face was detected where at least one is required.
    NoFaceDetected,
    /// The detector returned a degenerate rectangle.
    InvalidDetection,
    /// The segmentation could not run on the region it was given.
    SegmentationFailed,
    /// The output could not be serialised.
    EncodeError,
}

/// The message shown for each category of error.
pub open spec fn message_text(e: FaceError) -> Seq<char> {
    match e {
        FaceError::DecodeError => "画像の読み込みに失敗"@,
        FaceError::DetectorUnavailable => "xmlファイルが見つかりません"@,
        FaceError::NoFaceDetected => "顔が検出されませんでした"@,
        FaceError::InvalidDetection => "検出された顔の矩形が不正です"@,
        FaceError::SegmentationFailed => "セグメンテーションに失敗"@,
        FaceError::EncodeError => "画像のエンコードに失敗"@,
    }
}

impl FaceError {
    /// The human-readable message of the error's category.
    pub fn message(&self) -> (r: String)
        ensures
            r@ == message_text(*self),
    {
        match self {
            FaceError::DecodeError => "画像の読み込みに失敗".to_owned(),
            FaceError::DetectorUnavailable => "xmlファイルが見つかりません".to_owned(),
            FaceError::NoFaceDetected => "顔が検出されませんでした".to_owned(),
            FaceError::InvalidDetection => "検出された顔の矩形が不正です".to_owned(),
            FaceError::SegmentationFailed => "セグメンテーションに失敗".to_owned(),
            FaceError::EncodeError => "画像のエンコードに失敗".to_owned(),
        }
    }
}

} // verus!
