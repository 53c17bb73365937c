//! Image-handling outcomes and file formats.

use vstd::prelude::*;

verus! {

/// What can go wrong when loading or saving an image.
#[derive(Debug, Clone, Copy, PartialEq, Eq, Structural)]
pub enum ImageError {
    NullPointer,
    NotEnoughData,
    PathIsNotAnImage,
    ResourceLoadingError,
    SavingInFileFailed,
}

/// The encodings an image can be saved in.
#[derive(Debug, Clone, Copy, PartialEq, Eq, Structural)]
pub enum FileFormat {
    Bmp,
    Png,
    Tga,
    Jpg,
}

} // verus!
