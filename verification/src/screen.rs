use vstd::prelude::*;

verus! {

/// What the LCD logic reads of a panel's description.
#[derive(Clone, Copy, Debug, PartialEq, Eq, Structural)]
pub struct ScreenInfo {
    pub width: u32,
    pub height: u32,
    pub jpeg_quality: u8,
    /// Largest frame payload, in bytes, the panel accepts.
    pub max_payload: usize,
    /// Does the panel take PNG frames (else JPEG)?
    pub png: bool,
    pub max_fps: u8,
}

/// The image format of a frame or layer.
#[derive(Clone, Copy, Debug, PartialEq, Eq, Structural)]
pub enum LayerKind {
    Png,
    Jpeg,
}

/// The format the panel takes its frames in, and so which header a frame
/// gets.
pub fn frame_layer(screen: &ScreenInfo) -> (kind: LayerKind)
    ensures
        kind == (if screen.png { LayerKind::Png } else { LayerKind::Jpeg }),
{
    if screen.png {
        LayerKind::Png
    } else {
        LayerKind::Jpeg
    }
}

} // verus!
