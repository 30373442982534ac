//! What the player window computes: the frame laid out for drawing, and the
//! archive timeline.

pub mod timeline;

use vstd::prelude::*;
use crate::video_decoder::DecodedFrame;

verus! {

/// The pixels of an RGB24 image of `n` pixels laid out as cairo's RGB24 format
/// stores them on a little-endian machine: B, G, R and an unused 0 byte.
pub open spec fn bgrx_pixels(rgb: Seq<u8>, n: int) -> Seq<u8> {
    Seq::new(
        (4 * n) as nat,
        |j: int|
            {
                let i = j / 4;
                let k = j % 4;
                if k == 0 {
                    rgb[3 * i + 2]
                } else if k == 1 {
                    rgb[3 * i + 1]
                } else if k == 2 {
                    rgb[3 * i]
                } else {
                    0u8
                }
            },
    )
}

/// Whether a frame is drawn: width and height positive as 32-bit signed
/// values, and at least width * height * 3 bytes of pixels.
pub open spec fn frame_drawable(f: DecodedFrame) -> bool {
    &&& 0 < f.width < 0x8000_0000
    &&& 0 < f.height < 0x8000_0000
    &&& f.data@.len() >= (f.width as int) * (f.height as int) * 3
}

/// The frames whose layout fits memory: the converted image fits in `isize`
/// and its row stride in `i32`.
pub open spec fn frame_layout_fits(f: DecodedFrame) -> bool {
    (f.width as int) * (f.height as int) * 4 <= isize::MAX && (f.width as int) * 4 <= i32::MAX
}

/// Lays a decoded RGB24 frame out for a cairo RGB24 surface: the pixel bytes
/// and the row stride (width * 4). `None` where the frame is not drawn.
pub fn frame_to_cairo_rgb24(frame: &DecodedFrame) -> (r: Option<(Vec<u8>, i32)>)
    requires
        frame_drawable(*frame) ==> frame_layout_fits(*frame),
    ensures
        !frame_drawable(*frame) ==> r is None,
        frame_drawable(*frame) ==> (r matches Some((px, stride)) && stride == frame.width * 4
            && px@ == bgrx_pixels(frame.data@, (frame.width as int) * (frame.height as int))),
{
    if frame.width == 0 || frame.width >= 0x8000_0000 || frame.height == 0 || frame.height >= 0x8000_0000 {
        return None;
    }
    let w = frame.width as usize;
    let h = frame.height as usize;
    let n = match w.checked_mul(h) {
        Some(x) => x,
        None => {
            return None;
        },
    };
    let size_rgb = match n.checked_mul(3) {
        Some(x) => x,
        None => {
            return None;
        },
    };
    if frame.data.len() < size_rgb {
        return None;
    }
    let stride = (frame.width as i32) * 4;
    let mut px: Vec<u8> = Vec::new();
    let mut i: usize = 0;
    while i < n
        invariant
            n == (frame.width as int) * (frame.height as int),
            size_rgb == 3 * n,
            3 * n <= frame.data@.len(),
            i <= n,
            px@.len() == 4 * i,
            forall|j: int| 0 <= j < 4 * i ==> px@[j] == #[trigger] bgrx_pixels(frame.data@, n as int)[j],
        decreases n - i,
    {
        let b = frame.data[3 * i + 2];
        let g = frame.data[3 * i + 1];
        let red = frame.data[3 * i];
        px.push(b);
        px.push(g);
        px.push(red);
        px.push(0);
        proof {
            assert forall|j: int| 0 <= j < 4 * (i + 1) implies px@[j] == #[trigger] bgrx_pixels(frame.data@, n as int)[j] by {
                if j >= 4 * i {
                    assert(j / 4 == i);
                }
            }
        }
        i = i + 1;
    }
    assert(px@ =~= bgrx_pixels(frame.data@, n as int));
    Some((px, stride))
}

/// The zoom (percent) and rotation (degrees) of the video view, changed in
/// steps by the mouse wheel over the video.
#[derive(Debug, Clone, Copy, PartialEq, Eq, Structural)]
pub struct VideoZoomRotation {
    pub zoom_percent: u32,
    pub rotation_deg: u32,
}

/// The narrowest and the widest zoom, and the steps of zoom and rotation.
pub const MIN_ZOOM_PERCENT: u32 = 100;
pub const MAX_ZOOM_PERCENT: u32 = 400;
pub const ZOOM_STEP_PERCENT: u32 = 10;
pub const ROTATION_STEP_DEG: u32 = 5;

impl VideoZoomRotation {
    /// Zoom within `100..=400` percent, rotation below a full turn.
    pub open spec fn wf(self) -> bool {
        &&& MIN_ZOOM_PERCENT <= self.zoom_percent <= MAX_ZOOM_PERCENT
        &&& self.rotation_deg < 360
    }

    /// The zoom after a step in (`true`) or out: moved by 10 percent and kept
    /// within `100..=400`.
    pub open spec fn zoomed(self, zoom_in: bool) -> u32 {
        if zoom_in {
            if self.zoom_percent + ZOOM_STEP_PERCENT > MAX_ZOOM_PERCENT {
                MAX_ZOOM_PERCENT
            } else {
                (self.zoom_percent + ZOOM_STEP_PERCENT) as u32
            }
        } else if self.zoom_percent < MIN_ZOOM_PERCENT + ZOOM_STEP_PERCENT {
            MIN_ZOOM_PERCENT
        } else {
            (self.zoom_percent - ZOOM_STEP_PERCENT) as u32
        }
    }

    /// The rotation after a step of 5 degrees clockwise (`true`) or back, on
    /// the circle of 360 degrees.
    pub open spec fn rotated(self, clockwise: bool) -> u32 {
        if clockwise {
            ((self.rotation_deg + ROTATION_STEP_DEG) % 360) as u32
        } else {
            ((self.rotation_deg + 360 - ROTATION_STEP_DEG) % 360) as u32
        }
    }

    /// The view as it starts: 100 percent, not rotated.
    pub fn new() -> (v: VideoZoomRotation)
        ensures
            v.wf(),
            v.zoom_percent == MIN_ZOOM_PERCENT,
            v.rotation_deg == 0,
    {
        VideoZoomRotation { zoom_percent: MIN_ZOOM_PERCENT, rotation_deg: 0 }
    }

    /// One wheel step over the video: with Shift held it rotates (wheel up:
    /// clockwise), otherwise it zooms (wheel up: in); no step where the wheel
    /// did not move.
    pub fn wheel_step(&mut self, shift: bool, wheel_up: bool, wheel_down: bool)
        requires
            old(self).wf(),
        ensures
            final(self).wf(),
            shift && (wheel_up || wheel_down) ==> *final(self) == (VideoZoomRotation {
                rotation_deg: old(self).rotated(wheel_up),
                ..*old(self)
            }),
            !shift && (wheel_up || wheel_down) ==> *final(self) == (VideoZoomRotation {
                zoom_percent: old(self).zoomed(wheel_up),
                ..*old(self)
            }),
            !wheel_up && !wheel_down ==> *final(self) == *old(self),
    {
        if !wheel_up && !wheel_down {
            return;
        }
        if shift {
            self.rotation_deg = if wheel_up {
                (self.rotation_deg + ROTATION_STEP_DEG) % 360
            } else {
                (self.rotation_deg + 360 - ROTATION_STEP_DEG) % 360
            };
        } else {
            self.zoom_percent = if wheel_up {
                if self.zoom_percent + ZOOM_STEP_PERCENT > MAX_ZOOM_PERCENT {
                    MAX_ZOOM_PERCENT
                } else {
                    self.zoom_percent + ZOOM_STEP_PERCENT
                }
            } else if self.zoom_percent < MIN_ZOOM_PERCENT + ZOOM_STEP_PERCENT {
                MIN_ZOOM_PERCENT
            } else {
                self.zoom_percent - ZOOM_STEP_PERCENT
            };
        }
    }
}

} // verus!
