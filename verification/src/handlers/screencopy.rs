//! Capturing an output, or a part of it, into a buffer in memory.

use vstd::prelude::*;

use crate::geometry::intersection;
use crate::geometry::rect;
use crate::geometry::Point;
use crate::geometry::Rect;
use crate::geometry::Size;
use crate::seqs::retain;
use crate::state::ShoestringWm;

verus! {

/// A frame: what it shows, and whether it was used.
#[derive(Clone, Copy, Debug, PartialEq, Eq, Structural)]
pub struct FrameInner {
    /// None where the client named no output of ours.
    pub output: Option<u64>,
    pub region: Rect,
    pub overlay_cursor: bool,
    pub stride: i32,
    pub buffer: Option<u64>,
    pub used: bool,
}

/// What a client is told of a new frame.
#[derive(Clone, Copy, Debug, PartialEq, Eq, Structural)]
pub enum FrameOffer {
    Failed,
    /// The buffer that the frame takes.
    Buffer { width: u32, height: u32, stride: u32 },
}

/// What a client's buffer is like.
#[derive(Clone, Copy, Debug, PartialEq, Eq, Structural)]
pub struct ShmBuffer {
    /// Whether its pixels are of the one format that is offered.
    pub argb8888: bool,
    pub width: i32,
    pub height: i32,
    pub stride: i32,
}

/// What becomes of a request to copy a frame.
#[derive(Clone, Copy, Debug, PartialEq, Eq, Structural)]
pub enum CopyReply {
    Failed,
    /// The client has used the frame before.
    AlreadyUsed,
    /// The buffer is not the one that was asked for.
    InvalidBuffer,
    /// It waits for the output, which is to be rendered.
    Queued { output: Option<u64> },
}

/// The region that a frame shows: the whole output, or what the wanted part has
/// in common with it.
pub open spec fn frame_region(size: Option<Size>, wanted: Option<Rect>) -> Rect {
    let none = Rect { loc: Point { x: 0, y: 0 }, size: Size { w: 0, h: 0 } };
    match size {
        Some(s) => {
            let full = Rect { loc: Point { x: 0, y: 0 }, size: s };
            match wanted {
                Some(r) => if crate::geometry::overlap(r, full) {
                    crate::geometry::common(r, full)
                } else {
                    none
                },
                None => full,
            }
        },
        None => none,
    }
}

/// What a client is told of a new frame.
pub open spec fn offered_buffer(enabled: bool, region: Rect) -> FrameOffer {
    if !enabled || region.empty() {
        FrameOffer::Failed
    } else {
        FrameOffer::Buffer {
            width: region.size.w as u32,
            height: region.size.h as u32,
            stride: (region.size.w * 4) as u32,
        }
    }
}

/// Whether a buffer is the one that a frame takes.
pub fn validate_shm(buffer: Option<ShmBuffer>, region: Rect, stride: i32) -> (r: bool)
    ensures
        r == (buffer matches Some(b) && b.argb8888 && b.width == region.size.w && b.height
            == region.size.h && b.stride == stride),
{
    match buffer {
        Some(b) => b.argb8888 && b.width == region.size.w && b.height == region.size.h && b.stride
            == stride,
        None => false,
    }
}

impl ShoestringWm {
    /// A client asks for a frame of an output with the given size in pixels, or
    /// of a part of it. Nothing is offered while capture is off, of an unknown
    /// output, or of a part that lies outside.
    pub fn create_frame(
        &self,
        output: Option<u64>,
        size: Option<Size>,
        wanted: Option<Rect>,
        overlay_cursor: bool,
    ) -> (r: (FrameInner, FrameOffer))
        requires
            size matches Some(s) ==> 0 <= s.w <= i32::MAX / 4 && 0 <= s.h,
        ensures
            r.0 == (FrameInner {
                output,
                region: frame_region(size, wanted),
                overlay_cursor,
                stride: (frame_region(size, wanted).size.w * 4) as i32,
                buffer: None,
                used: false,
            }),
            r.1 == offered_buffer(self.screen_capture_enabled, frame_region(size, wanted)),
    {
        let region = match size {
            Some(s) => {
                let full = rect(0, 0, s.w, s.h);
                match wanted {
                    Some(r) => match intersection(r, full) {
                        Some(c) => c,
                        None => rect(0, 0, 0, 0),
                    },
                    None => full,
                }
            },
            None => rect(0, 0, 0, 0),
        };
        let stride = region.size.w * 4;
        let inner = FrameInner {
            output,
            region,
            overlay_cursor,
            stride,
            buffer: None,
            used: false,
        };
        if !self.screen_capture_enabled || region.size.w <= 0 || region.size.h <= 0 {
            return (inner, FrameOffer::Failed);
        }
        (
            inner,
            FrameOffer::Buffer {
                width: region.size.w as u32,
                height: region.size.h as u32,
                stride: stride as u32,
            },
        )
    }

    /// A client asks to have a frame copied into its buffer. A frame is used at
    /// most once. Whether capture is allowed is looked at again.
    pub fn copy_frame(
        &mut self,
        frame: u64,
        inner: &mut FrameInner,
        buffer: u64,
        shm: Option<ShmBuffer>,
    ) -> (r: CopyReply)
        ensures
            ({
                let valid = shm matches Some(b) && b.argb8888 && b.width
                    == old(inner).region.size.w && b.height == old(inner).region.size.h && b.stride
                    == old(inner).stride;
                r == (if !old(self).screen_capture_enabled {
                    CopyReply::Failed
                } else if old(inner).used {
                    CopyReply::AlreadyUsed
                } else if !valid {
                    CopyReply::InvalidBuffer
                } else {
                    CopyReply::Queued { output: old(inner).output }
                })
            }),
            if r is Queued {
                &&& *final(inner) == (FrameInner {
                    buffer: Some(buffer),
                    used: true,
                    ..*old(inner)
                })
                &&& final(self).screencopy_pending@ == old(self).screencopy_pending@.push(frame)
            } else {
                &&& *final(inner) == *old(inner)
                &&& final(self).screencopy_pending@ == old(self).screencopy_pending@
            },
            *final(self) == (ShoestringWm {
                screencopy_pending: final(self).screencopy_pending,
                ..*old(self)
            }),
    {
        if !self.screen_capture_enabled {
            return CopyReply::Failed;
        }
        if inner.used {
            return CopyReply::AlreadyUsed;
        }
        if !validate_shm(shm, inner.region, inner.stride) {
            return CopyReply::InvalidBuffer;
        }
        inner.buffer = Some(buffer);
        inner.used = true;
        self.screencopy_pending.push(frame);
        CopyReply::Queued { output: inner.output }
    }

    /// A frame is gone.
    pub fn frame_destroyed(&mut self, frame: u64)
        ensures
            final(self).screencopy_pending@ == old(self).screencopy_pending@.filter(
                |f: u64| f != frame,
            ),
            *final(self) == (ShoestringWm {
                screencopy_pending: final(self).screencopy_pending,
                ..*old(self)
            }),
    {
        let keep = |f: &u64| -> (b: bool)
            ensures
                b == (*f != frame),
            { *f != frame };
        retain(&mut self.screencopy_pending, keep, Ghost(|f: u64| f != frame));
    }
}

/// While capture is off, no frame is offered and none waits, whatever a client
/// asks for.
pub proof fn law_no_capture_while_off(region: Rect, output: Option<u64>)
    ensures
        offered_buffer(false, region) == FrameOffer::Failed,
        crate::ext_screencopy::frame_fate(false, output) is Fail,
{
}

/// A frame shows nothing that lies outside its output.
pub proof fn law_region_within_output(size: Size, wanted: Option<Rect>, x: int, y: int)
    requires
        0 <= size.w,
        0 <= size.h,
        frame_region(Some(size), wanted).holds(x, y),
    ensures
        0 <= x < size.w,
        0 <= y < size.h,
{
    let full = Rect { loc: Point { x: 0, y: 0 }, size };
    if let Some(r) = wanted {
        crate::geometry::law_common_holds(r, full, x, y);
    }
}

/// A frame shows exactly the points of its output that are wanted, all of them where no
/// part is named; of an unknown output it shows nothing.
pub proof fn law_frame_shows_wanted(size: Size, wanted: Option<Rect>, x: int, y: int)
    requires
        0 <= size.w,
        0 <= size.h,
    ensures
        frame_region(Some(size), wanted).holds(x, y) <==> 0 <= x < size.w && 0 <= y < size.h && (
        wanted is None || wanted->0.holds(x, y)),
        !frame_region(None, wanted).holds(x, y),
{
    let full = Rect { loc: Point { x: 0, y: 0 }, size };
    if wanted is Some {
        crate::geometry::law_common_holds(wanted->0, full, x, y);
    }
}

/// A frame that shows something is offered with its own width and height and four bytes
/// for each pixel of a row, while capture is on; otherwise it fails.
pub proof fn law_buffer_fits_the_region(enabled: bool, region: Rect)
    ensures
        offered_buffer(enabled, region) is Failed <==> !enabled || region.size.w <= 0
            || region.size.h <= 0,
        offered_buffer(enabled, region) matches FrameOffer::Buffer { width, height, stride } ==> {
            &&& width == region.size.w
            &&& height == region.size.h
            &&& 4 * region.size.w <= u32::MAX ==> stride == 4 * region.size.w
        },
{
}

} // verus!
