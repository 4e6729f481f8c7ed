//! Conversion of the monochrome frame buffer into the RGB byte buffer a
//! renderer uploads: three equal colour components per pixel, full white for
//! a set pixel and black for a clear one.

use vstd::prelude::*;

verus! {

pub struct SdlGraphicsAdapter {
    pub rgb_frame_buffer: Vec<u8>,
}

/// The colour component of one pixel state.
pub open spec fn spec_component(pixel: bool) -> u8 {
    if pixel {
        0xFF
    } else {
        0
    }
}

impl SdlGraphicsAdapter {
    pub const RGB_COMPONENTS: usize = 3;

    pub const RGB_FRAMEBUFFER_SIZE: usize = 3 * 2048;

    pub open spec fn wf(&self) -> bool {
        self.rgb_frame_buffer@.len() == 3 * 2048
    }

    pub fn new() -> (r: SdlGraphicsAdapter)
        ensures
            r.wf(),
            forall|j: int| 0 <= j < 3 * 2048 ==> r.rgb_frame_buffer@[j] == 0u8,
    {
        let mut rgb_frame_buffer: Vec<u8> = Vec::new();
        while rgb_frame_buffer.len() < 3 * 2048
            invariant
                rgb_frame_buffer@.len() <= 3 * 2048,
                forall|j: int| 0 <= j < rgb_frame_buffer@.len() ==> rgb_frame_buffer@[j] == 0u8,
            decreases 3 * 2048 - rgb_frame_buffer@.len(),
        {
            rgb_frame_buffer.push(0);
        }
        SdlGraphicsAdapter { rgb_frame_buffer }
    }

    /// Rewrite the RGB buffer from the frame buffer: pixel `p` becomes the
    /// three bytes at `3*p`, each `0xFF` when the pixel is set, else `0`.
    pub fn fill_rgb_frame_buffer(&mut self, frame_buffer: &Vec<bool>)
        requires
            frame_buffer@.len() == 2048,
            old(self).wf(),
        ensures
            final(self).wf(),
            forall|p: int|
                0 <= p < 2048 ==> {
                    &&& final(self).rgb_frame_buffer@[3 * p] == spec_component(frame_buffer@[p])
                    &&& final(self).rgb_frame_buffer@[3 * p + 1] == spec_component(
                        frame_buffer@[p],
                    )
                    &&& final(self).rgb_frame_buffer@[3 * p + 2] == spec_component(
                        frame_buffer@[p],
                    )
                },
    {
        let mut p: usize = 0;
        while p < 2048
            invariant
                0 <= p <= 2048,
                self.wf(),
                frame_buffer@.len() == 2048,
                forall|q: int|
                    0 <= q < p ==> {
                        &&& self.rgb_frame_buffer@[3 * q] == spec_component(frame_buffer@[q])
                        &&& self.rgb_frame_buffer@[3 * q + 1] == spec_component(frame_buffer@[q])
                        &&& self.rgb_frame_buffer@[3 * q + 2] == spec_component(frame_buffer@[q])
                    },
            decreases 2048 - p,
        {
            let col_component: u8 = if frame_buffer[p] {
                0xFF
            } else {
                0
            };
            self.rgb_frame_buffer.set(3 * p, col_component);
            self.rgb_frame_buffer.set(3 * p + 1, col_component);
            self.rgb_frame_buffer.set(3 * p + 2, col_component);
            p = p + 1;
        }
    }
}

} // verus!
