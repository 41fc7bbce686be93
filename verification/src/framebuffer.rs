use vstd::prelude::*;

verus! {

use crate::color::PixelColor;
use crate::hdmi::{FrameView, HDMIConfig, HDMIFrameBuffer, cursor_byte, requests};
use crate::mailbox::MailboxBuf;

pub const HORIZONTAL_RESOLUTION: u32 = 960;

pub const VERTICAL_RESOLUTION: u32 = 540;

pub const COLOR_DEPTH: u32 = 32;

pub const VIRTUAL_VERTICAL_MULTIPLIER: u32 = 3;

pub const BYTES_PER_CHAR: usize = 16;

/// The kernel's console. It starts without a framebuffer and sets one up on
/// first use. Setting one up takes a mailbox call, which the caller makes: every
/// operation takes, as `setup`, the framebuffer built from the firmware's reply
/// to `HDMIFrameBuffer::request(&FrameBuffer::config())`, and uses it when the
/// console has none yet; once the console has one, `setup` is ignored.
pub struct FrameBuffer {
    inner: Option<HDMIFrameBuffer>,
}

impl View for FrameBuffer {
    type V = Option<FrameView>;

    closed spec fn view(&self) -> Option<FrameView> {
        match self.inner {
            Some(fb) => Some(fb@),
            None => None,
        }
    }
}

/// Whether an operation can run on console `c` given `setup`: the console is set
/// up and well formed, or else `setup` holds a well-formed framebuffer.
pub open spec fn ready(c: Option<FrameView>, setup: Option<HDMIFrameBuffer>) -> bool {
    match c {
        Some(v) => v.wf(),
        None => setup matches Some(f) && f@.wf(),
    }
}

/// The console an operation acts on: the one set up, or else the one `setup`
/// holds.
pub open spec fn live(c: Option<FrameView>, setup: Option<HDMIFrameBuffer>) -> FrameView {
    match c {
        Some(v) => v,
        None => setup->Some_0@,
    }
}

impl FrameBuffer {
    /// A console that is not set up yet.
    pub fn new() -> (f: FrameBuffer)
        ensures
            f@ is None,
    {
        FrameBuffer { inner: None }
    }

    /// The video mode the console is set up in.
    pub fn config() -> (c: HDMIConfig)
        ensures
            c.horizontal_resolution == HORIZONTAL_RESOLUTION,
            c.vertical_resolution == VERTICAL_RESOLUTION,
            c.color_depth == COLOR_DEPTH,
            c.virtual_vertical_multiplier == VIRTUAL_VERTICAL_MULTIPLIER,
    {
        HDMIConfig::new(
            HORIZONTAL_RESOLUTION,
            VERTICAL_RESOLUTION,
            COLOR_DEPTH,
            VIRTUAL_VERTICAL_MULTIPLIER,
        )
    }

    /// Sets the console up with `setup`, unless it already is.
    fn initialize(&mut self, setup: Option<HDMIFrameBuffer>)
        requires
            ready(old(self)@, setup),
        ensures
            final(self)@ == Some(live(old(self)@, setup)),
            final(self)@->Some_0.wf(),
    {
        if self.inner.is_none() {
            self.inner = setup;
        }
    }

    /// Whether `write_byte` takes `byte` now.
    pub fn accepts(&self, byte: u8, setup: &Option<HDMIFrameBuffer>) -> (b: bool)
        requires
            ready(self@, *setup),
        ensures
            b == live(self@, *setup).accepts(byte),
    {
        match &self.inner {
            Some(fb) => fb.accepts(byte),
            None => match setup {
                Some(fb) => fb.accepts(byte),
                None => false,
            },
        }
    }

    /// Whether `draw_homer` can draw `image` now.
    pub fn fits_image(
        &self,
        image: &[u8],
        width: usize,
        height: usize,
        setup: &Option<HDMIFrameBuffer>,
    ) -> (b: bool)
        requires
            ready(self@, *setup),
        ensures
            b == (live(self@, *setup).virtual_height > 0 && live(self@, *setup).image_fits(
                image@,
                width as int,
                height as int,
            )),
    {
        match &self.inner {
            Some(fb) => fb.fits_image(image, width, height),
            None => match setup {
                Some(fb) => fb.fits_image(image, width, height),
                None => false,
            },
        }
    }

    pub fn is_initialized(&self) -> (b: bool)
        ensures
            b == self@ is Some,
    {
        self.inner.is_some()
    }

    pub fn set_foreground_color(&mut self, color: &PixelColor, setup: Option<HDMIFrameBuffer>)
        requires
            ready(old(self)@, setup),
        ensures
            final(self)@ == Some(
                FrameView {
                    foreground: PixelColor {
                        red: color.red,
                        green: color.green,
                        blue: color.blue,
                        alpha: color.alpha,
                    },
                    ..live(old(self)@, setup)
                },
            ),
    {
        self.initialize(setup);
        if let Some(fb) = &mut self.inner {
            fb.set_foreground_color(color);
        }
    }

    pub fn set_background_color(&mut self, color: &PixelColor, setup: Option<HDMIFrameBuffer>)
        requires
            ready(old(self)@, setup),
        ensures
            final(self)@ == Some(
                FrameView {
                    background: PixelColor {
                        red: color.red,
                        green: color.green,
                        blue: color.blue,
                        alpha: color.alpha,
                    },
                    ..live(old(self)@, setup)
                },
            ),
    {
        self.initialize(setup);
        if let Some(fb) = &mut self.inner {
            fb.set_background_color(color);
        }
    }

    /// Clears the whole virtual screen.
    pub fn clear(&mut self, mem: &mut [u8], setup: Option<HDMIFrameBuffer>)
        requires
            ready(old(self)@, setup),
        ensures
            final(self)@ == Some(live(old(self)@, setup)),
            final(mem)@ == live(old(self)@, setup).clear_rows_mem(
                old(mem)@,
                0,
                live(old(self)@, setup).virtual_height as nat,
            ),
    {
        self.initialize(setup);
        if let Some(fb) = &self.inner {
            fb.clear(mem);
        }
    }

    /// Writes one byte, as `HDMIFrameBuffer::write_byte`.
    pub fn write_byte(&mut self, mem: &mut [u8], byte: u8, setup: Option<HDMIFrameBuffer>) -> (r:
        Option<MailboxBuf>)
        requires
            ready(old(self)@, setup),
            live(old(self)@, setup).accepts(byte),
        ensures
            final(self)@ == Some(live(old(self)@, setup).after_byte(byte)),
            final(self)@->Some_0.wf(),
            final(mem)@ == live(old(self)@, setup).byte_mem(old(mem)@, byte),
            requests(r, live(old(self)@, setup).byte_scroll(byte)),
    {
        self.initialize(setup);
        match &mut self.inner {
            Some(fb) => fb.write_byte(mem, byte),
            None => None,
        }
    }

    /// Writes one byte of text, as `HDMIFrameBuffer::write_str_byte`.
    pub fn write_str_byte(&mut self, mem: &mut [u8], byte: u8, setup: Option<HDMIFrameBuffer>) -> (r:
        Option<MailboxBuf>)
        requires
            ready(old(self)@, setup),
            live(old(self)@, setup).accepts(byte),
        ensures
            final(self)@ == Some(live(old(self)@, setup).after_text_byte(byte)),
            final(self)@->Some_0.wf(),
            final(mem)@ == live(old(self)@, setup).text_byte_mem(old(mem)@, byte),
            requests(r, live(old(self)@, setup).text_byte_scroll(byte)),
    {
        self.initialize(setup);
        match &mut self.inner {
            Some(fb) => fb.write_str_byte(mem, byte),
            None => None,
        }
    }

    /// Takes the virtual offset that the display reports after a scroll request,
    /// which only a console that is set up sends.
    pub fn apply_virtual_offset_reply(&mut self, reply: &MailboxBuf)
        requires
            old(self)@ matches Some(v) && v.wf() && reply@.tags[4] + v.virtual_height
                + v.physical_height <= usize::MAX,
        ensures
            final(self)@ == Some(old(self)@->Some_0.after_offset_reply(reply@)),
            final(self)@->Some_0.wf(),
    {
        if let Some(fb) = &mut self.inner {
            fb.apply_virtual_offset_reply(reply);
        }
    }

    /// Draws the cursor character in the cursor cell.
    pub fn draw_cursor(&mut self, mem: &mut [u8], setup: Option<HDMIFrameBuffer>)
        requires
            ready(old(self)@, setup),
            live(old(self)@, setup).virtual_height > 0,
        ensures
            final(self)@ == Some(live(old(self)@, setup)),
            final(mem)@ == live(old(self)@, setup).cell_mem(
                old(mem)@,
                live(old(self)@, setup).glyph_of(cursor_byte(live(old(self)@, setup).cursor)),
            ),
    {
        self.initialize(setup);
        if let Some(fb) = &self.inner {
            fb.draw_cursor(mem);
        }
    }

    /// Draws an image at the cursor, as `HDMIFrameBuffer::draw_homer`.
    pub fn draw_homer(
        &mut self,
        mem: &mut [u8],
        image: &[u8],
        width: usize,
        height: usize,
        setup: Option<HDMIFrameBuffer>,
    )
        requires
            ready(old(self)@, setup),
            live(old(self)@, setup).virtual_height > 0,
            live(old(self)@, setup).image_fits(image@, width as int, height as int),
        ensures
            final(self)@ == Some(
                FrameView {
                    cursor_y: (live(old(self)@, setup).cursor_y + height) as usize,
                    ..live(old(self)@, setup)
                },
            ),
            final(self)@->Some_0.wf(),
            final(mem)@ == live(old(self)@, setup).image_mem(
                old(mem)@,
                image@,
                width as nat,
                height as nat,
            ),
    {
        self.initialize(setup);
        if let Some(fb) = &mut self.inner {
            fb.draw_homer(mem, image, width, height);
        }
    }
}

} // verus!
