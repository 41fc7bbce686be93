//! Text console on a linear framebuffer: pixel colours, the VideoCore
//! mailbox property protocol, bitmap fonts and the console state machine.

pub mod color;
pub mod mailbox;
pub mod font;
pub mod surface;
pub mod hdmi;

pub mod framebuffer;
