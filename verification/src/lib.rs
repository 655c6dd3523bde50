//! A window-compositing core: rectangles, pixel buffers, windows, a
//! compositor that paints registered windows back to front and overlays a
//! mouse cursor, plus the pointer-event coalescing rule that feeds it.
//!
//! Everything here works on plain values (pixel cells are opaque 32-bit
//! colors, geometry is integer); the device framebuffer mapping, the mouse
//! driver, the timer and the task scheduler are outside collaborators that a
//! host binds to these types at the edge.

pub mod demo;
pub mod framebuffer;
pub mod input;
pub mod manager;
pub mod rect;
pub mod text;
pub mod window;

pub use demo::foo_loop;
pub use framebuffer::FrameBuffer;
pub use input::{Event, MouseEvent};
pub use manager::WindowManager;
pub use rect::Rect;
pub use text::{FontTable, TextDisplay};
pub use window::Window;
