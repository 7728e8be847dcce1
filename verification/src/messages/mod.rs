//! Typed protocol structures, each with its defined wire layout.
pub mod framebuffer_update_request;
pub mod init;
pub mod key_event;
pub mod pixel_format;
pub mod security;
pub mod framebuffer_update;
pub mod set_encodings;

pub use framebuffer_update_request::FramebufferUpdateRequest;
pub use framebuffer_update::FramebufferUpdate;
pub use framebuffer_update::Rectangle;
pub use init::ClientInit;
pub use init::ServerInit;
pub use key_event::Key;
pub use key_event::KeyEvent;
pub use pixel_format::PixelFormat;
pub use set_encodings::SetEncodings;
pub use security::SecurityResult;
pub use security::SecurityType;
