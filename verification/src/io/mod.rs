pub mod buf;
pub mod fd;
pub mod fixed;
pub mod fixed_pool;
pub mod queue;
pub mod rw;

pub use buf::{Buf, BufMut};
pub use fd::Fd;
pub use fixed::Fixed;
pub use fixed_pool::FixedPool;
