pub mod file;
pub mod fs;
pub mod link;
pub mod util;

pub use file::File;
pub use fs::{mkdir_op, open_op, rename_op};
pub use link::{symlink_op, unlink_dir_op, unlink_file_op, unlink_op};
