//! A fixed-size memory page: exactly 4096 bytes, with safe construction
//! of a zeroed page or a page holding the byte image of a value at offset 0,
//! the rest zero-filled.

pub mod page;
