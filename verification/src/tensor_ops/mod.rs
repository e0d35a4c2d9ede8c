pub mod conv2d;
pub mod reshape_to;
pub mod select_and_gather;
