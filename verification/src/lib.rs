//! A fixed-denomination mixer: its storage and dispatchable calls, the
//! weights charged for them, and the builder of its fixed-deposit trees.

pub mod weights;
pub mod fixed_deposit_tree;
pub mod types;
pub mod services;
pub mod pallet;
pub mod laws;
