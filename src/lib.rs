//! An asset manager: resolves raw bytes for an identifier from an ordered
//! chain of stores, decodes them with a loader, and caches the decoded value
//! so that every later request for it shares one instance.
mod asset;
mod handle;
mod manager;
mod sprite;
mod store;

pub use asset::{Asset, AssetLoader, AssetLoaderKind};
pub use handle::{Handle, Slot, Token};
pub use manager::{Assets, LoadError};
pub use sprite::anim::{duration_to_nanos, AnimationController, AnimationSet, Animation, Current};
pub use sprite::SpriteSheet;
pub use store::fs::{FindStep, FsStore, OpenStatus};
pub use store::{fetch_first, AsyncStoreWrapper, Fetched, Store, StoreFailure};
