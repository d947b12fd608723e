//! The names that most callers need.

pub use crate::light::Light;
pub use crate::math::vec2;
pub use crate::raycaster::Raycaster;
pub use crate::scalar::Scalar;
pub use crate::sprite::Sprite;
pub use crate::tile::Tile;
pub use crate::worldmap::WorldMap;
pub use crate::WidgetKey;
pub use rustc_hash::FxHashMap;
