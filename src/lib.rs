//! A droplet simulation engine for an animated rain overlay.
pub mod drop;
pub mod fixed;
pub mod images;
pub mod options;
pub mod pass;
pub mod physics;
pub mod rain_drops;
pub mod random;
pub mod render;
pub mod weather;
pub mod webgl;

pub use crate::drop::Drop;
pub use crate::images::WeatherImage;
pub use crate::options::RainDropsOptions;
pub use crate::rain_drops::RainDrops;
pub use crate::render::{Frame, Patch, Sprite};
pub use crate::weather::{Weather, WeatherOptions};
pub use crate::webgl::WebGlOptions;
