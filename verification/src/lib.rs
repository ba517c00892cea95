pub mod camera;
pub mod canvas;
pub mod color;
pub mod light;
pub mod material;
pub mod matrix;
pub mod object;
pub mod ray;
pub mod scalar;
pub mod tuple;
pub mod world;
