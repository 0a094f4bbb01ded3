pub mod model;
pub mod batch;
pub mod extract;
pub mod transform;
pub mod load;
pub mod driver;
