pub mod methods;
pub mod model;
