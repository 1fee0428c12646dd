pub mod credentials;
pub mod model;
pub mod request;
