pub mod auth;
pub mod bottom_nav;
