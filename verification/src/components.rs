pub mod bottom_nav;
