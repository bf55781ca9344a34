pub mod alerts;
pub mod cache;
pub mod forecast;
pub mod location;
pub mod menu;
pub mod observations;
pub mod scan;
pub mod session;
pub mod text;
