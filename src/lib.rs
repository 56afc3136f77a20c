pub mod calendar;
pub mod clock;
pub mod components;
pub mod view;
