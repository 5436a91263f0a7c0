pub mod popup;
pub mod widget;
