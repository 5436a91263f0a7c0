pub mod view_tabs;
