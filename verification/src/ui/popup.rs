pub mod mr_view_popup;
