pub mod mr_view;
pub mod pipeline_actions;
