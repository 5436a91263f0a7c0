pub mod id;
pub mod modulo;
pub mod domain;
pub mod seqs;
pub mod event;
pub mod glim_app;
pub mod clock;
pub mod stores;
pub mod text;
pub mod views;
pub mod input;
pub mod ui;
