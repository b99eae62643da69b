//! Verified core of the driver plugin for the Hameg HM7044 quad power supply.

pub mod error;
pub mod number_text;
pub mod output_state;
pub mod producer;
pub mod protocol;
pub mod scanner;
pub mod status;
pub mod text;
