//! Styled console messages: a title and a message are padded, styled by
//! severity and laid out on one line through a positional-token template.

pub mod logger;
pub mod style;
pub mod template;
pub mod text_utills;
