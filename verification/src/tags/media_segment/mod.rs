//! Tags that apply to the media segment after them.

pub mod program_date_time;
