//! Detection of "incoherent" chat messages: keyboard mashing and gibberish,
//! told apart from laughter, links, dictionary words and multi-word text.

mod classifier;
mod monitor;
mod patterns;
mod text;
mod word_bank;

pub use classifier::{is_incoherent, judge_normalized, MINIMUM_MESSAGE_LENGTH};
pub use monitor::{is_monitored, parse_id, parse_user_ids, should_react};
pub use patterns::{
    IgnorePattern, IgnorePatterns, PatternError, BHA_LAUGH, EMOJI_TAG, HUE_LAUGH, LOL_RUN,
    REE_PREFIX, URL_PREFIX,
};
pub use text::{contains_whitespace, has_at_least_chars, is_whitespace_char, normalize, strip_formatting};
pub use word_bank::WordBank;
