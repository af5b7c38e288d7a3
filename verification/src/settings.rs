//! Settings of the session tier. They are fixed when the process starts and
//! handed to whoever needs them.

use vstd::prelude::*;

verus! {

/// Settings of the session tier.
#[derive(Debug, Clone, Copy, PartialEq, Eq)]
pub struct ToolCacheSettings {
    /// Whether the session tier is in use at all.
    pub enabled: bool,
    /// How many results the session tier holds at most.
    pub max_entries: usize,
    /// For how many seconds a result of the session tier stays valid.
    pub ttl_secs: u64,
}

/// The bound of the session tier where none is set.
pub const DEFAULT_MAX_ENTRIES: usize = 64;

/// The time for which a result stays valid where none is set, in seconds.
pub const DEFAULT_TTL_SECS: u64 = 120;

impl Default for ToolCacheSettings {
    /// The session tier in use, with the default bound and time.
    fn default() -> (settings: Self)
        ensures
            settings == (ToolCacheSettings {
                enabled: true,
                max_entries: DEFAULT_MAX_ENTRIES,
                ttl_secs: DEFAULT_TTL_SECS,
            }),
    {
        ToolCacheSettings {
            enabled: true,
            max_entries: DEFAULT_MAX_ENTRIES,
            ttl_secs: DEFAULT_TTL_SECS,
        }
    }
}

/// What `str::parse::<u64>` reads from a text: the number, or `None` where
/// the text is not the decimal form of a number that fits.
pub uninterp spec fn parsed_number(text: Seq<char>) -> Option<u64>;

/// `str::parse::<u64>`, without the reason of a failure. The outcome
/// depends on the text alone; the contract gives it the name
/// `parsed_number` and claims nothing more of it.
#[verifier::external_body]
fn parse_number(text: &str) -> (number: Option<u64>)
    ensures
        number == parsed_number(text@),
{
    text.parse::<u64>().ok()
}

/// The settings, given what was set: whether the session tier was switched
/// off, and the numbers for its bound and its time where they were set and
/// could be read.
pub open spec fn settings_of(disabled: bool, max_entries: Option<u64>, ttl_secs: Option<u64>) -> ToolCacheSettings {
    ToolCacheSettings {
        enabled: !disabled,
        max_entries: match max_entries {
            Some(bound) if bound <= usize::MAX => bound as usize,
            _ => DEFAULT_MAX_ENTRIES,
        },
        ttl_secs: match ttl_secs {
            Some(seconds) => seconds,
            None => DEFAULT_TTL_SECS,
        },
    }
}

/// The settings, given the numbers that were read. A bound that this
/// machine cannot count to is taken as not set.
pub fn settings_from_numbers(disabled: bool, max_entries: Option<u64>, ttl_secs: Option<u64>) -> (settings:
    ToolCacheSettings)
    ensures
        settings == settings_of(disabled, max_entries, ttl_secs),
{
    ToolCacheSettings {
        enabled: !disabled,
        max_entries: match max_entries {
            Some(bound) => if bound <= usize::MAX as u64 {
                bound as usize
            } else {
                DEFAULT_MAX_ENTRIES
            },
            None => DEFAULT_MAX_ENTRIES,
        },
        ttl_secs: match ttl_secs {
            Some(seconds) => seconds,
            None => DEFAULT_TTL_SECS,
        },
    }
}

/// The number that a text holds, where there is a text.
pub open spec fn optional_number(text: Option<&str>) -> Option<u64> {
    match text {
        Some(text) => parsed_number(text@),
        None => None,
    }
}

/// The settings, given what the process was started with: whether the
/// session tier was switched off, and the texts that were set for its bound
/// and its time. A text that is not a number counts as not set.
pub fn settings_from_texts(disabled: bool, max_entries: Option<&str>, ttl_secs: Option<&str>) -> (settings:
    ToolCacheSettings)
    ensures
        settings == settings_of(disabled, optional_number(max_entries), optional_number(ttl_secs)),
{
    let bound = match max_entries {
        Some(text) => parse_number(text),
        None => None,
    };
    let seconds = match ttl_secs {
        Some(text) => parse_number(text),
        None => None,
    };
    settings_from_numbers(disabled, bound, seconds)
}

} // verus!
