//! Verified core of a GitHub activity viewer: decoding of event and
//! contribution payloads, the paged fetch-and-merge state machine, and the
//! pure computations behind the terminal summary. Network I/O lives outside
//! the library; every function here is specified and checked.

pub mod aggregator;
pub mod contributions;
pub mod dates;
pub mod digits;
pub mod events;
pub mod json;
pub mod paging;
pub mod streak;
pub mod summary;

pub use aggregator::{Aggregator, FetchError, HttpPage, Request, Stage, StageKind};
pub use contributions::{
    build_contributions_query, contributions_from_response, flatten_contributions, ContribError,
    ContributionCalendar, ContributionDay, ContributionWeek, ContributionsCollection, User,
};
pub use dates::{parse_date_prefix, year_of_date_prefix, Date};
pub use digits::parse_u32_or_zero;
pub use events::{filter_events_for_last_year, Event, EventKind};
pub use json::JsonValue;
pub use paging::has_next_page;
pub use streak::{extract_streak_stats, StreakStats};
pub use summary::{contributions_per_month, month_streak, summarize_activity, ActivitySummary};
