//! A commit classification and release versioning engine: it classifies
//! commit summaries into impact categories, derives the next semantic
//! version from the categories present, renders a markdown release
//! section with commit and issue links, and merges it into changelog
//! content.

use vstd::prelude::*;

pub mod changelog;
pub mod classify;
pub mod git;
pub mod text;
pub mod version;

pub use changelog::Date;
pub use changelog::GroupedCommits;
pub use changelog::build_release_section;
pub use changelog::format_section;
pub use changelog::group_commits;
pub use changelog::merge_changelog;
pub use classify::CommitCategory;
pub use classify::auto_classify;
pub use classify::is_release_message;
pub use classify::prefix_mapping;
pub use git::CommitInfo;
pub use git::RemoteInfo;
pub use git::parse_remote_url;
pub use version::Version;
pub use version::next_version;

verus! {

} // verus!
