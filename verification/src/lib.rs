//! Rafael: a parallel file-system purger, and Puriel, its deferred companion.
//!
//! The library holds the decisions of both programs: the termination detector
//! shared by the worker threads, the age rules that decide whether an entry is
//! purged now, later or never, the exception filter, the distribution of work
//! over the worker queues, the log and syslog line formats and the shape of the
//! generated test trees, and the keep marks that decide which emptied directories
//! are removed.

pub mod safra;
pub mod text;
pub mod purger;
pub mod metadata_utils;
pub mod puriel_utils;
pub mod syslog_utility;
pub mod entry_evaluation;
pub mod maketree;
pub mod purge_marks;
