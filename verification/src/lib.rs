//! Support-thread lifecycle tracking for a chat platform.
//!
//! The crate records thread creation, decides which participant counts as
//! the first responder to a help request, drives the issue-record state
//! machine through its staff actions, and computes the aggregate statistics
//! that the reporting layer serves.

pub mod attribution;
pub mod dispatch;
pub mod docs;
pub mod feedback;
pub mod message;
pub mod oauth;
pub mod persist;
pub mod record;
pub mod secrets;
pub mod stats;
pub mod store;

pub use attribution::attribute_first_response;
pub use attribution::AttributionDecision;
pub use attribution::AttributionOutcome;
pub use dispatch::dispatch;
pub use dispatch::DispatchError;
pub use dispatch::DispatchOutcome;
pub use dispatch::PlatformEvent;
pub use dispatch::ReactionKinds;
pub use dispatch::StaffAction;
pub use docs::DocsLinks;
pub use feedback::FeedbackBoard;
pub use feedback::FeedbackTally;
pub use feedback::ReactionGroup;
pub use message::MessageView;
pub use message::ThreadMessage;
pub use oauth::build_user_session;
pub use oauth::callback_of;
pub use oauth::session_cookie_value;
pub use oauth::Callback;
pub use oauth::GithubCallback;
pub use oauth::GithubToken;
pub use oauth::GithubUserResponse;
pub use persist::format_session_cookie;
pub use persist::parse_session_cookie;
pub use persist::Persist;
pub use persist::SessionView;
pub use persist::UserSession;
pub use record::IssueRecord;
pub use record::RecordView;
pub use secrets::get_secrets;
pub use secrets::SecretKey;
pub use secrets::Secrets;
pub use stats::DashboardData;
pub use stats::Issue;
pub use stats::IssuesAwaitingResponse;
pub use stats::IssuesOpenedLastWeek;
pub use stats::IssueView;
pub use stats::LastFourWeeksStats;
pub use store::ActionOutcome;
pub use store::IssueStore;
pub use store::StoreError;
