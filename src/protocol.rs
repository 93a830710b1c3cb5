use vstd::prelude::*;

verus! {

/// Credentials offered to log in.
#[derive(Clone, Debug)]
pub struct AuthRequest {
    pub username: String,
    pub password: String,
}

/// The answer to a successful login.
#[derive(Clone, Debug)]
pub struct AuthResponse {
    pub is_admin: bool,
    pub session_id: String,
}

/// A request to create a user.
#[derive(Clone, Debug)]
pub struct CreateUserRequest {
    pub username: String,
    pub is_admin: bool,
}

/// A request for the most recent test logs.
#[derive(Clone, Debug)]
pub struct LogsRequest {
    pub count: i32,
}

/// A request to run raw SQL.
#[derive(Clone, Debug)]
pub struct SqlRequest {
    pub raw_sql: String,
}

/// A request to run raw SQL against the server's database.
#[derive(Clone, Debug)]
pub struct ExecuteSqlRequest {
    pub raw_sql: String,
}

/// What a test event does to its target.
#[derive(Clone, Copy, Debug, PartialEq, Eq, Structural)]
pub enum TestAction {
    Open,
    Close,
}

/// The valve that a test event acts on.
#[derive(Clone, Copy, Debug, PartialEq, Eq, Structural)]
pub enum TestTarget {
    Ovent,
    Prvent,
}

/// One timed action of a test stage; `t` is milliseconds from the test's start.
#[derive(Clone, Debug)]
pub struct TestEvent {
    pub action: TestAction,
    pub target: TestTarget,
    pub t: i32,
}

/// A named stage of a test: its events in order.
#[derive(Clone, Debug)]
pub struct TestStage {
    pub name: String,
    pub sequence: Vec<TestEvent>,
}

/// A whole test: its stages in order.
#[derive(Clone, Debug)]
pub struct TestDescription {
    pub stages: Vec<TestStage>,
}

/// An instruction of a control procedure.
#[derive(Clone, Copy, Debug, PartialEq, Eq, Structural)]
pub enum Action {
    Forward(i32),
}

/// A file shipped to the server, with its path relative to the upload root.
#[derive(Clone, Debug)]
pub struct PackagedFile {
    pub relative_path: String,
    pub file_name: String,
    pub contents: Vec<u8>,
}

/// A set of files to upload under a session.
#[derive(Clone, Debug)]
pub struct UploadRequest {
    pub files: Vec<PackagedFile>,
    pub session_id: String,
}

/// The state of a recorded test.
#[derive(Clone, Copy, Debug, PartialEq, Eq, Structural)]
pub enum TestStatus {
    InProgress,
    Fail,
    Pass,
}

impl TestStatus {
    /// The status stored as the given integer: -1 in progress, 0 failed, 1 passed.
    pub fn from_i32(num: i32) -> (r: Option<TestStatus>)
        ensures
            num == -1 ==> r == Some(TestStatus::InProgress),
            num == 0 ==> r == Some(TestStatus::Fail),
            num == 1 ==> r == Some(TestStatus::Pass),
            !(-1 <= num <= 1) ==> r is None,
    {
        if num == -1 {
            Some(TestStatus::InProgress)
        } else if num == 0 {
            Some(TestStatus::Fail)
        } else if num == 1 {
            Some(TestStatus::Pass)
        } else {
            None
        }
    }
}

/// One recorded test run.
#[derive(Clone, Debug)]
pub struct TestLog {
    pub log_id: String,
    pub test_id: String,
    pub initiator: String,
    pub start_time: i32,
    pub end_time: Option<i32>,
    pub status: TestStatus,
    pub message: Option<String>,
}

/// The most recent test runs.
#[derive(Clone, Debug)]
pub struct LogsResponse {
    pub logs: Vec<TestLog>,
}

/// The answer to a test request.
#[derive(Clone, Copy, Debug)]
pub struct TestResponse;

/// The requesting host's name, when it resolves.
#[derive(Clone, Debug)]
pub struct Hostname(pub Option<String>);

/// The user that a request was authenticated as.
#[derive(Clone, Debug)]
pub struct User {
    pub username: String,
    pub is_admin: bool,
}

} // verus!
