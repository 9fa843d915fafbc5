use vstd::prelude::*;

verus! {

/// Wire name of the command that reads the local time.
pub const COMMAND_TIME_NOW: &'static str = "time.now";

/// Wire name of the command that reads the local date.
pub const COMMAND_DATE_NOW: &'static str = "date.now";

/// A command the actions service executes.
#[derive(Clone, Copy, Debug, PartialEq, Eq, Structural)]
pub enum CommandRequest {
    TimeNow,
    DateNow,
}

/// The body of an execute request: which command to run.
#[derive(Clone, Copy, Debug, PartialEq, Eq, Structural)]
pub struct ExecuteRequest {
    pub command: CommandRequest,
}

/// The server's local time of day, and the same instant in RFC 3339.
#[derive(Clone, Debug)]
pub struct TimeNowResult {
    pub time: String,
    pub rfc3339: String,
}

/// The server's local date, and the same instant in RFC 3339.
#[derive(Clone, Debug)]
pub struct DateNowResult {
    pub date: String,
    pub rfc3339: String,
}

/// The result of a command, tagged with the command it answers.
#[derive(Clone, Debug)]
pub enum CommandResponse {
    TimeNow(TimeNowResult),
    DateNow(DateNowResult),
}

/// One reading of the local clock, already written out: time of day
/// (`HH:MM:SS`), date (`YYYY-MM-DD`) and the full RFC 3339 timestamp.
#[derive(Clone, Debug)]
pub struct ClockReading {
    pub time: String,
    pub date: String,
    pub rfc3339: String,
}

impl CommandRequest {
    /// The command's name on the wire.
    pub fn name(self) -> (r: &'static str)
        ensures
            self == CommandRequest::TimeNow ==> r@ == COMMAND_TIME_NOW@,
            self == CommandRequest::DateNow ==> r@ == COMMAND_DATE_NOW@,
    {
        match self {
            CommandRequest::TimeNow => COMMAND_TIME_NOW,
            CommandRequest::DateNow => COMMAND_DATE_NOW,
        }
    }
}

/// Answers an execute request from one clock reading.
pub fn execute(request: &ExecuteRequest, clock: ClockReading) -> (r: CommandResponse)
    ensures
        request.command == CommandRequest::TimeNow ==> (r matches CommandResponse::TimeNow(t)
            && t.time == clock.time && t.rfc3339 == clock.rfc3339),
        request.command == CommandRequest::DateNow ==> (r matches CommandResponse::DateNow(d)
            && d.date == clock.date && d.rfc3339 == clock.rfc3339),
{
    match request.command {
        CommandRequest::TimeNow => CommandResponse::TimeNow(
            TimeNowResult { time: clock.time, rfc3339: clock.rfc3339 },
        ),
        CommandRequest::DateNow => CommandResponse::DateNow(
            DateNowResult { date: clock.date, rfc3339: clock.rfc3339 },
        ),
    }
}

} // verus!
