//! The task supervisor: the serving component and every worker run as
//! independent units, and the first unit to end is reported with its name and
//! the way it ended. The supervisor restarts nothing and stops nothing.

use vstd::prelude::*;
use vstd::string::*;

verus! {

/// How a unit ended.
#[derive(Clone, Copy, Debug, PartialEq, Eq, Structural)]
pub enum ExitKind {
    /// Its work function returned successfully.
    Exited,
    /// Its work function returned an error.
    Failed,
    /// The unit did not run to completion: it panicked or was cancelled.
    Crashed,
}

/// The severity of a log event.
#[derive(Clone, Copy, Debug, PartialEq, Eq, Structural)]
pub enum LogLevel {
    Info,
    Error,
}

/// An error as the log shows it: its message and its chain of causes.
#[derive(Clone, Debug, PartialEq, Eq)]
pub struct ErrorReport {
    pub message: String,
    pub cause_chain: String,
}

/// How a unit's run came back: the result of its work function, or the
/// failure of the unit itself.
pub type UnitOutcome = Result<Result<(), ErrorReport>, ErrorReport>;

/// The log event for the end of a unit.
#[derive(Clone, Debug, PartialEq, Eq)]
pub struct ExitReport {
    pub task_name: String,
    pub kind: ExitKind,
    pub level: LogLevel,
    pub message: String,
    pub error: Option<ErrorReport>,
}

/// The way a unit ended, by what its run came back with.
pub open spec fn exit_kind(outcome: UnitOutcome) -> ExitKind {
    match outcome {
        Ok(Ok(())) => ExitKind::Exited,
        Ok(Err(_)) => ExitKind::Failed,
        Err(_) => ExitKind::Crashed,
    }
}

/// What the log says of each way to end, after the unit's name.
pub open spec fn exit_phrase(kind: ExitKind) -> Seq<char> {
    match kind {
        ExitKind::Exited => " has exited"@,
        ExitKind::Failed => " failed"@,
        ExitKind::Crashed => " task failed to complete"@,
    }
}

/// The error that came with the end of a unit, if any.
pub open spec fn exit_error(outcome: UnitOutcome) -> Option<ErrorReport> {
    match outcome {
        Ok(Ok(())) => None,
        Ok(Err(e)) => Some(e),
        Err(e) => Some(e),
    }
}

/// `report` is the log event for the unit `task_name` that ended with `outcome`.
pub open spec fn reports(report: ExitReport, task_name: Seq<char>, outcome: UnitOutcome) -> bool {
    &&& report.task_name@ == task_name
    &&& report.kind == exit_kind(outcome)
    &&& report.level == if exit_kind(outcome) == ExitKind::Exited {
        LogLevel::Info
    } else {
        LogLevel::Error
    }
    &&& report.message@ == task_name + exit_phrase(exit_kind(outcome))
    &&& report.error == exit_error(outcome)
}

/// Classifies the end of the unit `task_name` and words the log event for it:
/// a clean exit is informational, a returned error and a crash are errors,
/// told apart by kind and by wording, each with the error that came with it.
pub fn report_exit(task_name: &str, outcome: UnitOutcome) -> (report: ExitReport)
    ensures
        reports(report, task_name@, outcome),
{
    let mut message = String::from_str(task_name);
    match outcome {
        Ok(Ok(())) => {
            message.append(" has exited");
            ExitReport {
                task_name: String::from_str(task_name),
                kind: ExitKind::Exited,
                level: LogLevel::Info,
                message,
                error: None,
            }
        },
        Ok(Err(e)) => {
            message.append(" failed");
            ExitReport {
                task_name: String::from_str(task_name),
                kind: ExitKind::Failed,
                level: LogLevel::Error,
                message,
                error: Some(e),
            }
        },
        Err(e) => {
            message.append(" task failed to complete");
            ExitReport {
                task_name: String::from_str(task_name),
                kind: ExitKind::Crashed,
                level: LogLevel::Error,
                message,
                error: Some(e),
            }
        },
    }
}

/// The mathematical value of a [`Supervisor`].
pub struct SupervisorModel {
    /// The names of the units, in the order in which they were added.
    pub units: Seq<Seq<char>>,
    /// Whether the end of a unit has been reported.
    pub reported: bool,
}

/// The units under supervision, and whether one of them has ended yet.
pub struct Supervisor {
    units: Vec<String>,
    reported: bool,
}

impl View for Supervisor {
    type V = SupervisorModel;

    closed spec fn view(&self) -> SupervisorModel {
        SupervisorModel {
            units: self.units@.map_values(|name: String| name@),
            reported: self.reported,
        }
    }
}

impl Supervisor {
    /// A supervisor with no unit.
    pub fn new() -> (s: Supervisor)
        ensures
            s@.units.len() == 0,
            !s@.reported,
    {
        let s = Supervisor { units: Vec::new(), reported: false };
        assert(s@.units =~= Seq::<Seq<char>>::empty());
        s
    }

    /// Puts a unit under supervision and returns the number by which its end
    /// is to be announced.
    pub fn add_unit(&mut self, name: &str) -> (unit: usize)
        ensures
            unit == old(self)@.units.len(),
            final(self)@.units == old(self)@.units.push(name@),
            final(self)@.reported == old(self)@.reported,
    {
        let unit = self.units.len();
        self.units.push(String::from_str(name));
        assert(self@.units =~= old(self)@.units.push(name@));
        unit
    }

    /// The number of units under supervision.
    pub fn unit_count(&self) -> (n: usize)
        ensures
            n == self@.units.len(),
    {
        self.units.len()
    }

    /// Whether the end of a unit has been reported.
    pub fn has_reported(&self) -> (b: bool)
        ensures
            b == self@.reported,
    {
        self.reported
    }

    /// Takes note that unit number `unit` has ended with `outcome`. The first
    /// unit to end is reported, under its name; whatever ends later, and
    /// whatever names no unit, is passed over.
    pub fn on_exit(&mut self, unit: usize, outcome: UnitOutcome) -> (r: Option<ExitReport>)
        ensures
            final(self)@.units == old(self)@.units,
            r is Some <==> !old(self)@.reported && unit < old(self)@.units.len(),
            r matches Some(report) ==> reports(report, old(self)@.units[unit as int], outcome),
            final(self)@.reported == (old(self)@.reported || r is Some),
    {
        if self.reported || unit >= self.units.len() {
            return None;
        }
        let report = report_exit(self.units[unit].as_str(), outcome);
        self.reported = true;
        Some(report)
    }
}

} // verus!
