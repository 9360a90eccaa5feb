//! Automated idempotent maintenance tasks.

use vstd::prelude::*;

verus! {

/// How many seconds there are between two runs of the maintenance tasks.
pub const INTERVAL_SECS: u64 = 120;

/// What happened to the maintenance job.
#[derive(Debug)]
pub enum TaskEvent<S = String> {
    /// The interval passed or the service is to stop; `cancelled` says whether
    /// it is to stop.
    Woken { cancelled: bool },
    /// A batch of old files was deleted, or could not be.
    Deleted(Result<(), S>),
}

/// What the maintenance job does next.
#[derive(Debug)]
pub enum TaskAction<S = String> {
    /// Wait until the interval passes or the service is to stop. If there is an
    /// error, report that it happened while deleting old files.
    Wait(Option<S>),
    DeleteOldFiles,
    Stop,
}

impl View for TaskEvent<String> {
    type V = TaskEvent<Seq<char>>;

    open spec fn view(&self) -> TaskEvent<Seq<char>> {
        match self {
            TaskEvent::Woken { cancelled } => TaskEvent::Woken { cancelled: *cancelled },
            TaskEvent::Deleted(Ok(())) => TaskEvent::Deleted(Ok(())),
            TaskEvent::Deleted(Err(e)) => TaskEvent::Deleted(Err(e@)),
        }
    }
}

impl View for TaskAction<String> {
    type V = TaskAction<Seq<char>>;

    open spec fn view(&self) -> TaskAction<Seq<char>> {
        match self {
            TaskAction::Wait(Some(e)) => TaskAction::Wait(Some(e@)),
            TaskAction::Wait(None) => TaskAction::Wait(None),
            TaskAction::DeleteOldFiles => TaskAction::DeleteOldFiles,
            TaskAction::Stop => TaskAction::Stop,
        }
    }
}

/// Old files are deleted each time the job wakes, unless the service is to
/// stop. An error is reported, and the job goes on.
pub open spec fn next_task_action(event: TaskEvent<Seq<char>>) -> TaskAction<Seq<char>> {
    match event {
        TaskEvent::Woken { cancelled } => if cancelled {
            TaskAction::Stop
        } else {
            TaskAction::DeleteOldFiles
        },
        TaskEvent::Deleted(Ok(_)) => TaskAction::Wait(None),
        TaskEvent::Deleted(Err(e)) => TaskAction::Wait(Some(e)),
    }
}

/// Says what the maintenance job does next. It starts by waiting.
pub fn maintenance_step(event: TaskEvent) -> (action: TaskAction)
    ensures
        action@ == next_task_action(event@),
{
    match event {
        TaskEvent::Woken { cancelled } => if cancelled {
            TaskAction::Stop
        } else {
            TaskAction::DeleteOldFiles
        },
        TaskEvent::Deleted(Ok(_)) => TaskAction::Wait(None),
        TaskEvent::Deleted(Err(e)) => TaskAction::Wait(Some(e)),
    }
}

/// The job goes on for as long as the service does: it deletes old files
/// whenever it wakes, waits after that, whatever came of it, and stops only when
/// it is told to. An error is reported as it is.
pub proof fn law_maintenance_goes_on(event: TaskEvent, action: TaskAction)
    requires
        call_ensures(maintenance_step, (event,), action),
    ensures
        action@ is Stop <==> (event matches TaskEvent::Woken { cancelled } && cancelled),
        action@ is DeleteOldFiles <==> (event matches TaskEvent::Woken { cancelled } && !cancelled),
        event matches TaskEvent::Deleted(Err(e)) ==> (action matches TaskAction::Wait(Some(told))
            && told@ == e@),
        event matches TaskEvent::Deleted(Ok(_)) ==> (action matches TaskAction::Wait(None)),
        INTERVAL_SECS == 2 * 60,
{
}

} // verus!
