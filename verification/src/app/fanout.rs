//! The monitors of a session and how they end.

use crate::text::opt_text;
use vstd::prelude::*;

verus! {

/// How the thread of a monitor ended.
#[derive(Debug, PartialEq, Eq)]
pub enum MonitorExit {
    /// It returned.
    Returned(Result<(), String>),
    Panicked,
}

/// What is said about the end of a monitor; one that ended in good order is not
/// worth a word.
pub open spec fn monitor_exit_text(monitor_name: Seq<char>, exit: MonitorExit) -> Option<Seq<char>> {
    match exit {
        MonitorExit::Returned(Ok(())) => None,
        MonitorExit::Returned(Err(err)) => Some(
            "Monitor thread "@ + monitor_name + " exited with error: "@ + err@,
        ),
        MonitorExit::Panicked => Some("Monitor thread "@ + monitor_name + " panicked"@),
    }
}

/// See [`monitor_exit_text`].
pub fn join_monitor_thread(monitor_name: &str, exit: &MonitorExit) -> (r: Option<String>)
    ensures
        opt_text(r) == monitor_exit_text(monitor_name@, *exit),
{
    let mut text = "Monitor thread ".to_string();
    text.append(monitor_name);
    match exit {
        MonitorExit::Returned(Ok(())) => None,
        MonitorExit::Returned(Err(err)) => {
            text.append(" exited with error: ");
            text.append(err.as_str());
            Some(text)
        },
        MonitorExit::Panicked => {
            text.append(" panicked");
            Some(text)
        },
    }
}

/// A monitor that ended in good order is passed over in silence; of any other the name is told, and
/// the error where there is one.
pub proof fn law_monitor_is_named_when_it_fails(name: Seq<char>, err: String)
    ensures
        monitor_exit_text(name, MonitorExit::Returned(Ok(()))) is None,
        monitor_exit_text(name, MonitorExit::Returned(Err(err))) == Some(
            "Monitor thread "@ + name + " exited with error: "@ + err@,
        ),
        monitor_exit_text(name, MonitorExit::Panicked) == Some("Monitor thread "@ + name + " panicked"@),
{
}

/// The end of a monitor is told as the law about it says.
pub proof fn law_end_of_a_monitor_is_told(name: &str, exit: &MonitorExit, r: Option<String>)
    requires
        call_ensures(join_monitor_thread, (name, exit), r),
    ensures
        opt_text(r) == monitor_exit_text(name@, *exit),
        r is None <==> (*exit matches MonitorExit::Returned(ended) && ended is Ok),
{
}

} // verus!
