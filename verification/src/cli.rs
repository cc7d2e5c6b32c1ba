//! The tasks that a run can be asked for.

use crate::text::str_eq;
use vstd::prelude::*;

verus! {

#[derive(Clone, Copy, Debug, PartialEq, Eq, Structural)]
pub enum CliTask {
    UpdateProperty,
    UpdateSchools,
    UpdateTube,
}

impl CliTask {
    /// The task of a name.
    pub open spec fn of(name: Seq<char>) -> Option<CliTask> {
        if name == "update-property"@ {
            Some(CliTask::UpdateProperty)
        } else if name == "update-schools"@ {
            Some(CliTask::UpdateSchools)
        } else if name == "update-tube"@ {
            Some(CliTask::UpdateTube)
        } else {
            None
        }
    }

    /// The task that is asked for by `name`, if it is the name of one.
    pub fn from_name(name: &str) -> (task: Option<CliTask>)
        ensures
            task == CliTask::of(name@),
    {
        if str_eq(name, "update-property") {
            Some(CliTask::UpdateProperty)
        } else if str_eq(name, "update-schools") {
            Some(CliTask::UpdateSchools)
        } else if str_eq(name, "update-tube") {
            Some(CliTask::UpdateTube)
        } else {
            None
        }
    }
}

} // verus!
