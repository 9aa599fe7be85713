use crate::listing::DirFormat;
use crate::model::{
    PromoteResponse, StagingActivity, StagingActivityEvent, StagingProfileRepository,
    StagingProperty,
};
use crate::text::{concat2, concat3, decimal, decimal_i64};
use vstd::prelude::*;

verus! {

/// Why a staging command cannot be carried out.
#[derive(Copy, Clone, Debug, PartialEq, Eq, Structural)]
pub enum StagingError {
    /// The service started a repository and returned no id for it.
    NoIdReturned,
    /// No repository was named to drop.
    NothingToDrop,
}

/// Whether a repository is in transition, in words.
pub open spec fn transition_word(transitioning: bool) -> Seq<char> {
    if transitioning {
        "transitioning"@
    } else {
        "ready"@
    }
}

/// The short line of a staging repository: its id, its type, whether it
/// is in transition, and its description, with tabs between them.
pub open spec fn repository_line_text(r: StagingProfileRepository) -> Seq<char> {
    r.repository_id@ + "\t"@ + r.repository_type@ + "\t"@ + transition_word(r.transitioning)
        + "\t"@ + r.description@
}

/// The name of the event that an activity saw last, or a question mark.
pub open spec fn last_event_name(a: StagingActivity) -> Seq<char> {
    if a.events@.len() == 0 {
        "?"@
    } else {
        a.events@.last().name@
    }
}

/// The short line of an activity: its name and its last event.
pub open spec fn activity_line_text(a: StagingActivity) -> Seq<char> {
    a.name@ + ": "@ + last_event_name(a)
}

/// The heading of an activity in the long format.
pub open spec fn activity_heading_text(a: StagingActivity) -> Seq<char> {
    "\nactivity '"@ + a.name@ + "' for staging repository - started "@ + a.started@
        + ", stopped "@ + a.stopped@
}

/// The line of an event in the long format.
pub open spec fn event_line_text(e: StagingActivityEvent) -> Seq<char> {
    "* "@ + e.timestamp@ + " ["@ + decimal(e.severity as int) + "] "@ + e.name@
}

/// The line of a property of an event in the long format.
pub open spec fn property_line_text(p: StagingProperty) -> Seq<char> {
    "    "@ + p.name@ + ":"@ + p.value@
}

/// What is written when a staging repository has been started.
pub open spec fn started_line_text(format: DirFormat, id: Seq<char>, description: Option<String>)
    -> Seq<char> {
    match format {
        DirFormat::Short => id,
        _ => id + "\t"@ + match description {
            Some(text) => text@,
            None => Seq::empty(),
        },
    }
}

/// The short line of a staging repository.
pub fn repository_line(repository: &StagingProfileRepository) -> (line: String)
    ensures
        line@ == repository_line_text(*repository),
{
    let mut line = concat3(repository.repository_id.as_str(), "\t", repository.repository_type.as_str());
    line.append("\t");
    if repository.transitioning {
        line.append("transitioning");
    } else {
        line.append("ready");
    }
    line.append("\t");
    line.append(repository.description.as_str());
    line
}

/// The short line of an activity.
pub fn activity_line(activity: &StagingActivity) -> (line: String)
    ensures
        line@ == activity_line_text(*activity),
{
    let n = activity.events.len();
    if n == 0 {
        concat3(activity.name.as_str(), ": ", "?")
    } else {
        concat3(activity.name.as_str(), ": ", activity.events[n - 1].name.as_str())
    }
}

/// The heading of an activity in the long format.
pub fn activity_heading(activity: &StagingActivity) -> (line: String)
    ensures
        line@ == activity_heading_text(*activity),
{
    let mut line = concat3("\nactivity '", activity.name.as_str(), "' for staging repository - started ");
    line.append(activity.started.as_str());
    line.append(", stopped ");
    line.append(activity.stopped.as_str());
    line
}

/// The line of an event in the long format.
pub fn event_line(event: &StagingActivityEvent) -> (line: String)
    ensures
        line@ == event_line_text(*event),
{
    let mut line = concat3("* ", event.timestamp.as_str(), " [");
    line.append(decimal_i64(event.severity as i64).as_str());
    line.append("] ");
    line.append(event.name.as_str());
    line
}

/// The line of a property of an event in the long format.
pub fn property_line(property: &StagingProperty) -> (line: String)
    ensures
        line@ == property_line_text(*property),
{
    let mut line = concat3("    ", property.name.as_str(), ":");
    line.append(property.value.as_str());
    line
}

/// What is written when a staging repository has been started: its id,
/// and in the long format its description too. No id is an error.
pub fn started_line(format: DirFormat, response: &PromoteResponse) -> (r: Result<
    String,
    StagingError,
>)
    requires
        format is Short || format is Long,
    ensures
        match response.data.staged_repository_id {
            Some(id) => r is Ok && r->Ok_0@ == started_line_text(
                format,
                id@,
                response.data.description,
            ),
            None => r == Err::<String, StagingError>(StagingError::NoIdReturned),
        },
{
    match &response.data.staged_repository_id {
        None => Err(StagingError::NoIdReturned),
        Some(id) => match format {
            DirFormat::Short => Ok(id.clone()),
            _ => {
                let mut line = concat2(id.as_str(), "\t");
                match &response.data.description {
                    Some(text) => {
                        line.append(text.as_str());
                    },
                    None => {},
                }
                assert(line@ =~= id@ + "\t"@ + match response.data.description {
                    Some(text) => text@,
                    None => Seq::empty(),
                });
                Ok(line)
            },
        },
    }
}

/// Whether there is anything to drop: at least one repository is named.
pub fn check_drop(repository_ids: &Vec<String>) -> (r: Result<(), StagingError>)
    ensures
        r == if repository_ids@.len() == 0 {
            Err::<(), StagingError>(StagingError::NothingToDrop)
        } else {
            Ok::<(), StagingError>(())
        },
{
    if repository_ids.len() == 0 {
        Err(StagingError::NothingToDrop)
    } else {
        Ok(())
    }
}

} // verus!
