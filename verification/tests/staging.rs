use nexus_client::listing::DirFormat;
use nexus_client::model::{
    PromoteResponse, PromoteResponseData, StagingActivity, StagingActivityEvent,
    StagingProfileRepository, StagingProperty,
};
use nexus_client::staging::{
    activity_heading, activity_line, check_drop, event_line, property_line, repository_line,
    started_line, StagingError,
};

fn event(name: &str, severity: i32) -> StagingActivityEvent {
    StagingActivityEvent {
        timestamp: "2023-01-01T10:00:00.000Z".to_string(),
        name: name.to_string(),
        severity,
        properties: vec![StagingProperty { name: "id".to_string(), value: "repo-1".to_string() }],
    }
}

fn activity(events: Vec<StagingActivityEvent>) -> StagingActivity {
    StagingActivity {
        name: "close".to_string(),
        started: "2023-01-01T10:00:00.000Z".to_string(),
        stopped: "2023-01-01T10:00:05.000Z".to_string(),
        events,
    }
}

#[test]
fn staging_repository_line() {
    let mut repository = StagingProfileRepository {
        repository_id: "repo-1".to_string(),
        repository_type: "open".to_string(),
        description: "a release".to_string(),
        ..Default::default()
    };
    assert_eq!(repository_line(&repository), "repo-1\topen\tready\ta release");
    repository.transitioning = true;
    assert_eq!(repository_line(&repository), "repo-1\topen\ttransitioning\ta release");
}

#[test]
fn staging_activity_lines() {
    assert_eq!(activity_line(&activity(Vec::new())), "close: ?");
    let with_events = activity(vec![event("rulesEvaluate", 0), event("repositoryClosed", 1)]);
    assert_eq!(activity_line(&with_events), "close: repositoryClosed");
    assert_eq!(
        activity_heading(&with_events),
        "\nactivity 'close' for staging repository - started 2023-01-01T10:00:00.000Z, stopped 2023-01-01T10:00:05.000Z"
    );
    assert_eq!(event_line(&with_events.events[1]), "* 2023-01-01T10:00:00.000Z [1] repositoryClosed");
    assert_eq!(event_line(&event("failed", -2)), "* 2023-01-01T10:00:00.000Z [-2] failed");
    assert_eq!(property_line(&with_events.events[0].properties[0]), "    id:repo-1");
}

#[test]
fn started_repository_line() {
    let response = |id: Option<&str>, description: Option<&str>| PromoteResponse {
        data: PromoteResponseData {
            staged_repository_id: id.map(str::to_string),
            description: description.map(str::to_string),
        },
    };
    assert_eq!(
        started_line(DirFormat::Short, &response(Some("repo-1"), Some("text"))),
        Ok("repo-1".to_string())
    );
    assert_eq!(
        started_line(DirFormat::Long, &response(Some("repo-1"), Some("text"))),
        Ok("repo-1\ttext".to_string())
    );
    assert_eq!(
        started_line(DirFormat::Long, &response(Some("repo-1"), None)),
        Ok("repo-1\t".to_string())
    );
    assert_eq!(
        started_line(DirFormat::Short, &response(None, Some("text"))),
        Err(StagingError::NoIdReturned)
    );
}

#[test]
fn nothing_to_drop_is_an_error() {
    assert_eq!(check_drop(&Vec::new()), Err(StagingError::NothingToDrop));
    assert_eq!(check_drop(&vec!["repo-1".to_string()]), Ok(()));
}
