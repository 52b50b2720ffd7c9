use arroyo_planner::rest::bad_request;
use arroyo_planner::rest::internal_server_error;
use arroyo_planner::rest::log_and_map;
use arroyo_planner::rest::map_delete_err;
use arroyo_planner::rest::map_insert_err;
use arroyo_planner::rest::not_found;
use arroyo_planner::rest::paginate_results;
use arroyo_planner::rest::required_field;
use arroyo_planner::rest::service_unavailable;
use arroyo_planner::rest::validate_pagination_params;
use arroyo_planner::rest::DbError;
use arroyo_planner::rest::ErrorResp;
use arroyo_planner::run::ConnectStep;
use arroyo_planner::run::Pipeline;
use arroyo_planner::run::default_database;
use arroyo_planner::run::existing_pipeline;
use arroyo_planner::run::http_port;
use arroyo_planner::run::next_page;
use arroyo_planner::run::observe_state;
use arroyo_planner::run::pipeline_name;
use arroyo_planner::run::reached_state;
use arroyo_planner::run::wait_for_connect;

#[test]
fn paginate_drops_the_extra_row() {
    let (page, has_more) = paginate_results(vec![1, 2, 3], 3);
    assert_eq!(page, vec![1, 2]);
    assert!(has_more);
}

#[test]
fn paginate_keeps_a_short_page() {
    let (page, has_more) = paginate_results(vec!["a", "b"], 3);
    assert_eq!(page, vec!["a", "b"]);
    assert!(!has_more);
}

#[test]
fn paginate_of_nothing_with_limit_zero() {
    let (page, has_more) = paginate_results(Vec::<u8>::new(), 0);
    assert!(page.is_empty());
    assert!(has_more);
}

#[test]
fn pagination_defaults_to_ten_rows_and_asks_for_one_more() {
    let (after, limit) = validate_pagination_params(None, None).unwrap();
    assert_eq!(after, None);
    assert_eq!(limit, 11);
}

#[test]
fn pagination_passes_the_cursor_on() {
    let (after, limit) = validate_pagination_params(Some("pl_7".to_string()), Some(25)).unwrap();
    assert_eq!(after, Some("pl_7".to_string()));
    assert_eq!(limit, 26);
}

#[test]
fn pagination_refuses_a_limit_of_zero() {
    let error = validate_pagination_params(None, Some(0)).unwrap_err();
    assert_eq!(error.status_code, 400);
    assert_eq!(error.message, "Limit must be greater than 0");
}

#[test]
fn insert_of_a_duplicate_names_the_kind() {
    let error = map_insert_err("pipeline", DbError::DuplicateViolation);
    assert_eq!(error.status_code, 400);
    assert_eq!(error.message, "pipeline with that name already exists");
}

#[test]
fn insert_failing_otherwise_is_mapped_plainly() {
    let error = map_insert_err("pipeline", DbError::Other("disk full".to_string()));
    assert_eq!(error.status_code, 500);
    assert_eq!(error.message, "disk full");
    let error = map_insert_err("pipeline", DbError::ForeignKeyViolation);
    assert_eq!(error.status_code, 400);
    assert_eq!(error.message, "Cannot delete; other records depend on this one");
}

#[test]
fn delete_of_something_in_use_names_the_user() {
    let error = map_delete_err("connection", "pipelines", DbError::ForeignKeyViolation);
    assert_eq!(error.status_code, 400);
    assert_eq!(error.message, "Cannot delete connection; it is still being used by pipelines");
}

#[test]
fn delete_failing_otherwise_is_mapped_plainly() {
    let error = map_delete_err("connection", "pipelines", DbError::DuplicateViolation);
    assert_eq!(error.status_code, 400);
    assert_eq!(error.message, "A record already exists with that name");
}

#[test]
fn database_errors_become_responses() {
    let error = ErrorResp::from(DbError::Other("boom".to_string()));
    assert_eq!((error.status_code, error.message.as_str()), (500, "boom"));
}

#[test]
fn plain_responses() {
    let error = bad_request("no");
    assert_eq!((error.status_code, error.message.as_str()), (400, "no"));
    let error = not_found("Pipeline");
    assert_eq!((error.status_code, error.message.as_str()), (404, "Pipeline not found"));
    let error = service_unavailable("Controller");
    assert_eq!((error.status_code, error.message.as_str()), (503, "Controller not available"));
    let error = internal_server_error("oops");
    assert_eq!((error.status_code, error.message.as_str()), (500, "oops"));
    let error = required_field("query");
    assert_eq!((error.status_code, error.message.as_str()), (400, "Field query must be set"));
    let error = log_and_map("a detail that stays in the log");
    assert_eq!((error.status_code, error.message.as_str()), (500, "Something went wrong"));
}

#[test]
fn waiting_for_the_cluster_ends_with_the_fiftieth_question() {
    assert_eq!(wait_for_connect(0, true), ConnectStep::Connected);
    assert_eq!(wait_for_connect(49, true), ConnectStep::Connected);
    assert_eq!(wait_for_connect(0, false), ConnectStep::Retry);
    assert_eq!(wait_for_connect(48, false), ConnectStep::Retry);
    assert_eq!(wait_for_connect(49, false), ConnectStep::GiveUp);
    assert_eq!(wait_for_connect(u32::MAX, false), ConnectStep::GiveUp);
}

#[test]
fn a_job_is_waited_for_until_it_is_in_a_state_that_is_expected() {
    assert!(reached_state("Running", &["Running"]));
    assert!(reached_state("Failed", &["Stopped", "Failed"]));
    assert!(!reached_state("running", &["Running"]));
    assert!(!reached_state("Running", &[]));
    let seen = observe_state("Created".to_string(), "Scheduling".to_string());
    assert_eq!((seen.last_state.as_str(), seen.transitioned, seen.failed), ("Scheduling", true, false));
    let seen = observe_state("Scheduling".to_string(), "Scheduling".to_string());
    assert_eq!((seen.last_state.as_str(), seen.transitioned, seen.failed), ("Scheduling", false, false));
    let seen = observe_state("Running".to_string(), "Failed".to_string());
    assert_eq!((seen.last_state.as_str(), seen.transitioned, seen.failed), ("Failed", true, true));
    let seen = observe_state("Failed".to_string(), "Failed".to_string());
    assert_eq!((seen.transitioned, seen.failed), (false, true));
}

#[test]
fn pipelines_are_listed_page_by_page_and_found_by_their_query() {
    assert_eq!(next_page("".to_string(), Some("pl_3".to_string())), "pl_3");
    assert_eq!(next_page("pl_3".to_string(), None), "pl_3");
    let pipeline = |id: &str, query: &str| Pipeline { id: id.to_string(), query: query.to_string() };
    let pipelines = vec![pipeline("a", "select 1"), pipeline("b", "select 2"), pipeline("c", "select 2")];
    assert_eq!(existing_pipeline(&pipelines, "select 2"), Some(1));
    assert_eq!(existing_pipeline(&pipelines, "select 1"), Some(0));
    assert_eq!(existing_pipeline(&pipelines, "select 3"), None);
    assert_eq!(existing_pipeline(&Vec::new(), "select 1"), None);
    assert_eq!(pipeline_name(None), "query");
    assert_eq!(pipeline_name(Some("mine".to_string())), "mine");
}

#[test]
fn a_run_without_a_database_gets_one_under_tmp() {
    assert_eq!(default_database(0), "/tmp/arroyo/0.arroyo");
    assert_eq!(default_database(4294967295), "/tmp/arroyo/4294967295.arroyo");
    assert_eq!(http_port(None), 0);
    assert_eq!(http_port(Some(8000)), 8000);
}
