use pihole_exporter::api::{AuthResponse, SessionInfo};
use pihole_exporter::client::{
    api_url, auth_call, base_url, check_status, queries_path, read_headers, read_request,
    session_of, summary_path, upstreams_path, ExporterError, FetchError, TIMEOUT_SECONDS,
};
use pihole_exporter::window::WindowBoundary;

#[test]
fn base_url_by_scheme() {
    assert_eq!(base_url("localhost", false), "http://localhost");
    assert_eq!(base_url("pi.hole:8443", true), "https://pi.hole:8443");
}

#[test]
fn urls_of_resources() {
    assert_eq!(api_url("http://localhost", "stats/summary"), "http://localhost/api/stats/summary");
    assert_eq!(summary_path(), "stats/summary");
    assert_eq!(upstreams_path(), "stats/upstreams");
    assert_eq!(
        queries_path(WindowBoundary { start: 1699999920, end: 1699999980 }),
        "queries?from=1699999920&until=1699999980&length=1000000"
    );
    assert_eq!(
        queries_path(WindowBoundary { start: 0, end: 60 }),
        "queries?from=0&until=60&length=1000000"
    );
}

#[test]
fn session_header_only_when_authenticated() {
    let accept = ("accept".to_string(), "application/json".to_string());
    assert_eq!(read_headers(&None), vec![accept.clone()]);
    assert_eq!(
        read_headers(&Some("abc=".to_string())),
        vec![accept.clone(), ("sid".to_string(), "abc=".to_string())]
    );
    let request = read_request("https://pi.hole", "stats/upstreams", &Some("t".to_string()));
    assert_eq!(request.url, "https://pi.hole/api/stats/upstreams");
    assert_eq!(request.headers, vec![accept, ("sid".to_string(), "t".to_string())]);
}

#[test]
fn credential_exchange() {
    let call = auth_call("http://localhost", "hunter2");
    assert_eq!(call.url, "http://localhost/api/auth");
    assert_eq!(
        call.headers,
        vec![
            ("accept".to_string(), "application/json".to_string()),
            ("content-type".to_string(), "application/json".to_string()),
        ]
    );
    assert_eq!(call.body.password, "hunter2");
}

#[test]
fn status_other_than_success_is_an_error() {
    assert_eq!(check_status(200), Ok(()));
    assert_eq!(check_status(204), Ok(()));
    assert_eq!(check_status(299), Ok(()));
    assert_eq!(check_status(199), Err(FetchError::Status(199)));
    assert_eq!(check_status(300), Err(FetchError::Status(300)));
    assert_eq!(check_status(401), Err(FetchError::Status(401)));
    assert_eq!(check_status(500), Err(FetchError::Status(500)));
}

#[test]
fn session_of_each_outcome() {
    assert_eq!(session_of(None), Ok(None));
    let granted = AuthResponse { session: SessionInfo { sid: "s1".to_string() } };
    assert_eq!(session_of(Some(Ok(granted))), Ok(Some("s1".to_string())));
    assert_eq!(
        session_of(Some(Err(FetchError::Timeout))),
        Err(ExporterError::Auth(FetchError::Timeout))
    );
    assert_eq!(
        session_of(Some(Err(FetchError::Network))),
        Err(ExporterError::Auth(FetchError::Network))
    );
    assert_eq!(
        session_of(Some(Err(FetchError::Status(401)))),
        Err(ExporterError::Auth(FetchError::Status(401)))
    );
    assert_eq!(
        session_of(Some(Err(FetchError::Malformed))),
        Err(ExporterError::Auth(FetchError::Malformed))
    );
}

#[test]
fn calls_time_out_after_thirty_seconds() {
    assert_eq!(TIMEOUT_SECONDS, 30);
}
