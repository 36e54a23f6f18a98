use desktop_gpui::http::{status_is_success, ApiAction, ApiEndpoint, HttpError};

fn endpoint() -> ApiEndpoint {
    match ApiEndpoint::new("http://127.0.0.1:3030") {
        Ok(e) => e,
        Err(e) => panic!("base URL refused: {:?}", e),
    }
}

#[test]
fn torrent_list_address() {
    let e = endpoint();
    assert!(e.is_usable());
    assert_eq!(e.torrents_url(false), Ok("http://127.0.0.1:3030/torrents".to_string()));
    assert_eq!(
        e.torrents_url(true),
        Ok("http://127.0.0.1:3030/torrents?with_stats=true".to_string())
    );
}

#[test]
fn torrent_details_address() {
    let e = endpoint();
    assert_eq!(e.torrent_url(0), Ok("http://127.0.0.1:3030/torrents/0".to_string()));
    assert_eq!(e.torrent_url(42), Ok("http://127.0.0.1:3030/torrents/42".to_string()));
}

#[test]
fn torrent_action_addresses() {
    let e = endpoint();
    assert_eq!(
        e.action_url(7, ApiAction::Pause),
        Ok("http://127.0.0.1:3030/torrents/7/pause".to_string())
    );
    assert_eq!(
        e.action_url(7, ApiAction::Start),
        Ok("http://127.0.0.1:3030/torrents/7/start".to_string())
    );
    assert_eq!(
        e.action_url(12, ApiAction::Delete),
        Ok("http://127.0.0.1:3030/torrents/12/delete".to_string())
    );
    assert_eq!(ApiAction::Delete.segment(), "delete");
}

#[test]
fn base_with_a_path_keeps_it() {
    let e = ApiEndpoint::new("http://localhost:3030/api").unwrap();
    assert_eq!(e.torrent_url(3), Ok("http://localhost:3030/api/torrents/3".to_string()));
}

#[test]
fn invalid_base_url_is_refused() {
    assert!(matches!(ApiEndpoint::new("not a url"), Err(HttpError::InvalidBaseUrl)));
    assert!(matches!(ApiEndpoint::new(""), Err(HttpError::InvalidBaseUrl)));
}

#[test]
fn base_without_a_path_cannot_take_segments() {
    let e = ApiEndpoint::new("mailto:admin@example.com").unwrap();
    assert_eq!(e.torrents_url(false), Err(HttpError::CannotModifyPath));
    assert_eq!(e.torrent_url(1), Err(HttpError::CannotModifyPath));
    assert_eq!(e.action_url(1, ApiAction::Pause), Err(HttpError::CannotModifyPath));
}

#[test]
fn success_statuses_are_the_2xx_range() {
    assert!(status_is_success(200));
    assert!(status_is_success(204));
    assert!(status_is_success(299));
    assert!(!status_is_success(199));
    assert!(!status_is_success(300));
    assert!(!status_is_success(404));
    assert!(!status_is_success(500));
}

#[test]
fn usable_bases() {
    assert!(ApiEndpoint::new("http://127.0.0.1:3030/").unwrap().is_usable());
    assert!(ApiEndpoint::new("mailto:admin@example.com").unwrap().is_usable());
}
