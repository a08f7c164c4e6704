use departure_board::model::WienerLinienTrafficInfo;
use departure_board::refresh::{rotation_index, step, Config, LoopAction, LoopEvent, LoopState};
use departure_board::request::WienerLinienAPIRequest;

fn notes(count: usize) -> Option<Vec<WienerLinienTrafficInfo>> {
    Some(
        (0..count)
            .map(|i| WienerLinienTrafficInfo {
                title: format!("title {}", i),
                description: format!("description {}", i),
                priority: None,
            })
            .collect(),
    )
}

#[test]
fn default_config_is_ten_subframes_one_second_apart() {
    let config = Config::default();
    assert_eq!(config.refresh_interval_s, 1);
    assert_eq!(config.subframes_per_fetch, 10);
    assert_eq!(config.stop_ids.len(), 18);
    assert_eq!(config.stop_ids[0], 252);
    assert_eq!(config.stop_ids[17], 5691);
}

#[test]
fn request_url_lists_every_stop() {
    let request = WienerLinienAPIRequest {
        traffic_info: "stoerunglang".to_string(),
        stop_id: vec![252, 269, 4205],
    };
    assert_eq!(
        request.to_req_url(),
        "http://www.wienerlinien.at/ogd_realtime/monitor/?activateTrafficInfo=stoerunglang&stopId=252&stopId=269&stopId=4205"
    );
}

#[test]
fn request_url_without_stops_has_no_stop_parameter() {
    let request = WienerLinienAPIRequest { traffic_info: "x".to_string(), stop_id: vec![] };
    assert_eq!(
        request.to_req_url(),
        "http://www.wienerlinien.at/ogd_realtime/monitor/?activateTrafficInfo=x"
    );
}

#[test]
fn request_url_writes_extreme_stop_numbers() {
    let request = WienerLinienAPIRequest {
        traffic_info: String::new(),
        stop_id: vec![0, -7, i32::MAX, i32::MIN],
    };
    assert_eq!(
        request.to_req_url(),
        "http://www.wienerlinien.at/ogd_realtime/monitor/?activateTrafficInfo=&stopId=0&stopId=-7&stopId=2147483647&stopId=-2147483648"
    );
}

#[test]
fn loop_starts_by_fetching() {
    assert_eq!(
        step(LoopState::Fetching, LoopEvent::Started, 10),
        (LoopState::Fetching, LoopAction::Fetch)
    );
}

#[test]
fn successful_fetch_shows_the_first_subframe() {
    assert_eq!(
        step(LoopState::Fetching, LoopEvent::FetchSucceeded, 10),
        (LoopState::Displaying { subframe: 0 }, LoopAction::Draw { subframe: 0 })
    );
}

#[test]
fn failed_fetch_waits_and_fetches_again() {
    assert_eq!(
        step(LoopState::Fetching, LoopEvent::FetchFailed, 10),
        (LoopState::Fetching, LoopAction::Wait)
    );
    assert_eq!(
        step(LoopState::Fetching, LoopEvent::Waited, 10),
        (LoopState::Fetching, LoopAction::Fetch)
    );
}

#[test]
fn one_fetch_is_followed_by_all_subframes_and_a_new_fetch() {
    let mut state = LoopState::Fetching;
    let mut event = LoopEvent::FetchSucceeded;
    let mut drawn = Vec::new();
    loop {
        let (next, action) = step(state, event, 10);
        state = next;
        match action {
            LoopAction::Draw { subframe } => {
                drawn.push(subframe);
                event = LoopEvent::FrameShown;
            }
            LoopAction::Fetch => break,
            LoopAction::Wait => panic!("nothing failed"),
        }
    }
    assert_eq!(drawn, vec![0, 1, 2, 3, 4, 5, 6, 7, 8, 9]);
    assert_eq!(state, LoopState::Fetching);
}

#[test]
fn cycle_without_subframes_waits_before_the_next_fetch() {
    assert_eq!(
        step(LoopState::Fetching, LoopEvent::FetchSucceeded, 0),
        (LoopState::Fetching, LoopAction::Wait)
    );
}

#[test]
fn event_that_does_not_belong_to_the_state_changes_nothing() {
    let showing = LoopState::Displaying { subframe: 4 };
    assert_eq!(
        step(showing, LoopEvent::FetchFailed, 10),
        (showing, LoopAction::Draw { subframe: 4 })
    );
    assert_eq!(
        step(LoopState::Fetching, LoopEvent::FrameShown, 10),
        (LoopState::Fetching, LoopAction::Fetch)
    );
}

#[test]
fn last_subframe_number_does_not_overflow() {
    assert_eq!(
        step(LoopState::Displaying { subframe: u32::MAX }, LoopEvent::FrameShown, u32::MAX),
        (LoopState::Fetching, LoopAction::Fetch)
    );
}

#[test]
fn rotation_index_walks_the_notes_in_turn() {
    let three = notes(3);
    let indices: Vec<Option<usize>> = (0..7).map(|i| rotation_index(i, &three)).collect();
    assert_eq!(
        indices,
        vec![Some(0), Some(1), Some(2), Some(0), Some(1), Some(2), Some(0)]
    );
}

#[test]
fn rotation_index_is_absent_without_notes() {
    assert_eq!(rotation_index(3, &None), None);
    assert_eq!(rotation_index(3, &notes(0)), None);
}
