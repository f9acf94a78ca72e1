use wallpapy::common::catalog::{GenerationEvent, GenerationStage, WallpaperData};
use wallpapy::common::LikedState;
use wallpapy::web::{
    event_text, format_age, gallery_items, like_color, signed_decimal, take_snapshot,
    toggle_like_filter, toggle_time_filter, TimeOfDay, LIKED_COLOR, LOVED_COLOR,
};

const SECOND: i64 = 1_000_000;
const MINUTE: i64 = 60 * SECOND;
const HOUR: i64 = 60 * MINUTE;
const DAY: i64 = 24 * HOUR;

fn item(id: u128, state: LikedState, brightness: f32) -> WallpaperData {
    WallpaperData {
        id,
        datetime: 0,
        prompt: String::new(),
        shortened_prompt: String::new(),
        image_file: format!("{id}.webp"),
        image_width: 1,
        image_height: 1,
        image_brightness: brightness.to_bits(),
        liked_state: state,
        comment: None,
    }
}

fn event(id: u128, stage: GenerationStage) -> GenerationEvent {
    GenerationEvent { id, start_time: 0, stage }
}

#[test]
fn gallery_filters_by_rating_and_time() {
    let items = vec![
        item(1, LikedState::Liked, 0.2),
        item(2, LikedState::Loved, 0.7),
        item(3, LikedState::Liked, 0.9),
        item(4, LikedState::Neutral, 0.55),
    ];
    let ids = |v: Vec<WallpaperData>| v.iter().map(|w| w.id).collect::<Vec<u128>>();
    assert_eq!(ids(gallery_items(items.clone(), None, None)), vec![1, 2, 3, 4]);
    assert_eq!(ids(gallery_items(items.clone(), Some(LikedState::Liked), None)), vec![1, 3]);
    assert_eq!(ids(gallery_items(items.clone(), None, Some(TimeOfDay::Day))), vec![2, 3]);
    assert_eq!(ids(gallery_items(items.clone(), None, Some(TimeOfDay::Sunrise))), vec![4]);
    assert_eq!(
        ids(gallery_items(items, Some(LikedState::Liked), Some(TimeOfDay::Night))),
        vec![1]
    );
}

#[test]
fn filter_buttons_toggle() {
    assert_eq!(toggle_like_filter(None, LikedState::Loved), Some(LikedState::Loved));
    assert_eq!(toggle_like_filter(Some(LikedState::Loved), LikedState::Loved), None);
    assert_eq!(toggle_like_filter(Some(LikedState::Liked), LikedState::Loved), Some(LikedState::Loved));
    assert_eq!(toggle_time_filter(Some(TimeOfDay::Day), TimeOfDay::Day), None);
    assert_eq!(toggle_time_filter(None, TimeOfDay::Night), Some(TimeOfDay::Night));
}

#[test]
fn rating_colours() {
    assert_eq!(like_color(LikedState::Loved), Some(LOVED_COLOR));
    assert_eq!(like_color(LikedState::Liked), Some(LIKED_COLOR));
    assert_eq!(like_color(LikedState::Neutral), None);
}

#[test]
fn ages_read_in_the_largest_unit() {
    let now = 100 * DAY;
    assert_eq!(format_age(now, now), Some("just now".to_string()));
    assert_eq!(format_age(now - 59 * SECOND, now), Some("just now".to_string()));
    assert_eq!(format_age(now - MINUTE, now), Some("1 minute ago".to_string()));
    assert_eq!(format_age(now - 3 * HOUR - MINUTE, now), Some("3 hours ago".to_string()));
    assert_eq!(format_age(now - 6 * DAY, now), Some("6 days ago".to_string()));
    assert_eq!(format_age(0, now), Some("01/01/1970 12am".to_string()));
    assert_eq!(format_age(now + HOUR, now), format_age(now + HOUR, 0));
}

#[test]
fn snapshots_refresh_once_per_received_image() {
    let mut handled: Vec<u128> = Vec::new();
    let snap = vec![
        event(1, GenerationStage::ReceivedImage),
        event(2, GenerationStage::WaitingForPrompt),
    ];
    assert_eq!(take_snapshot(&mut handled, &snap), vec![1]);
    assert_eq!(handled, vec![1]);
    assert_eq!(take_snapshot(&mut handled, &snap), Vec::<u128>::new());
    let snap2 = vec![event(2, GenerationStage::ReceivedImage)];
    assert_eq!(take_snapshot(&mut handled, &snap2), vec![2]);
    assert_eq!(handled, vec![2]);
}

#[test]
fn event_lines() {
    let waiting = GenerationEvent { id: 1, start_time: 0, stage: GenerationStage::WaitingForPrompt };
    assert_eq!(event_text(&waiting, 5 * SECOND + 999), "Generating image started 5s ago, creating prompt...");
    let prompted = GenerationEvent {
        id: 1,
        start_time: 10 * SECOND,
        stage: GenerationStage::ReceivedPrompt { prompt: "a fox".to_string() },
    };
    assert_eq!(event_text(&prompted, 12 * SECOND), "Generating image started 2s ago, prompt: \"a fox\"");
    let received = GenerationEvent { id: 1, start_time: 0, stage: GenerationStage::ReceivedImage };
    assert_eq!(event_text(&received, 0), "Image received! Refreshing gallery...");
    let failed = GenerationEvent { id: 1, start_time: 0, stage: GenerationStage::Failed { reason: "quota".to_string() } };
    assert_eq!(event_text(&failed, 0), "Failed: quota");
    assert_eq!(signed_decimal(-42), "-42");
    assert_eq!(signed_decimal(0), "0");
}
