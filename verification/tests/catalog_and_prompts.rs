use wallpapy::common::catalog::{GenerationEvent, GenerationStage, WallpaperData};
use wallpapy::common::{ColorData, CommentData, Database, ImageFile, LikedState, PromptData};
use wallpapy::database::WallpaperChoice;
use wallpapy::gpt::{build_context, find_output_text, generation_request, OutputItem};
use wallpapy::history::{newest_first, TimedLine};
use wallpapy::image::{
    brightness_range_for_hour, favourites, hour_of_day, hourly_index, image_payload,
    new_wallpaper, smartget, top_20_percent_brightness, wallpaper_file_name, PayloadError,
};
use wallpapy::routing::{is_generation_due, GenerationEvents, NEW_WALLPAPER_INTERVAL};
use wallpapy::server::gpt::{answer_content, generate_prompt, generate_request, LlmError};

fn catalog_wallpaper(
    id: u128,
    datetime: i64,
    short: &str,
    liked_state: LikedState,
    comment: Option<&str>,
) -> WallpaperData {
    WallpaperData {
        id,
        datetime,
        prompt: format!("prompt {id}"),
        shortened_prompt: short.to_string(),
        image_file: format!("{id}.webp"),
        image_width: 3840,
        image_height: 2160,
        image_brightness: 0.5f32.to_bits(),
        liked_state,
        comment: comment.map(|c| c.to_string()),
    }
}

fn choice(id: u128, brightness: f32) -> WallpaperChoice {
    WallpaperChoice { id, image_file: format!("{id}.webp"), image_brightness: brightness.to_bits() }
}

#[test]
fn hourly_index_is_fixed_within_an_hour() {
    assert_eq!(hourly_index(0, 10), 0);
    assert_eq!(hourly_index(3599, 10), 0);
    assert_eq!(hourly_index(3600, 10), 9);
    assert_eq!(hourly_index(7200, 7), 1);
    assert_eq!(hourly_index(1_700_000_000, 5), 3);
    assert_eq!(hourly_index(1_700_003_600, 5), 3);
    assert_eq!(hourly_index(-5, 3), 0);
}

#[test]
fn hours_of_the_day() {
    assert_eq!(hour_of_day(0), 0);
    assert_eq!(hour_of_day(13 * 3600 + 59), 13);
    assert_eq!(hour_of_day(86_400 + 23 * 3600), 23);
    assert_eq!(hour_of_day(-3600), 23);
    assert_eq!(brightness_range_for_hour(12), (0.65f32.to_bits(), 1.0f32.to_bits()));
    assert_eq!(brightness_range_for_hour(8), (0.5f32.to_bits(), 0.65f32.to_bits()));
    assert_eq!(brightness_range_for_hour(2), (0.0f32.to_bits(), 0.5f32.to_bits()));
}

#[test]
fn smartget_prefers_brightness_of_the_hour() {
    let choices = vec![choice(3, 0.9), choice(1, 0.1), choice(2, 0.8)];
    // At noon the bright ones (ids 2 and 3) are candidates, ordered by id.
    let noon = 12 * 3600;
    let expected = if hourly_index(noon, 2) == 0 { "2.webp" } else { "3.webp" };
    assert_eq!(smartget(choices.clone(), noon), Some(expected.to_string()));
    // At 2am only id 1 fits.
    assert_eq!(smartget(choices.clone(), 2 * 3600), Some("1.webp".to_string()));
    // Around sunrise none fits, so all three are candidates.
    let eight = 8 * 3600;
    let expected = ["1.webp", "2.webp", "3.webp"][hourly_index(eight, 3)];
    assert_eq!(smartget(choices, eight), Some(expected.to_string()));
    assert_eq!(smartget(vec![], noon), None);
}

#[test]
fn favourites_use_the_hourly_index() {
    let choices = vec![choice(1, 0.1), choice(2, 0.2), choice(3, 0.3)];
    let t = 1_700_000_000;
    let expected = format!("{}.webp", hourly_index(t, 3) + 1);
    assert_eq!(favourites(&choices, t), Some(expected));
    assert_eq!(favourites(&[], t), None);
}

#[test]
fn top_20_levels() {
    assert_eq!(top_20_percent_brightness(&[]), 0);
    assert_eq!(top_20_percent_brightness(&[255, 255, 255, 255]), 255);
    assert_eq!(top_20_percent_brightness(&[0, 0, 0, 255]), 0);
    // 50 pixels: samples at pixels 0 and 25; the brighter one is white.
    let mut rgba = vec![0u8; 50 * 4];
    for k in 0..4 {
        rgba[25 * 4 + k] = 255;
    }
    assert_eq!(top_20_percent_brightness(&rgba), 255);
}

#[test]
fn file_names_follow_the_moment() {
    assert_eq!(wallpaper_file_name(0, ".webp"), "1970-01-01T00:00:00+00:00.webp");
    assert_eq!(wallpaper_file_name(1_500_000_000, ".png"), "1970-01-01T00:00:01.500+00:00.png");
    assert_eq!(
        wallpaper_file_name(1_000_000_001, ".avif"),
        "1970-01-01T00:00:01.000000001+00:00.avif"
    );
    assert_eq!(
        wallpapy::server::image::picture_file_names(-1),
        (
            "1969-12-31T23:59:59.999999999+00:00.webp".to_string(),
            "1969-12-31T23:59:59.999999999+00:00_thumb.webp".to_string()
        )
    );
}

#[test]
fn new_wallpapers_start_unrated() {
    let w = new_wallpaper(
        4,
        99,
        PromptData { prompt: "a".to_string(), shortened_prompt: "b".to_string() },
        "f.webp".to_string(),
        10,
        20,
        0.25f32.to_bits(),
    );
    assert_eq!(w.liked_state, LikedState::Neutral);
    assert_eq!(w.comment, None);
    assert_eq!(w.shortened_prompt, "b");
    assert_eq!(w.image_height, 20);
}

#[test]
fn image_payload_decodes_the_first() {
    assert_eq!(image_payload(&[]), Err(PayloadError::Missing));
    assert_eq!(image_payload(&["aGVsbG8=".to_string(), "x".to_string()]), Ok(b"hello".to_vec()));
    assert_eq!(image_payload(&["not base64!".to_string()]), Err(PayloadError::NotBase64));
}

#[test]
fn newest_first_orders_and_limits() {
    let lines = vec![
        TimedLine { time: 2, text: "b".to_string() },
        TimedLine { time: 1, text: "a".to_string() },
        TimedLine { time: 3, text: "c".to_string() },
        TimedLine { time: 2, text: "b2".to_string() },
    ];
    assert_eq!(newest_first(lines.clone(), 10), vec!["c", "b2", "b", "a"]);
    assert_eq!(newest_first(lines, 2), vec!["c", "b2"]);
}

#[test]
fn context_lists_newest_first_with_feedback() {
    let ws = vec![
        catalog_wallpaper(1, 100, "Misty lake", LikedState::Loved, None),
        catalog_wallpaper(2, 300, "Red dunes", LikedState::Neutral, Some("too hot")),
        catalog_wallpaper(3, 200, "Ice cave", LikedState::Disliked, None),
    ];
    assert_eq!(
        build_context(&ws),
        "• Red dunes  user note: too hot\n• Ice cave [disliked by user]\n• Misty lake [LOVED by user]"
    );
    assert_eq!(build_context(&[]), "");
}

#[test]
fn generation_request_carries_wish_and_identifier() {
    let text = generation_request("• x", Some("stars".to_string()), 0x0123456789abcdef0123456789abcdef);
    assert!(text.contains("User request (prioritise this above all else): stars"));
    assert!(text.contains("Generation id: 01234567-89ab-cdef-0123-456789abcdef"));
    assert!(text.ends_with("RECENT HISTORY (newest first) — a reference for the users taste profile and also to avoid repeating similar prompts:\n• x"));
    let plain = generation_request("", None, 1);
    assert!(!plain.contains("User request"));
}

#[test]
fn output_text_is_the_first_output_item() {
    let items = vec![
        OutputItem { is_output_text: false, text: Some("reasoning".to_string()) },
        OutputItem { is_output_text: true, text: Some("{\"prompt\":\"p\"}".to_string()) },
        OutputItem { is_output_text: true, text: Some("later".to_string()) },
    ];
    assert_eq!(find_output_text(&items), Some("{\"prompt\":\"p\"}".to_string()));
    let no_text = vec![OutputItem { is_output_text: true, text: None }];
    assert_eq!(find_output_text(&no_text), None);
    assert_eq!(find_output_text(&[]), None);
}

#[test]
fn prompt_context_of_the_file_backed_server() {
    let mut db = Database::default();
    let image = ImageFile { file_name: "f".to_string(), width: 1, height: 1 };
    let colors = ColorData {
        average_color: (0, 0, 0),
        hue: 0,
        saturation: 0,
        lightness: 0,
        chroma: 0,
        top_20_percent_brightness: 0,
        bottom_20_percent_brightness: 0,
        contrast_ratio: 0,
    };
    for (id, time, short, state) in [
        (1u128, 10i64, "Zebra field", LikedState::Liked),
        (2, 30, "Apple orchard", LikedState::Loved),
        (3, 20, "Grey wall", LikedState::Disliked),
    ] {
        db.wallpapers.push(wallpapy::common::WallpaperData {
            id,
            datetime: time,
            prompt_data: PromptData { prompt: "p".to_string(), shortened_prompt: short.to_string() },
            image_file: image.clone(),
            color_data: colors,
            thumbnail_file: image.clone(),
            thumbhash: vec![],
            liked_state: state,
        });
    }
    db.comments.push(CommentData { id: 9, datetime: 25, comment: "more colour".to_string() });
    let (history, examples, style) = generate_prompt(&db);
    assert_eq!(
        history,
        "• Apple orchard [LOVED]\n• [user comment] more colour\n• Grey wall [disliked]\n• Zebra field [liked]"
    );
    assert_eq!(examples, "• Apple orchard [LOVED]\n• Zebra field [liked]");
    assert_eq!(style.style, "Digital paintings");

    let req = generate_request(&db, Some("night sky".to_string()));
    assert_eq!(req.context.len(), 3);
    assert!(req.context[0].starts_with("You are a creative wallpaper image prompt generator."));
    assert!(req.context[1].ends_with(&history));
    assert!(req.context[2].ends_with(&examples));
    assert!(req.message.ends_with("User request (prioritise this above all else): night sky"));
}

#[test]
fn answer_content_reads_first_choice() {
    assert_eq!(answer_content(&[Some("x".to_string()), Some("y".to_string())]).ok(), Some("x".to_string()));
    assert!(matches!(answer_content(&[None]), Err(LlmError::UnexpectedStructure)));
    assert!(matches!(answer_content(&[]), Err(LlmError::UnexpectedStructure)));
    let e = LlmError::Failed { status: "429 Too Many Requests".to_string(), text: "slow".to_string() };
    assert_eq!(e.message(), "Request failed with status 429 Too Many Requests: slow");
    let e = LlmError::Unparsable { error: "eof".to_string(), output: "{".to_string() };
    assert_eq!(e.message(), "Serialization failed: eof - Outputted text: {");
}

#[test]
fn generation_events_track_stages() {
    let mut events = GenerationEvents::new();
    let snap = events.update_generation_event(7, GenerationStage::WaitingForPrompt, 100);
    assert_eq!(snap.len(), 1);
    assert_eq!(snap[0].start_time, 100);
    let snap = events.update_generation_event(7, GenerationStage::ReceivedImage, 500);
    assert_eq!(snap.len(), 1);
    assert_eq!(snap[0].start_time, 100);
    assert!(matches!(snap[0].stage, GenerationStage::ReceivedImage));
    events.update_generation_event(8, GenerationStage::WaitingForPrompt, 600);
    let snap = events.remove_generation_event(7);
    let ids: Vec<u128> = snap.iter().map(|e: &GenerationEvent| e.id).collect();
    assert_eq!(ids, vec![8]);
    assert_eq!(events.remove_generation_event(99).len(), 1);
}

#[test]
fn generation_due_after_interval() {
    assert!(is_generation_due(None, 0));
    assert!(!is_generation_due(Some(0), NEW_WALLPAPER_INTERVAL));
    assert!(is_generation_due(Some(0), NEW_WALLPAPER_INTERVAL + 1));
}
