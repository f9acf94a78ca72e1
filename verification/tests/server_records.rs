use wallpapy::common::{
    ColorData, CommentData, Database, ImageFile, LikedState, PromptData, StyleVariant,
    WallpaperData,
};
use wallpapy::image::Picture;
use wallpapy::server::commenting::{add, add_comment_with, remove, styles};
use wallpapy::server::image::{
    favourites, find_wallpaper, insert_wallpaper, latest, like, poll_step, prediction_url,
    recreate, remove_wallpaper_impl, requested_message, smartget, store_new_wallpaper, toggle,
    NotFound, PollStep, PredictionStatus, PREDICTIONS_URL, TIMEOUT,
};
use wallpapy::server::routing::start_server_step;
use wallpapy::server::{count_with_unit, format_duration, DAY, HOUR, MINUTE, WEEK};

fn picture(name: &str) -> ImageFile {
    ImageFile { file_name: name.to_string(), width: 16, height: 9 }
}

fn colors(top_20: f32) -> ColorData {
    ColorData {
        average_color: (0, 0, 0),
        hue: 0,
        saturation: 0,
        lightness: 0,
        chroma: 0,
        top_20_percent_brightness: top_20.to_bits(),
        bottom_20_percent_brightness: 0,
        contrast_ratio: 0,
    }
}

fn wallpaper(id: u128, datetime: i64, liked_state: LikedState, top_20: f32) -> WallpaperData {
    WallpaperData {
        id,
        datetime,
        prompt_data: PromptData { prompt: format!("prompt {id}"), shortened_prompt: format!("short {id}") },
        image_file: picture(&format!("{id}.png")),
        color_data: colors(top_20),
        thumbnail_file: picture(&format!("{id}_thumb.webp")),
        thumbhash: vec![],
        liked_state,
    }
}

#[test]
fn comments_are_added_and_removed() {
    let mut db = Database::default();
    add_comment_with(&mut db, 1, 100, "first".to_string());
    add_comment_with(&mut db, 2, 200, "second".to_string());
    assert_eq!(db.comments.len(), 2);
    add_comment_with(&mut db, 1, 300, "replaced".to_string());
    assert_eq!(db.comments.len(), 2);
    assert_eq!(db.comments[0].comment, "replaced");
    assert_eq!(db.comments[0].datetime, 300);
    remove(&mut db, 1);
    assert_eq!(db.comments.len(), 1);
    assert_eq!(db.comments[0].id, 2);
    remove(&mut db, 99);
    assert_eq!(db.comments.len(), 1);
}

#[test]
fn add_uses_a_fresh_identifier() {
    let mut db = Database::default();
    add(&mut db, "hello".to_string());
    add(&mut db, "again".to_string());
    assert_eq!(db.comments.len(), 2);
    assert_ne!(db.comments[0].id, db.comments[1].id);
    let texts: Vec<&str> = db.comments.iter().map(|c: &CommentData| c.comment.as_str()).collect();
    assert_eq!(texts, vec!["hello", "again"]);
}

#[test]
fn styles_replace_one_text() {
    let mut db = Database::default();
    assert_eq!(db.style.style, "Digital paintings");
    styles(&mut db, StyleVariant::NegativeContents, "No text".to_string());
    assert_eq!(db.style.negative_contents, "No text");
    assert_eq!(db.style.style, "Digital paintings");
    assert_eq!(db.style.contents, "Epic fantasy, surreal, abstract, landscapes");
}

#[test]
fn like_toggles_ratings() {
    assert_eq!(toggle(LikedState::Neutral, LikedState::Liked), LikedState::Liked);
    assert_eq!(toggle(LikedState::Liked, LikedState::Liked), LikedState::Neutral);
    assert_eq!(toggle(LikedState::Liked, LikedState::Loved), LikedState::Loved);

    let mut db = Database::default();
    db.wallpapers.push(wallpaper(5, 10, LikedState::Neutral, 0.5));
    assert_eq!(like(&mut db, 5, LikedState::Loved), Ok(()));
    assert_eq!(db.wallpapers[0].liked_state, LikedState::Loved);
    assert_eq!(like(&mut db, 5, LikedState::Loved), Ok(()));
    assert_eq!(db.wallpapers[0].liked_state, LikedState::Neutral);
    assert_eq!(like(&mut db, 6, LikedState::Loved), Err(NotFound));
}

#[test]
fn wallpapers_are_found_replaced_and_removed() {
    let mut db = Database::default();
    insert_wallpaper(&mut db, wallpaper(1, 10, LikedState::Neutral, 0.5));
    insert_wallpaper(&mut db, wallpaper(2, 20, LikedState::Neutral, 0.5));
    insert_wallpaper(&mut db, wallpaper(1, 30, LikedState::Liked, 0.5));
    assert_eq!(db.wallpapers.len(), 2);
    assert_eq!(find_wallpaper(&db.wallpapers, 1), Some(0));
    assert_eq!(db.wallpapers[0].datetime, 30);
    assert_eq!(recreate(&db, 2).map(|p| p.prompt), Ok("prompt 2".to_string()));
    assert!(recreate(&db, 3).is_err());

    let files = remove_wallpaper_impl(&mut db, 1).unwrap();
    assert_eq!(files, ("1.png".to_string(), "1_thumb.webp".to_string()));
    assert_eq!(find_wallpaper(&db.wallpapers, 1), None);
    assert!(remove_wallpaper_impl(&mut db, 1).is_err());
}

#[test]
fn latest_serves_the_newest() {
    let mut db = Database::default();
    assert_eq!(latest(&db), None);
    db.wallpapers.push(wallpaper(1, 10, LikedState::Neutral, 0.5));
    db.wallpapers.push(wallpaper(2, 30, LikedState::Neutral, 0.5));
    db.wallpapers.push(wallpaper(3, 20, LikedState::Neutral, 0.5));
    assert_eq!(latest(&db), Some("2.png".to_string()));
}

#[test]
fn favourites_pick_a_liked_one() {
    let mut db = Database::default();
    assert_eq!(favourites(&db), None);
    db.wallpapers.push(wallpaper(1, 10, LikedState::Loved, 0.5));
    db.wallpapers.push(wallpaper(2, 20, LikedState::Liked, 0.5));
    db.wallpapers.push(wallpaper(3, 30, LikedState::Neutral, 0.5));
    for _ in 0..20 {
        assert_eq!(favourites(&db), Some("2.png".to_string()));
    }
}

#[test]
fn smartget_picks_by_hour_brightness() {
    let mut db = Database::default();
    db.wallpapers.push(wallpaper(1, 10, LikedState::Loved, 0.9));
    db.wallpapers.push(wallpaper(2, 20, LikedState::Liked, 0.2));
    db.wallpapers.push(wallpaper(3, 30, LikedState::Neutral, 0.9));
    // Noon UTC wants a bright wallpaper (0.5 to 1).
    let noon = 12 * 3600;
    for _ in 0..20 {
        assert_eq!(smartget(&db, noon), Some("1.png".to_string()));
    }
    // Three in the morning wants a dark one (0 to 0.55).
    let night = 3 * 3600;
    assert_eq!(smartget(&db, night), Some("2.png".to_string()));
    // Around sunrise (0.3 to 0.6) nothing suits.
    assert_eq!(smartget(&db, 8 * 3600), None);
}

#[test]
fn requested_message_ignores_empty() {
    assert_eq!(requested_message(String::new()), None);
    assert_eq!(requested_message("a castle".to_string()), Some("a castle".to_string()));
}

#[test]
fn new_wallpaper_is_stored_unrated_with_thumbhash() {
    let mut db = Database::default();
    let rgba = vec![200u8; 4 * 4 * 4];
    store_new_wallpaper(
        &mut db,
        9,
        1234,
        PromptData { prompt: "p".to_string(), shortened_prompt: "s".to_string() },
        picture("9.png"),
        colors(0.4),
        picture("9_thumb.webp"),
        &Picture { width: 4, height: 4, rgba: rgba.clone() },
    );
    assert_eq!(db.wallpapers.len(), 1);
    assert_eq!(db.wallpapers[0].liked_state, LikedState::Neutral);
    assert_eq!(db.wallpapers[0].thumbhash, thumbhash::rgba_to_thumb_hash(4, 4, &rgba));
}

#[test]
fn new_wallpaper_due_after_six_hours() {
    let mut db = Database::default();
    assert_eq!(start_server_step(&db, 5), (0, false));
    db.wallpapers.push(wallpaper(1, 1_000, LikedState::Neutral, 0.5));
    db.wallpapers.push(wallpaper(2, 2_000, LikedState::Neutral, 0.5));
    assert_eq!(start_server_step(&db, 2_000 + 6 * HOUR), ((6 * HOUR) as i128, false));
    assert_eq!(start_server_step(&db, 2_001 + 6 * HOUR), ((6 * HOUR + 1) as i128, true));
}

#[test]
fn durations_read_in_the_largest_unit() {
    assert_eq!(format_duration(0), "less than a minute");
    assert_eq!(format_duration(MINUTE - 1), "less than a minute");
    assert_eq!(format_duration(MINUTE), "1 minute");
    assert_eq!(format_duration(59 * MINUTE), "59 minutes");
    assert_eq!(format_duration(HOUR), "1 hour");
    assert_eq!(format_duration(3 * DAY + HOUR), "3 days");
    assert_eq!(format_duration(2 * WEEK), "2 weeks");
    assert_eq!(count_with_unit(1, "day"), "1 day");
    assert_eq!(count_with_unit(0, "day"), "0 days");
}

#[test]
fn prediction_address_defaults() {
    assert_eq!(prediction_url(""), PREDICTIONS_URL);
    assert_eq!(prediction_url("https://x/y"), "https://x/y");
}

#[test]
fn polling_finishes_waits_or_gives_up() {
    let done = PredictionStatus {
        status: Some("succeeded".to_string()),
        output_text: Some("https://out".to_string()),
        output_first: None,
    };
    assert!(matches!(poll_step(0, &done), PollStep::Done(ref u) if u == "https://out"));
    let listed = PredictionStatus {
        status: Some("succeeded".to_string()),
        output_text: None,
        output_first: Some("https://first".to_string()),
    };
    assert!(matches!(poll_step(3, &listed), PollStep::Done(ref u) if u == "https://first"));
    let running = PredictionStatus {
        status: Some("processing".to_string()),
        output_text: Some("ignored".to_string()),
        output_first: None,
    };
    assert!(matches!(poll_step(0, &running), PollStep::Wait));
    assert!(matches!(poll_step(TIMEOUT - 1, &running), PollStep::TimedOut));
}
