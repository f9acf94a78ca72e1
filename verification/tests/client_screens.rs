use wallpapy::client::app::{
    button_pressed_result, get_database_step, login_done, needs_login, neighbour, shows_state,
    split_login_reply, style_failure, timeline, Entry, FetchAction, GetDatabaseState, StateFilter,
    StoredData, Toast, COMMENT, DISLIKED, LIKED, LOVED, NEUTRAL,
};
use wallpapy::client::gallery::page;
use wallpapy::client::networking::NetError;
use wallpapy::common::{
    ColorData, CommentData, Database, ImageFile, LikedState, PromptData, StyleVariant,
    WallpaperData,
};

fn picture(name: &str) -> ImageFile {
    ImageFile { file_name: name.to_string(), width: 16, height: 9 }
}

fn wallpaper(id: u128, datetime: i64, liked_state: LikedState) -> WallpaperData {
    WallpaperData {
        id,
        datetime,
        prompt_data: PromptData { prompt: format!("prompt {id}"), shortened_prompt: format!("short {id}") },
        image_file: picture(&format!("{id}.png")),
        color_data: ColorData {
            average_color: (0, 0, 0),
            hue: 0,
            saturation: 0,
            lightness: 0,
            chroma: 0,
            top_20_percent_brightness: 0,
            bottom_20_percent_brightness: 0,
            contrast_ratio: 0,
        },
        thumbnail_file: picture(&format!("{id}_thumb.webp")),
        thumbhash: vec![],
        liked_state,
    }
}

fn comment(id: u128, datetime: i64, text: &str) -> CommentData {
    CommentData { id, datetime, comment: text.to_string() }
}

#[test]
fn stored_data_starts_logged_out() {
    let stored = StoredData::default();
    assert_eq!(stored.auth_token, "");
    assert!(needs_login(&stored));
    assert!(!needs_login(&StoredData { auth_token: "abc".to_string() }));
}

#[test]
fn state_filter_toggles_flags() {
    let mut f = StateFilter::all();
    assert!(f.contains(LIKED) && f.contains(LOVED) && f.contains(COMMENT));
    f.toggle(LOVED);
    assert!(!f.contains(LOVED));
    assert!(f.contains(LIKED));
    f.toggle(LOVED);
    assert!(f.contains(LOVED));
    assert_eq!(f.bits, StateFilter::all().bits);
}

#[test]
fn shows_state_follows_flags() {
    let f = StateFilter { bits: LIKED | NEUTRAL };
    assert!(shows_state(f, LikedState::Liked));
    assert!(shows_state(f, LikedState::Neutral));
    assert!(!shows_state(f, LikedState::Loved));
    assert!(!shows_state(f, LikedState::Disliked));
    assert!(shows_state(StateFilter { bits: DISLIKED }, LikedState::Disliked));
}

#[test]
fn timeline_orders_by_time_and_filters() {
    let mut db = Database::default();
    db.wallpapers.push(wallpaper(1, 300, LikedState::Liked));
    db.wallpapers.push(wallpaper(2, 100, LikedState::Disliked));
    db.wallpapers.push(wallpaper(3, 200, LikedState::Neutral));
    db.comments.push(comment(10, 250, "warmer"));
    db.comments.push(comment(11, 200, "same time"));

    let all = timeline(&db, StateFilter::all());
    let order: Vec<(i64, Entry)> = all.iter().map(|i| (i.datetime, i.entry)).collect();
    assert!(order == vec![
        (100, Entry::Wallpaper(1)),
        (200, Entry::Wallpaper(2)),
        (200, Entry::Comment(1)),
        (250, Entry::Comment(0)),
        (300, Entry::Wallpaper(0)),
    ]);

    let no_comments = timeline(&db, StateFilter { bits: LIKED | NEUTRAL });
    let order: Vec<Entry> = no_comments.iter().map(|i| i.entry).collect();
    assert!(order == vec![Entry::Wallpaper(2), Entry::Wallpaper(0)]);
}

#[test]
fn neighbour_moves_to_nearest_in_time() {
    let ws = vec![
        wallpaper(1, 100, LikedState::Neutral),
        wallpaper(2, 400, LikedState::Neutral),
        wallpaper(3, 300, LikedState::Neutral),
        wallpaper(4, 300, LikedState::Neutral),
        wallpaper(5, 200, LikedState::Neutral),
    ];
    // From the one made at 200: the next newer is made at 300, the first of two.
    assert_eq!(neighbour(&ws, 200, true), Some(2));
    // The next older is made at 100.
    assert_eq!(neighbour(&ws, 200, false), Some(0));
    // Nothing is newer than the newest.
    assert_eq!(neighbour(&ws, 400, true), None);
    assert_eq!(neighbour(&ws, 100, false), None);
}

#[test]
fn split_login_reply_at_first_bar() {
    let (message, token) = split_login_reply("Admin Account Created|abc123");
    assert_eq!(message, Some("Admin Account Created".to_string()));
    assert_eq!(token, "abc123");
    let (message, token) = split_login_reply("a|b|c");
    assert_eq!(message, Some("a".to_string()));
    assert_eq!(token, "b|c");
    let (message, token) = split_login_reply("plaintoken");
    assert_eq!(message, None);
    assert_eq!(token, "plaintoken");
}

#[test]
fn login_done_keeps_token_and_reports() {
    let out = login_done(Ok("Admin Set|tok9".to_string()));
    assert_eq!(out.token, Some("tok9".to_string()));
    assert!(matches!(out.toast, Some(Toast::Info(ref m)) if m == "Admin Set"));

    let out = login_done(Ok("tok".to_string()));
    assert_eq!(out.token, Some("tok".to_string()));
    assert!(out.toast.is_none());

    let out = login_done(Err(NetError::BadStatus { status: 500, text: "Incorrect username or password".to_string() }));
    assert_eq!(out.token, None);
    assert!(matches!(out.toast, Some(Toast::Error(ref m)) if m == "Bad status 500: Incorrect username or password"));
}

#[test]
fn button_result_refreshes_on_success() {
    let out = button_pressed_result(Ok(()), "Generated wallpaper");
    assert!(out.refresh);
    assert!(matches!(out.toast, Some(Toast::Success(ref m)) if m == "Generated wallpaper"));

    let out = button_pressed_result(Ok(()), "");
    assert!(out.refresh);
    assert!(out.toast.is_none());

    let out = button_pressed_result(Err(NetError::Network { reason: "down".to_string() }), "x");
    assert!(!out.refresh);
    assert!(matches!(out.toast, Some(Toast::Error(ref m)) if m == "Failed to submit request: Network error: down"));
}

#[test]
fn style_failure_names_the_text() {
    let e = NetError::MissingText;
    assert_eq!(style_failure(StyleVariant::Style, &e), "Failed to update style: Failed to extract text");
    assert_eq!(style_failure(StyleVariant::Contents, &e), "Failed to update contents: Failed to extract text");
    assert_eq!(
        style_failure(StyleVariant::NegativeContents, &e),
        "Failed to update negative contents: Failed to extract text"
    );
}

#[test]
fn database_fetch_steps() {
    let (next, action) = get_database_step(GetDatabaseState::Wanted);
    assert!(matches!(next, GetDatabaseState::InProgress));
    assert!(matches!(action, FetchAction::Fetch));

    let (next, action) = get_database_step(GetDatabaseState::InProgress);
    assert!(matches!(next, GetDatabaseState::InProgress));
    assert!(matches!(action, FetchAction::Nothing));

    let mut db = Database::default();
    db.comments.push(comment(1, 5, "hi"));
    let (next, action) = get_database_step(GetDatabaseState::Done(Ok(db)));
    assert!(matches!(next, GetDatabaseState::Idle));
    match action {
        FetchAction::Show(shown) => assert_eq!(shown.comments.len(), 1),
        _ => panic!("a fetched database is shown"),
    }

    let (next, action) = get_database_step(GetDatabaseState::Done(Err(NetError::Undecodable)));
    assert!(matches!(next, GetDatabaseState::Idle));
    assert!(matches!(action, FetchAction::Report(NetError::Undecodable)));
}

#[test]
fn gallery_pages_follow_on() {
    let first = page(23, None);
    assert_eq!((first.start, first.end, first.next), (0, 10, 10));
    let second = page(23, Some(first.next));
    assert_eq!((second.start, second.end, second.next), (10, 20, 20));
    let third = page(23, Some(second.next));
    assert_eq!((third.start, third.end, third.next), (20, 23, 30));
    let past = page(23, Some(third.next));
    assert_eq!((past.start, past.end), (23, 23));
}
