use twelve_knights_vigil::knights::Knight;
use twelve_knights_vigil::vn_mode::{same_text, Side, Speaker, SpeakerEvent, VNEvent, VNScene};

fn says(speaker: Speaker, line: &str) -> VNEvent {
    VNEvent::Dialogue(speaker, line.to_string())
}

fn shown(scene: &VNScene) -> Vec<(String, Side)> {
    scene
        .speakers()
        .iter()
        .map(|d| (d.speaker.name().to_string(), d.side))
        .collect()
}

#[test]
fn speakers_go_by_their_names() {
    assert_eq!(Speaker::player().name(), "Me");
    assert_eq!(Speaker::unknown().name(), "???");
    assert_eq!(Speaker::narrator().name(), "Narrator");
    assert_eq!(Speaker::from_knight(Knight::Lizard).name(), "Lizard Knight");
    assert_eq!(Speaker::named("Innkeeper").name(), "Innkeeper");
    assert_eq!(Speaker::named("Innkeeper").duplicate(), Speaker::named("Innkeeper"));
}

#[test]
fn scripts_call_speakers_by_their_keys() {
    assert_eq!(Speaker::from_key("PLAYER"), Ok(Speaker::player()));
    assert_eq!(Speaker::from_key("NARRATOR"), Ok(Speaker::narrator()));
    assert_eq!(
        Speaker::from_key("AVERAGE_KNIGHT"),
        Ok(Speaker::from_knight(Knight::Normal))
    );
    assert_eq!(
        Speaker::from_key("player"),
        Err("Unrecognized Character Code: {key}".to_string())
    );
    assert!(Speaker::from_key("").is_err());
}

#[test]
fn texts_are_compared_letter_by_letter() {
    assert!(same_text("abc", "abc"));
    assert!(same_text("", ""));
    assert!(!same_text("abc", "abd"));
    assert!(!same_text("abc", "ab"));
}

#[test]
fn a_scene_without_events_has_nothing_to_show() {
    let mut scene = VNScene::new();
    assert_eq!(scene.current(), None);
    assert_eq!(scene.next(), None);
    assert_eq!(scene.current(), None);
    assert_eq!(scene.speaker_count(), 0);
}

#[test]
fn a_scene_plays_its_events_in_order_and_stops_at_the_last() {
    let events = vec![
        VNEvent::ChangeBackground("tavern".to_string()),
        VNEvent::ChangeSpeakerDisplay(Speaker::player(), SpeakerEvent::Appear(Side::Left)),
        says(Speaker::player(), "Hello."),
    ];
    let mut scene = VNScene::from_events(events.clone());
    assert_eq!(scene.current(), Some(events[0].clone()));
    assert_eq!(scene.next(), Some(events[1].clone()));
    assert_eq!(scene.current(), Some(events[1].clone()));
    assert_eq!(scene.next(), Some(events[2].clone()));
    assert_eq!(scene.next(), None);
    assert_eq!(scene.current(), Some(events[2].clone()));
    assert_eq!(events[2].duplicate(), events[2]);
}

#[test]
fn a_speaker_appears_once_and_can_change_sides() {
    let mut scene = VNScene::new();
    scene.show_speaker(Speaker::player(), Side::Left);
    scene.show_speaker(Speaker::narrator(), Side::Right);
    scene.show_speaker(Speaker::player(), Side::Right);
    assert_eq!(scene.speaker_count(), 2);
    assert_eq!(
        shown(&scene),
        vec![
            ("Me".to_string(), Side::Right),
            ("Narrator".to_string(), Side::Right)
        ]
    );
}

#[test]
fn a_speaker_leaves_and_the_others_keep_their_order() {
    let mut scene = VNScene::new();
    scene.show_speaker(Speaker::player(), Side::Left);
    scene.show_speaker(Speaker::narrator(), Side::Right);
    scene.show_speaker(Speaker::unknown(), Side::Left);
    scene.remove_speaker(Speaker::narrator());
    assert_eq!(
        shown(&scene),
        vec![
            ("Me".to_string(), Side::Left),
            ("???".to_string(), Side::Left)
        ]
    );
    scene.remove_speaker(Speaker::narrator());
    assert_eq!(scene.speaker_count(), 2);
    scene.remove_speaker(Speaker::player());
    scene.remove_speaker(Speaker::unknown());
    assert_eq!(scene.speaker_count(), 0);
}

#[test]
fn a_scene_plays_up_to_the_next_line_of_dialogue() {
    let events = vec![
        VNEvent::ChangeBackground("tavern".to_string()),
        VNEvent::ChangeSpeakerDisplay(Speaker::player(), SpeakerEvent::Appear(Side::Left)),
        VNEvent::ChangeBackground("cellar".to_string()),
        says(Speaker::player(), "Dark in here."),
        VNEvent::ChangeSpeakerDisplay(Speaker::player(), SpeakerEvent::Hide),
        VNEvent::ChangeBackground("night".to_string()),
    ];
    let mut scene = VNScene::from_events(events.clone());
    assert_eq!(scene.render_scene(), Some("cellar".to_string()));
    assert_eq!(scene.current(), Some(events[3].clone()));
    assert_eq!(shown(&scene), vec![("Me".to_string(), Side::Left)]);

    assert_eq!(scene.render_scene(), None);
    assert_eq!(scene.current(), Some(events[3].clone()));

    scene.next();
    assert_eq!(scene.render_scene(), Some("night".to_string()));
    assert_eq!(scene.current(), Some(events[5].clone()));
    assert_eq!(scene.speaker_count(), 0);

    assert_eq!(scene.render_scene(), Some("night".to_string()));
    assert_eq!(scene.current(), Some(events[5].clone()));
    assert_eq!(VNScene::new().render_scene(), None);
}

#[test]
fn portraits_line_up_from_the_edges_of_the_stage() {
    let mut scene = VNScene::new();
    assert!(scene.update_and_position_speakers().is_empty());
    scene.show_speaker(Speaker::player(), Side::Left);
    scene.show_speaker(Speaker::narrator(), Side::Right);
    scene.show_speaker(Speaker::unknown(), Side::Left);
    scene.show_speaker(Speaker::named("Innkeeper"), Side::Right);
    scene.show_speaker(Speaker::named("Guard"), Side::Right);
    let places: Vec<(i128, bool)> = scene
        .update_and_position_speakers()
        .iter()
        .map(|p| (p.x, p.mirrored))
        .collect();
    assert_eq!(
        places,
        vec![
            (-500, false),
            (500, true),
            (-300, false),
            (300, true),
            (100, true)
        ]
    );
}
