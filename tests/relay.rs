use support_relay::builder::MessageBuilder;
use support_relay::entities::MessageType;
use support_relay::localization::CommonMessages;
use support_relay::relay::{
    diff_edit, follow_up, largest_photo, numbered_thread_label, plan_new_message, thread_label,
    Content, EditPlan, FollowUp, ForwardPlan, GeoPoint, PhotoSize, SendOp, Snapshot,
};

fn size(width: u32, height: u32) -> PhotoSize {
    PhotoSize { width, height }
}

fn text_snapshot(text: &str) -> Snapshot {
    Snapshot { text: Some(text.to_string()), caption: None, caption_entities: None, location: None }
}

#[test]
fn largest_photo_by_area() {
    assert_eq!(largest_photo(&vec![size(90, 90), size(320, 320), size(800, 600)]), Some(2));
    assert_eq!(largest_photo(&vec![size(800, 600), size(10, 10)]), Some(0));
}

#[test]
fn largest_photo_takes_the_last_of_equals() {
    assert_eq!(largest_photo(&vec![size(100, 200), size(200, 100), size(50, 50)]), Some(1));
}

#[test]
fn largest_photo_of_nothing() {
    assert_eq!(largest_photo(&vec![]), None);
}

#[test]
fn largest_photo_does_not_overflow() {
    assert_eq!(largest_photo(&vec![size(u32::MAX, u32::MAX), size(1, 1)]), Some(0));
}

#[test]
fn supported_kinds_are_forwarded() {
    let cases = vec![
        (Content::Text, SendOp::Text),
        (Content::Document, SendOp::Document),
        (Content::Audio, SendOp::Audio),
        (Content::Video, SendOp::Video),
        (Content::VideoNote, SendOp::VideoNote),
        (Content::Voice, SendOp::Voice),
        (Content::Animation, SendOp::Animation),
        (Content::Sticker, SendOp::Sticker),
        (Content::Contact, SendOp::Contact),
        (Content::Location, SendOp::Location),
        (Content::Venue, SendOp::Venue),
    ];
    for (content, op) in cases {
        match plan_new_message(&content) {
            ForwardPlan::Forward(got) => assert_eq!(got, op),
            _ => panic!("not forwarded"),
        }
    }
}

#[test]
fn photo_is_forwarded_in_its_largest_size() {
    let content = Content::Photo { sizes: vec![size(10, 10), size(30, 30), size(20, 20)] };
    match plan_new_message(&content) {
        ForwardPlan::Forward(op) => assert_eq!(op, SendOp::Photo { size: 1 }),
        _ => panic!("not forwarded"),
    }
}

#[test]
fn photo_without_sizes_is_dropped() {
    assert!(matches!(plan_new_message(&Content::Photo { sizes: vec![] }), ForwardPlan::Drop));
}

#[test]
fn poll_and_game_get_a_notice_only() {
    assert!(matches!(
        plan_new_message(&Content::Poll),
        ForwardPlan::Notify(CommonMessages::PollsNotSupported)
    ));
    assert!(matches!(
        plan_new_message(&Content::Game),
        ForwardPlan::Notify(CommonMessages::GamesNotSupported)
    ));
}

#[test]
fn other_content_is_dropped() {
    assert!(matches!(plan_new_message(&Content::Other), ForwardPlan::Drop));
}

#[test]
fn follow_up_by_direction() {
    assert!(matches!(follow_up(MessageType::Incoming), FollowUp::Acknowledge(CommonMessages::UserReply)));
    assert!(matches!(follow_up(MessageType::Outgoing), FollowUp::React));
}

#[test]
fn text_edit_only_edits_text() {
    let original = text_snapshot("A");
    let edited = text_snapshot("B");
    assert_eq!(diff_edit(&original, &edited), EditPlan { caption: false, text: true, location: false });
}

#[test]
fn unchanged_message_needs_no_edit() {
    let original = text_snapshot("A");
    assert_eq!(diff_edit(&original, &original.clone()), EditPlan { caption: false, text: false, location: false });
}

#[test]
fn caption_entities_change_edits_caption() {
    let original = Snapshot {
        text: None,
        caption: Some("c".to_string()),
        caption_entities: Some(vec!["bold 0 1".to_string()]),
        location: None,
    };
    let mut edited = original.clone();
    edited.caption_entities = Some(vec!["italic 0 1".to_string()]);
    assert_eq!(diff_edit(&original, &edited), EditPlan { caption: true, text: false, location: false });
    let mut recaptioned = original.clone();
    recaptioned.caption = Some("d".to_string());
    assert_eq!(diff_edit(&original, &recaptioned), EditPlan { caption: true, text: false, location: false });
}

#[test]
fn moved_location_edits_location() {
    let here = GeoPoint {
        latitude_bits: 1,
        longitude_bits: 2,
        horizontal_accuracy_bits: None,
        live_period: Some(60),
        heading: None,
        proximity_alert_radius: None,
    };
    let there = GeoPoint { longitude_bits: 3, ..here };
    let original = Snapshot { text: None, caption: None, caption_entities: None, location: Some(here) };
    let edited = Snapshot { location: Some(there), ..original.clone() };
    assert_eq!(diff_edit(&original, &edited), EditPlan { caption: false, text: false, location: true });
    let gone = Snapshot { location: None, ..original.clone() };
    assert_eq!(diff_edit(&original, &gone), EditPlan { caption: false, text: false, location: false });
}

#[test]
fn removed_text_is_not_edited() {
    let original = text_snapshot("A");
    let edited = Snapshot { text: None, ..original.clone() };
    assert_eq!(diff_edit(&original, &edited).text, false);
}

#[test]
fn thread_labels() {
    assert_eq!(thread_label(&Some("Ann".to_string()), &Some("Lee".to_string())), "#T Ann Lee");
    assert_eq!(thread_label(&None, &None), "#T  ");
    assert_eq!(numbered_thread_label(42, &Some("Ann".to_string()), &None), "#T000042 Ann ");
    assert_eq!(numbered_thread_label(1234567, &None, &Some("Lee".to_string())), "#T1234567  Lee");
    assert_eq!(numbered_thread_label(-5, &None, &None), "#T-00005  ");
    assert_eq!(numbered_thread_label(0, &None, &None), "#T000000  ");
}

#[test]
fn builder_applies_present_settings_only() {
    let built = MessageBuilder::new(1)
        .with(Some(2), |v: i32, t: i32| t + v)
        .with(None, |v: i32, t: i32| t * v)
        .build();
    assert_eq!(built, 3);
}
