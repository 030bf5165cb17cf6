use shaggy::clock::{canonical_clock, format_hhmm, local_hhmm};
use shaggy::reminder::{
    delete_reply, distinct_timezones, due_reminders, has_timezone_column, prepare_reminder,
    registration_message, reminder_list_text, reminder_message, RegisterError, ReminderKind,
    ReminderRow,
};

// 2024-01-15 00:00:00 UTC and 2024-07-15 00:00:00 UTC.
const JAN_15: i64 = 1705276800;
const JUL_15: i64 = 1721001600;

fn row(id: i64, kind: &str, time: &str, tz: &str) -> ReminderRow {
    ReminderRow {
        id,
        user_id: 4242,
        guild_id: Some(7),
        kind: kind.to_string(),
        time: time.to_string(),
        note: None,
        private: false,
        timezone: tz.to_string(),
    }
}

#[test]
fn lisbon_reminder_fires_at_its_minute_only() {
    let rows = vec![row(1, "medicine", "08:30", "Europe/Lisbon")];
    // Winter: Lisbon is on UTC.
    let at = JAN_15 + 8 * 3600 + 30 * 60;
    assert_eq!(due_reminders(&rows, at).len(), 1);
    assert_eq!(due_reminders(&rows, at + 59).len(), 1);
    assert_eq!(due_reminders(&rows, at + 60).len(), 0);
    // Summer: Lisbon is one hour ahead of UTC.
    let summer = JUL_15 + 7 * 3600 + 30 * 60;
    assert_eq!(due_reminders(&rows, summer)[0].id, 1);
    assert!(due_reminders(&rows, summer + 60).is_empty());
}

#[test]
fn sweep_keeps_other_zones_apart() {
    let rows = vec![
        row(1, "food", "08:30", "Europe/Lisbon"),
        row(2, "food", "08:30", "America/New_York"),
        row(3, "other", "03:30", "America/New_York"),
        row(4, "food", "08:30", "Not/AZone"),
        row(5, "medicine", "08:30", "UTC"),
        row(6, "medicine", "08:31", "Europe/Lisbon"),
    ];
    let at = JAN_15 + 8 * 3600 + 30 * 60;
    let due: Vec<i64> = due_reminders(&rows, at).iter().map(|r| r.id).collect();
    assert_eq!(due, vec![1, 3, 5]);
}

#[test]
fn local_clock_in_zones() {
    let at = JAN_15 + 8 * 3600 + 30 * 60;
    assert_eq!(local_hhmm("Europe/Lisbon", at).as_deref(), Some("08:30"));
    assert_eq!(local_hhmm("Asia/Kolkata", at).as_deref(), Some("14:00"));
    assert_eq!(local_hhmm("America/New_York", at).as_deref(), Some("03:30"));
    assert_eq!(local_hhmm("Nowhere/Place", at), None);
}

#[test]
fn distinct_zones_once_each() {
    let rows = vec![row(1, "food", "08:30", "UTC"), row(2, "food", "09:00", "Europe/Lisbon"), row(3, "food", "10:00", "UTC")];
    assert_eq!(distinct_timezones(&rows), vec!["UTC".to_string(), "Europe/Lisbon".to_string()]);
    assert!(distinct_timezones(&Vec::new()).is_empty());
}

#[test]
fn clock_format_and_parse() {
    assert_eq!(format_hhmm(8, 5), "08:05");
    assert_eq!(format_hhmm(23, 59), "23:59");
    assert_eq!(canonical_clock("08:30").as_deref(), Some("08:30"));
    assert_eq!(canonical_clock("8:30").as_deref(), Some("08:30"));
    assert_eq!(canonical_clock("24:00"), None);
    assert_eq!(canonical_clock("12:60"), None);
    assert_eq!(canonical_clock("noon"), None);
    assert_eq!(canonical_clock(" 8: 5").as_deref(), Some("08:05"));
    assert_eq!(canonical_clock("08:30 "), None);
    assert_eq!(canonical_clock("008:30"), None);
    assert_eq!(canonical_clock("08 :30"), None);
    assert_eq!(canonical_clock("08:305"), None);
}

#[test]
fn registration_is_checked_and_normalised() {
    let n = prepare_reminder(ReminderKind::Medicine, " 8:30 ", Some("Aspirin".into()), true, Some(" Europe/Lisbon ")).unwrap();
    assert_eq!(n.kind, "medicine");
    assert_eq!(n.time, "08:30");
    assert_eq!(n.timezone, "Europe/Lisbon");
    assert_eq!(n.note.as_deref(), Some("Aspirin"));
    assert!(n.private);
    assert_eq!(
        registration_message(&n),
        "Saved a medicine reminder at 08:30 (private), timezone: Europe/Lisbon. Note: Aspirin"
    );
    let d = prepare_reminder(ReminderKind::Food, "19:00", None, false, None).unwrap();
    assert_eq!(d.timezone, "UTC");
    assert_eq!(d.kind, "food");
    assert_eq!(registration_message(&d), "Saved a food reminder at 19:00 (public), timezone: UTC.");
}

#[test]
fn registration_errors() {
    assert_eq!(prepare_reminder(ReminderKind::Other, "25:00", None, false, None).unwrap_err(), RegisterError::InvalidTime);
    assert_eq!(prepare_reminder(ReminderKind::Other, "", None, false, Some("Mars/Olympus")).unwrap_err(), RegisterError::InvalidTime);
    assert_eq!(prepare_reminder(ReminderKind::Other, "07:15", None, false, Some("Mars/Olympus")).unwrap_err(), RegisterError::InvalidZone);
    assert_eq!(prepare_reminder(ReminderKind::Other, "07:15", None, false, Some("europe/lisbon")).unwrap_err(), RegisterError::InvalidZone);
}

#[test]
fn delivery_texts_by_kind() {
    let mut r = row(9, "medicine", "08:30", "UTC");
    let m = reminder_message(&r);
    assert_eq!(m.channel_text, "⏰ <@4242> Time to take your medicine!.");
    assert_eq!(m.direct_text, "⏰  Time to take your medicine!.");
    assert_eq!(m.direct_text.chars().count(), 31);
    assert_eq!(m.user_id, 4242);
    assert!(!m.private);
    r.kind = "food".into();
    r.note = Some("  lunch box ".into());
    r.private = true;
    let m = reminder_message(&r);
    assert_eq!(m.channel_text, "⏰ <@4242> Time to eat! (lunch box).");
    assert_eq!(m.direct_text, "⏰  Time to eat! (lunch box).");
    r.note = Some("for <@4242> and <@42>".into());
    assert_eq!(reminder_message(&r).direct_text, "⏰  Time to eat! (for  and <@42>).");
    assert!(m.private);
    r.kind = "other".into();
    r.note = Some("   ".into());
    assert_eq!(reminder_message(&r).channel_text, "⏰ <@4242> Reminder!.");
    r.user_id = -5;
    assert_eq!(reminder_message(&r).channel_text, "⏰ <@-5> Reminder!.");
}

#[test]
fn listing_text() {
    let mut a = row(3, "food", "08:30", "UTC");
    a.note = Some("oats".into());
    let mut b = row(12, "medicine", "21:00", "Europe/Lisbon");
    b.private = true;
    assert_eq!(
        reminder_list_text(&vec![a, b]),
        "Your reminders:\n- ID 3: food at 08:30 (public, tz: UTC), note: oats\n- ID 12: medicine at 21:00 (private, tz: Europe/Lisbon)\n"
    );
    assert_eq!(reminder_list_text(&Vec::new()), "You have no reminders in this server.");
}

#[test]
fn deletion_replies() {
    assert_eq!(delete_reply(17, true), "Deleted reminder 17.");
    assert_eq!(delete_reply(17, false), "No reminder found with that ID that belongs to you in this server.");
}

#[test]
fn zone_column_found_without_case() {
    let names = vec!["id".to_string(), "TimeZone".to_string()];
    assert!(has_timezone_column(&names));
    assert!(!has_timezone_column(&vec!["time".to_string(), "timezones".to_string()]));
}

#[test]
fn kind_words() {
    assert_eq!(ReminderKind::Medicine.stored_word(), "medicine");
    assert_eq!(ReminderKind::Food.stored_word(), "food");
    assert_eq!(ReminderKind::Other.stored_word(), "other");
}
