//! Recurring reminders: the stored row, registration checks, the text each
//! reminder is delivered with, and the minute sweep that finds the rows due now.

use vstd::prelude::*;
use crate::clock::{
    canonical_clock, clock_parse, hhmm_text, is_known_zone, local_clock_at, local_hhmm,
    zone_known,
};
use crate::text::{
    remove_all, remove_occurrences, owned, signed_decimal, signed_digits, trim, trim_seq, eq_ignore_ascii_case,
    eq_ignore_ascii_case_spec,
};

verus! {

/// What a reminder is for.
#[derive(Debug, Clone, Copy, PartialEq, Eq, Structural)]
pub enum ReminderKind {
    Medicine,
    Food,
    Other,
}

/// The word a kind is stored as.
pub open spec fn kind_word(k: ReminderKind) -> Seq<char> {
    match k {
        ReminderKind::Medicine => "medicine"@,
        ReminderKind::Food => "food"@,
        ReminderKind::Other => "other"@,
    }
}

impl ReminderKind {
    /// The word this kind is stored as.
    pub fn stored_word(&self) -> (r: &'static str)
        ensures
            r@ == kind_word(*self),
    {
        match self {
            ReminderKind::Medicine => "medicine",
            ReminderKind::Food => "food",
            ReminderKind::Other => "other",
        }
    }
}

/// One stored reminder.
#[derive(Debug, Clone)]
pub struct ReminderRow {
    pub id: i64,
    pub user_id: i64,
    pub guild_id: Option<i64>,
    pub kind: String,
    pub time: String,
    pub note: Option<String>,
    pub private: bool,
    pub timezone: String,
}

/// A copy of an optional text.
pub fn copy_opt_text(o: &Option<String>) -> (r: Option<String>)
    ensures
        r == *o,
{
    match o {
        Some(s) => Some(s.clone()),
        None => None,
    }
}

impl ReminderRow {
    /// A field-for-field copy of this row.
    pub fn duplicate(&self) -> (r: ReminderRow)
        ensures
            r == *self,
    {
        ReminderRow {
            id: self.id,
            user_id: self.user_id,
            guild_id: self.guild_id,
            kind: self.kind.clone(),
            time: self.time.clone(),
            note: copy_opt_text(&self.note),
            private: self.private,
            timezone: self.timezone.clone(),
        }
    }
}

// ---------------------------------------------------------------------------
// Registration
// ---------------------------------------------------------------------------

/// Why a registration was refused.
#[derive(Debug, Clone, Copy, PartialEq, Eq, Structural)]
pub enum RegisterError {
    InvalidTime,
    InvalidZone,
}

/// A checked registration, ready to be stored.
#[derive(Debug, Clone)]
pub struct NewReminder {
    pub kind: String,
    pub time: String,
    pub note: Option<String>,
    pub private: bool,
    pub timezone: String,
}

/// The zone a registration names, `UTC` where it names none.
pub open spec fn requested_zone(timezone: Option<Seq<char>>) -> Seq<char> {
    match timezone {
        Some(z) => trim_seq(z),
        None => "UTC"@,
    }
}

/// Checks a registration: the time must read as `HH:MM` and the zone must be
/// known. The stored time is the canonical `HH:MM` of what was read.
pub fn prepare_reminder(
    kind: ReminderKind,
    time: &str,
    note: Option<String>,
    private: bool,
    timezone: Option<&str>,
) -> (r: Result<NewReminder, RegisterError>)
    ensures
        ({
            let zone = requested_zone(
                match timezone {
                    Some(z) => Some(z@),
                    None => None,
                },
            );
            match clock_parse(trim_seq(time@)) {
                None => r == Err::<NewReminder, RegisterError>(RegisterError::InvalidTime),
                Some(c) => if !zone_known(zone) {
                    r == Err::<NewReminder, RegisterError>(RegisterError::InvalidZone)
                } else {
                    r matches Ok(n) && n.kind@ == kind_word(kind) && n.time@ == hhmm_text(c.0, c.1)
                        && n.note == note && n.private == private && n.timezone@ == zone
                },
            }
        }),
{
    let t = trim(time);
    let stored_time = match canonical_clock(t) {
        Some(s) => s,
        None => return Err(RegisterError::InvalidTime),
    };
    let zone: &str = match timezone {
        Some(z) => trim(z),
        None => {
            proof {
                reveal_strlit("UTC");
            }
            "UTC"
        },
    };
    if !is_known_zone(zone) {
        return Err(RegisterError::InvalidZone);
    }
    Ok(NewReminder {
        kind: owned(kind.stored_word()),
        time: stored_time,
        note,
        private,
        timezone: owned(zone),
    })
}

// ---------------------------------------------------------------------------
// Delivery text
// ---------------------------------------------------------------------------

/// The phrase for a stored kind word; an unknown word reads as a plain reminder.
pub open spec fn kind_phrase(kind: Seq<char>) -> Seq<char> {
    if kind == "medicine"@ {
        "Time to take your medicine!"@
    } else if kind == "food"@ {
        "Time to eat!"@
    } else {
        "Reminder!"@
    }
}

/// The note in parentheses, after a space, where it holds more than white space.
pub open spec fn note_suffix(note: Option<String>) -> Seq<char> {
    match note {
        Some(n) => if trim_seq(n@).len() == 0 {
            Seq::empty()
        } else {
            " ("@ + trim_seq(n@) + ")"@
        },
        None => Seq::empty(),
    }
}

/// The text posted in a shared channel, addressed to the owner by mention.
pub open spec fn channel_text(row: ReminderRow) -> Seq<char> {
    "⏰ <@"@ + signed_digits(row.user_id as int) + "> "@ + kind_phrase(row.kind@) + note_suffix(
        row.note,
    ) + "."@
}

/// The mention of a reminder's owner.
pub open spec fn owner_mention(row: ReminderRow) -> Seq<char> {
    "<@"@ + signed_digits(row.user_id as int) + ">"@
}

/// The text sent privately to the owner: the channel text with every mention
/// of the owner removed.
pub open spec fn direct_text(row: ReminderRow) -> Seq<char> {
    remove_all(channel_text(row), owner_mention(row))
}

/// The two texts one reminder can be delivered with.
#[derive(Debug, Clone)]
pub struct ReminderMessage {
    pub user_id: i64,
    pub private: bool,
    pub channel_text: String,
    pub direct_text: String,
}

fn phrase_of(kind: &String) -> (r: &'static str)
    ensures
        r@ == kind_phrase(kind@),
{
    if *kind == owned("medicine") {
        "Time to take your medicine!"
    } else if *kind == owned("food") {
        "Time to eat!"
    } else {
        "Reminder!"
    }
}

fn suffix_of(note: &Option<String>) -> (r: String)
    ensures
        r@ == note_suffix(*note),
{
    match note {
        Some(n) => {
            let t = trim(n.as_str());
            if t.unicode_len() == 0 {
                String::new()
            } else {
                let mut s = owned(" (");
                s.append(t);
                s.append(")");
                s
            }
        },
        None => String::new(),
    }
}

/// The texts that `row` is delivered with.
pub fn reminder_message(row: &ReminderRow) -> (r: ReminderMessage)
    ensures
        r.user_id == row.user_id,
        r.private == row.private,
        r.channel_text@ == channel_text(*row),
        r.direct_text@ == direct_text(*row),
{
    let phrase = phrase_of(&row.kind);
    let suffix = suffix_of(&row.note);
    let mut c = owned("⏰ <@");
    let id = signed_decimal(row.user_id);
    c.append(id.as_str());
    c.append("> ");
    c.append(phrase);
    c.append(suffix.as_str());
    c.append(".");
    let mut mention = owned("<@");
    mention.append(id.as_str());
    mention.append(">");
    let d = remove_occurrences(c.as_str(), mention.as_str());
    ReminderMessage { user_id: row.user_id, private: row.private, channel_text: c, direct_text: d }
}

// ---------------------------------------------------------------------------
// Minute sweep
// ---------------------------------------------------------------------------

/// `row` is due at instant `t`: its stored time is the local `HH:MM` at `t` in
/// its own zone. A row whose zone gives no local time is never due.
pub open spec fn is_due(row: ReminderRow, t: int) -> bool {
    match local_clock_at(row.timezone@, t) {
        Some(c) => row.time@ == hhmm_text(c.0, c.1),
        None => false,
    }
}

/// The rows of `rows` due at `t`, in their order.
pub open spec fn due_rows(rows: Seq<ReminderRow>, t: int) -> Seq<ReminderRow>
    decreases rows.len(),
{
    if rows.len() == 0 {
        Seq::empty()
    } else if is_due(rows.last(), t) {
        due_rows(rows.drop_last(), t).push(rows.last())
    } else {
        due_rows(rows.drop_last(), t)
    }
}

/// The sweep at `t` keeps exactly the rows that are due at `t`: a row is kept
/// if and only if it is one of the rows and its stored time is the local time
/// at `t` in its own zone; rows of other zones, or at other times, are left out.
pub proof fn law_sweep_selects_due_rows(rows: Seq<ReminderRow>, t: int)
    ensures
        forall|row: ReminderRow|
            due_rows(rows, t).contains(row) <==> (rows.contains(row) && is_due(row, t)),
    decreases rows.len(),
{
    if rows.len() > 0 {
        let d = rows.drop_last();
        law_sweep_selects_due_rows(d, t);
        assert(rows == d.push(rows.last()));
        assert forall|row: ReminderRow|
            due_rows(rows, t).contains(row) <==> (rows.contains(row) && is_due(row, t)) by {
            if rows.contains(row) {
                let i = choose|i: int| 0 <= i < rows.len() && rows[i] == row;
                if i < d.len() {
                    assert(d[i] == row);
                }
            }
            if d.contains(row) {
                let i = choose|i: int| 0 <= i < d.len() && d[i] == row;
                assert(rows[i] == row);
            }
            if is_due(rows.last(), t) {
                let p = due_rows(d, t);
                assert(p.push(rows.last())[p.len() as int] == rows.last());
                if p.contains(row) {
                    let i = choose|i: int| 0 <= i < p.len() && p[i] == row;
                    assert(p.push(rows.last())[i] == row);
                }
                if p.push(rows.last()).contains(row) {
                    let i = choose|i: int| 0 <= i < p.len() + 1 && p.push(rows.last())[i] == row;
                    if i < p.len() {
                        assert(p[i] == row);
                    }
                }
            }
            assert(rows[rows.len() - 1] == rows.last());
        }
    }
}

/// The position of a text in a list of texts.
pub fn position_of(list: &Vec<String>, s: &String) -> (r: Option<usize>)
    ensures
        match r {
            Some(k) => k < list@.len() && list@[k as int]@ == s@,
            None => forall|k: int| 0 <= k < list@.len() ==> list@[k]@ != s@,
        },
{
    let mut k: usize = 0;
    while k < list.len()
        invariant
            k <= list@.len(),
            forall|j: int| 0 <= j < k ==> list@[j]@ != s@,
        decreases list@.len() - k,
    {
        if list[k] == *s {
            return Some(k);
        }
        k = k + 1;
    }
    None
}

/// Some row of `rows` is in zone `z`.
pub open spec fn zone_named(rows: Seq<ReminderRow>, z: Seq<char>) -> bool {
    exists|k: int| 0 <= k < rows.len() && (#[trigger] rows[k]).timezone@ == z
}

/// Some text of `list` reads `z`.
pub open spec fn text_listed(list: Seq<String>, z: Seq<char>) -> bool {
    exists|i: int| 0 <= i < list.len() && (#[trigger] list[i])@ == z
}

/// The zones that the rows name, each once, in order of first appearance.
pub fn distinct_timezones(rows: &Vec<ReminderRow>) -> (r: Vec<String>)
    ensures
        forall|i: int, j: int| 0 <= i < j < r@.len() ==> r@[i]@ != r@[j]@,
        forall|i: int| 0 <= i < r@.len() ==> zone_named(rows@, (#[trigger] r@[i])@),
        forall|k: int| 0 <= k < rows@.len() ==> text_listed(r@, (#[trigger] rows@[k]).timezone@),
{
    let mut out: Vec<String> = Vec::new();
    let mut k: usize = 0;
    while k < rows.len()
        invariant
            k <= rows@.len(),
            forall|i: int, j: int| 0 <= i < j < out@.len() ==> out@[i]@ != out@[j]@,
            forall|i: int|
                0 <= i < out@.len() ==> zone_named(rows@.subrange(0, k as int), (#[trigger] out@[i])@),
            forall|q: int| 0 <= q < k ==> text_listed(out@, (#[trigger] rows@[q]).timezone@),
        decreases rows@.len() - k,
    {
        let z = &rows[k].timezone;
        let ghost old_out = out@;
        let ghost pre = rows@.subrange(0, k as int);
        let ghost pre1 = rows@.subrange(0, k as int + 1);
        assert forall|w: Seq<char>| zone_named(pre, w) implies zone_named(pre1, w) by {
            let q = choose|q: int| 0 <= q < pre.len() && (#[trigger] pre[q]).timezone@ == w;
            assert(pre1[q] == pre[q]);
        }
        assert(pre1[k as int] == rows@[k as int]);
        assert(zone_named(pre1, rows@[k as int].timezone@));
        match position_of(&out, z) {
            Some(p) => {
                assert(text_listed(out@, rows@[k as int].timezone@));
            },
            None => {
                out.push(z.clone());
                assert(out@[out@.len() - 1]@ == rows@[k as int].timezone@);
                assert(text_listed(out@, rows@[k as int].timezone@));
                assert forall|w: Seq<char>| text_listed(old_out, w) implies text_listed(out@, w) by {
                    let i = choose|i: int| 0 <= i < old_out.len() && (#[trigger] old_out[i])@ == w;
                    assert(out@[i] == old_out[i]);
                }
                assert forall|i: int| 0 <= i < out@.len() implies zone_named(
                    pre1,
                    (#[trigger] out@[i])@,
                ) by {
                    if i < old_out.len() {
                        assert(out@[i] == old_out[i]);
                    }
                }
            },
        }
        k = k + 1;
    }
    assert(rows@.subrange(0, rows@.len() as int) == rows@);
    out
}

/// The rows due at instant `now`, in their order. Each zone's local time is
/// worked out once; rows in a zone without a local time are skipped.
pub fn due_reminders(rows: &Vec<ReminderRow>, now: i64) -> (r: Vec<ReminderRow>)
    ensures
        r@ == due_rows(rows@, now as int),
        forall|i: int| 0 <= i < r@.len() ==> zone_known((#[trigger] r@[i]).timezone@),
{
    let zones = distinct_timezones(rows);
    let mut clocks: Vec<Option<String>> = Vec::new();
    let mut z: usize = 0;
    while z < zones.len()
        invariant
            z <= zones@.len(),
            clocks@.len() == z,
            forall|i: int|
                0 <= i < z ==> match local_clock_at(zones@[i]@, now as int) {
                    Some(c) => #[trigger] clocks@[i] matches Some(s) && s@ == hhmm_text(c.0, c.1),
                    None => clocks@[i] is None,
                },
            forall|i: int| 0 <= i < z ==> (#[trigger] clocks@[i] is Some ==> zone_known(zones@[i]@)),
        decreases zones@.len() - z,
    {
        clocks.push(local_hhmm(zones[z].as_str(), now));
        z = z + 1;
    }
    let mut out: Vec<ReminderRow> = Vec::new();
    let mut k: usize = 0;
    while k < rows.len()
        invariant
            k <= rows@.len(),
            clocks@.len() == zones@.len(),
            forall|q: int| 0 <= q < rows@.len() ==> text_listed(zones@, (#[trigger] rows@[q]).timezone@),
            forall|i: int|
                0 <= i < zones@.len() ==> match local_clock_at(zones@[i]@, now as int) {
                    Some(c) => #[trigger] clocks@[i] matches Some(s) && s@ == hhmm_text(c.0, c.1),
                    None => clocks@[i] is None,
                },
            forall|i: int|
                0 <= i < zones@.len() ==> (#[trigger] clocks@[i] is Some ==> zone_known(zones@[i]@)),
            out@ == due_rows(rows@.subrange(0, k as int), now as int),
            forall|j: int| 0 <= j < out@.len() ==> zone_known((#[trigger] out@[j]).timezone@),
        decreases rows@.len() - k,
    {
        let row = &rows[k];
        let ghost prefix = rows@.subrange(0, k as int + 1);
        assert(prefix.drop_last() == rows@.subrange(0, k as int));
        assert(prefix.last() == rows@[k as int]);
        assert(text_listed(zones@, rows@[k as int].timezone@));
        let i = match position_of(&zones, &row.timezone) {
            Some(i) => i,
            None => {
                assert(false);
                0
            },
        };
        let due = match &clocks[i] {
            Some(s) => *s == row.time,
            None => false,
        };
        assert(due == is_due(rows@[k as int], now as int));
        if due {
            let ghost before = out@;
            out.push(row.duplicate());
            assert(out@[out@.len() - 1] == rows@[k as int]);
            assert forall|j: int| 0 <= j < out@.len() implies zone_known(
                (#[trigger] out@[j]).timezone@,
            ) by {
                if j < before.len() {
                    assert(out@[j] == before[j]);
                }
            }
        }
        k = k + 1;
    }
    assert(rows@.subrange(0, rows@.len() as int) == rows@);
    out
}

// ---------------------------------------------------------------------------
// Listing
// ---------------------------------------------------------------------------

/// `"private"` or `"public"`.
pub open spec fn privacy_word(private: bool) -> Seq<char> {
    if private {
        "private"@
    } else {
        "public"@
    }
}

/// One line of a reminder listing.
pub open spec fn list_line(row: ReminderRow) -> Seq<char> {
    let note = match row.note {
        Some(n) => n@,
        None => Seq::empty(),
    };
    "- ID "@ + signed_digits(row.id as int) + ": "@ + row.kind@ + " at "@ + row.time@ + " ("@
        + privacy_word(row.private) + ", tz: "@ + row.timezone@ + ")"@ + if note.len() == 0 {
        Seq::empty()
    } else {
        ", note: "@ + note
    } + "\n"@
}

/// The lines of a reminder listing, in order.
pub open spec fn list_lines(rows: Seq<ReminderRow>) -> Seq<char>
    decreases rows.len(),
{
    if rows.len() == 0 {
        Seq::empty()
    } else {
        list_lines(rows.drop_last()) + list_line(rows.last())
    }
}

/// The whole listing shown to an owner.
pub open spec fn list_text(rows: Seq<ReminderRow>) -> Seq<char> {
    if rows.len() == 0 {
        "You have no reminders in this server."@
    } else {
        "Your reminders:\n"@ + list_lines(rows)
    }
}

fn list_line_exec(row: &ReminderRow) -> (r: String)
    ensures
        r@ == list_line(*row),
{
    let mut s = owned("- ID ");
    let id = signed_decimal(row.id);
    s.append(id.as_str());
    s.append(": ");
    s.append(row.kind.as_str());
    s.append(" at ");
    s.append(row.time.as_str());
    s.append(" (");
    s.append(if row.private { "private" } else { "public" });
    s.append(", tz: ");
    s.append(row.timezone.as_str());
    s.append(")");
    match &row.note {
        Some(n) => {
            if n.as_str().unicode_len() > 0 {
                s.append(", note: ");
                s.append(n.as_str());
            }
        },
        None => {},
    }
    s.append("\n");
    s
}

/// The listing of an owner's reminders.
pub fn reminder_list_text(rows: &Vec<ReminderRow>) -> (r: String)
    ensures
        r@ == list_text(rows@),
{
    if rows.len() == 0 {
        return owned("You have no reminders in this server.");
    }
    let mut s = owned("Your reminders:\n");
    let mut k: usize = 0;
    while k < rows.len()
        invariant
            k <= rows@.len(),
            s@ == "Your reminders:\n"@ + list_lines(rows@.subrange(0, k as int)),
        decreases rows@.len() - k,
    {
        let ghost prefix = rows@.subrange(0, k as int + 1);
        assert(prefix.drop_last() == rows@.subrange(0, k as int));
        let line = list_line_exec(&rows[k]);
        s.append(line.as_str());
        k = k + 1;
    }
    assert(rows@.subrange(0, rows@.len() as int) == rows@);
    s
}

/// The confirmation shown after a registration was stored.
pub open spec fn registration_text(n: NewReminder) -> Seq<char> {
    "Saved a "@ + n.kind@ + " reminder at "@ + n.time@ + " ("@ + privacy_word(n.private)
        + "), timezone: "@ + n.timezone@ + "."@ + match n.note {
        Some(t) => if trim_seq(t@).len() > 0 {
            " Note: "@ + trim_seq(t@)
        } else {
            Seq::empty()
        },
        None => Seq::empty(),
    }
}

/// The confirmation for a stored registration.
pub fn registration_message(n: &NewReminder) -> (r: String)
    ensures
        r@ == registration_text(*n),
{
    let mut s = owned("Saved a ");
    s.append(n.kind.as_str());
    s.append(" reminder at ");
    s.append(n.time.as_str());
    s.append(" (");
    s.append(if n.private { "private" } else { "public" });
    s.append("), timezone: ");
    s.append(n.timezone.as_str());
    s.append(".");
    match &n.note {
        Some(t) => {
            let tt = trim(t.as_str());
            if tt.unicode_len() > 0 {
                s.append(" Note: ");
                s.append(tt);
            }
        },
        None => {},
    }
    s
}

/// The reply to a deletion request.
pub fn delete_reply(id: i64, deleted: bool) -> (r: String)
    ensures
        deleted ==> r@ == "Deleted reminder "@ + signed_digits(id as int) + "."@,
        !deleted ==> r@ == "No reminder found with that ID that belongs to you in this server."@,
{
    if deleted {
        let mut s = owned("Deleted reminder ");
        let d = signed_decimal(id);
        s.append(d.as_str());
        s.append(".");
        s
    } else {
        owned("No reminder found with that ID that belongs to you in this server.")
    }
}

/// Whether a table's column names include the zone column, compared without
/// ASCII case.
pub fn has_timezone_column(names: &Vec<String>) -> (r: bool)
    ensures
        r == exists|i: int|
            0 <= i < names@.len() && eq_ignore_ascii_case_spec((#[trigger] names@[i])@, "timezone"@),
{
    let mut i: usize = 0;
    while i < names.len()
        invariant
            i <= names@.len(),
            forall|j: int| 0 <= j < i ==> !eq_ignore_ascii_case_spec((#[trigger] names@[j])@, "timezone"@),
        decreases names@.len() - i,
    {
        if eq_ignore_ascii_case(names[i].as_str(), "timezone") {
            return true;
        }
        i = i + 1;
    }
    false
}

} // verus!
