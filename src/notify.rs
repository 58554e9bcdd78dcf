//! Notification: the message for an updated work, the channels it goes to, and the tally of
//! one fan-out.
use vstd::prelude::*;
use crate::models::{clone_opt, opt_view, Channel, Manga};
use crate::text::{all_digits, chars_of, decimal_value, parse_decimal, signed_digits, signed_text};

verus! {

/// What chrono renders for the UTC time `millis` milliseconds after the Unix epoch under the
/// strftime `pattern`.
pub uninterp spec fn utc_text(millis: int, pattern: Seq<char>) -> Option<Seq<char>>;

/// Relies on chrono's `DateTime::<Utc>::from_timestamp_millis` (`None` when the time is out of
/// range) and `DelayedFormat::write_to` (an error for a pattern chrono cannot render); the
/// result depends on the two arguments alone.
#[verifier::external_body]
fn format_utc(millis: i64, pattern: &str) -> (r: Option<String>)
    ensures
        opt_view(r) == utc_text(millis as int, pattern@),
{
    let mut out = String::new();
    match chrono::DateTime::from_timestamp_millis(millis) {
        Some(dt) => match dt.format(pattern).write_to(&mut out) {
            Ok(()) => Some(out),
            Err(_) => None,
        },
        None => None,
    }
}

pub open spec fn time_pattern() -> Seq<char> {
    "%d/%m/%Y %H:%M:%S"@
}

/// One named field of a notification.
pub struct EmbedField {
    pub name: String,
    pub value: String,
    pub inline: bool,
}

pub struct FieldView {
    pub name: Seq<char>,
    pub value: Seq<char>,
    pub inline: bool,
}

impl View for EmbedField {
    type V = FieldView;

    open spec fn view(&self) -> FieldView {
        FieldView { name: self.name@, value: self.value@, inline: self.inline }
    }
}

/// The message announcing an update, independent of the platform that carries it.
pub struct Notification {
    pub title: String,
    pub description: String,
    pub fields: Vec<EmbedField>,
    pub thumbnail: Option<String>,
    pub footer: String,
    pub colour: u32,
}

pub open spec fn fields_view(v: Seq<EmbedField>) -> Seq<FieldView> {
    v.map_values(|f: EmbedField| f@)
}

pub open spec fn chapter_label(n: int) -> Seq<char> {
    "ตอนที่ "@ + signed_digits(n)
}

/// The fields of the message for `m`: its title, its latest installment, the installment's
/// link, and the update time where chrono can render it.
pub open spec fn fields_spec(m: Manga) -> Seq<FieldView> {
    let base = seq![
        FieldView { name: "ชื่อมังงะ"@, value: m.title@, inline: true },
        FieldView { name: "ตอนล่าสุด"@, value: chapter_label(m.latest_chapter as int), inline: true },
        FieldView { name: "ลิงก์ตอนล่าสุด"@, value: m.latest_chapter_url@, inline: false },
    ];
    match utc_text(m.updated_at as int, time_pattern()) {
        Some(t) => base.push(FieldView { name: "เวลาอัพเดท"@, value: t, inline: true }),
        None => base,
    }
}

/// The dark green of update messages, as 0xRRGGBB.
pub const UPDATE_COLOUR: u32 = 0x1F8B4C;

fn text_after(prefix: &str, rest: &str) -> (r: String)
    ensures
        r@ == prefix@ + rest@,
{
    let mut r = String::from_str(prefix);
    r.append(rest);
    r
}

fn field(name: &str, value: String, inline: bool) -> (r: EmbedField)
    ensures
        r@ == (FieldView { name: name@, value: value@, inline }),
{
    EmbedField { name: String::from_str(name), value, inline }
}

/// Renders the message announcing that `m` has reached its latest installment.
pub fn render_notification(m: &Manga) -> (r: Notification)
    ensures
        r.title@ == "การอัพเดทมังงะ: "@ + m.title@,
        r.description@ == "อัพเดทถึงตอนที่ "@ + signed_digits(m.latest_chapter as int),
        fields_view(r.fields@) == fields_spec(*m),
        opt_view(r.thumbnail) == opt_view(m.image_url),
        r.footer@ == "ระบบอัพเดทมังงะอัตโนมัติ"@,
        r.colour == UPDATE_COLOUR,
{
    let number = signed_text(m.latest_chapter as i64);
    let title = text_after("การอัพเดทมังงะ: ", m.title.as_str());
    let description = text_after("อัพเดทถึงตอนที่ ", number.as_str());
    let mut fields: Vec<EmbedField> = Vec::new();
    fields.push(field("ชื่อมังงะ", m.title.clone(), true));
    fields.push(field("ตอนล่าสุด", text_after("ตอนที่ ", number.as_str()), true));
    fields.push(field("ลิงก์ตอนล่าสุด", m.latest_chapter_url.clone(), false));
    match format_utc(m.updated_at, "%d/%m/%Y %H:%M:%S") {
        Some(t) => {
            fields.push(field("เวลาอัพเดท", t, true));
        },
        None => {},
    }
    assert(fields_view(fields@) =~= fields_spec(*m));
    Notification {
        title,
        description,
        fields,
        thumbnail: clone_opt(&m.image_url),
        footer: String::from_str("ระบบอัพเดทมังงะอัตโนมัติ"),
        colour: UPDATE_COLOUR,
    }
}

/// The platform channel id that a stored channel id names: an optional `+` and decimal digits
/// for a nonzero `u64`.
pub open spec fn channel_target(id: Seq<char>) -> Option<u64> {
    let t = if id.len() > 0 && id[0] == '+' {
        id.subrange(1, id.len() as int)
    } else {
        id
    };
    if t.len() > 0 && all_digits(t) && decimal_value(t) <= u64::MAX && decimal_value(t) != 0 {
        Some(decimal_value(t) as u64)
    } else {
        None
    }
}

/// The channel ids to deliver to, in registry order; channels whose stored id names none are
/// left out.
pub open spec fn targets_spec(channels: Seq<Channel>) -> Seq<u64>
    decreases channels.len(),
{
    if channels.len() == 0 {
        Seq::empty()
    } else {
        let rest = targets_spec(channels.drop_last());
        match channel_target(channels.last().channel_id@) {
            Some(id) => rest.push(id),
            None => rest,
        }
    }
}

/// Reads a stored channel id.
pub fn parse_channel_id(id: &str) -> (r: Option<u64>)
    ensures
        r == channel_target(id@),
{
    let cs = chars_of(id);
    let start: usize = if cs.len() > 0 && cs[0] == '+' {
        1
    } else {
        0
    };
    assert(start == 0 ==> cs@.subrange(0, cs@.len() as int) =~= cs@);
    match parse_decimal(&cs, start, u64::MAX) {
        Some(v) => if v == 0 {
            None
        } else {
            Some(v)
        },
        None => None,
    }
}

/// The channels that one update message is delivered to.
pub fn delivery_targets(channels: &Vec<Channel>) -> (r: Vec<u64>)
    ensures
        r@ == targets_spec(channels@),
{
    let mut r: Vec<u64> = Vec::new();
    let mut i: usize = 0;
    while i < channels.len()
        invariant
            i <= channels.len(),
            r@ == targets_spec(channels@.take(i as int)),
        decreases channels.len() - i,
    {
        assert(channels@.take(i + 1).drop_last() =~= channels@.take(i as int));
        match parse_channel_id(channels[i].channel_id.as_str()) {
            Some(id) => r.push(id),
            None => {},
        }
        i = i + 1;
    }
    assert(channels@.take(channels.len() as int) =~= channels@);
    r
}

/// The tally of one fan-out: how many channels received the message and how many failed.
/// A failure is only counted; it neither stops the fan-out nor undoes anything.
#[derive(Clone, Copy, Debug, PartialEq, Eq, Structural)]
pub struct DeliveryReport {
    pub delivered: u64,
    pub failed: u64,
}

impl DeliveryReport {
    pub fn new() -> (r: DeliveryReport)
        ensures
            r == (DeliveryReport { delivered: 0, failed: 0 }),
    {
        DeliveryReport { delivered: 0, failed: 0 }
    }

    /// Counts the outcome of one delivery attempt.
    pub fn record(&mut self, delivered: bool)
        requires
            old(self).delivered + old(self).failed < u64::MAX,
        ensures
            delivered ==> *final(self) == (DeliveryReport {
                delivered: (old(self).delivered + 1) as u64,
                ..*old(self)
            }),
            !delivered ==> *final(self) == (DeliveryReport {
                failed: (old(self).failed + 1) as u64,
                ..*old(self)
            }),
    {
        if delivered {
            self.delivered = self.delivered + 1;
        } else {
            self.failed = self.failed + 1;
        }
    }
}

} // verus!
