//! What an upcoming calendar event is announced as, and to whom.
use vstd::prelude::*;
use crate::text::{trim, trim_str, str_eq, chars_of, push_str, string_from_chars, string_views};
use crate::discord::types::{
    DiscordDeliveryTarget, DiscordEmbedField, DiscordEmbedPayload, field_view, fields_view, make_field,
    copy_fields,
};
use crate::google_calendar::types::{
    GoogleCalendarConfig, GoogleCalendarEntryConfig, GoogleCalendarEvent, GoogleCalendarEventDate,
    NotifyTarget, date_key, display_spec, opt_text,
};

verus! {

/// The provider name stored with each announced event.
pub const PROVIDER_NAME: &'static str = "google-calendar";

// ---------------------------------------------------------------------------
// Targets
// ---------------------------------------------------------------------------

/// The position of the first target with an id.
pub open spec fn target_position(targets: Seq<(String, NotifyTarget)>, id: Seq<char>) -> Option<int>
    decreases targets.len(),
{
    if targets.len() == 0 {
        None
    } else if targets[0].0@ == id {
        Some(0)
    } else {
        match target_position(targets.drop_first(), id) {
            Some(i) => Some(i + 1),
            None => None,
        }
    }
}

/// The enabled targets among all, in order (positions).
pub open spec fn enabled_targets(targets: Seq<(String, NotifyTarget)>, n: int) -> Seq<int>
    decreases n,
{
    if n <= 0 {
        seq![]
    } else {
        let rest = enabled_targets(targets, n - 1);
        if targets[n - 1].1.enabled {
            rest.push(n - 1)
        } else {
            rest
        }
    }
}

/// The enabled targets named by the ids, in the order of the ids; unknown
/// ids are passed over.
pub open spec fn named_targets(targets: Seq<(String, NotifyTarget)>, ids: Seq<Seq<char>>) -> Seq<int>
    decreases ids.len(),
{
    if ids.len() == 0 {
        seq![]
    } else {
        let rest = named_targets(targets, ids.drop_last());
        match target_position(targets, ids.last()) {
            Some(i) => if targets[i].1.enabled {
                rest.push(i)
            } else {
                rest
            },
            None => rest,
        }
    }
}

/// The targets of a calendar: its own ids, else the shared ids; with no ids
/// at all, every enabled target.
pub open spec fn selected_spec(
    calendar: GoogleCalendarEntryConfig,
    gcal: GoogleCalendarConfig,
    targets: Seq<(String, NotifyTarget)>,
) -> Seq<int> {
    let ids = if calendar.notify_targets@.len() == 0 {
        string_views(gcal.notify_targets@)
    } else {
        string_views(calendar.notify_targets@)
    };
    if ids.len() == 0 {
        enabled_targets(targets, targets.len() as int)
    } else {
        named_targets(targets, ids)
    }
}

proof fn lemma_target_position(targets: Seq<(String, NotifyTarget)>, id: Seq<char>)
    ensures
        match target_position(targets, id) {
            Some(i) => 0 <= i < targets.len() && targets[i].0@ == id && forall|j: int|
                0 <= j < i ==> targets[j].0@ != id,
            None => forall|j: int| 0 <= j < targets.len() ==> targets[j].0@ != id,
        },
    decreases targets.len(),
{
    if targets.len() > 0 && targets[0].0@ != id {
        lemma_target_position(targets.drop_first(), id);
        assert forall|j: int| 0 < j < targets.len() implies targets[j] == targets.drop_first()[j
            - 1] by {}
    }
}

proof fn lemma_push_contains(s: Seq<int>, x: int, p: int)
    ensures
        s.push(x).contains(p) <==> (s.contains(p) || p == x),
{
    let t = s.push(x);
    if p == x {
        assert(t[s.len() as int] == p);
    }
    if t.contains(p) && p != x {
        let k = choose|k: int| 0 <= k < t.len() && t[k] == p;
        assert(s[k] == p);
    }
    if s.contains(p) {
        let k = choose|k: int| 0 <= k < s.len() && s[k] == p;
        assert(t[k] == p);
    }
}

proof fn lemma_enabled_targets(targets: Seq<(String, NotifyTarget)>, n: int, p: int)
    requires
        n <= targets.len(),
    ensures
        enabled_targets(targets, n).contains(p) <==> (0 <= p < n && targets[p].1.enabled),
    decreases n,
{
    if n > 0 {
        lemma_enabled_targets(targets, n - 1, p);
        let rest = enabled_targets(targets, n - 1);
        if targets[n - 1].1.enabled {
            lemma_push_contains(rest, n - 1, p);
        }
    }
}

proof fn lemma_named_targets(targets: Seq<(String, NotifyTarget)>, ids: Seq<Seq<char>>, p: int)
    ensures
        named_targets(targets, ids).contains(p) <==> (0 <= p < targets.len() && targets[p].1.enabled
            && ids.contains(targets[p].0@) && forall|q: int|
            0 <= q < p ==> #[trigger] targets[q].0@ != targets[p].0@),
    decreases ids.len(),
{
    if ids.len() > 0 {
        let t = ids.drop_last();
        lemma_named_targets(targets, t, p);
        lemma_target_position(targets, ids.last());
        let rest = named_targets(targets, t);
        let cond = 0 <= p < targets.len() && targets[p].1.enabled && forall|q: int|
            0 <= q < p ==> #[trigger] targets[q].0@ != targets[p].0@;
        assert(ids.contains(targets[p].0@) <==> (t.contains(targets[p].0@) || ids.last()
            == targets[p].0@)) by {
            if ids.contains(targets[p].0@) {
                let k = choose|k: int| 0 <= k < ids.len() && ids[k] == targets[p].0@;
                if k < ids.len() - 1 {
                    assert(t[k] == ids[k]);
                }
            }
            if t.contains(targets[p].0@) {
                let k = choose|k: int| 0 <= k < t.len() && t[k] == targets[p].0@;
                assert(ids[k] == t[k]);
            }
            if ids.last() == targets[p].0@ {
                assert(ids[ids.len() - 1] == targets[p].0@);
            }
        }
        match target_position(targets, ids.last()) {
            Some(i) => {
                if targets[i].1.enabled {
                    lemma_push_contains(rest, i, p);
                    if p != i && 0 <= p < targets.len() && ids.last() == targets[p].0@ {
                        if p < i {
                            assert(targets[p].0@ != ids.last());
                        } else {
                            assert(targets[i].0@ == targets[p].0@);
                        }
                    }
                } else {
                    if 0 <= p < targets.len() && targets[p].1.enabled && ids.last()
                        == targets[p].0@ && (forall|q: int|
                        0 <= q < p ==> #[trigger] targets[q].0@ != targets[p].0@) {
                        if p < i {
                            assert(targets[p].0@ != ids.last());
                        } else if p > i {
                            assert(targets[i].0@ == targets[p].0@);
                        }
                    }
                }
            },
            None => {
                if 0 <= p < targets.len() {
                    assert(targets[p].0@ != ids.last());
                }
            },
        }
    }
}

/// The targets a calendar's events go to. The ids are the calendar's own,
/// or the shared ones where it has none. With no ids at all every enabled
/// target is chosen; otherwise exactly the enabled targets named by some
/// id (the first target for each id).
pub proof fn law_selected_targets(
    calendar: GoogleCalendarEntryConfig,
    gcal: GoogleCalendarConfig,
    targets: Seq<(String, NotifyTarget)>,
    p: int,
)
    ensures
        ({
            let ids = if calendar.notify_targets@.len() == 0 {
                string_views(gcal.notify_targets@)
            } else {
                string_views(calendar.notify_targets@)
            };
            selected_spec(calendar, gcal, targets).contains(p) <==> (0 <= p < targets.len()
                && targets[p].1.enabled && (ids.len() == 0 || (ids.contains(targets[p].0@)
                && forall|q: int| 0 <= q < p ==> #[trigger] targets[q].0@ != targets[p].0@)))
        }),
{
    let ids = if calendar.notify_targets@.len() == 0 {
        string_views(gcal.notify_targets@)
    } else {
        string_views(calendar.notify_targets@)
    };
    if ids.len() == 0 {
        lemma_enabled_targets(targets, targets.len() as int, p);
    } else {
        lemma_named_targets(targets, ids, p);
    }
}

fn find_target(targets: &Vec<(String, NotifyTarget)>, id: &String) -> (r: Option<usize>)
    ensures
        match r {
            Some(i) => target_position(targets@, id@) == Some(i as int),
            None => target_position(targets@, id@) is None,
        },
{
    proof {
        lemma_target_position(targets@, id@);
    }
    let mut i: usize = 0;
    while i < targets.len()
        invariant
            i <= targets@.len(),
            forall|j: int| 0 <= j < i ==> targets@[j].0@ != id@,
            match target_position(targets@, id@) {
                Some(k) => 0 <= k < targets@.len() && targets@[k].0@ == id@ && forall|j: int|
                    0 <= j < k ==> targets@[j].0@ != id@,
                None => forall|j: int| 0 <= j < targets@.len() ==> targets@[j].0@ != id@,
            },
        decreases targets@.len() - i,
    {
        if str_eq(targets[i].0.as_str(), id.as_str()) {
            return Some(i);
        }
        i = i + 1;
    }
    None
}

/// The positions, among `targets`, of the targets a calendar's events go to.
pub fn selected_notifications(
    calendar: &GoogleCalendarEntryConfig,
    gcal: &GoogleCalendarConfig,
    targets: &Vec<(String, NotifyTarget)>,
) -> (r: Vec<usize>)
    ensures
        r@.map_values(|i: usize| i as int) == selected_spec(*calendar, *gcal, targets@),
        forall|k: int| 0 <= k < r@.len() ==> #[trigger] r@[k] < targets@.len(),
{
    let ids = if calendar.notify_targets.len() == 0 {
        &gcal.notify_targets
    } else {
        &calendar.notify_targets
    };
    let mut out: Vec<usize> = Vec::new();
    if ids.len() == 0 {
        let mut i: usize = 0;
        while i < targets.len()
            invariant
                i <= targets@.len(),
                out@.map_values(|k: usize| k as int) == enabled_targets(targets@, i as int),
                forall|m: int| 0 <= m < out@.len() ==> #[trigger] out@[m] < targets@.len(),
            decreases targets@.len() - i,
        {
            if targets[i].1.enabled {
                let ghost before = out@;
                out.push(i);
                assert(out@.map_values(|k: usize| k as int) =~= before.map_values(|k: usize| k as int).push(
                    i as int,
                ));
            }
            i = i + 1;
        }
        return out;
    }
    let ghost idv = string_views(ids@);
    let mut j: usize = 0;
    assert(idv.take(0).len() == 0);
    while j < ids.len()
        invariant
            j <= ids@.len(),
            idv == string_views(ids@),
            out@.map_values(|k: usize| k as int) == named_targets(targets@, idv.take(j as int)),
            forall|m: int| 0 <= m < out@.len() ==> #[trigger] out@[m] < targets@.len(),
        decreases ids@.len() - j,
    {
        assert(idv.take(j + 1).drop_last() =~= idv.take(j as int));
        assert(idv.take(j + 1).last() == ids@[j as int]@);
        match find_target(targets, &ids[j]) {
            Some(i) => {
                proof {
                    lemma_target_position(targets@, ids@[j as int]@);
                }
                if targets[i].1.enabled {
                    let ghost before = out@;
                    out.push(i);
                    assert(out@.map_values(|k: usize| k as int) =~= before.map_values(
                        |k: usize| k as int,
                    ).push(i as int));
                }
            },
            None => {},
        }
        j = j + 1;
    }
    assert(idv.take(ids@.len() as int) =~= idv);
    out
}

// ---------------------------------------------------------------------------
// The announcement
// ---------------------------------------------------------------------------

pub open spec fn shown(d: Option<GoogleCalendarEventDate>) -> Seq<char> {
    match d {
        Some(v) => match display_spec(v) {
            Some(s) => s,
            None => seq![],
        },
        None => seq![],
    }
}

/// The shown start and end of an event; empty where there is none.
pub fn format_event_time_range(
    start: &GoogleCalendarEventDate,
    end: &Option<GoogleCalendarEventDate>,
) -> (r: (String, String))
    ensures
        r.0@ == shown(Some(*start)),
        r.1@ == shown(*end),
{
    let start_text = match start.display_text() {
        Some(s) => s,
        None => String::new(),
    };
    let end_text = match end {
        Some(e) => match e.display_text() {
            Some(s) => s,
            None => String::new(),
        },
        None => String::new(),
    };
    (start_text, end_text)
}

/// What identifies an announced event: its id, trimmed, and the key of its
/// start; `None` when either is empty.
pub open spec fn event_identity_spec(e: GoogleCalendarEvent) -> Option<(Seq<char>, Seq<char>)> {
    let id = match e.id {
        Some(v) => trim(v@),
        None => seq![],
    };
    let start = date_key(e.start);
    if id.len() == 0 || start.len() == 0 {
        None
    } else {
        Some((id, start))
    }
}

pub fn event_identity(event: &GoogleCalendarEvent) -> (r: Option<(String, String)>)
    ensures
        match r {
            Some((id, start)) => event_identity_spec(*event) == Some((id@, start@)),
            None => event_identity_spec(*event) is None,
        },
{
    let id = match &event.id {
        Some(v) => trim_str(v.as_str()),
        None => String::new(),
    };
    if id.as_str().is_empty() {
        return None;
    }
    let start = event.start.key();
    if start.as_str().is_empty() {
        return None;
    }
    Some((id, start))
}

/// The fields of an announcement: the calendar, the start and the end when
/// shown, and the location when not blank.
pub open spec fn event_fields(e: GoogleCalendarEvent, calendar_name: Seq<char>) -> Seq<
    (Seq<char>, Seq<char>, bool),
> {
    let a = seq![("日曆"@, calendar_name, true)];
    let b = if shown(Some(e.start)).len() > 0 {
        a.push(("開始"@, shown(Some(e.start)), true))
    } else {
        a
    };
    let c = if shown(e.end).len() > 0 {
        b.push(("結束"@, shown(e.end), true))
    } else {
        b
    };
    match e.location {
        Some(l) => if trim(l@).len() > 0 {
            c.push(("地點"@, l@, false))
        } else {
            c
        },
        None => c,
    }
}

/// The description: the event's, up to 400 characters, when not blank;
/// else a fixed note.
pub open spec fn event_description(e: GoogleCalendarEvent) -> Seq<char> {
    let d = match e.description {
        Some(v) => v@,
        None => seq![],
    };
    if trim(d).len() == 0 {
        "Google Calendar 活動通知"@
    } else if d.len() <= 400 {
        d
    } else {
        d.take(400)
    }
}

/// The announcement of an event, without its color.
pub open spec fn event_embed_matches(
    m: DiscordEmbedPayload,
    e: GoogleCalendarEvent,
    calendar: GoogleCalendarEntryConfig,
    color: u32,
) -> bool {
    &&& m.title@ == "📅 "@ + match e.summary {
        Some(s) => s@,
        None => "(無標題活動)"@,
    }
    &&& m.description@ == event_description(e)
    &&& m.url@ == match e.html_link {
        Some(s) => s@,
        None => seq![],
    }
    &&& m.color == color
    &&& fields_view(m.fields@) == event_fields(e, calendar.name@)
    &&& m.footer@ == calendar.calendar_id@
}

/// The announcement of an event for a target with the given embed color.
pub fn event_embed(
    event: &GoogleCalendarEvent,
    calendar: &GoogleCalendarEntryConfig,
    color: u32,
) -> (r: DiscordEmbedPayload)
    ensures
        event_embed_matches(r, *event, *calendar, color),
{
    let mut title: Vec<char> = Vec::new();
    push_str(&mut title, "📅 ");
    match &event.summary {
        Some(s) => push_str(&mut title, s.as_str()),
        None => push_str(&mut title, "(無標題活動)"),
    }
    let (start_text, end_text) = format_event_time_range(&event.start, &event.end);
    let mut fields: Vec<DiscordEmbedField> = Vec::new();
    fields.push(make_field("日曆", calendar.name.as_str(), true));
    let ghost f1 = fields_view(fields@);
    assert(f1 =~= seq![("日曆"@, calendar.name@, true)]);
    if !start_text.as_str().is_empty() {
        let ghost before = fields@;
        fields.push(make_field("開始", start_text.as_str(), true));
        assert(fields_view(fields@) =~= fields_view(before).push(("開始"@, start_text@, true)));
    }
    if !end_text.as_str().is_empty() {
        let ghost before = fields@;
        fields.push(make_field("結束", end_text.as_str(), true));
        assert(fields_view(fields@) =~= fields_view(before).push(("結束"@, end_text@, true)));
    }
    match &event.location {
        Some(l) => {
            if !trim_str(l.as_str()).as_str().is_empty() {
                let ghost before = fields@;
                fields.push(make_field("地點", l.as_str(), false));
                assert(fields_view(fields@) =~= fields_view(before).push(("地點"@, l@, false)));
            }
        },
        None => {},
    }
    let raw = match &event.description {
        Some(d) => d.clone(),
        None => String::new(),
    };
    let description = if trim_str(raw.as_str()).as_str().is_empty() {
        "Google Calendar 活動通知".to_owned()
    } else {
        let chars = chars_of(raw.as_str());
        if chars.len() <= 400 {
            raw
        } else {
            string_from_chars(vstd::slice::slice_subrange(chars.as_slice(), 0, 400))
        }
    };
    let url = match &event.html_link {
        Some(s) => s.clone(),
        None => String::new(),
    };
    DiscordEmbedPayload {
        title: string_from_chars(title.as_slice()),
        description,
        url,
        color,
        fields,
        footer: calendar.calendar_id.clone(),
    }
}

/// Where an announcement for a target goes.
pub fn delivery_target_of(target: &NotifyTarget) -> (r: DiscordDeliveryTarget)
    ensures
        r.channel_id == target.discord.channel_id,
        r.webhook_url@ == target.discord.webhook_url@,
        r.webhook_avatar_url@ == target.discord.webhook_avatar_url@,
{
    DiscordDeliveryTarget {
        channel_id: target.discord.channel_id,
        webhook_url: target.discord.webhook_url.clone(),
        webhook_avatar_url: target.discord.webhook_avatar_url.clone(),
    }
}

/// The name announcements are posted under.
pub const WEBHOOK_NAME: &'static str = "Calendar";

/// What is done with a listed event.
#[derive(Clone, Debug)]
pub enum CalendarPlan {
    /// Nothing: the event has no id or start, was announced already, or has
    /// no target.
    Skip,
    /// The event is announced to each target (by position, with its
    /// announcement), and remembered once any announcement went out.
    Announce { event_id: String, start_key: String, posts: Vec<(usize, DiscordEmbedPayload)> },
}

/// The plan for an event, given whether the store has seen it.
pub open spec fn calendar_plan_matches(
    p: CalendarPlan,
    e: GoogleCalendarEvent,
    calendar: GoogleCalendarEntryConfig,
    gcal: GoogleCalendarConfig,
    targets: Seq<(String, NotifyTarget)>,
    seen: bool,
) -> bool {
    match event_identity_spec(e) {
        None => p is Skip,
        Some((id, start)) => if seen || selected_spec(calendar, gcal, targets).len() == 0 {
            p is Skip
        } else {
            match p {
                CalendarPlan::Announce { event_id, start_key, posts } => {
                    let sel = selected_spec(calendar, gcal, targets);
                    &&& event_id@ == id
                    &&& start_key@ == start
                    &&& posts@.len() == sel.len()
                    &&& forall|k: int|
                        0 <= k < sel.len() ==> posts@[k].0 == sel[k] && event_embed_matches(
                            #[trigger] posts@[k].1,
                            e,
                            calendar,
                            targets[sel[k]].1.discord.embed_color,
                        )
                },
                CalendarPlan::Skip => false,
            }
        },
    }
}

/// What to do with a listed event. `seen` is whether the store already
/// holds it (asked with [`event_identity`]).
pub fn plan_calendar_event(
    event: &GoogleCalendarEvent,
    calendar: &GoogleCalendarEntryConfig,
    gcal: &GoogleCalendarConfig,
    targets: &Vec<(String, NotifyTarget)>,
    seen: bool,
) -> (r: CalendarPlan)
    ensures
        calendar_plan_matches(r, *event, *calendar, *gcal, targets@, seen),
{
    let (event_id, start_key) = match event_identity(event) {
        Some(x) => x,
        None => {
            return CalendarPlan::Skip;
        },
    };
    if seen {
        return CalendarPlan::Skip;
    }
    let selected = selected_notifications(calendar, gcal, targets);
    if selected.len() == 0 {
        assert(selected_spec(*calendar, *gcal, targets@).len() == 0);
        return CalendarPlan::Skip;
    }
    let ghost sel = selected_spec(*calendar, *gcal, targets@);
    proof {
        assert(selected@.map_values(|i: usize| i as int) == sel);
        assert(forall|k: int| 0 <= k < selected@.len() ==> #[trigger] sel[k] == selected@[k] as int);
        assert forall|m: int| 0 <= m < sel.len() implies 0 <= #[trigger] sel[m] < targets@.len() by {
            assert(sel[m] == selected@[m] as int);
        }
    }
    let mut posts: Vec<(usize, DiscordEmbedPayload)> = Vec::new();
    let mut k: usize = 0;
    while k < selected.len()
        invariant
            k <= selected@.len(),
            forall|m: int| 0 <= m < selected@.len() ==> #[trigger] selected@[m] < targets@.len(),
            posts@.len() == k,
            forall|m: int|
                0 <= m < k ==> (#[trigger] posts@[m]).0 == selected@[m] && event_embed_matches(
                    posts@[m].1,
                    *event,
                    *calendar,
                    targets@[selected@[m] as int].1.discord.embed_color,
                ),
        decreases selected@.len() - k,
    {
        let i = selected[k];
        let embed = event_embed(event, calendar, targets[i].1.discord.embed_color);
        posts.push((i, embed));
        k = k + 1;
    }
    assert forall|m: int| 0 <= m < sel.len() implies posts@[m].0 == sel[m] && event_embed_matches(
        #[trigger] posts@[m].1,
        *event,
        *calendar,
        targets@[sel[m]].1.discord.embed_color,
    ) by {
        assert(sel[m] == selected@[m] as int);
    }
    CalendarPlan::Announce { event_id, start_key, posts }
}

/// An event is remembered once any of its announcements went out.
pub fn should_mark_seen(delivered: &Vec<bool>) -> (r: bool)
    ensures
        r == delivered@.contains(true),
{
    let mut i: usize = 0;
    while i < delivered.len()
        invariant
            i <= delivered@.len(),
            forall|j: int| 0 <= j < i ==> !delivered@[j],
        decreases delivered@.len() - i,
    {
        if delivered[i] {
            assert(delivered@[i as int]);
            return true;
        }
        i = i + 1;
    }
    false
}

/// The key an event is remembered by: calendar id, event id and start.
pub open spec fn seen_key(calendar_id: Seq<char>, e: GoogleCalendarEvent) -> Option<
    (Seq<char>, Seq<char>, Seq<char>),
> {
    match event_identity_spec(e) {
        Some((id, start)) => Some((calendar_id, id, start)),
        None => None,
    }
}

/// The remembered events after a round: the event is added once any of its
/// announcements went out.
pub open spec fn store_after(
    store: Set<(Seq<char>, Seq<char>, Seq<char>)>,
    calendar_id: Seq<char>,
    e: GoogleCalendarEvent,
    delivered: Seq<bool>,
) -> Set<(Seq<char>, Seq<char>, Seq<char>)> {
    match seen_key(calendar_id, e) {
        Some(k) => if delivered.contains(true) {
            store.insert(k)
        } else {
            store
        },
        None => store,
    }
}

/// Whether the store holds an event.
pub open spec fn store_holds(
    store: Set<(Seq<char>, Seq<char>, Seq<char>)>,
    calendar_id: Seq<char>,
    e: GoogleCalendarEvent,
) -> bool {
    match seen_key(calendar_id, e) {
        Some(k) => store.contains(k),
        None => false,
    }
}

/// An event is announced at most once: after a round in which one of its
/// announcements went out, every later plan for the same event skips it.
pub proof fn law_announced_once(
    e: GoogleCalendarEvent,
    calendar: GoogleCalendarEntryConfig,
    gcal: GoogleCalendarConfig,
    targets: Seq<(String, NotifyTarget)>,
    store: Set<(Seq<char>, Seq<char>, Seq<char>)>,
    delivered: Seq<bool>,
    later: CalendarPlan,
)
    requires
        delivered.contains(true),
        calendar_plan_matches(
            later,
            e,
            calendar,
            gcal,
            targets,
            store_holds(store_after(store, calendar.calendar_id@, e, delivered), calendar.calendar_id@, e),
        ),
    ensures
        later is Skip,
{
}

} // verus!
