//! Normalisation of Polymarket events: identifiers, titles, tags, dates and
//! status flags read defensively from the API's JSON.

use super::json::{as_i64_spec, scalar_text, JsonNumber, JsonValue};
use crate::rss::opt_view;
use crate::text::{
    i64_to_decimal, joined, lemma_trimmed_idempotent, lowercase_of, str_equal, string_views, to_lowercase, trim, trimmed,
    u64_to_decimal, join_strings,
};
use crate::time::{
    now_utc, parse_rfc3339, rfc3339_instant, utc_from_epoch_secs, Timestamp, MAX_EPOCH_SECS,
    MIN_EPOCH_SECS,
};
use vstd::prelude::*;
use vstd::string::StrSliceExecFns;

verus! {

/// The views of a list of keys.
pub open spec fn key_views(keys: Seq<&str>) -> Seq<Seq<char>> {
    keys.map_values(|k: &str| k@)
}

/// The first of `keys` under which `value` holds a string or a number, as
/// text.
pub open spec fn read_string_spec(value: JsonValue, keys: Seq<Seq<char>>) -> Option<Seq<char>>
    decreases keys.len(),
{
    if keys.len() == 0 {
        None
    } else {
        match value.get_spec(keys[0]) {
            Some(raw) => match scalar_text(raw) {
                Some(t) => Some(t),
                None => read_string_spec(value, keys.drop_first()),
            },
            None => read_string_spec(value, keys.drop_first()),
        }
    }
}

/// Reads the first of `keys` that holds a string or a number, as text.
pub fn read_string(value: &JsonValue, keys: &[&str]) -> (r: Option<String>)
    ensures
        opt_view(r) == read_string_spec(*value, key_views(keys@)),
{
    let ghost kv = key_views(keys@);
    assert(kv.skip(0) =~= kv);
    let mut i: usize = 0;
    while i < keys.len()
        invariant
            kv == key_views(keys@),
            i <= keys@.len(),
            read_string_spec(*value, kv) == read_string_spec(*value, kv.skip(i as int)),
        decreases keys@.len() - i,
    {
        let ghost rest = kv.skip(i as int);
        assert(rest[0] == keys@[i as int]@);
        assert(rest.drop_first() =~= kv.skip(i + 1));
        if let Some(raw) = value.get(keys[i]) {
            match raw {
                JsonValue::String(text) => {
                    return Some(text.clone());
                },
                JsonValue::Number(JsonNumber::PosInt(n)) => {
                    return Some(u64_to_decimal(*n));
                },
                JsonValue::Number(JsonNumber::NegInt(n)) => {
                    return Some(i64_to_decimal(*n));
                },
                JsonValue::Number(JsonNumber::Float(text)) => {
                    return Some(text.clone());
                },
                _ => {},
            }
        }
        i = i + 1;
    }
    assert(kv.skip(i as int).len() == 0);
    None
}

/// The instant a raw value names: an RFC 3339 string, or whole seconds since
/// the epoch within chrono's range.
pub open spec fn raw_datetime(raw: JsonValue) -> Option<Timestamp> {
    match raw {
        JsonValue::String(t) => rfc3339_instant(t@),
        _ => match as_i64_spec(raw) {
            Some(e) => if MIN_EPOCH_SECS <= e <= MAX_EPOCH_SECS {
                Some(Timestamp { secs: e, nanos: 0 })
            } else {
                None
            },
            None => None,
        },
    }
}

/// The first of `keys` under which `value` holds a readable instant.
pub open spec fn read_datetime_spec(value: JsonValue, keys: Seq<Seq<char>>) -> Option<Timestamp>
    decreases keys.len(),
{
    if keys.len() == 0 {
        None
    } else {
        match value.get_spec(keys[0]) {
            Some(raw) => match raw_datetime(raw) {
                Some(t) => Some(t),
                None => read_datetime_spec(value, keys.drop_first()),
            },
            None => read_datetime_spec(value, keys.drop_first()),
        }
    }
}

/// Reads the first of `keys` that holds an RFC 3339 date or an epoch second.
pub fn read_datetime(value: &JsonValue, keys: &[&str]) -> (r: Option<Timestamp>)
    ensures
        r == read_datetime_spec(*value, key_views(keys@)),
{
    let ghost kv = key_views(keys@);
    assert(kv.skip(0) =~= kv);
    let mut i: usize = 0;
    while i < keys.len()
        invariant
            kv == key_views(keys@),
            i <= keys@.len(),
            read_datetime_spec(*value, kv) == read_datetime_spec(*value, kv.skip(i as int)),
        decreases keys@.len() - i,
    {
        let ghost rest = kv.skip(i as int);
        assert(rest[0] == keys@[i as int]@);
        assert(rest.drop_first() =~= kv.skip(i + 1));
        if let Some(raw) = value.get(keys[i]) {
            if let JsonValue::String(text) = raw {
                if let Ok(t) = parse_rfc3339(text.as_str()) {
                    return Some(t);
                }
            }
            if let Some(epoch) = raw.as_i64() {
                if let Some(t) = utc_from_epoch_secs(epoch) {
                    return Some(t);
                }
            }
        }
        i = i + 1;
    }
    assert(kv.skip(i as int).len() == 0);
    None
}

/// A tag value as stored: trimmed and lowercased.
pub open spec fn normalized_tag(value: Seq<char>) -> Seq<char> {
    lowercase_of(trimmed(value))
}

/// Trims and lowercases a tag value.
pub fn normalize_tag_value(value: &str) -> (r: String)
    ensures
        r@ == normalized_tag(value@),
{
    to_lowercase(trim(value))
}

/// `values` with `value` appended unless it is already there.
pub open spec fn push_unique_spec(values: Seq<Seq<char>>, value: Seq<char>) -> Seq<Seq<char>> {
    if values.contains(value) {
        values
    } else {
        values.push(value)
    }
}

/// Appends `value` unless an equal string is already present.
pub fn push_unique(values: &mut Vec<String>, value: String)
    ensures
        string_views(final(values)@) == push_unique_spec(string_views(old(values)@), value@),
{
    let ghost views = string_views(values@);
    let mut j: usize = 0;
    while j < values.len()
        invariant
            views == string_views(values@),
            j <= values@.len(),
            forall|k: int| 0 <= k < j ==> values@[k]@ != value@,
        decreases values@.len() - j,
    {
        if str_equal(values[j].as_str(), value.as_str()) {
            assert(views[j as int] == value@);
            return;
        }
        j = j + 1;
    }
    assert(!views.contains(value@)) by {
        if views.contains(value@) {
            let k = choose|k: int| 0 <= k < views.len() && views[k] == value@;
            assert(values@[k]@ == value@);
        }
    }
    values.push(value);
    assert(string_views(values@) =~= views.push(value@));
}

/// The stored form of a tag list: none when empty, else its entries joined
/// by `", "`.
pub open spec fn join_tags_spec(values: Seq<Seq<char>>) -> Option<Seq<char>> {
    if values.len() == 0 {
        None
    } else {
        Some(joined(values, ", "@))
    }
}

/// Joins a tag list with `", "`; an empty list gives none.
pub fn join_tag_values(values: Vec<String>) -> (r: Option<String>)
    ensures
        opt_view(r) == join_tags_spec(string_views(values@)),
{
    if values.len() == 0 {
        None
    } else {
        Some(join_strings(&values, ", "))
    }
}

/// A tag's normalised slug and label, when present.
pub type TagPairView = (Option<Seq<char>>, Option<Seq<char>>);

/// The slugs, combined tags and labels gathered from a sequence of tags:
/// each non-empty slug and label is added once, in order of first
/// appearance; the combined list takes both.
pub open spec fn tag_lists(pairs: Seq<TagPairView>) -> (
    Seq<Seq<char>>,
    Seq<Seq<char>>,
    Seq<Seq<char>>,
)
    decreases pairs.len(),
{
    if pairs.len() == 0 {
        (Seq::empty(), Seq::empty(), Seq::empty())
    } else {
        let (slugs, tags, labels) = tag_lists(pairs.drop_last());
        let (slug, label) = pairs.last();
        let take_slug = slug is Some && slug->0.len() > 0;
        let slugs1 = if take_slug {
            push_unique_spec(slugs, slug->0)
        } else {
            slugs
        };
        let tags1 = if take_slug {
            push_unique_spec(tags, slug->0)
        } else {
            tags
        };
        let take_label = label is Some && label->0.len() > 0;
        let labels2 = if take_label {
            push_unique_spec(labels, label->0)
        } else {
            labels
        };
        let tags2 = if take_label {
            push_unique_spec(tags1, label->0)
        } else {
            tags1
        };
        (slugs1, tags2, labels2)
    }
}

/// The stored slugs, tags and labels of a sequence of tags.
pub open spec fn tags_summary(pairs: Seq<TagPairView>) -> (
    Option<Seq<char>>,
    Option<Seq<char>>,
    Option<Seq<char>>,
) {
    let (slugs, tags, labels) = tag_lists(pairs);
    (join_tags_spec(slugs), join_tags_spec(tags), join_tags_spec(labels))
}

/// The views of normalised tag pairs.
pub open spec fn pair_views(pairs: Seq<(Option<String>, Option<String>)>) -> Seq<TagPairView> {
    pairs.map_values(|p: (Option<String>, Option<String>)| (opt_view(p.0), opt_view(p.1)))
}

/// Gathers the slugs, combined tags and labels of a list of (normalised)
/// tags and joins each list.
pub fn collect_tags(pairs: &Vec<(Option<String>, Option<String>)>) -> (r: (
    Option<String>,
    Option<String>,
    Option<String>,
))
    ensures
        (opt_view(r.0), opt_view(r.1), opt_view(r.2)) == tags_summary(pair_views(pairs@)),
{
    let ghost pv = pair_views(pairs@);
    let mut slugs: Vec<String> = Vec::new();
    let mut labels: Vec<String> = Vec::new();
    let mut tags: Vec<String> = Vec::new();
    let mut i: usize = 0;
    while i < pairs.len()
        invariant
            pv == pair_views(pairs@),
            i <= pairs@.len(),
            (string_views(slugs@), string_views(tags@), string_views(labels@)) == tag_lists(
                pv.take(i as int),
            ),
        decreases pairs@.len() - i,
    {
        assert(pv.take(i + 1).drop_last() =~= pv.take(i as int));
        let (slug, label) = &pairs[i];
        if let Some(value) = slug {
            if value.as_str().unicode_len() > 0 {
                push_unique(&mut slugs, value.clone());
                push_unique(&mut tags, value.clone());
            }
        }
        if let Some(value) = label {
            if value.as_str().unicode_len() > 0 {
                push_unique(&mut labels, value.clone());
                push_unique(&mut tags, value.clone());
            }
        }
        i = i + 1;
    }
    assert(pv.take(pairs@.len() as int) =~= pv);
    (join_tag_values(slugs), join_tag_values(tags), join_tag_values(labels))
}

/// A value's normalised tag text, when present.
pub open spec fn normalized_opt(v: Option<Seq<char>>) -> Option<Seq<char>> {
    match v {
        Some(t) => Some(normalized_tag(t)),
        None => None,
    }
}

/// The normalised slug and label of one tag object.
pub open spec fn tag_pair_of(tag: JsonValue) -> TagPairView {
    (
        normalized_opt(read_string_spec(tag, seq!["slug"@])),
        normalized_opt(read_string_spec(tag, seq!["label"@])),
    )
}

/// The normalised slugs and labels of an event's `tags` list.
pub open spec fn event_tag_pairs(event: JsonValue) -> Seq<TagPairView> {
    match event.get_spec("tags"@) {
        Some(JsonValue::Array(a)) => a@.map_values(|t: JsonValue| tag_pair_of(t)),
        _ => Seq::empty(),
    }
}

fn read_normalized(tag: &JsonValue, key: &str) -> (r: Option<String>)
    ensures
        opt_view(r) == normalized_opt(read_string_spec(*tag, seq![key@])),
{
    let keys = [key];
    assert(key_views(keys@) =~= seq![key@]);
    match read_string(tag, &keys) {
        Some(value) => Some(normalize_tag_value(value.as_str())),
        None => None,
    }
}

/// The stored slugs, combined tags and labels of an event.
pub fn extract_event_tags(event: &JsonValue) -> (r: (Option<String>, Option<String>, Option<String>))
    ensures
        (opt_view(r.0), opt_view(r.1), opt_view(r.2)) == tags_summary(event_tag_pairs(*event)),
{
    let mut pairs: Vec<(Option<String>, Option<String>)> = Vec::new();
    let ghost mut expected: Seq<TagPairView> = Seq::empty();
    if let Some(tag_values) = event.get("tags") {
        if let Some(tag_values) = tag_values.as_array() {
            let ghost all = tag_values@.map_values(|t: JsonValue| tag_pair_of(t));
            let mut i: usize = 0;
            while i < tag_values.len()
                invariant
                    all == tag_values@.map_values(|t: JsonValue| tag_pair_of(t)),
                    i <= tag_values@.len(),
                    pair_views(pairs@) == all.take(i as int),
                decreases tag_values@.len() - i,
            {
                let tag = &tag_values[i];
                let slug = read_normalized(tag, "slug");
                let label = read_normalized(tag, "label");
                let ghost pair = (opt_view(slug), opt_view(label));
                assert(pair == tag_pair_of(tag_values@[i as int]));
                assert(all[i as int] == pair);
                let ghost before = pairs@;
                pairs.push((slug, label));
                assert(pair_views(pairs@) =~= pair_views(before).push(pair));
                assert(all.take(i + 1) =~= all.take(i as int).push(pair));
                i = i + 1;
            }
            assert(all.take(tag_values@.len() as int) =~= all);
        }
    }
    proof {
        if !(event.get_spec("tags"@) matches Some(JsonValue::Array(_))) {
            assert(pair_views(pairs@) =~= Seq::<TagPairView>::empty());
        }
    }
    collect_tags(&pairs)
}

/// A Polymarket event as stored.
pub struct EventInfo {
    pub event_id: String,
    pub title: Option<String>,
    pub tag_slugs: Option<String>,
    pub tags: Option<String>,
    pub tag_labels: Option<String>,
    pub end_date: Option<Timestamp>,
    pub active: bool,
    pub closed: bool,
    pub created_at: Timestamp,
    pub updated_at: Timestamp,
}

/// What an event record says, as character sequences.
pub struct EventInfoView {
    pub event_id: Seq<char>,
    pub title: Option<Seq<char>>,
    pub tag_slugs: Option<Seq<char>>,
    pub tags: Option<Seq<char>>,
    pub tag_labels: Option<Seq<char>>,
    pub end_date: Option<Timestamp>,
    pub active: bool,
    pub closed: bool,
    pub created_at: Timestamp,
    pub updated_at: Timestamp,
}

impl View for EventInfo {
    type V = EventInfoView;

    open spec fn view(&self) -> EventInfoView {
        EventInfoView {
            event_id: self.event_id@,
            title: opt_view(self.title),
            tag_slugs: opt_view(self.tag_slugs),
            tags: opt_view(self.tags),
            tag_labels: opt_view(self.tag_labels),
            end_date: self.end_date,
            active: self.active,
            closed: self.closed,
            created_at: self.created_at,
            updated_at: self.updated_at,
        }
    }
}

/// A boolean flag of an event, with its default when absent or not boolean.
pub open spec fn flag_spec(event: JsonValue, key: Seq<char>, default: bool) -> bool {
    match event.get_spec(key) {
        Some(JsonValue::Bool(b)) => b,
        _ => default,
    }
}

/// The record of an event; `created_fallback` and `updated_fallback` stand
/// in for the creation and update dates when the event gives none.
pub open spec fn event_info_spec(
    event: JsonValue,
    created_fallback: Timestamp,
    updated_fallback: Timestamp,
) -> EventInfoView {
    let tags = tags_summary(event_tag_pairs(event));
    EventInfoView {
        event_id: match read_string_spec(event, seq!["id"@, "eventId"@, "event_id"@]) {
            Some(id) => id,
            None => Seq::empty(),
        },
        title: read_string_spec(event, seq!["title"@, "name"@]),
        tag_slugs: tags.0,
        tags: tags.1,
        tag_labels: tags.2,
        end_date: read_datetime_spec(event, seq!["endDate"@, "end_date"@]),
        active: flag_spec(event, "active"@, true),
        closed: flag_spec(event, "closed"@, false),
        created_at: match read_datetime_spec(event, seq!["createdAt"@, "creationDate"@]) {
            Some(t) => t,
            None => created_fallback,
        },
        updated_at: match read_datetime_spec(event, seq!["updatedAt"@]) {
            Some(t) => t,
            None => updated_fallback,
        },
    }
}

fn read_flag(event: &JsonValue, key: &str, default: bool) -> (b: bool)
    ensures
        b == flag_spec(*event, key@, default),
{
    match event.get(key) {
        Some(v) => match v.as_bool() {
            Some(b) => b,
            None => default,
        },
        None => default,
    }
}

fn build_event_info(event: &JsonValue, created_fallback: Timestamp, updated_fallback: Timestamp)
    -> (info: EventInfo)
    ensures
        info@ == event_info_spec(*event, created_fallback, updated_fallback),
{
    let (tag_slugs, tags, tag_labels) = extract_event_tags(event);
    let id_keys = ["id", "eventId", "event_id"];
    assert(key_views(id_keys@) =~= seq!["id"@, "eventId"@, "event_id"@]);
    let title_keys = ["title", "name"];
    assert(key_views(title_keys@) =~= seq!["title"@, "name"@]);
    let end_keys = ["endDate", "end_date"];
    assert(key_views(end_keys@) =~= seq!["endDate"@, "end_date"@]);
    let created_keys = ["createdAt", "creationDate"];
    assert(key_views(created_keys@) =~= seq!["createdAt"@, "creationDate"@]);
    let updated_keys = ["updatedAt"];
    assert(key_views(updated_keys@) =~= seq!["updatedAt"@]);
    let event_id = match read_string(event, &id_keys) {
        Some(id) => id,
        None => String::new(),
    };
    EventInfo {
        event_id,
        title: read_string(event, &title_keys),
        tag_slugs,
        tags,
        tag_labels,
        end_date: read_datetime(event, &end_keys),
        active: read_flag(event, "active", true),
        closed: read_flag(event, "closed", false),
        created_at: match read_datetime(event, &created_keys) {
            Some(t) => t,
            None => created_fallback,
        },
        updated_at: match read_datetime(event, &updated_keys) {
            Some(t) => t,
            None => updated_fallback,
        },
    }
}

/// The record of an event, with `now` standing in for missing creation and
/// update dates.
pub fn extract_event_info_at(event: &JsonValue, now: Timestamp) -> (info: EventInfo)
    ensures
        info@ == event_info_spec(*event, now, now),
{
    build_event_info(event, now, now)
}

/// The record of an event; missing creation and update dates are taken from
/// the clock.
pub fn extract_event_info(event: &JsonValue) -> (info: EventInfo)
    ensures
        exists|created: Timestamp, updated: Timestamp|
            info@ == #[trigger] event_info_spec(*event, created, updated),
{
    let created = now_utc();
    let updated = now_utc();
    build_event_info(event, created, updated)
}

impl EventInfo {
    /// Whether the event has an identifier, without which it is skipped.
    pub fn has_id(&self) -> (b: bool)
        ensures
            b == (self.event_id@.len() > 0),
    {
        self.event_id.as_str().unicode_len() > 0
    }
}

/// Every entry of the list is non-empty, and no entry occurs twice.
pub open spec fn clean_list(values: Seq<Seq<char>>) -> bool {
    &&& values.no_duplicates()
    &&& forall|k: int| 0 <= k < values.len() ==> (#[trigger] values[k]).len() > 0
}

proof fn lemma_push_unique_clean(values: Seq<Seq<char>>, value: Seq<char>)
    requires
        clean_list(values),
        value.len() > 0,
    ensures
        clean_list(push_unique_spec(values, value)),
        push_unique_spec(values, value).contains(value),
        forall|x: Seq<char>| values.contains(x) ==> #[trigger] push_unique_spec(values, value).contains(x),
{
    if !values.contains(value) {
        let r = values.push(value);
        assert(r[values.len() as int] == value);
        assert forall|x: Seq<char>| values.contains(x) implies #[trigger] r.contains(x) by {
            let k = choose|k: int| 0 <= k < values.len() && values[k] == x;
            assert(r[k] == x);
        }
    }
}

/// Tags are stored normalised and deduplicated: each of the slug, tag and
/// label lists holds only non-empty values, none twice, and every non-empty
/// slug (label) of the event is in the slug (label) list and in the tag list.
pub proof fn lemma_tag_lists_deduplicated(pairs: Seq<TagPairView>)
    ensures
        clean_list(tag_lists(pairs).0),
        clean_list(tag_lists(pairs).1),
        clean_list(tag_lists(pairs).2),
        forall|k: int|
            0 <= k < pairs.len() && (#[trigger] pairs[k]).0 is Some && pairs[k].0->0.len() > 0
                ==> tag_lists(pairs).0.contains(pairs[k].0->0) && tag_lists(pairs).1.contains(
                pairs[k].0->0,
            ),
        forall|k: int|
            0 <= k < pairs.len() && (#[trigger] pairs[k]).1 is Some && pairs[k].1->0.len() > 0
                ==> tag_lists(pairs).2.contains(pairs[k].1->0) && tag_lists(pairs).1.contains(
                pairs[k].1->0,
            ),
    decreases pairs.len(),
{
    if pairs.len() > 0 {
        let prefix = pairs.drop_last();
        lemma_tag_lists_deduplicated(prefix);
        let (slugs, tags, labels) = tag_lists(prefix);
        let (slug, label) = pairs.last();
        let take_slug = slug is Some && slug->0.len() > 0;
        let slugs1 = if take_slug {
            push_unique_spec(slugs, slug->0)
        } else {
            slugs
        };
        let tags1 = if take_slug {
            push_unique_spec(tags, slug->0)
        } else {
            tags
        };
        let take_label = label is Some && label->0.len() > 0;
        if take_slug {
            lemma_push_unique_clean(slugs, slug->0);
            lemma_push_unique_clean(tags, slug->0);
        }
        if take_label {
            lemma_push_unique_clean(labels, label->0);
            lemma_push_unique_clean(tags1, label->0);
        }
        assert forall|k: int|
            0 <= k < pairs.len() && (#[trigger] pairs[k]).0 is Some && pairs[k].0->0.len() > 0
                implies tag_lists(pairs).0.contains(pairs[k].0->0) && tag_lists(pairs).1.contains(
            pairs[k].0->0,
        ) by {
            if k < prefix.len() {
                assert(prefix[k] == pairs[k]);
            }
        }
        assert forall|k: int|
            0 <= k < pairs.len() && (#[trigger] pairs[k]).1 is Some && pairs[k].1->0.len() > 0
                implies tag_lists(pairs).2.contains(pairs[k].1->0) && tag_lists(pairs).1.contains(
            pairs[k].1->0,
        ) by {
            if k < prefix.len() {
                assert(prefix[k] == pairs[k]);
            }
        }
    }
}

/// An event record takes each field from the API's keys: the identifier
/// from `id` (else `eventId`, else `event_id`), the title from `title` (else
/// `name`), the end date from `endDate` (else `end_date`), the creation date
/// from `createdAt` (else `creationDate`), the update date from `updatedAt`,
/// the flags from `active` and `closed`; missing dates fall back to the given
/// instants, a missing `active` counts as true and a missing `closed` as
/// false.
pub proof fn lemma_event_fields_from_keys(
    event: JsonValue,
    created: Timestamp,
    updated: Timestamp,
    s: String,
    t: Timestamp,
)
    ensures
        event.get_spec("id"@) == Some(JsonValue::String(s)) ==> event_info_spec(
            event,
            created,
            updated,
        ).event_id == s@,
        event.get_spec("id"@) is None && event.get_spec("eventId"@) == Some(JsonValue::String(s))
            ==> event_info_spec(event, created, updated).event_id == s@,
        event.get_spec("id"@) is None && event.get_spec("eventId"@) is None && event.get_spec(
            "event_id"@,
        ) is None ==> event_info_spec(event, created, updated).event_id.len() == 0,
        event.get_spec("title"@) == Some(JsonValue::String(s)) ==> event_info_spec(
            event,
            created,
            updated,
        ).title == Some(s@),
        event.get_spec("title"@) is None && event.get_spec("name"@) == Some(JsonValue::String(s))
            ==> event_info_spec(event, created, updated).title == Some(s@),
        event.get_spec("endDate"@) == Some(JsonValue::String(s)) && rfc3339_instant(s@) == Some(t)
            ==> event_info_spec(event, created, updated).end_date == Some(t),
        event.get_spec("endDate"@) is None && event.get_spec("end_date"@) == Some(
            JsonValue::String(s),
        ) && rfc3339_instant(s@) == Some(t) ==> event_info_spec(event, created, updated).end_date
            == Some(t),
        event.get_spec("endDate"@) is None && event.get_spec("end_date"@) is None
            ==> event_info_spec(event, created, updated).end_date is None,
        event.get_spec("createdAt"@) == Some(JsonValue::String(s)) && rfc3339_instant(s@) == Some(
            t,
        ) ==> event_info_spec(event, created, updated).created_at == t,
        event.get_spec("createdAt"@) is None && event.get_spec("creationDate"@) == Some(
            JsonValue::String(s),
        ) && rfc3339_instant(s@) == Some(t) ==> event_info_spec(event, created, updated).created_at
            == t,
        event.get_spec("createdAt"@) is None && event.get_spec("creationDate"@) is None
            ==> event_info_spec(event, created, updated).created_at == created,
        event.get_spec("updatedAt"@) == Some(JsonValue::String(s)) && rfc3339_instant(s@) == Some(
            t,
        ) ==> event_info_spec(event, created, updated).updated_at == t,
        event.get_spec("updatedAt"@) is None ==> event_info_spec(event, created, updated).updated_at
            == updated,
        forall|b: bool|
            event.get_spec("active"@) == Some(JsonValue::Bool(b)) ==> event_info_spec(
                event,
                created,
                updated,
            ).active == b,
        event.get_spec("active"@) is None ==> event_info_spec(event, created, updated).active,
        forall|b: bool|
            event.get_spec("closed"@) == Some(JsonValue::Bool(b)) ==> event_info_spec(
                event,
                created,
                updated,
            ).closed == b,
        event.get_spec("closed"@) is None ==> !event_info_spec(event, created, updated).closed,
{
    reveal_with_fuel(read_string_spec, 4);
    reveal_with_fuel(read_datetime_spec, 3);
    let id_keys = seq!["id"@, "eventId"@, "event_id"@];
    assert(id_keys.drop_first() =~= seq!["eventId"@, "event_id"@]);
    assert(id_keys.drop_first().drop_first() =~= seq!["event_id"@]);
    assert(id_keys.drop_first().drop_first().drop_first() =~= Seq::<Seq<char>>::empty());
    let title_keys = seq!["title"@, "name"@];
    assert(title_keys.drop_first() =~= seq!["name"@]);
    let end_keys = seq!["endDate"@, "end_date"@];
    assert(end_keys.drop_first() =~= seq!["end_date"@]);
    assert(end_keys.drop_first().drop_first() =~= Seq::<Seq<char>>::empty());
    let created_keys = seq!["createdAt"@, "creationDate"@];
    assert(created_keys.drop_first() =~= seq!["creationDate"@]);
    assert(created_keys.drop_first().drop_first() =~= Seq::<Seq<char>>::empty());
    let updated_keys = seq!["updatedAt"@];
    assert(updated_keys.drop_first() =~= Seq::<Seq<char>>::empty());
    assert(seq!["name"@].drop_first() =~= Seq::<Seq<char>>::empty());
}

/// Tags are matched after trimming: surrounding whitespace never changes a
/// stored tag, and a tag is the lowercase form of its trimmed text.
pub proof fn lemma_tag_ignores_surrounding_whitespace(v: Seq<char>)
    ensures
        normalized_tag(v) == normalized_tag(trimmed(v)),
        normalized_tag(v) == lowercase_of(trimmed(v)),
{
    lemma_trimmed_idempotent(v);
}

/// A tag list is stored as its entries separated by a comma and a space,
/// and an empty list is not stored.
pub proof fn lemma_tag_list_separator(a: Seq<char>, b: Seq<char>, c: Seq<char>)
    ensures
        join_tags_spec(Seq::empty()) is None,
        join_tags_spec(seq![a]) == Some(a),
        join_tags_spec(seq![a, b]) == Some(a + ", "@ + b),
        join_tags_spec(seq![a, b, c]) == Some(a + ", "@ + b + ", "@ + c),
{
    assert(seq![a, b].drop_last() =~= seq![a]);
    assert(seq![a, b, c].drop_last() =~= seq![a, b]);
    assert(seq![a, b].drop_last().drop_last() =~= Seq::<Seq<char>>::empty());
}

/// Two tags with a slug and a label each: the slugs, the labels, and all of
/// them in order of appearance (slug before label), each once.
pub proof fn lemma_two_tags_summary(s1: Seq<char>, l1: Seq<char>, s2: Seq<char>, l2: Seq<char>)
    requires
        s1.len() > 0 && l1.len() > 0 && s2.len() > 0 && l2.len() > 0,
        s1 != l1 && s1 != s2 && s1 != l2 && l1 != s2 && l1 != l2 && s2 != l2,
    ensures
        tags_summary(seq![(Some(s1), Some(l1)), (Some(s2), Some(l2))]) == (
            Some(s1 + ", "@ + s2),
            Some(s1 + ", "@ + l1 + ", "@ + s2 + ", "@ + l2),
            Some(l1 + ", "@ + l2),
        ),
        tags_summary(seq![(Some(s1), Some(l1)), (Some(s1), Some(l1))]) == (
            Some(s1),
            Some(s1 + ", "@ + l1),
            Some(l1),
        ),
{
    let p = seq![(Some(s1), Some(l1)), (Some(s2), Some(l2))];
    assert(p.drop_last() =~= seq![(Some(s1), Some(l1))]);
    assert(p.drop_last().drop_last() =~= Seq::<TagPairView>::empty());
    let q = seq![(Some(s1), Some(l1)), (Some(s1), Some(l1))];
    assert(q.drop_last() =~= seq![(Some(s1), Some(l1))]);
    let e = Seq::<Seq<char>>::empty();
    assert(e.push(s1) =~= seq![s1]);
    assert(e.push(l1) =~= seq![l1]);
    assert(seq![s1].push(l1) =~= seq![s1, l1]);
    assert(!seq![s1].contains(s2)) by {
        if seq![s1].contains(s2) {
            let i = choose|i: int| 0 <= i < 1 && seq![s1][i] == s2;
        }
    }
    assert(!seq![l1].contains(l2)) by {
        if seq![l1].contains(l2) {
            let i = choose|i: int| 0 <= i < 1 && seq![l1][i] == l2;
        }
    }
    assert(!seq![s1, l1].contains(s2)) by {
        if seq![s1, l1].contains(s2) {
            let i = choose|i: int| 0 <= i < 2 && seq![s1, l1][i] == s2;
        }
    }
    assert(seq![s1].push(s2) =~= seq![s1, s2]);
    assert(seq![l1].push(l2) =~= seq![l1, l2]);
    assert(seq![s1, l1].push(s2) =~= seq![s1, l1, s2]);
    assert(!seq![s1, l1, s2].contains(l2)) by {
        if seq![s1, l1, s2].contains(l2) {
            let i = choose|i: int| 0 <= i < 3 && seq![s1, l1, s2][i] == l2;
        }
    }
    assert(seq![s1, l1, s2].push(l2) =~= seq![s1, l1, s2, l2]);
    assert(seq![s1].contains(s1)) by { assert(seq![s1][0] == s1); }
    assert(seq![l1].contains(l1)) by { assert(seq![l1][0] == l1); }
    assert(seq![s1, l1].contains(s1)) by { assert(seq![s1, l1][0] == s1); }
    assert(seq![s1, l1].contains(l1)) by { assert(seq![s1, l1][1] == l1); }
    let one = seq![(Some(s1), Some(l1))];
    assert(one.drop_last() =~= Seq::<TagPairView>::empty());
    assert(one.last() == (Some(s1), Some(l1)));
    assert(tag_lists(Seq::<TagPairView>::empty()) == (e, e, e));
    assert(tag_lists(one) == (seq![s1], seq![s1, l1], seq![l1]));
    assert(p.last() == (Some(s2), Some(l2)));
    assert(tag_lists(p) == (seq![s1, s2], seq![s1, l1, s2, l2], seq![l1, l2]));
    assert(q.last() == (Some(s1), Some(l1)));
    assert(tag_lists(q) == (seq![s1], seq![s1, l1], seq![l1]));
    let four = seq![s1, l1, s2, l2];
    assert(four.drop_last() =~= seq![s1, l1, s2]);
    assert(seq![s1, l1, s2].drop_last() =~= seq![s1, l1]);
    assert(seq![s1, l1].drop_last() =~= seq![s1]);
    assert(seq![s1, s2].drop_last() =~= seq![s1]);
    assert(seq![l1, l2].drop_last() =~= seq![l1]);
    assert(seq![s1, s2].last() == s2);
    assert(joined(seq![s1], ", "@) == s1);
    assert(joined(seq![s1, s2], ", "@) == s1 + ", "@ + s2);
    assert(seq![l1, l2].last() == l2);
    assert(joined(seq![l1], ", "@) == l1);
    assert(joined(seq![l1, l2], ", "@) == l1 + ", "@ + l2);
    assert(joined(seq![s1, l1], ", "@) == s1 + ", "@ + l1);
    assert(joined(seq![s1, l1, s2], ", "@) == s1 + ", "@ + l1 + ", "@ + s2);
    assert(joined(four, ", "@) == s1 + ", "@ + l1 + ", "@ + s2 + ", "@ + l2);
}

/// An event's tags are the entries of its `tags` array, in order, each
/// read from its `slug` and `label` members, trimmed and lowercased; an
/// event without a `tags` array has none.
pub proof fn lemma_event_tags_from_keys(event: JsonValue, tags: Vec<JsonValue>, k: int)
    ensures
        event.get_spec("tags"@) == Some(JsonValue::Array(tags)) ==> event_tag_pairs(event).len()
            == tags@.len(),
        event.get_spec("tags"@) == Some(JsonValue::Array(tags)) && 0 <= k < tags@.len()
            ==> event_tag_pairs(event)[k] == (
            normalized_opt(read_string_spec(tags@[k], seq!["slug"@])),
            normalized_opt(read_string_spec(tags@[k], seq!["label"@])),
        ),
        !(event.get_spec("tags"@) matches Some(JsonValue::Array(_))) ==> event_tag_pairs(
            event,
        ).len() == 0,
        forall|s: String|
            tags@.len() > 0 && (#[trigger] tags@[0].get_spec("slug"@)) == Some(JsonValue::String(s))
                ==> read_string_spec(tags@[0], seq!["slug"@]) == Some(s@),
{
}

} // verus!
