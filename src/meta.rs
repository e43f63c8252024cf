//! The metadata envelope: a day, and the items of each metric on that day.
use crate::error::DecodeError;
use crate::item::{decode_item, item_json, Item, ItemView};
use crate::json::{
    decimal, find_member, joined, json_string_literal, lemma_joined_push, member, push_decimal, push_string_literal,
    parse_json, parsed_json, JsonValue,
};
use crate::timestamp::{day_start, on_calendar, StartOfDayUnixTimestamp, UnixTimestamp};
use vstd::prelude::*;
use vstd::string::StringExecFns;

verus! {

/// Metric metadata collected on one UTC day.
#[derive(Clone, Debug)]
pub struct MetricMeta {
    /// The day that the metadata was collected on.
    pub timestamp: StartOfDayUnixTimestamp,
    /// The items of each metric, by metric identifier; an identifier occurs once.
    pub mapping: Vec<(String, Vec<Item>)>,
}

/// The envelope as mathematical values.
pub struct MetricMetaView {
    pub timestamp: nat,
    pub mapping: Seq<(Seq<char>, Seq<ItemView>)>,
}

/// Each item as mathematical values.
pub open spec fn items_view(v: Seq<Item>) -> Seq<ItemView> {
    v.map_values(|i: Item| i@)
}

/// Each entry of a mapping as mathematical values.
pub open spec fn mapping_view(v: Seq<(String, Vec<Item>)>) -> Seq<(Seq<char>, Seq<ItemView>)> {
    v.map_values(|e: (String, Vec<Item>)| (e.0@, items_view(e.1@)))
}

/// No two entries have the same key.
pub open spec fn keys_unique<V>(m: Seq<(Seq<char>, V)>) -> bool {
    forall|i: int, j: int| 0 <= i < j < m.len() ==> #[trigger] m[i].0 != #[trigger] m[j].0
}

impl View for MetricMeta {
    type V = MetricMetaView;

    open spec fn view(&self) -> MetricMetaView {
        MetricMetaView { timestamp: self.timestamp@, mapping: mapping_view(self.mapping@) }
    }
}

impl MetricMeta {
    /// Each metric identifier occurs once.
    pub open spec fn wf(&self) -> bool {
        keys_unique(self@.mapping)
    }

    /// The envelope of `mapping` on the day `timestamp`.
    pub fn new(timestamp: StartOfDayUnixTimestamp, mapping: Vec<(String, Vec<Item>)>) -> (r: Self)
        requires
            keys_unique(mapping_view(mapping@)),
        ensures
            r.wf(),
            r.timestamp == timestamp,
            r.mapping == mapping,
    {
        MetricMeta { timestamp, mapping }
    }
}

/// The items of an array, each decoded; `None` when it is no array or an item
/// is malformed.
pub open spec fn decode_items(v: JsonValue) -> Option<Seq<ItemView>> {
    match v {
        JsonValue::Array(items) => {
            if forall|j: int| 0 <= j < items@.len() ==> (#[trigger] decode_item(items@[j])) is Some {
                Some(items@.map_values(|x: JsonValue| decode_item(x)->Some_0))
            } else {
                None
            }
        },
        _ => None,
    }
}

/// The mapping that a JSON object describes: every member an array of items,
/// and no key twice.
pub open spec fn decode_mapping(v: Option<JsonValue>) -> Option<Seq<(Seq<char>, Seq<ItemView>)>> {
    match v {
        Some(JsonValue::Object(entries)) => {
            if (forall|j: int| 0 <= j < entries@.len() ==> (#[trigger] decode_items(entries@[j].1)) is Some)
                && keys_unique(entries@.map_values(|e: (String, JsonValue)| (e.0@, e.1))) {
                Some(entries@.map_values(|e: (String, JsonValue)| (e.0@, decode_items(e.1)->Some_0)))
            } else {
                None
            }
        },
        _ => None,
    }
}

/// The envelope that a JSON document describes. A structural fault anywhere is
/// `MalformedDocument`; a well-formed document whose timestamp has no calendar
/// date is `InvalidTimestamp`.
pub open spec fn decode_meta(v: JsonValue) -> Result<MetricMetaView, DecodeError> {
    match v {
        JsonValue::Object(m) => {
            match (member(m@, "timestamp"@), decode_mapping(member(m@, "mapping"@))) {
                (Some(JsonValue::UInt(n)), Some(mapping)) => {
                    if on_calendar(n as nat) {
                        Ok(MetricMetaView { timestamp: day_start(n as nat), mapping })
                    } else {
                        Err(DecodeError::InvalidTimestamp)
                    }
                },
                _ => Err(DecodeError::MalformedDocument),
            }
        },
        _ => Err(DecodeError::MalformedDocument),
    }
}

fn decode_item_array(v: &JsonValue) -> (r: Option<Vec<Item>>)
    ensures
        r is Some <==> decode_items(*v) is Some,
        r matches Some(its) ==> decode_items(*v) == Some(items_view(its@)),
{
    match v {
        JsonValue::Array(items) => {
            let mut out: Vec<Item> = Vec::new();
            let mut i: usize = 0;
            while i < items.len()
                invariant
                    0 <= i <= items.len(),
                    *v == JsonValue::Array(*items),
                    out@.len() == i,
                    forall|j: int| 0 <= j < i ==> (#[trigger] decode_item(items@[j])) is Some,
                    forall|j: int| 0 <= j < i ==> decode_item(items@[j]) == Some(#[trigger] out@[j]@),
                decreases items.len() - i,
            {
                match Item::from_json(&items[i]) {
                    Ok(it) => out.push(it),
                    Err(_) => {
                        assert(!(forall|j: int| 0 <= j < items@.len() ==> (#[trigger] decode_item(items@[j])) is Some));
                        return None;
                    },
                }
                i += 1;
            }
            assert(items_view(out@) =~= items@.map_values(|x: JsonValue| decode_item(x)->Some_0));
            Some(out)
        },
        _ => None,
    }
}

fn contains_key(m: &Vec<(String, Vec<Item>)>, key: &String) -> (r: bool)
    ensures
        r <==> exists|j: int| 0 <= j < m@.len() && (#[trigger] m@[j]).0@ == key@,
{
    let mut i: usize = 0;
    while i < m.len()
        invariant
            0 <= i <= m.len(),
            forall|j: int| 0 <= j < i ==> (#[trigger] m@[j]).0@ != key@,
        decreases m.len() - i,
    {
        if m[i].0 == *key {
            return true;
        }
        i += 1;
    }
    false
}

fn mapping_of(doc: &Vec<(String, JsonValue)>) -> (r: Option<Vec<(String, Vec<Item>)>>)
    ensures
        r is Some <==> decode_mapping(member(doc@, "mapping"@)) is Some,
        r matches Some(m) ==> decode_mapping(member(doc@, "mapping"@)) == Some(mapping_view(m@)),
        r matches Some(m) ==> keys_unique(mapping_view(m@)),
{
    match find_member(doc, "mapping") {
        Some(JsonValue::Object(entries)) => {
            let ghost keyed = entries@.map_values(|e: (String, JsonValue)| (e.0@, e.1));
            let mut out: Vec<(String, Vec<Item>)> = Vec::new();
            let mut i: usize = 0;
            while i < entries.len()
                invariant
                    0 <= i <= entries.len(),
                    member(doc@, "mapping"@) == Some(JsonValue::Object(*entries)),
                    keyed == entries@.map_values(|e: (String, JsonValue)| (e.0@, e.1)),
                    out@.len() == i,
                    forall|j: int| 0 <= j < i ==> (#[trigger] decode_items(entries@[j].1)) is Some,
                    forall|j: int| 0 <= j < i ==> (#[trigger] out@[j]).0@ == entries@[j].0@,
                    forall|j: int| 0 <= j < i ==> decode_items(entries@[j].1) == Some(items_view((#[trigger] out@[j]).1@)),
                    forall|a: int, b: int| 0 <= a < b < i ==> #[trigger] keyed[a].0 != #[trigger] keyed[b].0,
                decreases entries.len() - i,
            {
                let key = &entries[i].0;
                if contains_key(&out, key) {
                    proof {
                        let j = choose|j: int| 0 <= j < out@.len() && (#[trigger] out@[j]).0@ == key@;
                        assert(keyed[j].0 == keyed[i as int].0);
                        assert(!keys_unique(keyed));
                    }
                    return None;
                }
                assert forall|a: int| 0 <= a < i implies #[trigger] keyed[a].0 != keyed[i as int].0 by {
                    assert(out@[a].0@ == entries@[a].0@);
                }
                match decode_item_array(&entries[i].1) {
                    Some(items) => out.push((key.clone(), items)),
                    None => {
                        assert(!(forall|j: int| 0 <= j < entries@.len() ==> (#[trigger] decode_items(entries@[j].1)) is Some));
                        return None;
                    },
                }
                i += 1;
            }
            assert(mapping_view(out@) =~= entries@.map_values(|e: (String, JsonValue)| (e.0@, decode_items(e.1)->Some_0)));
            assert forall|a: int, b: int| 0 <= a < b < out@.len() implies #[trigger] mapping_view(out@)[a].0
                != #[trigger] mapping_view(out@)[b].0 by {
                assert(keyed[a].0 != keyed[b].0);
            }
            Some(out)
        },
        _ => None,
    }
}

impl MetricMeta {
    /// Decodes an envelope: the timestamp is truncated to the start of its day,
    /// and any fault fails the whole document.
    pub fn from_json(v: &JsonValue) -> (r: Result<MetricMeta, DecodeError>)
        ensures
            r matches Ok(m) ==> decode_meta(*v) == Ok::<MetricMetaView, DecodeError>(m@) && m.wf(),
            r matches Err(e) ==> decode_meta(*v) == Err::<MetricMetaView, DecodeError>(e),
    {
        match v {
            JsonValue::Object(m) => {
                let secs = match find_member(m, "timestamp") {
                    Some(JsonValue::UInt(n)) => *n,
                    _ => {
                        return Err(DecodeError::MalformedDocument);
                    },
                };
                let mapping = match mapping_of(m) {
                    Some(mapping) => mapping,
                    None => {
                        return Err(DecodeError::MalformedDocument);
                    },
                };
                match StartOfDayUnixTimestamp::new(UnixTimestamp::from_secs(secs)) {
                    Some(timestamp) => Ok(MetricMeta { timestamp, mapping }),
                    None => Err(DecodeError::InvalidTimestamp),
                }
            },
            _ => Err(DecodeError::MalformedDocument),
        }
    }
}

/// The items of one metric, as a JSON array.
pub open spec fn items_json(its: Seq<ItemView>) -> Seq<char> {
    seq!['['] + joined(its.map_values(|it: ItemView| item_json(it))) + seq![']']
}

/// One member of the mapping: the metric identifier and its items.
pub open spec fn entry_json(e: (Seq<char>, Seq<ItemView>)) -> Seq<char> {
    json_string_literal(e.0) + seq![':'] + items_json(e.1)
}

/// The mapping as a JSON object, in the order of its entries.
pub open spec fn mapping_json(m: Seq<(Seq<char>, Seq<ItemView>)>) -> Seq<char> {
    seq!['{'] + joined(m.map_values(|e: (Seq<char>, Seq<ItemView>)| entry_json(e))) + seq!['}']
}

/// The JSON text of an envelope.
pub open spec fn meta_json(m: MetricMetaView) -> Seq<char> {
    seq!['{'] + json_string_literal("timestamp"@) + seq![':'] + decimal(m.timestamp) + seq![','] + json_string_literal(
        "mapping"@,
    ) + seq![':'] + mapping_json(m.mapping) + seq!['}']
}

fn push_items(out: &mut String, its: &Vec<Item>)
    ensures
        final(out)@ == old(out)@ + items_json(items_view(its@)),
{
    proof {
        reveal_strlit("[");
        reveal_strlit("]");
    }
    out.append("[");
    let ghost start = out@;
    let ghost parts = items_view(its@).map_values(|it: ItemView| item_json(it));
    let mut i: usize = 0;
    while i < its.len()
        invariant
            0 <= i <= its.len(),
            parts == items_view(its@).map_values(|it: ItemView| item_json(it)),
            out@ == start + joined(parts.take(i as int)),
        decreases its.len() - i,
    {
        proof {
            reveal_strlit(",");
        }
        if i > 0 {
            out.append(",");
        }
        its[i].write_json(out);
        proof {
            assert(parts.take(i + 1) =~= parts.take(i as int).push(parts[i as int]));
            lemma_joined_push(parts.take(i as int), parts[i as int]);
            assert(out@ =~= start + joined(parts.take(i + 1)));
        }
        i += 1;
    }
    out.append("]");
    assert(parts.take(its@.len() as int) =~= parts);
    assert(final(out)@ =~= old(out)@ + items_json(items_view(its@)));
}

fn push_mapping(out: &mut String, m: &Vec<(String, Vec<Item>)>)
    ensures
        final(out)@ == old(out)@ + mapping_json(mapping_view(m@)),
{
    proof {
        reveal_strlit("{");
        reveal_strlit("}");
    }
    out.append("{");
    let ghost start = out@;
    let ghost parts = mapping_view(m@).map_values(|e: (Seq<char>, Seq<ItemView>)| entry_json(e));
    let mut i: usize = 0;
    while i < m.len()
        invariant
            0 <= i <= m.len(),
            parts == mapping_view(m@).map_values(|e: (Seq<char>, Seq<ItemView>)| entry_json(e)),
            out@ == start + joined(parts.take(i as int)),
        decreases m.len() - i,
    {
        proof {
            reveal_strlit(",");
            reveal_strlit(":");
        }
        if i > 0 {
            out.append(",");
        }
        push_string_literal(out, m[i].0.as_str());
        out.append(":");
        push_items(out, &m[i].1);
        proof {
            assert(parts.take(i + 1) =~= parts.take(i as int).push(parts[i as int]));
            lemma_joined_push(parts.take(i as int), parts[i as int]);
            assert(out@ =~= start + joined(parts.take(i + 1)));
        }
        i += 1;
    }
    out.append("}");
    assert(parts.take(m@.len() as int) =~= parts);
    assert(final(out)@ =~= old(out)@ + mapping_json(mapping_view(m@)));
}

impl MetricMeta {
    /// The JSON text of this envelope: the day as integer seconds, and the
    /// mapping in the order of its entries.
    pub fn to_json(&self) -> (r: String)
        requires
            self.wf(),
        ensures
            r@ == meta_json(self@),
    {
        proof {
            reveal_strlit("{");
            reveal_strlit("}");
            reveal_strlit(":");
            reveal_strlit(",");
        }
        let mut out = String::new();
        out.append("{");
        push_string_literal(&mut out, "timestamp");
        out.append(":");
        push_decimal(&mut out, self.timestamp.as_timestamp().as_secs());
        out.append(",");
        push_string_literal(&mut out, "mapping");
        out.append(":");
        push_mapping(&mut out, &self.mapping);
        out.append("}");
        assert(out@ =~= meta_json(self@));
        out
    }
}

impl MetricMeta {
    /// Parses JSON text and decodes the envelope in it. Text that is not JSON is
    /// a `MalformedDocument`; otherwise the result is that of `from_json` on the
    /// parsed value.
    pub fn from_json_text(text: &str) -> (r: Result<MetricMeta, DecodeError>)
        ensures
            parsed_json(text@) is None ==> r == Err::<MetricMeta, DecodeError>(DecodeError::MalformedDocument),
            parsed_json(text@) matches Some(v) ==> {
                &&& r matches Ok(m) ==> decode_meta(v) == Ok::<MetricMetaView, DecodeError>(m@) && m.wf()
                &&& r matches Err(e) ==> decode_meta(v) == Err::<MetricMetaView, DecodeError>(e)
            },
    {
        match parse_json(text) {
            Some(v) => MetricMeta::from_json(&v),
            None => Err(DecodeError::MalformedDocument),
        }
    }
}

impl MetricMeta {
    /// Whether each metric identifier occurs once, as `to_json` requires.
    pub fn has_unique_keys(&self) -> (r: bool)
        ensures
            r == self.wf(),
    {
        let mut i: usize = 0;
        while i < self.mapping.len()
            invariant
                0 <= i <= self.mapping.len(),
                forall|a: int, b: int| 0 <= a < b < i ==> #[trigger] mapping_view(self.mapping@)[a].0
                    != #[trigger] mapping_view(self.mapping@)[b].0,
            decreases self.mapping.len() - i,
        {
            let mut j: usize = 0;
            while j < i
                invariant
                    0 <= j <= i < self.mapping.len(),
                    forall|a: int| 0 <= a < j ==> #[trigger] mapping_view(self.mapping@)[a].0
                        != mapping_view(self.mapping@)[i as int].0,
                decreases i - j,
            {
                if self.mapping[j].0 == self.mapping[i].0 {
                    assert(mapping_view(self.mapping@)[j as int].0 == mapping_view(self.mapping@)[i as int].0);
                    return false;
                }
                j += 1;
            }
            i += 1;
        }
        true
    }
}

} // verus!
