//! Metadata items: code locations, and a catch-all for item kinds that this
//! library does not know.
use crate::error::DecodeError;
use crate::json::{decimal, find_member, joined, lemma_joined_push, lemma_plain_escaped, parse_json, parsed_json, json_string_literal, member, push_decimal, push_string_literal, JsonValue};
use vstd::prelude::*;
use vstd::string::StringExecFns;

verus! {

/// A code location.
#[derive(Clone, Debug, PartialEq, Eq, Hash)]
pub struct Location {
    /// The relative file path.
    pub filename: Option<String>,
    /// The absolute file path.
    pub abs_path: Option<String>,
    /// The containing module name or path.
    pub module: Option<String>,
    /// The containing function name.
    pub function: Option<String>,
    /// The line number.
    pub lineno: Option<u64>,
    /// Source code leading up to `lineno`; a missing line is `None`.
    pub pre_context: Vec<Option<String>>,
    /// Source code of the current line (`lineno`).
    pub context_line: Option<String>,
    /// Source code of the lines after `lineno`; a missing line is `None`.
    pub post_context: Vec<Option<String>>,
}

/// A metadata item.
#[derive(Clone, Debug)]
pub enum Item {
    /// Points to the code location where the metric originates from.
    Location(Location),
    /// An item of a kind that this library does not know.
    Unknown,
}

/// A location as mathematical values.
pub struct LocationView {
    pub filename: Option<Seq<char>>,
    pub abs_path: Option<Seq<char>>,
    pub module: Option<Seq<char>>,
    pub function: Option<Seq<char>>,
    pub lineno: Option<u64>,
    pub pre_context: Seq<Option<Seq<char>>>,
    pub context_line: Option<Seq<char>>,
    pub post_context: Seq<Option<Seq<char>>>,
}

/// An item as mathematical values.
pub enum ItemView {
    Location(LocationView),
    Unknown,
}

/// The characters of an optional string.
pub open spec fn text_view(o: Option<String>) -> Option<Seq<char>> {
    match o {
        Some(s) => Some(s@),
        None => None,
    }
}

/// The characters of each line of a context.
pub open spec fn lines_view(v: Seq<Option<String>>) -> Seq<Option<Seq<char>>> {
    v.map_values(|o: Option<String>| text_view(o))
}

impl View for Location {
    type V = LocationView;

    open spec fn view(&self) -> LocationView {
        LocationView {
            filename: text_view(self.filename),
            abs_path: text_view(self.abs_path),
            module: text_view(self.module),
            function: text_view(self.function),
            lineno: self.lineno,
            pre_context: lines_view(self.pre_context@),
            context_line: text_view(self.context_line),
            post_context: lines_view(self.post_context@),
        }
    }
}

impl View for Item {
    type V = ItemView;

    open spec fn view(&self) -> ItemView {
        match self {
            Item::Location(l) => ItemView::Location(l@),
            Item::Unknown => ItemView::Unknown,
        }
    }
}

/// An optional text field: absent and `null` are both no value. `None` when the
/// member is of another type.
pub open spec fn decode_text(v: Option<JsonValue>) -> Option<Option<Seq<char>>> {
    match v {
        None => Some(None),
        Some(JsonValue::Null) => Some(None),
        Some(JsonValue::Str(s)) => Some(Some(s@)),
        Some(_) => None,
    }
}

/// An optional unsigned integer field.
pub open spec fn decode_uint(v: Option<JsonValue>) -> Option<Option<u64>> {
    match v {
        None => Some(None),
        Some(JsonValue::Null) => Some(None),
        Some(JsonValue::UInt(n)) => Some(Some(n)),
        Some(_) => None,
    }
}

/// One line of context: a string, or `null` for a line that is missing.
pub open spec fn decode_line(v: JsonValue) -> Option<Option<Seq<char>>> {
    match v {
        JsonValue::Null => Some(None),
        JsonValue::Str(s) => Some(Some(s@)),
        _ => None,
    }
}

/// A context field: absent is empty, an array keeps each line at its position.
pub open spec fn decode_lines(v: Option<JsonValue>) -> Option<Seq<Option<Seq<char>>>> {
    match v {
        None => Some(Seq::empty()),
        Some(JsonValue::Array(items)) => {
            if forall|i: int| 0 <= i < items@.len() ==> (#[trigger] decode_line(items@[i])) is Some {
                Some(items@.map_values(|x: JsonValue| decode_line(x)->Some_0))
            } else {
                None
            }
        },
        Some(_) => None,
    }
}

/// The location that an object's members describe; members of other names
/// are ignored.
pub open spec fn decode_location(m: Seq<(String, JsonValue)>) -> Option<LocationView> {
    let filename = decode_text(member(m, "filename"@));
    let abs_path = decode_text(member(m, "abs_path"@));
    let module = decode_text(member(m, "module"@));
    let function = decode_text(member(m, "function"@));
    let lineno = decode_uint(member(m, "lineno"@));
    let pre_context = decode_lines(member(m, "pre_context"@));
    let context_line = decode_text(member(m, "context_line"@));
    let post_context = decode_lines(member(m, "post_context"@));
    if filename is Some && abs_path is Some && module is Some && function is Some && lineno is Some
        && pre_context is Some && context_line is Some && post_context is Some {
        Some(
            LocationView {
                filename: filename->Some_0,
                abs_path: abs_path->Some_0,
                module: module->Some_0,
                function: function->Some_0,
                lineno: lineno->Some_0,
                pre_context: pre_context->Some_0,
                context_line: context_line->Some_0,
                post_context: post_context->Some_0,
            },
        )
    } else {
        None
    }
}

/// Whether an object's `type` member is the string `location`.
pub open spec fn has_location_tag(m: Seq<(String, JsonValue)>) -> bool {
    match member(m, "type"@) {
        Some(JsonValue::Str(s)) => s@ == "location"@,
        _ => false,
    }
}

/// The item that a JSON value describes: an object tagged `location` is a
/// location; an object with any other tag, or none, is an unknown item.
pub open spec fn decode_item(v: JsonValue) -> Option<ItemView> {
    match v {
        JsonValue::Object(m) => {
            if has_location_tag(m@) {
                match decode_location(m@) {
                    Some(l) => Some(ItemView::Location(l)),
                    None => None,
                }
            } else {
                Some(ItemView::Unknown)
            }
        },
        _ => None,
    }
}

fn text_field(m: &Vec<(String, JsonValue)>, key: &str) -> (r: Result<Option<String>, DecodeError>)
    ensures
        r is Ok <==> decode_text(member(m@, key@)) is Some,
        r matches Ok(t) ==> decode_text(member(m@, key@)) == Some(text_view(t)),
        r matches Err(e) ==> e == DecodeError::MalformedDocument,
{
    match find_member(m, key) {
        None => Ok(None),
        Some(JsonValue::Null) => Ok(None),
        Some(JsonValue::Str(s)) => Ok(Some(s.clone())),
        Some(_) => Err(DecodeError::MalformedDocument),
    }
}

fn uint_field(m: &Vec<(String, JsonValue)>, key: &str) -> (r: Result<Option<u64>, DecodeError>)
    ensures
        r is Ok <==> decode_uint(member(m@, key@)) is Some,
        r matches Ok(n) ==> decode_uint(member(m@, key@)) == Some(n),
        r matches Err(e) ==> e == DecodeError::MalformedDocument,
{
    match find_member(m, key) {
        None => Ok(None),
        Some(JsonValue::Null) => Ok(None),
        Some(JsonValue::UInt(n)) => Ok(Some(*n)),
        Some(_) => Err(DecodeError::MalformedDocument),
    }
}

fn lines_field(m: &Vec<(String, JsonValue)>, key: &str) -> (r: Result<Vec<Option<String>>, DecodeError>)
    ensures
        r is Ok <==> decode_lines(member(m@, key@)) is Some,
        r matches Ok(ls) ==> decode_lines(member(m@, key@)) == Some(lines_view(ls@)),
        r matches Err(e) ==> e == DecodeError::MalformedDocument,
{
    match find_member(m, key) {
        None => {
            let out: Vec<Option<String>> = Vec::new();
            assert(lines_view(out@) =~= Seq::empty());
            Ok(out)
        },
        Some(JsonValue::Array(items)) => {
            let mut out: Vec<Option<String>> = Vec::new();
            let mut i: usize = 0;
            while i < items.len()
                invariant
                    0 <= i <= items.len(),
                    out@.len() == i,
                    member(m@, key@) == Some(JsonValue::Array(*items)),
                    forall|j: int| 0 <= j < i ==> (#[trigger] decode_line(items@[j])) is Some,
                    forall|j: int| 0 <= j < i ==> decode_line(items@[j]) == Some(#[trigger] text_view(out@[j])),
                decreases items.len() - i,
            {
                match &items[i] {
                    JsonValue::Null => out.push(None),
                    JsonValue::Str(s) => out.push(Some(s.clone())),
                    _ => {
                        assert(decode_line(items@[i as int]) is None);
                        assert(!(forall|j: int| 0 <= j < items@.len() ==> (#[trigger] decode_line(items@[j])) is Some));
                        assert(decode_lines(member(m@, key@)) is None);
                        return Err(DecodeError::MalformedDocument);
                    },
                }
                i += 1;
            }
            assert(lines_view(out@) =~= items@.map_values(|x: JsonValue| decode_line(x)->Some_0));
            Ok(out)
        },
        Some(_) => Err(DecodeError::MalformedDocument),
    }
}

impl Location {
    /// Decodes a location from a JSON object's members. Unknown members are
    /// ignored; a member of the wrong type fails the whole location.
    pub fn from_members(m: &Vec<(String, JsonValue)>) -> (r: Result<Location, DecodeError>)
        ensures
            r is Ok <==> decode_location(m@) is Some,
            r matches Ok(l) ==> decode_location(m@) == Some(l@),
            r matches Err(e) ==> e == DecodeError::MalformedDocument,
    {
        let filename = text_field(m, "filename")?;
        let abs_path = text_field(m, "abs_path")?;
        let module = text_field(m, "module")?;
        let function = text_field(m, "function")?;
        let lineno = uint_field(m, "lineno")?;
        let pre_context = lines_field(m, "pre_context")?;
        let context_line = text_field(m, "context_line")?;
        let post_context = lines_field(m, "post_context")?;
        Ok(Location { filename, abs_path, module, function, lineno, pre_context, context_line, post_context })
    }
}

impl Item {
    /// Decodes an item. An object whose `type` is `location` decodes as a
    /// location; an object with any other `type`, or none, is `Unknown` and
    /// never an error. A value that is not an object is malformed.
    pub fn from_json(v: &JsonValue) -> (r: Result<Item, DecodeError>)
        ensures
            r is Ok <==> decode_item(*v) is Some,
            r matches Ok(it) ==> decode_item(*v) == Some(it@),
            r matches Err(e) ==> e == DecodeError::MalformedDocument,
    {
        match v {
            JsonValue::Object(m) => {
                let location_tag = String::from_str("location");
                let tagged = match find_member(m, "type") {
                    Some(JsonValue::Str(s)) => *s == location_tag,
                    _ => false,
                };
                if tagged {
                    let l = Location::from_members(m)?;
                    Ok(Item::Location(l))
                } else {
                    Ok(Item::Unknown)
                }
            },
            _ => Err(DecodeError::MalformedDocument),
        }
    }
}

/// `,"name":` before a member that is not the first.
pub open spec fn member_key(name: Seq<char>) -> Seq<char> {
    seq![','] + json_string_literal(name) + seq![':']
}

/// An optional text member: left out when absent.
pub open spec fn text_member(name: Seq<char>, v: Option<Seq<char>>) -> Seq<char> {
    match v {
        None => Seq::empty(),
        Some(t) => member_key(name) + json_string_literal(t),
    }
}

/// An optional integer member: left out when absent.
pub open spec fn uint_member(name: Seq<char>, v: Option<u64>) -> Seq<char> {
    match v {
        None => Seq::empty(),
        Some(n) => member_key(name) + decimal(n as nat),
    }
}

/// One line of context: its string, or `null` where it is missing.
pub open spec fn line_json(l: Option<Seq<char>>) -> Seq<char> {
    match l {
        None => seq!['n', 'u', 'l', 'l'],
        Some(t) => json_string_literal(t),
    }
}

/// A context member: left out when empty, else an array with every line in place.
pub open spec fn lines_member(name: Seq<char>, ls: Seq<Option<Seq<char>>>) -> Seq<char> {
    if ls.len() == 0 {
        Seq::empty()
    } else {
        member_key(name) + seq!['['] + joined(ls.map_values(|l: Option<Seq<char>>| line_json(l))) + seq![']']
    }
}

/// `{"type":"<tag>"`, the start of every encoded item.
pub open spec fn tag_open(tag: Seq<char>) -> Seq<char> {
    seq!['{'] + json_string_literal("type"@) + seq![':'] + json_string_literal(tag)
}

/// The tag and the paths of an encoded location.
pub open spec fn location_head(l: LocationView) -> Seq<char> {
    tag_open("location"@) + text_member("filename"@, l.filename) + text_member("abs_path"@, l.abs_path)
}

/// The module, function and line number of an encoded location.
pub open spec fn location_middle(l: LocationView) -> Seq<char> {
    text_member("module"@, l.module) + text_member("function"@, l.function) + uint_member("lineno"@, l.lineno)
}

/// The source lines of an encoded location, and its closing brace.
pub open spec fn location_tail(l: LocationView) -> Seq<char> {
    lines_member("pre_context"@, l.pre_context) + text_member("context_line"@, l.context_line)
        + lines_member("post_context"@, l.post_context) + seq!['}']
}

/// The JSON text of a location item: members in a fixed order, each left out
/// when absent or empty.
pub open spec fn location_json(l: LocationView) -> Seq<char> {
    location_head(l) + location_middle(l) + location_tail(l)
}

/// The JSON text of an item.
pub open spec fn item_json(it: ItemView) -> Seq<char> {
    match it {
        ItemView::Location(l) => location_json(l),
        ItemView::Unknown => tag_open("unknown"@) + seq!['}'],
    }
}

fn push_member_key(out: &mut String, name: &str)
    ensures
        final(out)@ == old(out)@ + member_key(name@),
{
    proof {
        reveal_strlit(",");
        reveal_strlit(":");
    }
    out.append(",");
    push_string_literal(out, name);
    out.append(":");
    assert(final(out)@ =~= old(out)@ + member_key(name@));
}

fn push_text_member(out: &mut String, name: &str, v: &Option<String>)
    ensures
        final(out)@ == old(out)@ + text_member(name@, text_view(*v)),
{
    match v {
        None => {
            assert(old(out)@ =~= old(out)@ + text_member(name@, text_view(*v)));
        },
        Some(t) => {
            push_member_key(out, name);
            push_string_literal(out, t.as_str());
            assert(final(out)@ =~= old(out)@ + text_member(name@, text_view(*v)));
        },
    }
}

fn push_uint_member(out: &mut String, name: &str, v: Option<u64>)
    ensures
        final(out)@ == old(out)@ + uint_member(name@, v),
{
    match v {
        None => {
            assert(old(out)@ =~= old(out)@ + uint_member(name@, v));
        },
        Some(n) => {
            push_member_key(out, name);
            push_decimal(out, n);
            assert(final(out)@ =~= old(out)@ + uint_member(name@, v));
        },
    }
}

fn push_line(out: &mut String, l: &Option<String>)
    ensures
        final(out)@ == old(out)@ + line_json(text_view(*l)),
{
    match l {
        None => {
            proof {
                reveal_strlit("null");
            }
            out.append("null");
            assert(final(out)@ =~= old(out)@ + line_json(text_view(*l)));
        },
        Some(t) => {
            push_string_literal(out, t.as_str());
        },
    }
}

fn push_lines_member(out: &mut String, name: &str, ls: &Vec<Option<String>>)
    ensures
        final(out)@ == old(out)@ + lines_member(name@, lines_view(ls@)),
{
    if ls.len() == 0 {
        assert(old(out)@ =~= old(out)@ + lines_member(name@, lines_view(ls@)));
        return;
    }
    proof {
        reveal_strlit("[");
        reveal_strlit("]");
        reveal_strlit(",");
    }
    push_member_key(out, name);
    out.append("[");
    let ghost start = out@;
    let ghost parts = lines_view(ls@).map_values(|l: Option<Seq<char>>| line_json(l));
    let mut i: usize = 0;
    while i < ls.len()
        invariant
            0 <= i <= ls.len(),
            parts == lines_view(ls@).map_values(|l: Option<Seq<char>>| line_json(l)),
            out@ == start + joined(parts.take(i as int)),
        decreases ls.len() - i,
    {
        proof {
            reveal_strlit(",");
        }
        if i > 0 {
            out.append(",");
        }
        push_line(out, &ls[i]);
        proof {
            assert(parts.take(i + 1) =~= parts.take(i as int).push(parts[i as int]));
            lemma_joined_push(parts.take(i as int), parts[i as int]);
            assert(out@ =~= start + joined(parts.take(i + 1)));
        }
        i += 1;
    }
    out.append("]");
    assert(parts.take(ls@.len() as int) =~= parts);
    assert(final(out)@ =~= old(out)@ + lines_member(name@, lines_view(ls@)));
}

fn push_tag_open(out: &mut String, tag: &str)
    ensures
        final(out)@ == old(out)@ + tag_open(tag@),
{
    proof {
        reveal_strlit("{");
        reveal_strlit(":");
    }
    out.append("{");
    push_string_literal(out, "type");
    out.append(":");
    push_string_literal(out, tag);
    assert(final(out)@ =~= old(out)@ + tag_open(tag@));
}

fn push_location_head(out: &mut String, l: &Location)
    ensures
        final(out)@ == old(out)@ + location_head(l@),
{
    push_tag_open(out, "location");
    push_text_member(out, "filename", &l.filename);
    push_text_member(out, "abs_path", &l.abs_path);
    assert(final(out)@ =~= old(out)@ + location_head(l@));
}

fn push_location_middle(out: &mut String, l: &Location)
    ensures
        final(out)@ == old(out)@ + location_middle(l@),
{
    push_text_member(out, "module", &l.module);
    push_text_member(out, "function", &l.function);
    push_uint_member(out, "lineno", l.lineno);
    assert(final(out)@ =~= old(out)@ + location_middle(l@));
}

fn push_location_tail(out: &mut String, l: &Location)
    ensures
        final(out)@ == old(out)@ + location_tail(l@),
{
    proof {
        reveal_strlit("}");
    }
    push_lines_member(out, "pre_context", &l.pre_context);
    push_text_member(out, "context_line", &l.context_line);
    push_lines_member(out, "post_context", &l.post_context);
    out.append("}");
    assert(final(out)@ =~= old(out)@ + location_tail(l@));
}

impl Location {
    /// Appends the JSON text of this location, as an item tagged `location`.
    pub fn write_json(&self, out: &mut String)
        ensures
            final(out)@ == old(out)@ + location_json(self@),
    {
        push_location_head(out, self);
        push_location_middle(out, self);
        push_location_tail(out, self);
        assert(final(out)@ =~= old(out)@ + location_json(self@));
    }

    /// The JSON text of this location, as an item tagged `location`. Absent
    /// fields and empty contexts are left out; a missing context line is `null`.
    pub fn to_json(&self) -> (r: String)
        ensures
            r@ == location_json(self@),
    {
        let mut out = String::new();
        self.write_json(&mut out);
        assert(out@ =~= location_json(self@));
        out
    }
}

impl Item {
    /// Parses JSON text and decodes the item in it. Text that is not JSON is a
    /// `MalformedDocument`; otherwise the result is that of `from_json` on the
    /// parsed value.
    pub fn from_json_text(text: &str) -> (r: Result<Item, DecodeError>)
        ensures
            parsed_json(text@) is None ==> r is Err,
            parsed_json(text@) matches Some(v) ==> {
                &&& r is Ok <==> decode_item(v) is Some
                &&& r matches Ok(it) ==> decode_item(v) == Some(it@)
            },
            r matches Err(e) ==> e == DecodeError::MalformedDocument,
    {
        match parse_json(text) {
            Some(v) => Item::from_json(&v),
            None => Err(DecodeError::MalformedDocument),
        }
    }

    /// Appends the JSON text of this item.
    pub fn write_json(&self, out: &mut String)
        ensures
            final(out)@ == old(out)@ + item_json(self@),
    {
        match self {
            Item::Location(l) => l.write_json(out),
            Item::Unknown => {
                proof {
                    reveal_strlit("}");
                }
                push_tag_open(out, "unknown");
                out.append("}");
                assert(final(out)@ =~= old(out)@ + item_json(self@));
            },
        }
    }

    /// The JSON text of this item.
    pub fn to_json(&self) -> (r: String)
        ensures
            r@ == item_json(self@),
    {
        let mut out = String::new();
        self.write_json(&mut out);
        assert(out@ =~= item_json(self@));
        out
    }
}

/// A location with every field absent and both contexts empty.
pub open spec fn empty_location() -> LocationView {
    LocationView {
        filename: None,
        abs_path: None,
        module: None,
        function: None,
        lineno: None,
        pre_context: Seq::empty(),
        context_line: None,
        post_context: Seq::empty(),
    }
}

/// Whether an object's members name none of the fields of a location.
pub open spec fn no_location_fields(m: Seq<(String, JsonValue)>) -> bool {
    &&& member(m, "filename"@) is None
    &&& member(m, "abs_path"@) is None
    &&& member(m, "module"@) is None
    &&& member(m, "function"@) is None
    &&& member(m, "lineno"@) is None
    &&& member(m, "pre_context"@) is None
    &&& member(m, "context_line"@) is None
    &&& member(m, "post_context"@) is None
}

/// An object whose `type` is anything but `location`, or missing, decodes as
/// the unknown item, whatever else it holds: unknown kinds are never an error.
pub proof fn lemma_unknown_kind_tolerated(m: Seq<(String, JsonValue)>, v: JsonValue)
    requires
        v matches JsonValue::Object(ms) && ms@ == m,
        !has_location_tag(m),
    ensures
        decode_item(v) == Some(ItemView::Unknown),
{
}

/// A location with all fields absent encodes as `{"type":"location"}` alone, and
/// an object tagged `location` with no other known member decodes as that
/// location.
pub proof fn lemma_empty_location_round_trip(m: Seq<(String, JsonValue)>, v: JsonValue)
    requires
        v matches JsonValue::Object(ms) && ms@ == m,
        has_location_tag(m),
        no_location_fields(m),
    ensures
        location_json(empty_location()) == "{\"type\":\"location\"}"@,
        decode_item(v) == Some(ItemView::Location(empty_location())),
{
    assert(location_json(empty_location()) =~= tag_open("location"@) + seq!['}']);
    reveal_strlit("type");
    reveal_strlit("location");
    reveal_strlit("{\"type\":\"location\"}");
    lemma_plain_escaped("type"@);
    lemma_plain_escaped("location"@);
    assert(tag_open("location"@) + seq!['}'] =~= "{\"type\":\"location\"}"@);
    assert(decode_location(m) == Some(empty_location()));
}

/// An empty context is left out of the encoding; a non-empty one is an array
/// with `null` exactly where a line is missing, in order.
pub proof fn lemma_context_encoding(name: Seq<char>, x: Seq<char>)
    ensures
        lines_member(name, Seq::empty()) == Seq::<char>::empty(),
        lines_member(name, seq![None, Some(x)]) == member_key(name) + seq!['['] + seq!['n', 'u', 'l', 'l']
            + seq![','] + json_string_literal(x) + seq![']'],
{
    let parts = seq![None, Some(x)].map_values(|l: Option<Seq<char>>| line_json(l));
    assert(parts =~= seq![line_json(None)].push(line_json(Some(x))));
    lemma_joined_push(seq![line_json(None)], line_json(Some(x)));
    lemma_joined_push(Seq::empty(), line_json(None));
    assert(Seq::<Seq<char>>::empty().push(line_json(None)) =~= seq![line_json(None)]);
}

/// Decoding a context keeps every line at its position, a `null` as a missing
/// line.
pub proof fn lemma_context_positions(items: Seq<JsonValue>, v: JsonValue, i: int)
    requires
        v matches JsonValue::Array(a) && a@ == items,
        decode_lines(Some(v)) is Some,
        0 <= i < items.len(),
    ensures
        decode_lines(Some(v))->Some_0.len() == items.len(),
        (decode_lines(Some(v))->Some_0[i] is None) <==> items[i] == JsonValue::Null,
{
    assert(decode_line(items[i]) is Some);
}

} // verus!
