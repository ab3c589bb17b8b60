//! Resolution of `{field}` topic templates from JSON-encoded records.

use vstd::prelude::*;
use vstd::string::*;

use crate::solace::config::SolaceOutputConfig;
use crate::text::chars_of;
use crate::text::contains_char;
use crate::text::same_text;
use crate::text::slice_text;

verus! {

/// A JSON value, as a topic level shows it.
#[derive(Debug, Clone)]
pub struct JsonLeaf {
    /// The characters of a string value.
    pub text: Option<String>,
    /// The value in compact JSON notation.
    pub compact: String,
}

/// A member of a JSON document.
#[derive(Debug, Clone)]
pub struct JsonMember {
    pub name: String,
    pub value: JsonLeaf,
    /// The members of the value, which has none unless it is an object.
    pub members: Vec<(String, JsonLeaf)>,
}

/// A JSON document: its members, two levels deep. A document that is not an
/// object has none.
#[derive(Debug, Clone)]
pub struct JsonDocument {
    pub members: Vec<JsonMember>,
}

/// A JSON value, as plain data.
pub struct LeafModel {
    pub text: Option<Seq<char>>,
    pub compact: Seq<char>,
}

/// A member of a JSON document, as plain data.
pub struct MemberModel {
    pub name: Seq<char>,
    pub value: LeafModel,
    pub members: Seq<(Seq<char>, LeafModel)>,
}

impl View for JsonLeaf {
    type V = LeafModel;

    open spec fn view(&self) -> LeafModel {
        LeafModel {
            text: match self.text {
                Some(s) => Some(s@),
                None => None,
            },
            compact: self.compact@,
        }
    }
}

impl View for JsonMember {
    type V = MemberModel;

    open spec fn view(&self) -> MemberModel {
        MemberModel {
            name: self.name@,
            value: self.value@,
            members: leaf_models(self.members@),
        }
    }
}

impl View for JsonDocument {
    type V = Seq<MemberModel>;

    open spec fn view(&self) -> Seq<MemberModel> {
        Seq::new(self.members@.len(), |i: int| self.members@[i]@)
    }
}

/// Named values, as plain data.
pub open spec fn leaf_models(leaves: Seq<(String, JsonLeaf)>) -> Seq<(Seq<char>, LeafModel)> {
    Seq::new(leaves.len(), |i: int| (leaves[i].0@, leaves[i].1@))
}

/// An optional JSON document, as plain data.
pub open spec fn document_model(document: Option<JsonDocument>) -> Option<Seq<MemberModel>> {
    match document {
        Some(d) => Some(d@),
        None => None,
    }
}

/// What `serde_json::from_slice` reads from the bytes: the members of the value,
/// two levels deep, or nothing where the bytes are not JSON.
pub uninterp spec fn json_document(bytes: Seq<u8>) -> Option<Seq<MemberModel>>;

/// `serde_json::from_slice` into a `serde_json::Value`, with the members of the
/// value and of its members taken out of it. The result depends on the bytes
/// alone. Which bytes are JSON and which value they stand for is left to
/// serde_json.
#[verifier::external_body]
fn parse_json(buffer: &[u8]) -> (document: Option<JsonDocument>)
    ensures
        document_model(document) == json_document(buffer@),
{
    let value: serde_json::Value = serde_json::from_slice(buffer).ok()?;
    let leaf = |v: &serde_json::Value| JsonLeaf {
        text: v.as_str().map(str::to_owned),
        compact: v.to_string(),
    };
    let members = value.as_object().into_iter().flatten().map(|(name, v)| JsonMember {
        name: name.clone(),
        value: leaf(v),
        members: v.as_object().into_iter().flatten().map(|(k, w)| (k.clone(), leaf(w))).collect(),
    });
    Some(JsonDocument { members: members.collect() })
}

/// The place of the first member with the given name.
pub open spec fn place_of(members: Seq<MemberModel>, name: Seq<char>) -> Option<int>
    decreases members.len(),
{
    if members.len() == 0 {
        None
    } else if place_of(members.drop_last(), name) is Some {
        place_of(members.drop_last(), name)
    } else if members.last().name == name {
        Some(members.len() - 1)
    } else {
        None
    }
}

/// The fields of the record in a document: those under `insert`, or else under
/// `delete`, or else those of the document itself.
pub open spec fn record_fields(document: Seq<MemberModel>) -> Seq<(Seq<char>, LeafModel)> {
    match place_of(document, "insert"@) {
        Some(i) => document[i].members,
        None => match place_of(document, "delete"@) {
            Some(i) => document[i].members,
            None => document.map_values(|m: MemberModel| (m.name, m.value)),
        },
    }
}

/// How a value stands in a topic: a string without quotes, anything else in
/// compact JSON notation.
pub open spec fn shown(value: LeafModel) -> Seq<char> {
    match value.text {
        Some(text) => text,
        None => value.compact,
    }
}

/// What stands in a topic for the field of the given name.
pub open spec fn field_text(fields: Seq<(Seq<char>, LeafModel)>, name: Seq<char>) -> Option<
    Seq<char>,
>
    decreases fields.len(),
{
    if fields.len() == 0 {
        None
    } else if fields[0].0 == name {
        Some(shown(fields[0].1))
    } else {
        field_text(fields.drop_first(), name)
    }
}

/// How many characters stand before the first `}`.
pub open spec fn until_brace(s: Seq<char>) -> Option<int>
    decreases s.len(),
{
    if s.len() == 0 {
        None
    } else if s[0] == '}' {
        Some(0)
    } else {
        match until_brace(s.drop_first()) {
            Some(n) => Some(n + 1),
            None => None,
        }
    }
}

/// What stands for the placeholder `{name}`: the field's value, or the
/// placeholder itself where the record has no such field.
pub open spec fn replacement(fields: Seq<(Seq<char>, LeafModel)>, name: Seq<char>) -> Seq<char> {
    match field_text(fields, name) {
        Some(text) => text,
        None => seq!['{'] + name + seq!['}'],
    }
}

/// The template with each placeholder replaced. A brace that is not closed is
/// kept, with all that follows it.
pub open spec fn rendered(template: Seq<char>, fields: Seq<(Seq<char>, LeafModel)>) -> Seq<char>
    decreases template.len(),
{
    if template.len() == 0 {
        Seq::empty()
    } else if template[0] != '{' {
        seq![template[0]] + rendered(template.drop_first(), fields)
    } else {
        match until_brace(template.drop_first()) {
            Some(n) => if 0 <= n && n + 2 <= template.len() {
                replacement(fields, template.subrange(1, n + 1)) + rendered(
                    template.skip(n + 2),
                    fields,
                )
            } else {
                template
            },
            None => template,
        }
    }
}

proof fn until_brace_is_exact(s: Seq<char>)
    ensures
        match until_brace(s) {
            Some(n) => 0 <= n < s.len() && s[n] == '}' && forall|i: int|
                0 <= i < n ==> #[trigger] s[i] != '}',
            None => forall|i: int| 0 <= i < s.len() ==> #[trigger] s[i] != '}',
        },
    decreases s.len(),
{
    if s.len() > 0 && s[0] != '}' {
        let rest = s.drop_first();
        until_brace_is_exact(rest);
        assert forall|i: int|
            1 <= i < s.len() && (until_brace(rest) matches Some(n) ==> i < n + 1) implies #[trigger] s[i]
            != '}' by {
            assert(rest[i - 1] == s[i]);
        }
    }
}

proof fn until_brace_is(s: Seq<char>, n: int)
    requires
        0 <= n < s.len(),
        s[n] == '}',
        forall|i: int| 0 <= i < n ==> #[trigger] s[i] != '}',
    ensures
        until_brace(s) == Some(n),
    decreases s.len(),
{
    if n > 0 {
        let rest = s.drop_first();
        assert forall|i: int| 0 <= i < n - 1 implies #[trigger] rest[i] != '}' by {
            assert(rest[i] == s[i + 1]);
        }
        assert(s[0] != '}');
        until_brace_is(rest, n - 1);
    }
}

proof fn no_brace_ahead(s: Seq<char>)
    requires
        forall|i: int| 0 <= i < s.len() ==> #[trigger] s[i] != '}',
    ensures
        until_brace(s) is None,
{
    until_brace_is_exact(s);
}

fn leaf_text(leaf: &JsonLeaf) -> (s: &str)
    ensures
        s@ == shown(leaf@),
{
    match &leaf.text {
        Some(text) => text.as_str(),
        None => leaf.compact.as_str(),
    }
}

fn find_member(members: &Vec<JsonMember>, name: &str) -> (place: Option<usize>)
    ensures
        match place {
            Some(i) => i < members.len() && place_of(
                Seq::new(members@.len(), |k: int| members@[k]@),
                name@,
            ) == Some(i as int),
            None => place_of(Seq::new(members@.len(), |k: int| members@[k]@), name@) is None,
        },
{
    let ghost all = Seq::new(members@.len(), |k: int| members@[k]@);
    let mut i: usize = 0;
    while i < members.len()
        invariant
            i <= members.len(),
            all == Seq::new(members@.len(), |k: int| members@[k]@),
            place_of(all.take(i as int), name@) is None,
        decreases members.len() - i,
    {
        assert(all.take(i + 1).drop_last() == all.take(i as int));
        if same_text(members[i].name.as_str(), name) {
            proof {
                first_place_stays(all, name@, i + 1);
            }
            return Some(i);
        }
        i += 1;
    }
    assert(all.take(i as int) == all);
    None
}

proof fn first_place_stays(members: Seq<MemberModel>, name: Seq<char>, n: int)
    requires
        0 <= n <= members.len(),
        place_of(members.take(n), name) is Some,
    ensures
        place_of(members, name) == place_of(members.take(n), name),
    decreases members.len() - n,
{
    if n < members.len() {
        assert(members.take(n + 1).drop_last() == members.take(n));
        first_place_stays(members, name, n + 1);
    } else {
        assert(members.take(n) == members);
    }
}

/// The fields of the record in `document`.
pub fn record_of(document: &JsonDocument) -> (fields: Vec<(String, JsonLeaf)>)
    ensures
        leaf_models(fields@) == record_fields(document@),
{
    let place = match find_member(&document.members, "insert") {
        Some(i) => Some(i),
        None => find_member(&document.members, "delete"),
    };
    if let Some(i) = place {
        return copy_leaves(&document.members[i].members);
    }
    let mut fields: Vec<(String, JsonLeaf)> = Vec::new();
    let mut i: usize = 0;
    while i < document.members.len()
        invariant
            i <= document.members.len(),
            fields@.len() == i,
            forall|k: int|
                0 <= k < i ==> (#[trigger] fields@[k]).0@ == document.members@[k].name@
                    && fields@[k].1@ == document.members@[k].value@,
        decreases document.members.len() - i,
    {
        let m = &document.members[i];
        fields.push((m.name.clone(), copy_leaf(&m.value)));
        i += 1;
    }
    assert(leaf_models(fields@) == record_fields(document@));
    fields
}

fn copy_leaf(leaf: &JsonLeaf) -> (copy: JsonLeaf)
    ensures
        copy@ == leaf@,
{
    JsonLeaf {
        text: match &leaf.text {
            Some(s) => Some(s.clone()),
            None => None,
        },
        compact: leaf.compact.clone(),
    }
}

fn copy_leaves(leaves: &Vec<(String, JsonLeaf)>) -> (copy: Vec<(String, JsonLeaf)>)
    ensures
        leaf_models(copy@) == leaf_models(leaves@),
{
    let mut copy: Vec<(String, JsonLeaf)> = Vec::new();
    let mut i: usize = 0;
    while i < leaves.len()
        invariant
            i <= leaves.len(),
            copy@.len() == i,
            forall|k: int|
                0 <= k < i ==> (#[trigger] copy@[k]).0@ == leaves@[k].0@ && copy@[k].1@
                    == leaves@[k].1@,
        decreases leaves.len() - i,
    {
        copy.push((leaves[i].0.clone(), copy_leaf(&leaves[i].1)));
        i += 1;
    }
    assert(leaf_models(copy@) == leaf_models(leaves@));
    copy
}

fn find_field<'a>(fields: &'a Vec<(String, JsonLeaf)>, name: &str) -> (text: Option<&'a str>)
    ensures
        match text {
            Some(s) => field_text(leaf_models(fields@), name@) == Some(s@),
            None => field_text(leaf_models(fields@), name@) is None,
        },
{
    let ghost all = leaf_models(fields@);
    let mut i: usize = 0;
    assert(all.skip(0) == all);
    while i < fields.len()
        invariant
            i <= fields.len(),
            all == leaf_models(fields@),
            field_text(all, name@) == field_text(all.skip(i as int), name@),
        decreases fields.len() - i,
    {
        assert(all.skip(i as int)[0] == (fields@[i as int].0@, fields@[i as int].1@));
        assert(all.skip(i as int).drop_first() == all.skip(i + 1));
        if same_text(fields[i].0.as_str(), name) {
            return Some(leaf_text(&fields[i].1));
        }
        i += 1;
    }
    None
}

/// Substitutes the `{field}` placeholders of `template` with the given fields.
pub fn render_topic(template: &str, fields: &Vec<(String, JsonLeaf)>) -> (topic: String)
    ensures
        topic@ == rendered(template@, leaf_models(fields@)),
{
    let chars = chars_of(template);
    let ghost t = template@;
    let ghost f = leaf_models(fields@);
    let mut topic = String::new();
    let mut i: usize = 0;
    assert(t.skip(0) == t);
    assert(topic@ + rendered(t, f) == rendered(t, f));
    while i < chars.len()
        invariant
            i <= chars.len(),
            chars@ == t,
            f == leaf_models(fields@),
            topic@ + rendered(t.skip(i as int), f) == rendered(t, f),
        decreases chars.len() - i,
    {
        let ghost ahead = t.skip(i as int);
        let ghost done = topic@;
        if chars[i] != '{' {
            topic.push(chars[i]);
            assert(ahead.drop_first() == t.skip(i + 1));
            assert(done + (seq![ahead[0]] + rendered(ahead.drop_first(), f)) == done.push(ahead[0])
                + rendered(ahead.drop_first(), f));
            i += 1;
        } else {
            let mut end: usize = i + 1;
            while end < chars.len() && chars[end] != '}'
                invariant
                    i + 1 <= end <= chars.len(),
                    chars@ == t,
                    forall|k: int| i + 1 <= k < end ==> #[trigger] t[k] != '}',
                decreases chars.len() - end,
            {
                end += 1;
            }
            let ghost inner = ahead.drop_first();
            assert forall|k: int| 0 <= k < end - i - 1 implies #[trigger] inner[k] != '}' by {
                assert(inner[k] == t[i + 1 + k]);
            }
            if end < chars.len() {
                let name = slice_text(&chars, i + 1, end);
                let ghost n = end - i - 1;
                proof {
                    assert(inner[n] == t[end as int]);
                    until_brace_is(inner, n);
                    assert(ahead.subrange(1, n + 1) == name@);
                    assert(ahead.skip(n + 2) == t.skip(end + 1));
                }
                match find_field(fields, name.as_str()) {
                    Some(text) => {
                        topic.append(text);
                    },
                    None => {
                        topic.push('{');
                        topic.append(name.as_str());
                        topic.push('}');
                        assert(topic@ == done + (seq!['{'] + name@ + seq!['}']));
                    },
                }
                assert(topic@ == done + replacement(f, name@));
                assert(done + (replacement(f, name@) + rendered(t.skip(end + 1), f)) == topic@
                    + rendered(t.skip(end + 1), f));
                i = end + 1;
            } else {
                let rest = slice_text(&chars, i, chars.len());
                proof {
                    no_brace_ahead(inner);
                    assert(rest@ == ahead);
                }
                topic.append(rest.as_str());
                i = chars.len();
                assert(t.skip(i as int) == Seq::<char>::empty());
                assert(topic@ + rendered(t.skip(i as int), f) == done + ahead);
            }
        }
    }
    assert(t.skip(i as int) == Seq::<char>::empty());
    assert(topic@ + Seq::<char>::empty() == topic@);
    topic
}

/// Resolves `template` with the record in an already parsed document.
pub fn resolve_parsed(template: &str, document: &JsonDocument) -> (topic: String)
    ensures
        topic@ == rendered(template@, record_fields(document@)),
{
    let fields = record_of(document);
    render_topic(template, &fields)
}

/// The topic for a record that is encoded as `buffer`.
pub open spec fn resolved(template: Seq<char>, document: Option<Seq<MemberModel>>) -> Seq<char> {
    match document {
        Some(members) => rendered(template, record_fields(members)),
        None => template,
    }
}

/// Substitutes `{field}` placeholders in `template` with values from the JSON
/// record in `buffer`.
///
/// The `insert_delete` output format wraps records as `{"insert":{...}}` or
/// `{"delete":{...}}`; the wrapped record is looked at first, then the top-level
/// object. A template without placeholders, a buffer that is not JSON and a
/// placeholder whose field is absent are left as they are.
pub fn resolve_topic(template: &str, buffer: &[u8]) -> (topic: String)
    ensures
        topic@ == resolved(template@, json_document(buffer@)),
        !template@.contains('{') ==> topic@ == template@,
{
    if !contains_char(template, '{') {
        proof {
            match json_document(buffer@) {
                Some(members) => static_topics_are_kept(template@, record_fields(members)),
                None => {},
            }
        }
        return template.to_owned();
    }
    match parse_json(buffer) {
        Some(document) => resolve_parsed(template, &document),
        None => template.to_owned(),
    }
}

/// A topic without placeholders is the same for every record.
pub proof fn static_topics_are_kept(template: Seq<char>, fields: Seq<(Seq<char>, LeafModel)>)
    requires
        !template.contains('{'),
    ensures
        rendered(template, fields) == template,
    decreases template.len(),
{
    if template.len() > 0 {
        let rest = template.drop_first();
        assert(template.contains(template[0]));
        assert forall|i: int| 0 <= i < rest.len() implies #[trigger] rest[i] != '{' by {
            assert(rest[i] == template[i + 1]);
            assert(template.contains(template[i + 1]));
        }
        static_topics_are_kept(rest, fields);
        assert(seq![template[0]] + rest == template);
    }
}

/// Placeholders whose fields the record does not have are kept as they are: a
/// record without any of the named fields leaves the template unchanged.
pub proof fn absent_fields_keep_their_placeholders(
    template: Seq<char>,
    fields: Seq<(Seq<char>, LeafModel)>,
)
    requires
        forall|name: Seq<char>| #[trigger] field_text(fields, name) is None,
    ensures
        rendered(template, fields) == template,
    decreases template.len(),
{
    if template.len() > 0 {
        if template[0] != '{' {
            absent_fields_keep_their_placeholders(template.drop_first(), fields);
            assert(seq![template[0]] + template.drop_first() == template);
        } else {
            until_brace_is_exact(template.drop_first());
            if let Some(n) = until_brace(template.drop_first()) {
                absent_fields_keep_their_placeholders(template.skip(n + 2), fields);
                let name = template.subrange(1, n + 1);
                assert(field_text(fields, name) is None);
                assert(template.drop_first()[n] == template[n + 1]);
                assert(seq!['{'] + name + seq!['}'] + template.skip(n + 2) == template);
            }
        }
    }
}

/// Whether a topic template can be resolved from records in the given output
/// format: what to report if not.
pub open spec fn format_problem(topic: Seq<char>, format_name: Option<Seq<char>>) -> Option<
    Seq<char>,
> {
    if topic.contains('{') && format_name != Some("json"@) {
        Some(
            "Solace output topic '"@ + topic
                + "' contains {field} placeholders, which are resolved from JSON-encoded records; this endpoint uses "@
                + (match format_name {
                Some(name) => "format \""@ + name + "\""@,
                None => "no output format"@,
            })
                + ". Configure the connector with format \"json\" or use a static topic."@,
        )
    } else {
        None
    }
}

/// Validates that a `{field}` topic template is paired with the JSON output
/// format. With any other format every record would be published to the literal
/// template.
pub fn validate_output_format(config: &SolaceOutputConfig, format_name: Option<&str>) -> (outcome:
    Result<(), String>)
    ensures
        match outcome {
            Ok(_) => format_problem(
                config.topic@,
                match format_name {
                    Some(name) => Some(name@),
                    None => None,
                },
            ) is None,
            Err(message) => format_problem(
                config.topic@,
                match format_name {
                    Some(name) => Some(name@),
                    None => None,
                },
            ) == Some(message@),
        },
{
    if !contains_char(config.topic.as_str(), '{') {
        return Ok(());
    }
    let mut used = String::new();
    match format_name {
        Some(name) => {
            if same_text(name, "json") {
                return Ok(());
            }
            used.append("format \"");
            used.append(name);
            used.append("\"");
            assert(used@ == "format \""@ + name@ + "\""@);
        },
        None => {
            used.append("no output format");
            assert(used@ == "no output format"@);
        },
    }
    let mut message = "Solace output topic '".to_owned();
    message.append(config.topic.as_str());
    message.append(
        "' contains {field} placeholders, which are resolved from JSON-encoded records; this endpoint uses ",
    );
    message.append(used.as_str());
    message.append(". Configure the connector with format \"json\" or use a static topic.");
    Err(message)
}

/// What stands before a placeholder is kept as it is.
pub proof fn plain_text_is_kept(
    plain: Seq<char>,
    rest: Seq<char>,
    fields: Seq<(Seq<char>, LeafModel)>,
)
    requires
        !plain.contains('{'),
    ensures
        rendered(plain + rest, fields) == plain + rendered(rest, fields),
        rendered(Seq::empty(), fields) == Seq::<char>::empty(),
    decreases plain.len(),
{
    let whole = plain + rest;
    if plain.len() == 0 {
        assert(whole == rest);
        assert(plain + rendered(rest, fields) == rendered(rest, fields));
    } else {
        let later = plain.drop_first();
        assert(plain.contains(plain[0]));
        assert(whole[0] == plain[0]);
        assert forall|i: int| 0 <= i < later.len() implies #[trigger] later[i] != '{' by {
            assert(later[i] == plain[i + 1]);
            assert(plain.contains(plain[i + 1]));
        }
        plain_text_is_kept(later, rest, fields);
        assert(whole.drop_first() == later + rest);
        assert(seq![plain[0]] + (later + rendered(rest, fields)) == plain + rendered(rest, fields));
    }
}

/// What stands for a field is that of the first field with its name, and there is nothing
/// for a name that no field has.
proof fn field_text_is_first(fields: Seq<(Seq<char>, LeafModel)>, name: Seq<char>, i: int)
    requires
        0 <= i <= fields.len(),
        forall|j: int| 0 <= j < i ==> (#[trigger] fields[j]).0 != name,
        i < fields.len() ==> fields[i].0 == name,
    ensures
        field_text(fields, name) == if i < fields.len() {
            Some(shown(fields[i].1))
        } else {
            None
        },
    decreases fields.len(),
{
    if i > 0 {
        let rest = fields.drop_first();
        assert(fields[0].0 != name);
        assert forall|j: int| 0 <= j < i - 1 implies (#[trigger] rest[j]).0 != name by {
            assert(rest[j] == fields[j + 1]);
        }
        field_text_is_first(rest, name, i - 1);
    }
}

/// A placeholder `{name}` is replaced with the value of the first field of that name: its
/// characters if it is a string, its compact JSON notation if it is anything else. A
/// placeholder is kept as it is if no field has that name. What follows it is rendered
/// alike. Here `i` is the place of the first such field, or the number of fields.
pub proof fn placeholders_are_replaced(
    name: Seq<char>,
    rest: Seq<char>,
    fields: Seq<(Seq<char>, LeafModel)>,
    i: int,
)
    requires
        !name.contains('}'),
        0 <= i <= fields.len(),
        forall|j: int| 0 <= j < i ==> (#[trigger] fields[j]).0 != name,
        i < fields.len() ==> fields[i].0 == name,
    ensures
        ({
            let placeholder = seq!['{'] + name + seq!['}'];
            let value = if i == fields.len() {
                placeholder
            } else if fields[i].1.text is Some {
                fields[i].1.text->0
            } else {
                fields[i].1.compact
            };
            rendered(placeholder + rest, fields) == value + rendered(rest, fields)
        }),
{
    let placeholder = seq!['{'] + name + seq!['}'];
    let whole = placeholder + rest;
    let inner = whole.drop_first();
    let n = name.len() as int;
    assert(whole[0] == '{');
    assert forall|k: int| 0 <= k < n implies #[trigger] inner[k] != '}' by {
        assert(inner[k] == name[k]);
        assert(name.contains(name[k]));
    }
    assert(inner[n] == '}');
    until_brace_is(inner, n);
    assert(whole.subrange(1, n + 1) == name);
    assert(whole.skip(n + 2) == rest);
    field_text_is_first(fields, name, i);
}

/// A brace that is not closed is kept, with all that follows it.
pub proof fn open_braces_are_kept(rest: Seq<char>, fields: Seq<(Seq<char>, LeafModel)>)
    requires
        !rest.contains('}'),
    ensures
        rendered(seq!['{'] + rest, fields) == seq!['{'] + rest,
{
    let whole = seq!['{'] + rest;
    assert(whole.drop_first() == rest);
    assert forall|i: int| 0 <= i < rest.len() implies #[trigger] rest[i] != '}' by {
        assert(rest.contains(rest[i]));
    }
    no_brace_ahead(rest);
}

proof fn place_is_first(members: Seq<MemberModel>, name: Seq<char>, i: int)
    requires
        0 <= i <= members.len(),
        forall|j: int| 0 <= j < i ==> (#[trigger] members[j]).name != name,
        i < members.len() ==> members[i].name == name,
    ensures
        place_of(members, name) == if i < members.len() {
            Some(i)
        } else {
            None
        },
    decreases members.len(),
{
    if members.len() > 0 {
        let before = members.drop_last();
        assert forall|j: int| 0 <= j < i && j < before.len() implies (#[trigger] before[j]).name
            != name by {
            assert(before[j] == members[j]);
        }
        if i < members.len() - 1 {
            assert(before[i] == members[i]);
            place_is_first(before, name, i);
        } else {
            if i == members.len() {
                assert(members[i - 1].name != name);
            }
            place_is_first(before, name, before.len() as int);
        }
    }
}

/// The record of a document is the value of its first member `insert`, else that of its
/// first member `delete`, else the document itself. Here `i` and `d` are the places of
/// these members, or the number of members.
pub proof fn wrapped_records_come_first(document: Seq<MemberModel>, i: int, d: int)
    requires
        0 <= i <= document.len(),
        forall|j: int| 0 <= j < i ==> (#[trigger] document[j]).name != "insert"@,
        i < document.len() ==> document[i].name == "insert"@,
        0 <= d <= document.len(),
        forall|j: int| 0 <= j < d ==> (#[trigger] document[j]).name != "delete"@,
        d < document.len() ==> document[d].name == "delete"@,
    ensures
        i < document.len() ==> record_fields(document) == document[i].members,
        i == document.len() && d < document.len() ==> record_fields(document)
            == document[d].members,
        i == document.len() && d == document.len() ==> record_fields(document).len()
            == document.len() && forall|k: int|
            0 <= k < document.len() ==> #[trigger] record_fields(document)[k] == (
                document[k].name,
                document[k].value,
            ),
{
    place_is_first(document, "insert"@, i);
    place_is_first(document, "delete"@, d);
}

/// A record that is not JSON leaves the template as it is; any other fills in its own
/// fields.
pub proof fn only_json_records_fill_templates(
    template: Seq<char>,
    document: Seq<MemberModel>,
)
    ensures
        resolved(template, None) == template,
        resolved(template, Some(document)) == rendered(template, record_fields(document)),
{
}

/// A topic with placeholders needs the output format `json`; a static topic goes with any
/// format, or none.
pub proof fn placeholders_need_json(topic: Seq<char>, format_name: Option<Seq<char>>)
    ensures
        format_problem(topic, format_name) is None <==> !topic.contains('{') || format_name
            == Some("json"@),
        format_problem(topic, format_name) matches Some(message) ==> message
            == "Solace output topic '"@ + topic
            + "' contains {field} placeholders, which are resolved from JSON-encoded records; this endpoint uses "@
            + (if format_name is Some {
            "format \""@ + format_name->0 + "\""@
        } else {
            "no output format"@
        }) + ". Configure the connector with format \"json\" or use a static topic."@,
{
}

/// A document stands for its members one for one, a member for its name, its value and the
/// members of that, and a value for its characters and its compact notation.
pub proof fn documents_stand_for_what_they_hold(
    document: JsonDocument,
    member: JsonMember,
    leaf: JsonLeaf,
    leaves: Seq<(String, JsonLeaf)>,
)
    ensures
        document@.len() == document.members@.len(),
        forall|i: int|
            0 <= i < document.members@.len() ==> #[trigger] document@[i] == document.members@[i]@,
        member@.name == member.name@,
        member@.value == member.value@,
        member@.members == leaf_models(member.members@),
        leaf@.text is Some <==> leaf.text is Some,
        leaf.text matches Some(s) ==> leaf@.text == Some(s@),
        leaf@.compact == leaf.compact@,
        leaf_models(leaves).len() == leaves.len(),
        forall|i: int|
            0 <= i < leaves.len() ==> #[trigger] leaf_models(leaves)[i].0 == leaves[i].0@
                && leaf_models(leaves)[i].1 == leaves[i].1@,
{
}

} // verus!
