use vstd::prelude::*;

verus! {

/// A JSON value as the application handles it: tool arguments and tool
/// results travel in this form.
///
/// An object keeps its members as given; when a key occurs more than once,
/// the last member with that key is the one that counts, as when the
/// members are inserted into a map in order.
#[derive(Debug)]
pub enum JsonValue {
    Null,
    Bool(bool),
    /// A number, held as the JSON text that denotes it.
    Number(String),
    String(String),
    Array(Vec<JsonValue>),
    Object(Vec<(String, JsonValue)>),
}

/// A JSON value with its texts as sequences of characters.
pub enum JsonView {
    Null,
    Bool(bool),
    Number(Seq<char>),
    String(Seq<char>),
    Array(Seq<JsonView>),
    Object(Seq<(Seq<char>, JsonView)>),
}

/// The view of a JSON value.
pub open spec fn json_view(v: JsonValue) -> JsonView
    decreases v,
{
    match v {
        JsonValue::Null => JsonView::Null,
        JsonValue::Bool(b) => JsonView::Bool(b),
        JsonValue::Number(n) => JsonView::Number(n@),
        JsonValue::String(s) => JsonView::String(s@),
        JsonValue::Array(items) => JsonView::Array(items_view(items@)),
        JsonValue::Object(members) => JsonView::Object(members_view(members@)),
    }
}

/// The views of `items`, in order.
pub open spec fn items_view(items: Seq<JsonValue>) -> Seq<JsonView>
    decreases items,
{
    if items.len() == 0 {
        Seq::empty()
    } else {
        items_view(items.drop_last()).push(json_view(items.last()))
    }
}

/// The view of one object member.
pub open spec fn member_view(member: (String, JsonValue)) -> (Seq<char>, JsonView)
    decreases member,
{
    (member.0@, json_view(member.1))
}

/// The views of `members`, in order.
pub open spec fn members_view(members: Seq<(String, JsonValue)>) -> Seq<(Seq<char>, JsonView)>
    decreases members,
{
    if members.len() == 0 {
        Seq::empty()
    } else {
        members_view(members.drop_last()).push(member_view(members.last()))
    }
}

impl View for JsonValue {
    type V = JsonView;

    open spec fn view(&self) -> JsonView {
        json_view(*self)
    }
}

/// The JSON string literal that denotes `s` (quotes and escapes included).
pub uninterp spec fn json_quoted(s: Seq<char>) -> Seq<char>;

/// No character of `s` is escaped inside a JSON string literal.
pub open spec fn escape_free(s: Seq<char>) -> bool {
    forall|i: int|
        0 <= i < s.len() ==> s[i] != '"' && s[i] != '\\' && (s[i] as u32) >= 0x20
}

/// The quote character of JSON string literals.
pub open spec fn quote() -> Seq<char> {
    seq!['"']
}

/// `serde_json::to_string` on a `str`: the JSON string literal of `s`.
/// Claimed: the result is `json_quoted(s@)`; and when no character of `s`
/// is a quote, a backslash or a control character below U+0020 (the only
/// characters serde_json escapes), the literal is `s` between two quotes.
#[verifier::external_body]
fn quote_json_string(s: &str) -> (out: String)
    ensures
        out@ == json_quoted(s@),
        escape_free(s@) ==> out@ == quote() + s@ + quote(),
{
    match serde_json::to_string(s) {
        Ok(text) => text,
        Err(_) => String::new(),
    }
}

/// The compact JSON text of a value: keywords, numbers as held, string
/// literals as serde_json writes them, and arrays and objects with their
/// elements and members in order, separated by commas.
pub open spec fn json_text(v: JsonView) -> Seq<char>
    decreases v,
{
    match v {
        JsonView::Null => seq!['n', 'u', 'l', 'l'],
        JsonView::Bool(b) => if b {
            seq!['t', 'r', 'u', 'e']
        } else {
            seq!['f', 'a', 'l', 's', 'e']
        },
        JsonView::Number(n) => n,
        JsonView::String(s) => json_quoted(s),
        JsonView::Array(items) => seq!['['] + items_text(items) + seq![']'],
        JsonView::Object(members) => seq!['{'] + members_text(members) + seq!['}'],
    }
}

/// The texts of `items`, separated by commas.
pub open spec fn items_text(items: Seq<JsonView>) -> Seq<char>
    decreases items,
{
    if items.len() == 0 {
        Seq::empty()
    } else if items.len() == 1 {
        json_text(items[0])
    } else {
        items_text(items.drop_last()) + seq![','] + json_text(items.last())
    }
}

/// The text of one member: its key as a string literal, a colon, its value.
pub open spec fn member_text(member: (Seq<char>, JsonView)) -> Seq<char>
    decreases member,
{
    json_quoted(member.0) + seq![':'] + json_text(member.1)
}

/// The texts of `members`, separated by commas.
pub open spec fn members_text(members: Seq<(Seq<char>, JsonView)>) -> Seq<char>
    decreases members,
{
    if members.len() == 0 {
        Seq::empty()
    } else if members.len() == 1 {
        member_text(members[0])
    } else {
        members_text(members.drop_last()) + seq![','] + member_text(members.last())
    }
}

/// `parts`, separated by commas.
pub open spec fn comma_join(parts: Seq<Seq<char>>) -> Seq<char>
    decreases parts.len(),
{
    if parts.len() == 0 {
        Seq::empty()
    } else if parts.len() == 1 {
        parts[0]
    } else {
        comma_join(parts.drop_last()) + seq![','] + parts.last()
    }
}

/// The text of each element, one after the other, separated by commas.
proof fn lemma_items_joined(items: Seq<JsonView>)
    ensures
        items_text(items) == comma_join(items.map_values(|x: JsonView| json_text(x))),
    decreases items.len(),
{
    let parts = items.map_values(|x: JsonView| json_text(x));
    if items.len() > 1 {
        lemma_items_joined(items.drop_last());
        assert(parts.drop_last() =~= items.drop_last().map_values(|x: JsonView| json_text(x)));
    }
}

/// The text of each member, one after the other, separated by commas.
proof fn lemma_members_joined(members: Seq<(Seq<char>, JsonView)>)
    ensures
        members_text(members) == comma_join(
            members.map_values(
                |m: (Seq<char>, JsonView)| json_quoted(m.0) + seq![':'] + json_text(m.1),
            ),
        ),
    decreases members.len(),
{
    let parts = members.map_values(
        |m: (Seq<char>, JsonView)| json_quoted(m.0) + seq![':'] + json_text(m.1),
    );
    if members.len() > 1 {
        lemma_members_joined(members.drop_last());
        assert(parts.drop_last() =~= members.drop_last().map_values(
            |m: (Seq<char>, JsonView)| json_quoted(m.0) + seq![':'] + json_text(m.1),
        ));
        assert(member_text(members.last()) == parts.last());
    } else if members.len() == 1 {
        assert(member_text(members[0]) == parts[0]);
    }
}

/// A value is written the same way wherever it stands: a string is its
/// JSON string literal; an array is its elements' texts, each written as
/// the element alone would be, in order, separated by commas, in brackets;
/// an object is, for each member in order, its key's string literal, a
/// colon and the text of its value alone, separated by commas, in braces.
pub proof fn lemma_json_text_compositional(v: JsonView)
    ensures
        v matches JsonView::String(s) ==> json_text(v) == json_quoted(s),
        v matches JsonView::Array(items) ==> json_text(v) == seq!['['] + comma_join(
            items.map_values(|x: JsonView| json_text(x)),
        ) + seq![']'],
        v matches JsonView::Object(members) ==> json_text(v) == seq!['{'] + comma_join(
            members.map_values(
                |m: (Seq<char>, JsonView)| json_quoted(m.0) + seq![':'] + json_text(m.1),
            ),
        ) + seq!['}'],
{
    match v {
        JsonView::Array(items) => lemma_items_joined(items),
        JsonView::Object(members) => lemma_members_joined(members),
        _ => {},
    }
}

/// The value of the last member of `members` whose key is `key`.
pub open spec fn member_value(members: Seq<(Seq<char>, JsonView)>, key: Seq<char>) -> Option<
    JsonView,
>
    decreases members.len(),
{
    if members.len() == 0 {
        None
    } else if members.last().0 == key {
        Some(members.last().1)
    } else {
        member_value(members.drop_last(), key)
    }
}

/// The value of a key is the value of the last member that carries the
/// key: it is found exactly when some member carries the key, and it is then
/// the value of a member with that key after which no member carries it.
pub proof fn lemma_member_value_is_last(members: Seq<(Seq<char>, JsonView)>, key: Seq<char>)
    ensures
        member_value(members, key).is_none() <==> forall|i: int|
            0 <= i < members.len() ==> #[trigger] members[i].0 != key,
        member_value(members, key) matches Some(v) ==> exists|i: int|
            0 <= i < members.len() && #[trigger] members[i].0 == key && members[i].1 == v
                && forall|j: int| i < j < members.len() ==> #[trigger] members[j].0 != key,
    decreases members.len(),
{
    if members.len() > 0 {
        let front = members.drop_last();
        lemma_member_value_is_last(front, key);
        let last = members.len() - 1;
        if members.last().0 == key {
            assert(members[last].0 == key);
        } else {
            assert forall|i: int| 0 <= i < front.len() implies members[i] == #[trigger] front[i] by {}
            if let Some(v) = member_value(front, key) {
                let i = choose|i: int|
                    0 <= i < front.len() && #[trigger] front[i].0 == key && front[i].1 == v
                        && forall|j: int| i < j < front.len() ==> #[trigger] front[j].0 != key;
                assert(members[i] == front[i]);
                assert forall|j: int| i < j < members.len() implies #[trigger] members[j].0 != key by {
                    if j < front.len() {
                        assert(members[j] == front[j]);
                    }
                }
            }
            if member_value(front, key).is_none() {
                assert forall|i: int| 0 <= i < members.len() implies #[trigger] members[i].0 != key by {
                    if i < front.len() {
                        assert(members[i] == front[i]);
                    }
                }
            }
        }
    }
}

/// `v[key]`: the member `key` of an object; nothing for any other value.
pub open spec fn field(v: JsonView, key: Seq<char>) -> Option<JsonView> {
    match v {
        JsonView::Object(members) => member_value(members, key),
        _ => None,
    }
}

/// `v[key].as_str()`: the text of member `key` of an object, when that
/// member is a string.
pub open spec fn str_field(v: JsonView, key: Seq<char>) -> Option<Seq<char>> {
    match field(v, key) {
        Some(JsonView::String(s)) => Some(s),
        _ => None,
    }
}

impl JsonValue {
    /// The text of member `key` when this value is an object whose member
    /// `key` is a string; `None` otherwise.
    pub fn get_str(&self, key: &str) -> (r: Option<&str>)
        ensures
            match r {
                Some(t) => str_field(self@, key@) == Some(t@),
                None => str_field(self@, key@).is_none(),
            },
    {
        match self {
            JsonValue::Object(members) => {
                let wanted = String::from_str(key);
                let mut i: usize = members.len();
                assert(members@.take(i as int) =~= members@);
                while i > 0
                    invariant
                        i <= members@.len(),
                        wanted@ == key@,
                        *self == JsonValue::Object(*members),
                        member_value(members_view(members@), key@) == member_value(
                            members_view(members@.take(i as int)),
                            key@,
                        ),
                    decreases i,
                {
                    let ghost prefix = members@.take(i as int);
                    assert(prefix.drop_last() =~= members@.take(i - 1));
                    assert(prefix.last() == members@[i - 1]);
                    let ghost shown = members_view(prefix);
                    assert(shown == members_view(prefix.drop_last()).push(
                        member_view(prefix.last()),
                    ));
                    assert(shown.drop_last() =~= members_view(members@.take(i - 1)));
                    assert(shown.last() == member_view(members@[i - 1]));
                    assert(self@ == JsonView::Object(members_view(members@)));
                    if members[i - 1].0 == wanted {
                        return match &members[i - 1].1 {
                            JsonValue::String(text) => Some(text.as_str()),
                            _ => None,
                        };
                    }
                    i -= 1;
                }
                assert(members@.take(0) =~= Seq::<(String, JsonValue)>::empty());
                None
            },
            _ => None,
        }
    }

    /// The compact JSON text of this value, as serde_json writes a value
    /// with these members in this order.
    pub fn to_json_text(&self) -> (out: String)
        ensures
            out@ == json_text(self@),
            self matches JsonValue::String(s) ==> (escape_free(s@) ==> out@ == quote() + s@ + quote()),
    {
        let mut out = String::new();
        write_json(self, &mut out);
        assert(out@ =~= json_text(self@));
        out
    }

    /// A copy of this value.
    pub fn copy(&self) -> (r: JsonValue)
        ensures
            r@ == self@,
        decreases self,
    {
        match self {
            JsonValue::Null => JsonValue::Null,
            JsonValue::Bool(b) => JsonValue::Bool(*b),
            JsonValue::Number(n) => JsonValue::Number(n.clone()),
            JsonValue::String(s) => JsonValue::String(s.clone()),
            JsonValue::Array(items) => {
                let mut out: Vec<JsonValue> = Vec::new();
                let mut i: usize = 0;
                while i < items.len()
                    invariant
                        i <= items@.len(),
                        *self == JsonValue::Array(*items),
                        items_view(out@) == items_view(items@.take(i as int)),
                    decreases items@.len() - i,
                {
                    proof {
                        assert(decreases_to!(*self => (*self)->Array_0));
                        assert(decreases_to!(*items => items@));
                        assert(decreases_to!(items@ => items@[i as int]));
                    }
                    let item = items[i].copy();
                    let ghost before = out@;
                    out.push(item);
                    assert(out@.drop_last() =~= before);
                    assert(items@.take(i + 1).drop_last() =~= items@.take(i as int));
                    i += 1;
                }
                assert(items@.take(items@.len() as int) =~= items@);
                JsonValue::Array(out)
            },
            JsonValue::Object(members) => {
                let mut out: Vec<(String, JsonValue)> = Vec::new();
                let mut i: usize = 0;
                while i < members.len()
                    invariant
                        i <= members@.len(),
                        *self == JsonValue::Object(*members),
                        members_view(out@) == members_view(members@.take(i as int)),
                    decreases members@.len() - i,
                {
                    proof {
                        assert(decreases_to!(*self => (*self)->Object_0));
                        assert(decreases_to!(*members => members@));
                        assert(decreases_to!(members@ => members@[i as int]));
                        assert(decreases_to!(members@[i as int] => members@[i as int].1));
                    }
                    let value = members[i].1.copy();
                    let member = (members[i].0.clone(), value);
                    let ghost before = out@;
                    out.push(member);
                    assert(out@.drop_last() =~= before);
                    assert(out@.last() == member);
                    assert(member_view(member) == member_view(members@[i as int]));
                    assert(members@.take(i + 1).drop_last() =~= members@.take(i as int));
                    assert(members@.take(i + 1).last() == members@[i as int]);
                    i += 1;
                }
                assert(members@.take(members@.len() as int) =~= members@);
                JsonValue::Object(out)
            },
        }
    }
}

/// Appends the compact JSON text of `v` to `out`.
fn write_json(v: &JsonValue, out: &mut String)
    ensures
        final(out)@ == old(out)@ + json_text(v@),
        v matches JsonValue::String(s) ==> (escape_free(s@) ==> json_quoted(s@) == quote() + s@
            + quote()),
    decreases v,
{
    let ghost start = out@;
    match v {
        JsonValue::Null => {
            proof {
                reveal_strlit("null");
            }
            out.append("null");
        },
        JsonValue::Bool(b) => {
            proof {
                reveal_strlit("true");
                reveal_strlit("false");
            }
            if *b {
                out.append("true");
            } else {
                out.append("false");
            }
        },
        JsonValue::Number(n) => {
            out.append(n.as_str());
        },
        JsonValue::String(s) => {
            let quoted = quote_json_string(s.as_str());
            out.append(quoted.as_str());
        },
        JsonValue::Array(items) => {
            proof {
                reveal_strlit("[");
                reveal_strlit("]");
            }
            out.append("[");
            let mut i: usize = 0;
            while i < items.len()
                invariant
                    i <= items.len(),
                    *v == JsonValue::Array(*items),
                    out@ == start + seq!['['] + items_text(items_view(items@.take(i as int))),
                decreases items.len() - i,
            {
                proof {
                    reveal_strlit(",");
                }
                if i > 0 {
                    out.append(",");
                }
                proof {
                    assert(decreases_to!(*v => (*v)->Array_0));
                    assert(decreases_to!(*items => items@));
                    assert(decreases_to!(items@ => items@[i as int]));
                }
                write_json(&items[i], out);
                proof {
                    let prefix = items@.take(i + 1);
                    assert(prefix.drop_last() =~= items@.take(i as int));
                    assert(prefix.last() == items@[i as int]);
                    let shown = items_view(prefix);
                    assert(shown == items_view(prefix.drop_last()).push(json_view(prefix.last())));
                    assert(shown.drop_last() =~= items_view(items@.take(i as int)));
                    if i == 0 {
                        assert(items_view(items@.take(0)) =~= Seq::<JsonView>::empty());
                        assert(shown.len() == 1);
                        assert(items_text(shown) == json_text(shown[0]));
                    } else {
                        assert(items_text(shown) == items_text(shown.drop_last()) + seq![',']
                            + json_text(shown.last()));
                    }
                }
                i += 1;
            }
            assert(items@.take(items.len() as int) =~= items@);
            out.append("]");
        },
        JsonValue::Object(members) => {
            proof {
                reveal_strlit("{");
                reveal_strlit("}");
            }
            out.append("{");
            let mut i: usize = 0;
            while i < members.len()
                invariant
                    i <= members.len(),
                    *v == JsonValue::Object(*members),
                    out@ == start + seq!['{'] + members_text(members_view(members@.take(i as int))),
                decreases members.len() - i,
            {
                proof {
                    reveal_strlit(",");
                    reveal_strlit(":");
                }
                if i > 0 {
                    out.append(",");
                }
                let key = quote_json_string(members[i].0.as_str());
                out.append(key.as_str());
                out.append(":");
                proof {
                    assert(decreases_to!(*v => (*v)->Object_0));
                    assert(decreases_to!(*members => members@));
                    assert(decreases_to!(members@ => members@[i as int]));
                    assert(decreases_to!(members@[i as int] => members@[i as int].1));
                }
                write_json(&members[i].1, out);
                proof {
                    let prefix = members@.take(i + 1);
                    assert(prefix.drop_last() =~= members@.take(i as int));
                    assert(prefix.last() == members@[i as int]);
                    let shown = members_view(prefix);
                    assert(shown == members_view(prefix.drop_last()).push(
                        member_view(prefix.last()),
                    ));
                    assert(shown.drop_last() =~= members_view(members@.take(i as int)));
                    assert(shown.last() == member_view(members@[i as int]));
                    if i == 0 {
                        assert(members_view(members@.take(0)) =~= Seq::<(Seq<char>, JsonView)>::empty());
                        assert(shown.len() == 1);
                        assert(members_text(shown) == member_text(shown[0]));
                    } else {
                        assert(members_text(shown) == members_text(shown.drop_last()) + seq![',']
                            + member_text(shown.last()));
                    }
                }
                i += 1;
            }
            assert(members@.take(members.len() as int) =~= members@);
            out.append("}");
        },
    }
}

} // verus!
