//! JSON documents as plain values.
use crate::text::str_eq;
use serde_json::Value;
use vstd::prelude::*;

verus! {

/// A JSON document. Of a number only its value as a count is kept, where it is one.
#[derive(Debug)]
pub enum Json {
    Null,
    Flag(bool),
    Number(Option<u64>),
    Text(String),
    List(Vec<Json>),
    Table(Vec<(String, Json)>),
}

/// A JSON document as a mathematical value.
pub ghost enum JsonView {
    Null,
    Flag(bool),
    Number(Option<u64>),
    Text(Seq<char>),
    List(Seq<JsonView>),
    Table(Seq<(Seq<char>, JsonView)>),
}

impl Json {
    /// The document as a mathematical value.
    pub open spec fn shown(self) -> JsonView
        decreases self,
    {
        match self {
            Json::Null => JsonView::Null,
            Json::Flag(b) => JsonView::Flag(b),
            Json::Number(n) => JsonView::Number(n),
            Json::Text(t) => JsonView::Text(t@),
            Json::List(v) => JsonView::List(
                Seq::new(
                    v@.len(),
                    |i: int|
                        if 0 <= i < v@.len() {
                            v@[i].shown()
                        } else {
                            JsonView::Null
                        },
                ),
            ),
            Json::Table(v) => JsonView::Table(
                Seq::new(
                    v@.len(),
                    |i: int|
                        if 0 <= i < v@.len() {
                            (v@[i].0@, v@[i].1.shown())
                        } else {
                            (Seq::empty(), JsonView::Null)
                        },
                ),
            ),
        }
    }
}

// ---------------------------------------------------------------------
// Reading
// ---------------------------------------------------------------------

/// `serde_json::Value`, carried as a whole.
#[verifier::external_type_specification]
#[verifier::external_body]
pub struct ExValue(serde_json::Value);

/// What a `serde_json::Value` holds.
pub uninterp spec fn json_in(v: Value) -> JsonView;

/// What `serde_json::from_slice` reads from bytes, or what it says of bytes that it refuses.
pub uninterp spec fn json_of(bytes: Seq<u8>) -> Result<JsonView, Seq<char>>;

/// The outermost part of a document.
enum Layer {
    Null,
    Flag(bool),
    Number(Option<u64>),
    Text(String),
    List(Vec<Value>),
    Table(Vec<(String, Value)>),
}

/// Whether the outermost part of a document is the given one.
spec fn is_layer(l: Layer, j: JsonView) -> bool {
    match l {
        Layer::Null => j == JsonView::Null,
        Layer::Flag(b) => j == JsonView::Flag(b),
        Layer::Number(n) => j == JsonView::Number(n),
        Layer::Text(t) => j == JsonView::Text(t@),
        Layer::List(v) => j == JsonView::List(v@.map_values(|e: Value| json_in(e))),
        Layer::Table(v) => j == JsonView::Table(
            v@.map_values(|e: (String, Value)| (e.0@, json_in(e.1))),
        ),
    }
}

/// `serde_json::from_slice` into a `serde_json::Value`. What it reads, and what it says of bytes
/// that it refuses, depends on the bytes alone.
#[verifier::external_body]
fn parse(bytes: &[u8]) -> (r: Result<Value, String>)
    ensures
        match r {
            Ok(v) => json_of(bytes@) == Ok::<JsonView, Seq<char>>(json_in(v)),
            Err(m) => json_of(bytes@) == Err::<JsonView, Seq<char>>(m@),
        },
{
    serde_json::from_slice(bytes).map_err(|e| e.to_string())
}

/// The variants of `serde_json::Value`: each holds what the variant of the same meaning here is
/// given. `serde_json::Number::as_u64` tells a number that is a count.
#[verifier::external_body]
fn outermost(v: Value) -> (r: Layer)
    ensures
        is_layer(r, json_in(v)),
{
    match v {
        Value::Null => Layer::Null,
        Value::Bool(b) => Layer::Flag(b),
        Value::Number(n) => Layer::Number(n.as_u64()),
        Value::String(s) => Layer::Text(s),
        Value::Array(items) => Layer::List(items),
        Value::Object(members) => Layer::Table(members.into_iter().collect()),
    }
}

fn unfold(v: Value) -> (r: Json)
    ensures
        r.shown() == json_in(v),
    decreases json_in(v),
{
    let ghost whole = json_in(v);
    match outermost(v) {
        Layer::Null => Json::Null,
        Layer::Flag(b) => Json::Flag(b),
        Layer::Number(n) => Json::Number(n),
        Layer::Text(t) => Json::Text(t),
        Layer::List(items) => {
            let ghost all = items@;
            let mut rest = items;
            let mut found: Vec<Json> = Vec::new();
            while rest.len() > 0
                invariant
                    whole == JsonView::List(all.map_values(|e: Value| json_in(e))),
                    whole == json_in(v),
                    rest@.len() + found@.len() == all.len(),
                    rest@ == all.take(rest@.len() as int),
                    forall|k: int|
                        0 <= k < found@.len() ==> (#[trigger] found@[k]).shown() == json_in(
                            all[all.len() - 1 - k],
                        ),
                decreases rest@.len(),
            {
                let ghost at = rest@.len() - 1;
                if let Some(item) = rest.pop() {
                    proof {
                        let views = whole->List_0;
                        assert(views[at] == json_in(item));
                        assert(decreases_to!(whole => whole->List_0));
                        assert(decreases_to!(views => views[at]));
                    }
                    found.push(unfold(item));
                    assert(rest@ =~= all.take(rest@.len() as int));
                }
            }
            let list = turned(found, Ghost(all));
            assert(Json::List(list).shown()->List_0 =~= all.map_values(|e: Value| json_in(e)));
            Json::List(list)
        },
        Layer::Table(members) => {
            let ghost all = members@;
            let mut rest = members;
            let mut found: Vec<(String, Json)> = Vec::new();
            while rest.len() > 0
                invariant
                    whole == JsonView::Table(
                        all.map_values(|e: (String, Value)| (e.0@, json_in(e.1))),
                    ),
                    whole == json_in(v),
                    rest@.len() + found@.len() == all.len(),
                    rest@ == all.take(rest@.len() as int),
                    forall|k: int|
                        0 <= k < found@.len() ==> {
                            let e = all[all.len() - 1 - k];
                            &&& (#[trigger] found@[k]).0@ == e.0@
                            &&& found@[k].1.shown() == json_in(e.1)
                        },
                decreases rest@.len(),
            {
                let ghost at = rest@.len() - 1;
                if let Some((name, item)) = rest.pop() {
                    proof {
                        let views = whole->Table_0;
                        assert(views[at].1 == json_in(item));
                        assert(decreases_to!(whole => whole->Table_0));
                        assert(decreases_to!(views => views[at]));
                        assert(decreases_to!(views[at] => views[at].1));
                    }
                    found.push((name, unfold(item)));
                    assert(rest@ =~= all.take(rest@.len() as int));
                }
            }
            let table = turned_members(found, Ghost(all));
            assert(Json::Table(table).shown()->Table_0 =~= all.map_values(
                |e: (String, Value)| (e.0@, json_in(e.1)),
            ));
            Json::Table(table)
        },
    }
}

fn turned(found: Vec<Json>, all: Ghost<Seq<Value>>) -> (r: Vec<Json>)
    requires
        found@.len() == all@.len(),
        forall|k: int|
            0 <= k < found@.len() ==> (#[trigger] found@[k]).shown() == json_in(
                all@[all@.len() - 1 - k],
            ),
    ensures
        r@.len() == all@.len(),
        forall|k: int| 0 <= k < r@.len() ==> (#[trigger] r@[k]).shown() == json_in(all@[k]),
{
    let mut rest = found;
    let mut out: Vec<Json> = Vec::new();
    while rest.len() > 0
        invariant
            rest@.len() + out@.len() == all@.len(),
            forall|k: int|
                0 <= k < rest@.len() ==> (#[trigger] rest@[k]).shown() == json_in(
                    all@[all@.len() - 1 - k],
                ),
            forall|k: int| 0 <= k < out@.len() ==> (#[trigger] out@[k]).shown() == json_in(all@[k]),
        decreases rest@.len(),
    {
        if let Some(item) = rest.pop() {
            out.push(item);
        }
    }
    out
}

fn turned_members(found: Vec<(String, Json)>, all: Ghost<Seq<(String, Value)>>) -> (r: Vec<
    (String, Json),
>)
    requires
        found@.len() == all@.len(),
        forall|k: int|
            0 <= k < found@.len() ==> {
                let e = all@[all@.len() - 1 - k];
                (#[trigger] found@[k]).0@ == e.0@ && found@[k].1.shown() == json_in(e.1)
            },
    ensures
        r@.len() == all@.len(),
        forall|k: int|
            0 <= k < r@.len() ==> (#[trigger] r@[k]).0@ == all@[k].0@ && r@[k].1.shown() == json_in(
                all@[k].1,
            ),
{
    let mut rest = found;
    let mut out: Vec<(String, Json)> = Vec::new();
    while rest.len() > 0
        invariant
            rest@.len() + out@.len() == all@.len(),
            forall|k: int|
                0 <= k < rest@.len() ==> {
                    let e = all@[all@.len() - 1 - k];
                    (#[trigger] rest@[k]).0@ == e.0@ && rest@[k].1.shown() == json_in(e.1)
                },
            forall|k: int|
                0 <= k < out@.len() ==> (#[trigger] out@[k]).0@ == all@[k].0@ && out@[k].1.shown()
                    == json_in(all@[k].1),
        decreases rest@.len(),
    {
        if let Some(member) = rest.pop() {
            out.push(member);
        }
    }
    out
}

/// Reads a JSON document.
pub fn read_json(bytes: &[u8]) -> (r: Result<Json, String>)
    ensures
        match r {
            Ok(j) => json_of(bytes@) == Ok::<JsonView, Seq<char>>(j.shown()),
            Err(m) => json_of(bytes@) == Err::<JsonView, Seq<char>>(m@),
        },
{
    match parse(bytes) {
        Err(m) => Err(m),
        Ok(v) => Ok(unfold(v)),
    }
}

// ---------------------------------------------------------------------
// Members
// ---------------------------------------------------------------------

/// The member of a table under a name, the first one, from a place on.
pub open spec fn member_from(t: Seq<(Seq<char>, JsonView)>, name: Seq<char>, i: int) -> Option<
    JsonView,
>
    decreases t.len() - i,
{
    if i < 0 || i >= t.len() {
        None
    } else if t[i].0 == name {
        Some(t[i].1)
    } else {
        member_from(t, name, i + 1)
    }
}

/// What stands under a name in a document; nothing where it is no table or lacks the name.
pub open spec fn member(j: JsonView, name: Seq<char>) -> JsonView {
    match j {
        JsonView::Table(t) => match member_from(t, name, 0) {
            Some(v) => v,
            None => JsonView::Null,
        },
        _ => JsonView::Null,
    }
}

/// The value that stands for nothing.
fn nothing() -> (r: &'static Json)
    ensures
        r.shown() == JsonView::Null,
{
    &Json::Null
}

impl Json {
    /// What stands under a name; nothing where the document is no table or lacks the name.
    pub fn get(&self, name: &str) -> (r: &Json)
        ensures
            r.shown() == member(self.shown(), name@),
    {
        match self {
            Json::Table(t) => {
                let ghost whole = self.shown()->Table_0;
                let mut i: usize = 0;
                while i < t.len()
                    invariant
                        i <= t@.len(),
                        *self == Json::Table(*t),
                        whole == self.shown()->Table_0,
                        whole.len() == t@.len(),
                        member_from(whole, name@, 0) == member_from(whole, name@, i as int),
                    decreases t@.len() - i,
                {
                    assert(whole[i as int] == (t@[i as int].0@, t@[i as int].1.shown()));
                    if str_eq(t[i].0.as_str(), name) {
                        return &t[i].1;
                    }
                    i = i + 1;
                }
                nothing()
            },
            _ => nothing(),
        }
    }

    /// Whether the document is the given text.
    pub fn is_text(&self, text: &str) -> (r: bool)
        ensures
            r == (self.shown() == JsonView::Text(text@)),
    {
        match self {
            Json::Text(t) => str_eq(t.as_str(), text),
            _ => false,
        }
    }

    /// Whether the document is nothing.
    pub fn is_nothing(&self) -> (r: bool)
        ensures
            r == (self.shown() == JsonView::Null),
    {
        match self {
            Json::Null => true,
            _ => false,
        }
    }
}

// ---------------------------------------------------------------------
// Repeated names
// ---------------------------------------------------------------------

/// How many names stand in a document, at any depth.
pub open spec fn names_in(j: JsonView) -> nat
    decreases j, 0nat,
{
    match j {
        JsonView::List(v) => names_in_list(v, v.len()),
        JsonView::Table(v) => names_in_table(v, v.len()),
        _ => 0,
    }
}

/// How many names stand in the first `n` items of a list.
pub open spec fn names_in_list(v: Seq<JsonView>, n: nat) -> nat
    decreases v, n,
{
    if n == 0 || n > v.len() {
        0
    } else {
        names_in_list(v, (n - 1) as nat) + names_in(v[n - 1])
    }
}

/// How many names stand in the first `n` members of a table, their own among them.
pub open spec fn names_in_table(v: Seq<(Seq<char>, JsonView)>, n: nat) -> nat
    decreases v, n,
{
    if n == 0 || n > v.len() {
        0
    } else {
        names_in_table(v, (n - 1) as nat) + 1 + names_in(v[n - 1].1)
    }
}

/// Where a reader of a JSON text is: inside a string or not, behind an escape or not, and how many
/// names it has passed.
pub ghost struct Passed {
    pub quoted: bool,
    pub escaped: bool,
    pub names: nat,
}

/// What the first `n` bytes of a JSON text lead to. Behind each name, and nowhere else outside
/// strings, stands a colon.
pub open spec fn passed(bytes: Seq<u8>, n: nat) -> Passed
    decreases n,
{
    if n == 0 || n > bytes.len() {
        Passed { quoted: false, escaped: false, names: 0 }
    } else {
        let p = passed(bytes, (n - 1) as nat);
        let b = bytes[n - 1];
        if p.quoted {
            if p.escaped {
                Passed { escaped: false, ..p }
            } else if b == 92 {
                Passed { escaped: true, ..p }
            } else if b == 34 {
                Passed { quoted: false, ..p }
            } else {
                p
            }
        } else if b == 34 {
            Passed { quoted: true, ..p }
        } else if b == 58 {
            Passed { names: p.names + 1, ..p }
        } else {
            p
        }
    }
}

/// Whether no name is repeated in a table of a JSON text: a document keeps one of each.
pub open spec fn names_once(bytes: Seq<u8>, j: JsonView) -> bool {
    passed(bytes, bytes.len()).names == names_in(j)
}

fn count_names(bytes: &[u8]) -> (r: usize)
    ensures
        r == passed(bytes@, bytes@.len()).names,
{
    let mut quoted: bool = false;
    let mut escaped: bool = false;
    let mut names: usize = 0;
    let mut i: usize = 0;
    while i < bytes.len()
        invariant
            i <= bytes@.len(),
            names <= i,
            passed(bytes@, i as nat) == (Passed { quoted, escaped, names: names as nat }),
        decreases bytes@.len() - i,
    {
        let b: u8 = bytes[i];
        if quoted {
            if escaped {
                escaped = false;
            } else if b == 92 {
                escaped = true;
            } else if b == 34 {
                quoted = false;
            }
        } else if b == 34 {
            quoted = true;
        } else if b == 58 {
            names = names + 1;
        }
        i = i + 1;
    }
    names
}

impl Json {
    /// Takes the names in the document off a number, as far as they go into it.
    fn names_off(&self, room: usize) -> (r: Option<usize>)
        ensures
            match r {
                Some(left) => left + names_in(self.shown()) == room,
                None => names_in(self.shown()) > room,
            },
        decreases self,
    {
        let mut left: usize = room;
        let mut i: usize = 0;
        match self {
            Json::List(v) => {
                let ghost views = self.shown()->List_0;
                while i < v.len()
                    invariant
                        i <= v@.len(),
                        *self == Json::List(*v),
                        views == self.shown()->List_0,
                        left + names_in_list(views, i as nat) == room,
                    decreases v@.len() - i,
                {
                    assert(views[i as int] == v@[i as int].shown());
                    match v[i].names_off(left) {
                        Some(n) => {
                            left = n;
                        },
                        None => {
                            proof {
                                lemma_list_grows(views, i as nat + 1, views.len());
                            }
                            return None;
                        },
                    }
                    i = i + 1;
                }
                Some(left)
            },
            Json::Table(v) => {
                let ghost views = self.shown()->Table_0;
                while i < v.len()
                    invariant
                        i <= v@.len(),
                        *self == Json::Table(*v),
                        views == self.shown()->Table_0,
                        left + names_in_table(views, i as nat) == room,
                    decreases v@.len() - i,
                {
                    assert(views[i as int].1 == v@[i as int].1.shown());
                    proof {
                        lemma_table_grows(views, i as nat + 1, views.len());
                    }
                    if left == 0 {
                        return None;
                    }
                    match v[i].1.names_off(left - 1) {
                        Some(n) => {
                            left = n;
                        },
                        None => {
                            return None;
                        },
                    }
                    i = i + 1;
                }
                Some(left)
            },
            _ => Some(left),
        }
    }

    /// Whether no name is repeated in a table of the text that the document was read from.
    pub fn has_names_once(&self, bytes: &[u8]) -> (r: bool)
        ensures
            r == names_once(bytes@, self.shown()),
    {
        match self.names_off(count_names(bytes)) {
            Some(left) => left == 0,
            None => false,
        }
    }
}

proof fn lemma_list_grows(v: Seq<JsonView>, a: nat, b: nat)
    requires
        a <= b <= v.len(),
    ensures
        names_in_list(v, a) <= names_in_list(v, b),
    decreases b - a,
{
    if a < b {
        lemma_list_grows(v, a, (b - 1) as nat);
    }
}

proof fn lemma_table_grows(v: Seq<(Seq<char>, JsonView)>, a: nat, b: nat)
    requires
        a <= b <= v.len(),
    ensures
        names_in_table(v, a) <= names_in_table(v, b),
    decreases b - a,
{
    if a < b {
        lemma_table_grows(v, a, (b - 1) as nat);
    }
}

} // verus!
