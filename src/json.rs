use vstd::prelude::*;

verus! {

broadcast use vstd::std_specs::vec::group_vec_axioms, vstd::seq::group_seq_axioms;

/// A JSON value. Numbers are held as the text that the JSON encoder writes
/// for them; objects keep their entries in encounter order.
#[derive(Debug, PartialEq, Eq)]
pub enum JsonValue {
    Null,
    Bool(bool),
    Number(String),
    Str(String),
    Array(Vec<JsonValue>),
    Object(Vec<(String, JsonValue)>),
}

/// The mathematical value of a `JsonValue`.
pub enum JsonView {
    Null,
    Bool(bool),
    Number(Seq<char>),
    Str(Seq<char>),
    Array(Seq<JsonView>),
    Object(Seq<(Seq<char>, JsonView)>),
}

impl JsonValue {
    pub open spec fn view(&self) -> JsonView
        decreases self, 0nat,
    {
        match self {
            JsonValue::Null => JsonView::Null,
            JsonValue::Bool(b) => JsonView::Bool(*b),
            JsonValue::Number(n) => JsonView::Number(n@),
            JsonValue::Str(s) => JsonView::Str(s@),
            JsonValue::Array(a) => JsonView::Array(items_view(a@)),
            JsonValue::Object(o) => JsonView::Object(entries_view(o@)),
        }
    }
}

pub open spec fn items_view(a: Seq<JsonValue>) -> Seq<JsonView>
    decreases a, a.len(),
{
    if a.len() == 0 {
        seq![]
    } else {
        items_view(a.drop_last()).push(a.last().view())
    }
}

pub open spec fn entries_view(o: Seq<(String, JsonValue)>) -> Seq<(Seq<char>, JsonView)>
    decreases o, o.len(),
{
    if o.len() == 0 {
        seq![]
    } else {
        entries_view(o.drop_last()).push((o.last().0@, o.last().1.view()))
    }
}


pub proof fn lemma_items_view(a: Seq<JsonValue>)
    ensures
        items_view(a).len() == a.len(),
        forall|i: int| 0 <= i < a.len() ==> #[trigger] items_view(a)[i] == a[i].view(),
    decreases a.len(),
{
    if a.len() > 0 {
        lemma_items_view(a.drop_last());
    }
}

pub proof fn lemma_entries_view(o: Seq<(String, JsonValue)>)
    ensures
        entries_view(o).len() == o.len(),
        forall|i: int| 0 <= i < o.len() ==> #[trigger] entries_view(o)[i] == (o[i].0@, o[i].1.view()),
    decreases o.len(),
{
    if o.len() > 0 {
        lemma_entries_view(o.drop_last());
    }
}

/// Whether `v` is an object without entries, or not an object at all.
pub open spec fn is_empty_or_non_object(v: JsonView) -> bool {
    match v {
        JsonView::Object(o) => o.len() == 0,
        _ => true,
    }
}

/// Index of the first entry with key `k`, or the number of entries when none has it.
pub open spec fn key_index<V>(o: Seq<(Seq<char>, V)>, k: Seq<char>) -> int
    decreases o.len(),
{
    if o.len() == 0 {
        0
    } else if o[0].0 == k {
        0
    } else {
        1 + key_index(o.drop_first(), k)
    }
}

pub proof fn lemma_key_index<V>(o: Seq<(Seq<char>, V)>, k: Seq<char>, i: int)
    requires
        0 <= i <= o.len(),
        forall|j: int| 0 <= j < i ==> o[j].0 != k,
        i == o.len() || o[i].0 == k,
    ensures
        key_index(o, k) == i,
    decreases o.len(),
{
    if o.len() > 0 && i > 0 {
        assert forall|j: int| 0 <= j < i - 1 implies o.drop_first()[j].0 != k by {
            assert(o[j + 1].0 != k);
        }
        lemma_key_index(o.drop_first(), k, i - 1);
    }
}

/// The entries `o` after setting key `k` to `v`: an entry with that key keeps
/// its place and takes the new value, otherwise the entry is appended.
pub open spec fn set_key<V>(o: Seq<(Seq<char>, V)>, k: Seq<char>, v: V) -> Seq<(Seq<char>, V)> {
    let i = key_index(o, k);
    if i < o.len() {
        o.update(i, (k, v))
    } else {
        o.push((k, v))
    }
}

/// The value that the JSON decoder reads from `s`, when that value is a
/// scalar (null, a boolean or a number).
pub uninterp spec fn json_decoded_scalar(s: Seq<char>) -> Option<JsonView>;

/// The JSON string literal that the JSON encoder writes for `s`.
pub uninterp spec fn json_quoted(s: Seq<char>) -> Seq<char>;

/// Whether `s` is the decimal form of an unsigned integer that fits in 64
/// bits: at most 19 digits, no leading zero.
pub open spec fn is_plain_uint(s: Seq<char>) -> bool {
    &&& 0 < s.len() <= 19
    &&& forall|i: int| 0 <= i < s.len() ==> '0' <= #[trigger] s[i] <= '9'
    &&& (s[0] == '0' ==> s.len() == 1)
}

/// Relies on `serde_json::from_str` into `serde_json::Value`: decodes a JSON
/// text. Null, booleans and numbers are kept, a number as the text that
/// `serde_json::Number`'s `Display` writes; any other outcome gives `None`.
#[verifier::external_body]
fn decode_scalar(s: &str) -> (r: Option<JsonValue>)
    ensures
        match r {
            Some(v) => json_decoded_scalar(s@) == Some(v@),
            None => json_decoded_scalar(s@) is None,
        },
        r matches Some(v) ==> (v is Null || v is Bool || v is Number),
        s@ == seq!['n', 'u', 'l', 'l'] ==> r == Some(JsonValue::Null),
        s@ == seq!['t', 'r', 'u', 'e'] ==> r == Some(JsonValue::Bool(true)),
        s@ == seq!['f', 'a', 'l', 's', 'e'] ==> r == Some(JsonValue::Bool(false)),
        is_plain_uint(s@) ==> r is Some && r->0@ == JsonView::Number(s@),
{
    match serde_json::from_str::<serde_json::Value>(s) {
        Ok(serde_json::Value::Null) => Some(JsonValue::Null),
        Ok(serde_json::Value::Bool(b)) => Some(JsonValue::Bool(b)),
        Ok(serde_json::Value::Number(n)) => Some(JsonValue::Number(n.to_string())),
        _ => None,
    }
}

/// Relies on `serde_json::to_string` on a `str`: the quoted, escaped JSON
/// string literal. Writing into memory does not fail.
#[verifier::external_body]
fn quote_json(s: &str) -> (r: String)
    ensures
        r@ == json_quoted(s@),
{
    match serde_json::to_string(s) {
        Ok(t) => t,
        Err(_) => String::new(),
    }
}

/// How an override value enters a JSON object: as the scalar it decodes to,
/// or else as a string.
pub open spec fn override_json(s: Seq<char>) -> JsonView {
    match json_decoded_scalar(s) {
        Some(v) => v,
        None => JsonView::Str(s),
    }
}

/// Reads an override value: a JSON scalar where it decodes as one, else a string.
pub fn parse_override_value(s: &String) -> (r: JsonValue)
    ensures
        r@ == override_json(s@),
        is_plain_uint(s@) ==> r@ == JsonView::Number(s@),
{
    match decode_scalar(s.as_str()) {
        Some(v) => v,
        None => JsonValue::Str(s.clone()),
    }
}

impl JsonValue {
    /// A copy of this value.
    pub fn deep_copy(&self) -> (r: JsonValue)
        ensures
            r@ == self@,
        decreases self,
    {
        match self {
            JsonValue::Null => JsonValue::Null,
            JsonValue::Bool(b) => JsonValue::Bool(*b),
            JsonValue::Number(n) => JsonValue::Number(n.clone()),
            JsonValue::Str(s) => JsonValue::Str(s.clone()),
            JsonValue::Array(a) => JsonValue::Array(copy_items(a)),
            JsonValue::Object(o) => JsonValue::Object(copy_entries(o)),
        }
    }
}

/// A copy of the items of an array.
pub fn copy_items(a: &Vec<JsonValue>) -> (r: Vec<JsonValue>)
    ensures
        items_view(r@) == items_view(a@),
    decreases a, 1nat,
{
    let mut out: Vec<JsonValue> = Vec::new();
    let mut i: usize = 0;
    while i < a.len()
        invariant
            i <= a@.len(),
            items_view(out@) == items_view(a@.subrange(0, i as int)),
        decreases a@.len() - i,
    {
        proof {
            assert(decreases_to!(*a => a[i as int]));
        }
        let c = a[i].deep_copy();
        proof {
            assert(a@.subrange(0, i + 1).drop_last() =~= a@.subrange(0, i as int));
        }
        let ghost prev = out@;
        out.push(c);
        proof {
            assert(out@.drop_last() =~= prev);
        }
        i = i + 1;
    }
    assert(a@.subrange(0, a@.len() as int) =~= a@);
    out
}

/// A copy of the entries of an object.
pub fn copy_entries(o: &Vec<(String, JsonValue)>) -> (r: Vec<(String, JsonValue)>)
    ensures
        entries_view(r@) == entries_view(o@),
    decreases o, 1nat,
{
    let mut out: Vec<(String, JsonValue)> = Vec::new();
    let mut i: usize = 0;
    while i < o.len()
        invariant
            i <= o@.len(),
            entries_view(out@) == entries_view(o@.subrange(0, i as int)),
        decreases o@.len() - i,
    {
        proof {
            assert(decreases_to!(*o => o[i as int]));
        }
        let c = o[i].1.deep_copy();
        let k = o[i].0.clone();
        proof {
            assert(o@.subrange(0, i + 1).drop_last() =~= o@.subrange(0, i as int));
        }
        let ghost prev = out@;
        out.push((k, c));
        proof {
            assert(out@.drop_last() =~= prev);
        }
        i = i + 1;
    }
    assert(o@.subrange(0, o@.len() as int) =~= o@);
    out
}

/// Position of the entry with key `k`, or the number of entries when none has it.
pub fn key_position(o: &Vec<(String, JsonValue)>, k: &String) -> (r: usize)
    ensures
        r as int == key_index(entries_view(o@), k@),
        r <= o@.len(),
{
    proof {
        lemma_entries_view(o@);
    }
    let mut i: usize = 0;
    while i < o.len()
        invariant
            i <= o@.len(),
            entries_view(o@).len() == o@.len(),
            forall|j: int| 0 <= j < i ==> entries_view(o@)[j].0 != k@,
        decreases o@.len() - i,
    {
        proof {
            lemma_entries_view(o@);
        }
        if o[i].0 == *k {
            proof {
                lemma_key_index(entries_view(o@), k@, i as int);
            }
            return i;
        }
        i = i + 1;
    }
    proof {
        lemma_key_index(entries_view(o@), k@, i as int);
    }
    i
}

/// Sets key `k` of an object's entries to `v`.
pub fn set_entry(o: &mut Vec<(String, JsonValue)>, k: String, v: JsonValue)
    ensures
        entries_view(final(o)@) == set_key(entries_view(old(o)@), k@, v@),
{
    let i = key_position(o, &k);
    proof {
        lemma_entries_view(o@);
    }
    if i < o.len() {
        let ghost e = (k@, v@);
        o[i] = (k, v);
        proof {
            lemma_entries_view(o@);
            assert(entries_view(o@) =~= entries_view(old(o)@).update(i as int, e));
        }
    } else {
        o.push((k, v));
        proof {
            assert(o@.drop_last() =~= old(o)@);
        }
    }
}

/// Every key before the one that `key_index` finds differs from it, and the
/// entry found, if any, has it.
pub proof fn lemma_key_index_found<V>(o: Seq<(Seq<char>, V)>, k: Seq<char>)
    ensures
        0 <= key_index(o, k) <= o.len(),
        forall|j: int| 0 <= j < key_index(o, k) ==> o[j].0 != k,
        key_index(o, k) < o.len() ==> o[key_index(o, k)].0 == k,
    decreases o.len(),
{
    if o.len() > 0 && o[0].0 != k {
        lemma_key_index_found(o.drop_first(), k);
        assert forall|j: int| 0 <= j < key_index(o, k) implies o[j].0 != k by {
            if j > 0 {
                assert(o[j] == o.drop_first()[j - 1]);
            }
        }
    }
}

/// The separator written before the `n`th item (counting from one) of an
/// array or object.
pub open spec fn item_sep(pretty: bool, n: int) -> Seq<char> {
    if n == 1 {
        if pretty { seq!['\n'] } else { seq![] }
    } else {
        if pretty { seq![',', '\n'] } else { seq![','] }
    }
}

/// What stands between a key and its value.
pub open spec fn key_sep(pretty: bool) -> Seq<char> {
    if pretty { seq![':', ' '] } else { seq![':'] }
}

/// The indentation added for each level of nesting.
pub open spec fn indent_step(pretty: bool) -> Seq<char> {
    if pretty { seq![' ', ' '] } else { seq![] }
}

/// What closes a non-empty array or object that starts at indentation `ind`.
pub open spec fn closing(pretty: bool, ind: Seq<char>) -> Seq<char> {
    if pretty { seq!['\n'] + ind } else { seq![] }
}

/// The JSON text of `v`: compact, or pretty-printed with two spaces per level
/// where `pretty`, when `v` stands at indentation `ind`.
pub open spec fn render(v: JsonView, pretty: bool, ind: Seq<char>) -> Seq<char>
    decreases v, 0nat,
{
    match v {
        JsonView::Null => seq!['n', 'u', 'l', 'l'],
        JsonView::Bool(b) => if b { seq!['t', 'r', 'u', 'e'] } else { seq!['f', 'a', 'l', 's', 'e'] },
        JsonView::Number(n) => n,
        JsonView::Str(s) => json_quoted(s),
        JsonView::Array(a) => if a.len() == 0 {
            seq!['[', ']']
        } else {
            seq!['['] + render_items(a, pretty, ind + indent_step(pretty)) + closing(pretty, ind) + seq![']']
        },
        JsonView::Object(o) => if o.len() == 0 {
            seq!['{', '}']
        } else {
            seq!['{'] + render_entries(o, pretty, ind + indent_step(pretty)) + closing(pretty, ind) + seq!['}']
        },
    }
}

/// The items of an array, each with its separator, at indentation `ind`.
pub open spec fn render_items(a: Seq<JsonView>, pretty: bool, ind: Seq<char>) -> Seq<char>
    decreases a, a.len(),
{
    if a.len() == 0 {
        seq![]
    } else {
        render_items(a.drop_last(), pretty, ind) + item_sep(pretty, a.len() as int) + ind
            + render(a.last(), pretty, ind)
    }
}

/// The entries of an object, each with its separator, at indentation `ind`.
pub open spec fn render_entries(o: Seq<(Seq<char>, JsonView)>, pretty: bool, ind: Seq<char>) -> Seq<char>
    decreases o, o.len(),
{
    if o.len() == 0 {
        seq![]
    } else {
        render_entries(o.drop_last(), pretty, ind) + item_sep(pretty, o.len() as int) + ind
            + json_quoted(o.last().0) + key_sep(pretty) + render(o.last().1, pretty, ind)
    }
}

/// The compact JSON text of `v`.
pub open spec fn compact_text(v: JsonView) -> Seq<char> {
    render(v, false, seq![])
}

/// The pretty-printed JSON text of `v`, two spaces per level.
pub open spec fn pretty_text(v: JsonView) -> Seq<char> {
    render(v, true, seq![])
}

fn push_str(out: &mut String, s: &str)
    ensures
        final(out)@ == old(out)@ + s@,
{
    out.append(s);
}

/// Appends `render(v@, pretty, ind@)` to `out`.
fn write_value(v: &JsonValue, pretty: bool, ind: &String, out: &mut String)
    ensures
        final(out)@ == old(out)@ + render(v@, pretty, ind@),
    decreases v,
{
    proof {
        reveal_strlit("null");
        reveal_strlit("true");
        reveal_strlit("false");
        reveal_strlit("[");
        reveal_strlit("]");
        reveal_strlit("{");
        reveal_strlit("}");
        reveal_strlit("[]");
        reveal_strlit("{}");
        reveal_strlit("  ");
        reveal_strlit("\n");
    }
    match v {
        JsonValue::Null => push_str(out, "null"),
        JsonValue::Bool(b) => if *b {
            push_str(out, "true")
        } else {
            push_str(out, "false")
        },
        JsonValue::Number(n) => push_str(out, n.as_str()),
        JsonValue::Str(s) => {
            let q = quote_json(s.as_str());
            push_str(out, q.as_str());
        },
        JsonValue::Array(a) => {
            proof {
                lemma_items_view(a@);
            }
            if a.len() == 0 {
                push_str(out, "[]");
            } else {
                let mut inner = ind.clone();
                if pretty {
                    push_str(&mut inner, "  ");
                }
                assert(inner@ == ind@ + indent_step(pretty));
                push_str(out, "[");
                write_items(a, pretty, &inner, out);
                if pretty {
                    push_str(out, "\n");
                    push_str(out, ind.as_str());
                }
                push_str(out, "]");
                proof {
                    assert(final(out)@ =~= old(out)@ + render(v@, pretty, ind@));
                }
            }
        },
        JsonValue::Object(o) => {
            proof {
                lemma_entries_view(o@);
            }
            if o.len() == 0 {
                push_str(out, "{}");
            } else {
                let mut inner = ind.clone();
                if pretty {
                    push_str(&mut inner, "  ");
                }
                assert(inner@ == ind@ + indent_step(pretty));
                push_str(out, "{");
                write_entries(o, pretty, &inner, out);
                if pretty {
                    push_str(out, "\n");
                    push_str(out, ind.as_str());
                }
                push_str(out, "}");
                proof {
                    assert(final(out)@ =~= old(out)@ + render(v@, pretty, ind@));
                }
            }
        },
    }
}

/// Appends `render_items(items_view(a@), pretty, ind@)` to `out`.
fn write_items(a: &Vec<JsonValue>, pretty: bool, ind: &String, out: &mut String)
    ensures
        final(out)@ == old(out)@ + render_items(items_view(a@), pretty, ind@),
    decreases a, 1nat,
{
    let ghost start = out@;
    let mut i: usize = 0;
    while i < a.len()
        invariant
            i <= a@.len(),
            out@ == start + render_items(items_view(a@.subrange(0, i as int)), pretty, ind@),
        decreases a@.len() - i,
    {
        proof {
            assert(decreases_to!(*a => a[i as int]));
        }
        let ghost before = out@;
        proof {
            reveal_strlit(",");
            reveal_strlit("\n");
            reveal_strlit(":");
            reveal_strlit(": ");
        }
        if i > 0 {
            push_str(out, ",");
        }
        if pretty {
            push_str(out, "\n");
        }
        assert(out@ =~= before + item_sep(pretty, i + 1));
        push_str(out, ind.as_str());
        write_value(&a[i], pretty, ind, out);
        proof {
            let pre = a@.subrange(0, i as int);
            let next = a@.subrange(0, i + 1);
            assert(next.drop_last() =~= pre);
            assert(items_view(next).drop_last() =~= items_view(pre));
            assert(items_view(next).len() == i + 1 && items_view(next)[i as int] == a@[i as int].view()) by {
                lemma_items_view(next);
            }
            assert(out@ =~= start + render_items(items_view(next), pretty, ind@));
        }
        i = i + 1;
    }
    assert(a@.subrange(0, a@.len() as int) =~= a@);
}

/// Appends `render_entries(entries_view(o@), pretty, ind@)` to `out`.
fn write_entries(o: &Vec<(String, JsonValue)>, pretty: bool, ind: &String, out: &mut String)
    ensures
        final(out)@ == old(out)@ + render_entries(entries_view(o@), pretty, ind@),
    decreases o, 1nat,
{
    let ghost start = out@;
    let mut i: usize = 0;
    while i < o.len()
        invariant
            i <= o@.len(),
            out@ == start + render_entries(entries_view(o@.subrange(0, i as int)), pretty, ind@),
        decreases o@.len() - i,
    {
        proof {
            assert(decreases_to!(*o => o[i as int]));
        }
        let ghost before = out@;
        proof {
            reveal_strlit(",");
            reveal_strlit("\n");
            reveal_strlit(":");
            reveal_strlit(": ");
        }
        if i > 0 {
            push_str(out, ",");
        }
        if pretty {
            push_str(out, "\n");
        }
        assert(out@ =~= before + item_sep(pretty, i + 1));
        push_str(out, ind.as_str());
        let q = quote_json(o[i].0.as_str());
        push_str(out, q.as_str());
        if pretty {
            push_str(out, ": ");
        } else {
            push_str(out, ":");
        }
        write_value(&o[i].1, pretty, ind, out);
        proof {
            let pre = o@.subrange(0, i as int);
            let next = o@.subrange(0, i + 1);
            assert(next.drop_last() =~= pre);
            assert(entries_view(next).drop_last() =~= entries_view(pre));
            assert(entries_view(next).len() == i + 1 && entries_view(next)[i as int] == (o@[i as int].0@, o@[i as int].1.view())) by {
                lemma_entries_view(next);
            }
            assert(out@ =~= start + render_entries(entries_view(next), pretty, ind@));
        }
        i = i + 1;
    }
    assert(o@.subrange(0, o@.len() as int) =~= o@);
}

impl JsonValue {
    /// The compact JSON text of this value.
    pub fn to_json_text(&self) -> (r: String)
        ensures
            r@ == compact_text(self@),
    {
        let mut out = String::new();
        let ind = String::new();
        write_value(self, false, &ind, &mut out);
        assert(out@ =~= compact_text(self@));
        out
    }

    /// The JSON text of this value, pretty-printed with two spaces per level.
    pub fn to_pretty_text(&self) -> (r: String)
        ensures
            r@ == pretty_text(self@),
    {
        let mut out = String::new();
        let ind = String::new();
        write_value(self, true, &ind, &mut out);
        assert(out@ =~= pretty_text(self@));
        out
    }
}

/// The character sequences of a sequence of strings.
pub open spec fn strings_view(v: Seq<String>) -> Seq<Seq<char>> {
    v.map_values(|s: String| s@)
}

/// Whether `s` is one of `v`.
pub fn contains_string(v: &Vec<String>, s: &String) -> (r: bool)
    ensures
        r == strings_view(v@).contains(s@),
{
    let mut i: usize = 0;
    while i < v.len()
        invariant
            i <= v@.len(),
            forall|j: int| 0 <= j < i ==> v@[j]@ != s@,
        decreases v@.len() - i,
    {
        if v[i] == *s {
            assert(strings_view(v@)[i as int] == s@);
            return true;
        }
        i = i + 1;
    }
    proof {
        if strings_view(v@).contains(s@) {
            let j = choose|j: int| 0 <= j < strings_view(v@).len() && strings_view(v@)[j] == s@;
            assert(v@[j]@ == s@);
        }
    }
    false
}

/// The entries of `o` whose keys are not in `skip`, in order.
pub open spec fn without_keys(o: Seq<(Seq<char>, JsonView)>, skip: Seq<Seq<char>>) -> Seq<(Seq<char>, JsonView)>
    decreases o.len(),
{
    if o.len() == 0 {
        seq![]
    } else {
        let rest = without_keys(o.drop_last(), skip);
        if skip.contains(o.last().0) {
            rest
        } else {
            rest.push(o.last())
        }
    }
}

/// `v` without the top-level keys in `skip`; a value that is not an object
/// stays as it is.
pub open spec fn without_top_keys(v: JsonView, skip: Seq<Seq<char>>) -> JsonView {
    match v {
        JsonView::Object(o) => JsonView::Object(without_keys(o, skip)),
        _ => v,
    }
}

/// Removes the top-level keys in `skip` from an object. Keys of nested
/// objects are kept, as is a value that is not an object.
pub fn remove_top_keys(v: &JsonValue, skip: &Vec<String>) -> (r: JsonValue)
    ensures
        r@ == without_top_keys(v@, strings_view(skip@)),
{
    match v {
        JsonValue::Object(o) => {
            let ghost sk = strings_view(skip@);
            let mut kept: Vec<(String, JsonValue)> = Vec::new();
            let mut i: usize = 0;
            while i < o.len()
                invariant
                    i <= o@.len(),
                    sk == strings_view(skip@),
                    entries_view(kept@) == without_keys(entries_view(o@.subrange(0, i as int)), sk),
                decreases o@.len() - i,
            {
                let ghost pre = o@.subrange(0, i as int);
                let ghost next = o@.subrange(0, i + 1);
                proof {
                    assert(next.drop_last() =~= pre);
                    lemma_entries_view(next);
                    assert(entries_view(next).drop_last() =~= entries_view(pre));
                }
                if !contains_string(skip, &o[i].0) {
                    let e = (o[i].0.clone(), o[i].1.deep_copy());
                    let ghost prev = kept@;
                    kept.push(e);
                    proof {
                        assert(kept@.drop_last() =~= prev);
                    }
                }
                i = i + 1;
            }
            assert(o@.subrange(0, o@.len() as int) =~= o@);
            JsonValue::Object(kept)
        },
        _ => v.deep_copy(),
    }
}

/// The top-level keys in `skip` removed, then the value pretty-printed.
pub fn filter_json(v: &JsonValue, skip: &Vec<String>) -> (r: String)
    ensures
        r@ == pretty_text(without_top_keys(v@, strings_view(skip@))),
{
    remove_top_keys(v, skip).to_pretty_text()
}

/// Whether a value is absent, not an object, or an object without entries.
pub fn empty_json_value(v: &Option<JsonValue>) -> (r: bool)
    ensures
        r == match v {
            None => true,
            Some(j) => is_empty_or_non_object(j@),
        },
{
    match v {
        None => true,
        Some(JsonValue::Object(o)) => {
            proof {
                lemma_entries_view(o@);
            }
            o.len() == 0
        },
        Some(_) => true,
    }
}

impl JsonValue {
    /// Whether this value is an object.
    pub fn is_object(&self) -> (r: bool)
        ensures
            r == (self@ is Object),
    {
        match self {
            JsonValue::Object(_) => true,
            _ => false,
        }
    }
}

/// Removing keys acts on the top level only: every entry kept is an entry of
/// the object, value and nested keys untouched, with a key not in `skip`; and
/// every entry whose key is not in `skip` is kept.
pub proof fn lemma_without_keys_top_level(o: Seq<(Seq<char>, JsonView)>, skip: Seq<Seq<char>>)
    ensures
        forall|e: (Seq<char>, JsonView)| #[trigger] without_keys(o, skip).contains(e) ==> o.contains(e) && !skip.contains(e.0),
        forall|e: (Seq<char>, JsonView)| #[trigger] o.contains(e) && !skip.contains(e.0) ==> without_keys(o, skip).contains(e),
    decreases o.len(),
{
    if o.len() > 0 {
        let rest = o.drop_last();
        lemma_without_keys_top_level(rest, skip);
        let r = without_keys(o, skip);
        assert forall|e: (Seq<char>, JsonView)| #[trigger] r.contains(e) implies o.contains(e) && !skip.contains(e.0) by {
            let i = choose|i: int| 0 <= i < r.len() && r[i] == e;
            if i < without_keys(rest, skip).len() {
                assert(without_keys(rest, skip)[i] == e);
                assert(without_keys(rest, skip).contains(e));
                let j = choose|j: int| 0 <= j < rest.len() && rest[j] == e;
                assert(o[j] == e);
            } else {
                assert(o[o.len() - 1] == e);
            }
        }
        assert forall|e: (Seq<char>, JsonView)| #[trigger] o.contains(e) && !skip.contains(e.0) implies r.contains(e) by {
            let j = choose|j: int| 0 <= j < o.len() && o[j] == e;
            if j < o.len() - 1 {
                assert(rest[j] == e);
                assert(rest.contains(e));
                let k = choose|k: int| 0 <= k < without_keys(rest, skip).len() && without_keys(rest, skip)[k] == e;
                assert(r[k] == e);
            } else {
                assert(r[r.len() - 1] == e);
            }
        }
    }
}

} // verus!
