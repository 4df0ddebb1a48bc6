//! The input normalizer: command-line data tokens to one structured value.

use vstd::prelude::*;

use crate::error::StoreError;
use crate::json::{
    json_accepts, json_object, json_object_of, json_string, json_string_of, json_value_of,
    member_values, parse_json,
};

verus! {

/// Index of the first `=` in `s` at or after `from`, or -1 when there is none.
pub open spec fn eq_index(s: Seq<char>, from: int) -> int
    decreases s.len() - from,
{
    if from < 0 || from >= s.len() {
        -1
    } else if s[from] == '=' {
        from
    } else {
        eq_index(s, from + 1)
    }
}

/// `s` split at its first `=` into key and value, if it has one.
pub open spec fn split_pair(s: Seq<char>) -> Option<(Seq<char>, Seq<char>)> {
    let i = eq_index(s, 0);
    if i < 0 {
        None
    } else {
        Some((s.take(i), s.skip(i + 1)))
    }
}

/// Splits `token` at its first `=` into key and value; `None` when it holds no `=`.
pub fn split_pair_exec(token: &str) -> (r: Option<(String, String)>)
    ensures
        match (r, split_pair(token@)) {
            (Some((k, v)), Some((ks, vs))) => k@ == ks && v@ == vs,
            (None, None) => true,
            _ => false,
        },
{
    let n = token.unicode_len();
    let mut i: usize = 0;
    while i < n
        invariant
            n == token@.len(),
            i <= n,
            eq_index(token@, 0) == eq_index(token@, i as int),
        decreases n - i,
    {
        if token.get_char(i) == '=' {
            let key = String::from_str(token.substring_char(0, i));
            let value = String::from_str(token.substring_char(i + 1, n));
            assert(key@ == token@.take(i as int));
            assert(value@ == token@.skip(i + 1));
            return Some((key, value));
        }
        i = i + 1;
    }
    None
}

/// The value half of a key=value token.
#[derive(Debug, Clone)]
pub enum FieldValue {
    /// Text that holds one JSON document, standing for that document.
    Json(String),
    /// Text that is not JSON, kept as a plain string.
    Text(String),
}

/// What a `FieldValue` stands for.
pub enum FieldView {
    Json(Seq<char>),
    Text(Seq<char>),
}

impl View for FieldValue {
    type V = FieldView;

    open spec fn view(&self) -> FieldView {
        match self {
            FieldValue::Json(t) => FieldView::Json(t@),
            FieldValue::Text(t) => FieldView::Text(t@),
        }
    }
}

/// The normalized form of the data tokens.
#[derive(Debug, Clone)]
pub enum StructuredData {
    /// A single token that holds one JSON document, standing for that document.
    Json(String),
    /// An object built from key=value tokens, one member per key.
    Object(Vec<(String, FieldValue)>),
}

/// What a `StructuredData` stands for: a JSON text, or an object as a map
/// from key to value.
pub enum StructuredView {
    Json(Seq<char>),
    Object(Map<Seq<char>, FieldView>),
}

/// How the value half of a token is read: as JSON where it parses, else as text.
pub open spec fn field_view(v: Seq<char>) -> FieldView {
    if json_accepts(v) {
        FieldView::Json(v)
    } else {
        FieldView::Text(v)
    }
}

/// The object that the tokens give when each is inserted in turn, a later
/// token overwriting an earlier one with the same key. Tokens without `=`
/// are passed over.
pub open spec fn pairs_map(tokens: Seq<Seq<char>>) -> Map<Seq<char>, FieldView>
    decreases tokens.len(),
{
    if tokens.len() == 0 {
        Map::empty()
    } else {
        let m = pairs_map(tokens.drop_last());
        match split_pair(tokens.last()) {
            Some((k, v)) => m.insert(k, field_view(v)),
            None => m,
        }
    }
}

/// Index of the first token at or after `from` that holds no `=`, or -1.
pub open spec fn first_without_eq(tokens: Seq<Seq<char>>, from: int) -> int
    decreases tokens.len() - from,
{
    if from < 0 || from >= tokens.len() {
        -1
    } else if split_pair(tokens[from]) is None {
        from
    } else {
        first_without_eq(tokens, from + 1)
    }
}

/// The result of normalizing `tokens`: a single token that is JSON stands
/// for itself; otherwise every token must be a key=value pair, and the
/// error names the first one that is not.
pub open spec fn normalized(tokens: Seq<Seq<char>>) -> Result<StructuredView, Seq<char>> {
    if tokens.len() == 1 && json_accepts(tokens[0]) {
        Ok(StructuredView::Json(tokens[0]))
    } else if first_without_eq(tokens, 0) >= 0 {
        Err(tokens[first_without_eq(tokens, 0)])
    } else {
        Ok(StructuredView::Object(pairs_map(tokens)))
    }
}

/// The texts of the tokens.
pub open spec fn texts(tokens: Seq<String>) -> Seq<Seq<char>> {
    tokens.map_values(|t: String| t@)
}

/// The map that a list of members stands for, a later member overwriting an
/// earlier one with the same key.
pub open spec fn members_map(es: Seq<(String, FieldValue)>) -> Map<Seq<char>, FieldView>
    decreases es.len(),
{
    if es.len() == 0 {
        Map::empty()
    } else {
        members_map(es.drop_last()).insert(es.last().0@, es.last().1@)
    }
}

/// No two members share a key.
pub open spec fn distinct_keys(es: Seq<(String, FieldValue)>) -> bool {
    forall|i: int, j: int| 0 <= i < j < es.len() ==> es[i].0@ != es[j].0@
}

/// Every member marked as JSON holds text that parses.
pub open spec fn members_parse(es: Seq<(String, FieldValue)>) -> bool {
    forall|i: int| 0 <= i < es.len() ==> (#[trigger] es[i].1 matches FieldValue::Json(t) ==> json_accepts(t@))
}

impl View for StructuredData {
    type V = StructuredView;

    open spec fn view(&self) -> StructuredView {
        match self {
            StructuredData::Json(t) => StructuredView::Json(t@),
            StructuredData::Object(es) => StructuredView::Object(members_map(es@)),
        }
    }
}

/// The JSON value that a field stands for.
pub open spec fn field_json(f: FieldView) -> serde_json::Value {
    match f {
        FieldView::Json(t) => json_value_of(t),
        FieldView::Text(t) => json_string_of(t),
    }
}

/// The JSON value that normalized data stands for: the document of a JSON
/// text, or the object of the members.
pub open spec fn value_of(v: StructuredView) -> serde_json::Value {
    match v {
        StructuredView::Json(t) => json_value_of(t),
        StructuredView::Object(m) => json_object_of(m.map_values(|f: FieldView| field_json(f))),
    }
}

impl StructuredData {
    /// JSON text parses, and an object has one member per key.
    pub open spec fn wf(&self) -> bool {
        match self {
            StructuredData::Json(t) => json_accepts(t@),
            StructuredData::Object(es) => distinct_keys(es@) && members_parse(es@),
        }
    }

    /// The JSON value that this data stands for.
    pub fn to_value(&self) -> (r: serde_json::Value)
        requires
            self.wf(),
        ensures
            r == value_of(self@),
    {
        match self {
            StructuredData::Json(t) => parse_json(t.as_str()).unwrap(),
            StructuredData::Object(es) => {
                let mut members: Vec<(String, serde_json::Value)> = Vec::new();
                let mut i: usize = 0;
                assert(es@.take(0) =~= Seq::<(String, FieldValue)>::empty());
                assert(member_values(members@) =~= members_map(es@.take(0)).map_values(
                    |f: FieldView| field_json(f),
                ));
                while i < es.len()
                    invariant
                        i <= es.len(),
                        members_parse(es@),
                        distinct_keys(es@),
                        members@.len() == i,
                        forall|l: int| 0 <= l < i ==> #[trigger] members@[l].0@ == es@[l].0@,
                        member_values(members@) == members_map(es@.take(i as int)).map_values(
                            |f: FieldView| field_json(f),
                        ),
                    decreases es.len() - i,
                {
                    let key = es[i].0.clone();
                    let value = match &es[i].1 {
                        FieldValue::Json(t) => parse_json(t.as_str()).unwrap(),
                        FieldValue::Text(t) => json_string(t.clone()),
                    };
                    assert(value == field_json(es@[i as int].1@));
                    let ghost before = members@;
                    members.push((key, value));
                    assert(members@.drop_last() =~= before);
                    assert(es@.take(i + 1).drop_last() =~= es@.take(i as int));
                    assert(member_values(members@) =~= members_map(es@.take(i + 1)).map_values(
                        |f: FieldView| field_json(f),
                    ));
                    i = i + 1;
                }
                assert(es@.take(i as int) =~= es@);
                assert forall|a: int, b: int|
                    0 <= a < b < members@.len() implies members@[a].0@ != members@[b].0@ by {
                    assert(members@[a].0@ == es@[a].0@);
                    assert(members@[b].0@ == es@[b].0@);
                }
                json_object(members)
            },
        }
    }
}

/// Replacing the value of a member whose key is present overwrites that
/// key in the map.
proof fn lemma_members_update(es: Seq<(String, FieldValue)>, j: int, e: (String, FieldValue))
    requires
        distinct_keys(es),
        0 <= j < es.len(),
        es[j].0@ == e.0@,
    ensures
        members_map(es.update(j, e)) == members_map(es).insert(e.0@, e.1@),
    decreases es.len(),
{
    let u = es.update(j, e);
    if j == es.len() - 1 {
        assert(u.drop_last() =~= es.drop_last());
        assert(members_map(u) =~= members_map(es).insert(e.0@, e.1@));
    } else {
        assert(u.drop_last() =~= es.drop_last().update(j, e));
        lemma_members_update(es.drop_last(), j, e);
        assert(es.last().0@ != e.0@);
        assert(members_map(u) =~= members_map(es).insert(e.0@, e.1@));
    }
}

/// Position of the member with key `key`, if there is one.
fn find_key(es: &Vec<(String, FieldValue)>, key: &String) -> (r: Option<usize>)
    ensures
        match r {
            Some(j) => j < es@.len() && es@[j as int].0@ == key@,
            None => forall|j: int| 0 <= j < es@.len() ==> es@[j].0@ != key@,
        },
{
    let mut j: usize = 0;
    while j < es.len()
        invariant
            j <= es@.len(),
            forall|l: int| 0 <= l < j ==> es@[l].0@ != key@,
        decreases es.len() - j,
    {
        if es[j].0 == *key {
            return Some(j);
        }
        j = j + 1;
    }
    None
}

/// Normalizes the data tokens: a single token that is valid JSON stands for
/// that JSON value; otherwise each token is split at its first `=` into a key
/// and a value, the value read as JSON where it parses and as a string
/// otherwise, and the pairs form an object in which the last pair with a
/// given key wins. A token without `=` is an input format error naming it.
pub fn normalize(inputs: &[String]) -> (r: Result<StructuredData, StoreError>)
    ensures
        match (r, normalized(texts(inputs@))) {
            (Ok(d), Ok(v)) => d.wf() && d@ == v,
            (Err(StoreError::InputFormat { token }), Err(t)) => token@ == t,
            _ => false,
        },
{
    let ghost toks = texts(inputs@);
    if inputs.len() == 1 {
        assert(toks[0] == inputs@[0]@);
        if parse_json(inputs[0].as_str()).is_some() {
            return Ok(StructuredData::Json(inputs[0].clone()));
        }
    }
    let mut entries: Vec<(String, FieldValue)> = Vec::new();
    let mut i: usize = 0;
    assert(toks.take(0) =~= Seq::<Seq<char>>::empty());
    while i < inputs.len()
        invariant
            toks == texts(inputs@),
            i <= inputs@.len(),
            !(toks.len() == 1 && json_accepts(toks[0])),
            first_without_eq(toks, 0) == first_without_eq(toks, i as int),
            members_map(entries@) == pairs_map(toks.take(i as int)),
            distinct_keys(entries@),
            members_parse(entries@),
        decreases inputs.len() - i,
    {
        assert(toks[i as int] == inputs@[i as int]@);
        match split_pair_exec(inputs[i].as_str()) {
            None => {
                return Err(StoreError::InputFormat { token: inputs[i].clone() });
            },
            Some((key, text)) => {
                let value = if parse_json(text.as_str()).is_some() {
                    FieldValue::Json(text)
                } else {
                    FieldValue::Text(text)
                };
                let ghost old_entries = entries@;
                assert(toks.take(i + 1).drop_last() =~= toks.take(i as int));
                match find_key(&entries, &key) {
                    Some(j) => {
                        proof {
                            lemma_members_update(entries@, j as int, (key, value));
                        }
                        entries[j] = (key, value);
                    },
                    None => {
                        entries.push((key, value));
                        assert(entries@.drop_last() =~= old_entries);
                    },
                }
            },
        }
        i = i + 1;
    }
    assert(toks.take(i as int) =~= toks);
    Ok(StructuredData::Object(entries))
}

/// Normalizes the data tokens and gives the JSON value they stand for.
pub fn parse_data_input(inputs: &[String]) -> (r: Result<serde_json::Value, StoreError>)
    ensures
        match (r, normalized(texts(inputs@))) {
            (Ok(x), Ok(v)) => x == value_of(v),
            (Err(StoreError::InputFormat { token }), Err(t)) => token@ == t,
            _ => false,
        },
{
    match normalize(inputs) {
        Ok(d) => Ok(d.to_value()),
        Err(e) => Err(e),
    }
}

/// The key of a key=value token: what stands before its first `=`.
pub open spec fn pair_key(t: Seq<char>) -> Seq<char> {
    t.take(eq_index(t, 0))
}

/// The value of a key=value token: what stands after its first `=`.
pub open spec fn pair_value(t: Seq<char>) -> Seq<char> {
    t.skip(eq_index(t, 0) + 1)
}

proof fn lemma_all_pairs_no_failure(tokens: Seq<Seq<char>>, from: int)
    requires
        0 <= from,
        forall|i: int| 0 <= i < tokens.len() ==> #[trigger] split_pair(tokens[i]) is Some,
    ensures
        first_without_eq(tokens, from) == -1,
    decreases tokens.len() - from,
{
    if from < tokens.len() {
        lemma_all_pairs_no_failure(tokens, from + 1);
    }
}

proof fn lemma_failure_found(tokens: Seq<Seq<char>>, from: int, i: int)
    requires
        0 <= from <= i < tokens.len(),
        split_pair(tokens[i]) is None,
    ensures
        from <= first_without_eq(tokens, from) <= i,
        split_pair(tokens[first_without_eq(tokens, from)]) is None,
    decreases i - from,
{
    if split_pair(tokens[from]) is Some {
        lemma_failure_found(tokens, from + 1, i);
    }
}

/// The object built from key=value tokens has a member for the key of every
/// token and for no other key, and each key holds the value of the last
/// token with that key, read as JSON where it parses and as text otherwise.
pub proof fn lemma_pairs_map_members(tokens: Seq<Seq<char>>)
    requires
        forall|i: int| 0 <= i < tokens.len() ==> #[trigger] split_pair(tokens[i]) is Some,
    ensures
        forall|i: int|
            0 <= i < tokens.len() ==> pairs_map(tokens).contains_key(
                #[trigger] pair_key(tokens[i]),
            ),
        forall|k: Seq<char>|
            pairs_map(tokens).contains_key(k) ==> exists|i: int|
                0 <= i < tokens.len() && #[trigger] pair_key(tokens[i]) == k,
        forall|i: int|
            0 <= i < tokens.len() && (forall|j: int|
                i < j < tokens.len() ==> pair_key(tokens[j]) != pair_key(tokens[i]))
                ==> pairs_map(tokens)[#[trigger] pair_key(tokens[i])] == field_view(
                pair_value(tokens[i]),
            ),
    decreases tokens.len(),
{
    if tokens.len() > 0 {
        let p = tokens.drop_last();
        let n = tokens.len() - 1;
        assert forall|i: int| 0 <= i < p.len() implies #[trigger] split_pair(p[i]) is Some by {
            assert(p[i] == tokens[i]);
        }
        lemma_pairs_map_members(p);
        assert(split_pair(tokens[n]) is Some);
        let k = pair_key(tokens[n]);
        assert(pairs_map(tokens) == pairs_map(p).insert(k, field_view(pair_value(tokens[n]))));
        assert forall|i: int| 0 <= i < tokens.len() implies pairs_map(tokens).contains_key(
            #[trigger] pair_key(tokens[i]),
        ) by {
            if i < n {
                assert(p[i] == tokens[i]);
                assert(pairs_map(p).contains_key(pair_key(p[i])));
            }
        }
        assert forall|k2: Seq<char>| pairs_map(tokens).contains_key(k2) implies exists|i: int|
            0 <= i < tokens.len() && #[trigger] pair_key(tokens[i]) == k2 by {
            if k2 == k {
                assert(pair_key(tokens[n]) == k2);
            } else {
                let i = choose|i: int| 0 <= i < p.len() && #[trigger] pair_key(p[i]) == k2;
                assert(p[i] == tokens[i]);
                assert(pair_key(tokens[i]) == k2);
            }
        }
        assert forall|i: int|
            0 <= i < tokens.len() && (forall|j: int|
                i < j < tokens.len() ==> pair_key(tokens[j]) != pair_key(tokens[i])) implies
            pairs_map(tokens)[#[trigger] pair_key(tokens[i])] == field_view(
                pair_value(tokens[i]),
            ) by {
            if i < n {
                assert(pair_key(tokens[n]) != pair_key(tokens[i]));
                assert(p[i] == tokens[i]);
                assert forall|j: int| i < j < p.len() implies pair_key(p[j]) != pair_key(p[i]) by {
                    assert(p[j] == tokens[j]);
                }
            }
        }
    }
}

/// A single token that is valid JSON stands for exactly that JSON document.
pub proof fn lemma_single_json_token(t: Seq<char>)
    requires
        json_accepts(t),
    ensures
        normalized(seq![t]) == Ok::<StructuredView, Seq<char>>(StructuredView::Json(t)),
{
}

/// Several tokens that all hold `=` give the object of their pairs, in
/// which the last pair with a given key wins.
pub proof fn lemma_several_pairs(tokens: Seq<Seq<char>>)
    requires
        tokens.len() >= 2,
        forall|i: int| 0 <= i < tokens.len() ==> #[trigger] split_pair(tokens[i]) is Some,
    ensures
        normalized(tokens) == Ok::<StructuredView, Seq<char>>(
            StructuredView::Object(pairs_map(tokens)),
        ),
{
    lemma_all_pairs_no_failure(tokens, 0);
}

/// A single token that is not JSON but holds `=` is read as one key=value
/// pair.
pub proof fn lemma_single_pair_token(t: Seq<char>)
    requires
        !json_accepts(t),
        split_pair(t) is Some,
    ensures
        normalized(seq![t]) == Ok::<StructuredView, Seq<char>>(
            StructuredView::Object(
                Map::<Seq<char>, FieldView>::empty().insert(
                    pair_key(t),
                    field_view(pair_value(t)),
                ),
            ),
        ),
{
    let s = seq![t];
    assert(s[0] == t && s.last() == t);
    assert(first_without_eq(s, 1) == -1);
    assert(first_without_eq(s, 0) == -1);
    assert(s.drop_last() =~= Seq::<Seq<char>>::empty());
    assert(pairs_map(s.drop_last()) == Map::<Seq<char>, FieldView>::empty());
    assert(split_pair(t) == Some((pair_key(t), pair_value(t))));
}

/// A single token that is neither JSON nor holds `=` is an input format
/// error naming that token.
pub proof fn lemma_single_bad_token(t: Seq<char>)
    requires
        !json_accepts(t),
        split_pair(t) is None,
    ensures
        normalized(seq![t]) == Err::<StructuredView, Seq<char>>(t),
{
}

/// Among several tokens, one without `=` makes normalizing fail, whatever
/// the others hold; the error names the first token without `=`.
pub proof fn lemma_token_without_eq_fails(tokens: Seq<Seq<char>>, i: int)
    requires
        tokens.len() >= 2,
        0 <= i < tokens.len(),
        split_pair(tokens[i]) is None,
    ensures
        normalized(tokens) matches Err(t) && split_pair(t) is None,
{
    lemma_failure_found(tokens, 0, i);
}

/// Normalized data is an object, unless the input is exactly one token that
/// is valid JSON.
pub proof fn lemma_object_unless_single_json(tokens: Seq<Seq<char>>)
    requires
        normalized(tokens) is Ok,
        !(tokens.len() == 1 && json_accepts(tokens[0])),
    ensures
        normalized(tokens) matches Ok(StructuredView::Object(m)) && value_of(normalized(tokens)->Ok_0)
            == json_object_of(m.map_values(|f: FieldView| field_json(f))),
{
}

} // verus!
