//! A JSON value of the crate's own: the currency of schema conversion and of
//! tool-call arguments, with a mathematical mirror and a verified serializer.

use vstd::prelude::*;

use crate::chars;

verus! {

/// A JSON document value. Objects keep their entries in insertion order.
/// Numbers come in two forms: machine integers, and any other number as its
/// decimal text carried verbatim (`NumText`), so non-integer and oversized
/// numbers pass through without being re-typed; the serializer emits that
/// text as it stands, so whoever constructs a `NumText` must hand it a JSON
/// number literal.
#[derive(Debug)]
pub enum JsonValue {
    Null,
    Bool(bool),
    Int(i64),
    NumText(String),
    Str(String),
    Arr(Vec<JsonValue>),
    Obj(Vec<(String, JsonValue)>),
}

/// The mathematical mirror of `JsonValue`.
#[verifier::ext_equal]
pub enum SpecJson {
    Null,
    Bool(bool),
    Int(int),
    NumText(Seq<char>),
    Str(Seq<char>),
    Arr(Seq<SpecJson>),
    Obj(Seq<(Seq<char>, SpecJson)>),
}

/// The mirror of a `JsonValue`.
pub open spec fn jview(v: JsonValue) -> SpecJson
    decreases v,
{
    match v {
        JsonValue::Null => SpecJson::Null,
        JsonValue::Bool(b) => SpecJson::Bool(b),
        JsonValue::Int(i) => SpecJson::Int(i as int),
        JsonValue::NumText(s) => SpecJson::NumText(s@),
        JsonValue::Str(s) => SpecJson::Str(s@),
        JsonValue::Arr(elems) => SpecJson::Arr(jview_list(elems@)),
        JsonValue::Obj(entries) => SpecJson::Obj(jview_entries(entries@)),
    }
}

/// The mirrors of a sequence of values.
pub open spec fn jview_list(s: Seq<JsonValue>) -> Seq<SpecJson>
    decreases s,
{
    if s.len() == 0 {
        Seq::empty()
    } else {
        seq![jview(s[0])] + jview_list(s.drop_first())
    }
}

/// The mirrors of a sequence of object entries.
pub open spec fn jview_entries(s: Seq<(String, JsonValue)>) -> Seq<(Seq<char>, SpecJson)>
    decreases s,
{
    if s.len() == 0 {
        Seq::empty()
    } else {
        seq![(s[0].0@, jview(s[0].1))] + jview_entries(s.drop_first())
    }
}

impl View for JsonValue {
    type V = SpecJson;

    open spec fn view(&self) -> SpecJson {
        jview(*self)
    }
}

/// `jview_list` is the elementwise mirror.
pub proof fn lemma_jview_list_index(s: Seq<JsonValue>)
    ensures
        jview_list(s).len() == s.len(),
        forall|i: int| 0 <= i < s.len() ==> #[trigger] jview_list(s)[i] == jview(s[i]),
    decreases s,
{
    if s.len() > 0 {
        lemma_jview_list_index(s.drop_first());
        assert forall|i: int| 0 <= i < s.len() implies #[trigger] jview_list(s)[i] == jview(s[i])
        by {
            if i > 0 {
                assert(s.drop_first()[i - 1] == s[i]);
            }
        }
    }
}

/// `jview_entries` is the entrywise mirror.
pub proof fn lemma_jview_entries_index(s: Seq<(String, JsonValue)>)
    ensures
        jview_entries(s).len() == s.len(),
        forall|i: int| 0 <= i < s.len() ==> #[trigger] jview_entries(s)[i] == (s[i].0@, jview(
            s[i].1,
        )),
    decreases s,
{
    if s.len() > 0 {
        lemma_jview_entries_index(s.drop_first());
        assert forall|i: int| 0 <= i < s.len() implies #[trigger] jview_entries(s)[i] == (
        s[i].0@, jview(s[i].1)) by {
            if i > 0 {
                assert(s.drop_first()[i - 1] == s[i]);
            }
        }
    }
}

/// The value under key `k` in an object's entry list: the first entry wins.
pub open spec fn spec_obj_get(entries: Seq<(Seq<char>, SpecJson)>, k: Seq<char>) -> Option<
    SpecJson,
>
    decreases entries.len(),
{
    if entries.len() == 0 {
        None
    } else if entries[0].0 == k {
        Some(entries[0].1)
    } else {
        spec_obj_get(entries.drop_first(), k)
    }
}

/// Inserting under key `k`: replaces the first entry with that key in place,
/// or appends a new entry at the end.
pub open spec fn spec_obj_insert(
    entries: Seq<(Seq<char>, SpecJson)>,
    k: Seq<char>,
    v: SpecJson,
) -> Seq<(Seq<char>, SpecJson)>
    decreases entries.len(),
{
    if entries.len() == 0 {
        seq![(k, v)]
    } else if entries[0].0 == k {
        seq![(k, v)] + entries.drop_first()
    } else {
        seq![entries[0]] + spec_obj_insert(entries.drop_first(), k, v)
    }
}

/// Appending an entry leaves earlier keys' lookups unchanged.
pub proof fn lemma_obj_get_push(
    entries: Seq<(Seq<char>, SpecJson)>,
    x: (Seq<char>, SpecJson),
    k: Seq<char>,
)
    ensures
        spec_obj_get(entries.push(x), k) == (if spec_obj_get(entries, k) is Some {
            spec_obj_get(entries, k)
        } else if x.0 == k {
            Some(x.1)
        } else {
            None
        }),
    decreases entries.len(),
{
    let p = entries.push(x);
    if entries.len() == 0 {
        assert(p[0] == x);
        assert(p.drop_first() =~= Seq::<(Seq<char>, SpecJson)>::empty());
    } else {
        assert(p[0] == entries[0]);
        assert(p.drop_first() =~= entries.drop_first().push(x));
        lemma_obj_get_push(entries.drop_first(), x, k);
    }
}

/// Inserting under one key leaves lookups of another key unchanged.
#[verifier::rlimit(50)]
pub proof fn lemma_obj_insert_other_get(
    entries: Seq<(Seq<char>, SpecJson)>,
    k1: Seq<char>,
    v: SpecJson,
    k2: Seq<char>,
)
    requires
        k1 != k2,
    ensures
        spec_obj_get(spec_obj_insert(entries, k1, v), k2) == spec_obj_get(entries, k2),
    decreases entries.len(),
{
    let r = spec_obj_insert(entries, k1, v);
    if entries.len() == 0 {
        assert(r =~= seq![(k1, v)]);
        assert(r[0] == (k1, v));
        assert(r.drop_first() =~= Seq::<(Seq<char>, SpecJson)>::empty());
        assert(spec_obj_get(r.drop_first(), k2) is None);
        assert(spec_obj_get(r, k2) is None);
    } else if entries[0].0 == k1 {
        assert(r =~= seq![(k1, v)] + entries.drop_first());
        assert(r[0] == (k1, v));
        assert(r.drop_first() =~= entries.drop_first());
        assert(spec_obj_get(r, k2) == spec_obj_get(entries.drop_first(), k2));
        assert(spec_obj_get(entries, k2) == spec_obj_get(entries.drop_first(), k2));
    } else {
        assert(r =~= seq![entries[0]] + spec_obj_insert(entries.drop_first(), k1, v));
        assert(r[0] == entries[0]);
        assert(r.drop_first() =~= spec_obj_insert(entries.drop_first(), k1, v));
        lemma_obj_insert_other_get(entries.drop_first(), k1, v, k2);
        if entries[0].0 == k2 {
            assert(spec_obj_get(r, k2) == Some(r[0].1));
            assert(spec_obj_get(entries, k2) == Some(entries[0].1));
        } else {
            assert(spec_obj_get(r, k2) == spec_obj_get(r.drop_first(), k2));
            assert(spec_obj_get(entries, k2) == spec_obj_get(entries.drop_first(), k2));
        }
    }
}

/// Looks a key up in an object entry list, matching `spec_obj_get`.
pub fn obj_get<'a>(entries: &'a Vec<(String, JsonValue)>, k: &str) -> (r: Option<&'a JsonValue>)
    ensures
        match r {
            Some(v) => spec_obj_get(jview_entries(entries@), k@) == Some(v@),
            None => spec_obj_get(jview_entries(entries@), k@) is None,
        },
{
    let ghost m = jview_entries(entries@);
    proof {
        lemma_jview_entries_index(entries@);
        assert(m.skip(0) =~= m);
    }
    let mut i: usize = 0;
    while i < entries.len()
        invariant
            m == jview_entries(entries@),
            m.len() == entries@.len(),
            forall|j: int| 0 <= j < m.len() ==> #[trigger] m[j] == (entries@[j].0@, jview(
                entries@[j].1,
            )),
            i <= entries@.len(),
            spec_obj_get(m, k@) == spec_obj_get(m.skip(i as int), k@),
        decreases entries@.len() - i,
    {
        let ghost rest = m.skip(i as int);
        assert(rest[0] == m[i as int]);
        if chars::str_eq(entries[i].0.as_str(), k) {
            return Some(&entries[i].1);
        }
        i = i + 1;
        assert(rest.drop_first() =~= m.skip(i as int));
    }
    assert(m.skip(i as int) =~= Seq::<(Seq<char>, SpecJson)>::empty());
    None
}

/// Inserts into an object entry list, matching `spec_obj_insert`.
pub fn obj_insert(entries: &mut Vec<(String, JsonValue)>, k: String, v: JsonValue)
    ensures
        jview_entries(final(entries)@) == spec_obj_insert(jview_entries(old(entries)@), k@, v@),
{
    let ghost m0 = jview_entries(entries@);
    let mut i: usize = 0;
    proof {
        lemma_jview_entries_index(entries@);
        assert(m0.skip(0) =~= m0);
        assert(m0.subrange(0, 0) + spec_obj_insert(m0.skip(0), k@, v@) =~= spec_obj_insert(
            m0,
            k@,
            v@,
        ));
    }
    while i < entries.len()
        invariant
            m0 == jview_entries(old(entries)@),
            m0 == jview_entries(entries@),
            m0.len() == entries@.len(),
            forall|j: int| 0 <= j < m0.len() ==> #[trigger] m0[j] == (entries@[j].0@, jview(
                entries@[j].1,
            )),
            i <= entries@.len(),
            spec_obj_insert(m0, k@, v@) =~= m0.subrange(0, i as int) + spec_obj_insert(
                m0.skip(i as int),
                k@,
                v@,
            ),
        decreases entries@.len() - i,
    {
        let ghost rest = m0.skip(i as int);
        assert(rest[0] == m0[i as int]);
        if chars::str_eq(entries[i].0.as_str(), k.as_str()) {
            entries.set(i, (k, v));
            proof {
                lemma_jview_entries_index(entries@);
                let m1 = jview_entries(entries@);
                assert(spec_obj_insert(rest, k@, v@) =~= seq![(k@, v@)] + rest.drop_first());
                assert(m1 =~= m0.subrange(0, i as int) + (seq![(k@, v@)] + rest.drop_first()));
            }
            return ;
        }
        i = i + 1;
        proof {
            assert(rest.drop_first() =~= m0.skip(i as int));
            assert(m0.subrange(0, i as int - 1) + seq![rest[0]] =~= m0.subrange(0, i as int));
            assert(m0.subrange(0, i as int - 1) + (seq![rest[0]] + spec_obj_insert(
                m0.skip(i as int),
                k@,
                v@,
            )) =~= m0.subrange(0, i as int) + spec_obj_insert(m0.skip(i as int), k@, v@));
        }
    }
    assert(m0.skip(i as int) =~= Seq::<(Seq<char>, SpecJson)>::empty());
    entries.push((k, v));
    proof {
        lemma_jview_entries_index(entries@);
        let m1 = jview_entries(entries@);
        assert(m1 =~= m0.subrange(0, i as int) + seq![(k@, v@)]);
    }
}

/// A lowercase hexadecimal digit character.
pub open spec fn hex_digit(d: nat) -> char
    recommends
        d < 16,
{
    if d < 10 {
        chars::digit_char(d)
    } else {
        ((('a' as nat) + (d - 10)) as u32) as char
    }
}

/// How one character appears inside a JSON string literal: quotes and
/// backslashes are escaped, control characters take a short or `\u00..`
/// escape, and everything else stands as itself.
pub open spec fn spec_escape_char(c: char) -> Seq<char> {
    if c == '"' {
        seq!['\\', '"']
    } else if c == '\\' {
        seq!['\\', '\\']
    } else if c == '\u{08}' {
        seq!['\\', 'b']
    } else if c == '\u{0c}' {
        seq!['\\', 'f']
    } else if c == '\n' {
        seq!['\\', 'n']
    } else if c == '\r' {
        seq!['\\', 'r']
    } else if c == '\t' {
        seq!['\\', 't']
    } else if (c as u32) < 0x20 {
        seq!['\\', 'u', '0', '0', hex_digit((c as u32 / 16) as nat), hex_digit(
            (c as u32 % 16) as nat,
        )]
    } else {
        seq![c]
    }
}

/// The escaped body of a JSON string literal.
pub open spec fn spec_escape(s: Seq<char>) -> Seq<char>
    decreases s.len(),
{
    if s.len() == 0 {
        Seq::empty()
    } else {
        spec_escape(s.drop_last()) + spec_escape_char(s.last())
    }
}

/// A JSON string literal: the escaped body between double quotes.
pub open spec fn spec_quoted(s: Seq<char>) -> Seq<char> {
    seq!['"'] + spec_escape(s) + seq!['"']
}

/// The compact JSON text of a value: no whitespace, object entries in order.
pub open spec fn spec_json_text(j: SpecJson) -> Seq<char>
    decreases j,
{
    match j {
        SpecJson::Null => seq!['n', 'u', 'l', 'l'],
        SpecJson::Bool(b) => if b {
            seq!['t', 'r', 'u', 'e']
        } else {
            seq!['f', 'a', 'l', 's', 'e']
        },
        SpecJson::Int(i) => chars::spec_int_str(i),
        SpecJson::NumText(s) => s,
        SpecJson::Str(s) => spec_quoted(s),
        SpecJson::Arr(elems) => seq!['['] + spec_json_items(elems) + seq![']'],
        SpecJson::Obj(entries) => seq!['{'] + spec_json_members(entries) + seq!['}'],
    }
}

/// The comma-separated element texts of a JSON array.
pub open spec fn spec_json_items(elems: Seq<SpecJson>) -> Seq<char>
    decreases elems,
{
    if elems.len() == 0 {
        Seq::empty()
    } else if elems.len() == 1 {
        spec_json_text(elems[0])
    } else {
        spec_json_text(elems[0]) + seq![','] + spec_json_items(elems.drop_first())
    }
}

/// The comma-separated `"key":value` texts of a JSON object.
pub open spec fn spec_json_members(entries: Seq<(Seq<char>, SpecJson)>) -> Seq<char>
    decreases entries,
{
    if entries.len() == 0 {
        Seq::empty()
    } else if entries.len() == 1 {
        spec_quoted(entries[0].0) + seq![':'] + spec_json_text(entries[0].1)
    } else {
        spec_quoted(entries[0].0) + seq![':'] + spec_json_text(entries[0].1) + seq![',']
            + spec_json_members(entries.drop_first())
    }
}

/// One more array element extends the item list with a comma and its text.
proof fn lemma_items_snoc(elems: Seq<SpecJson>, x: SpecJson)
    ensures
        elems.len() == 0 ==> spec_json_items(elems.push(x)) == spec_json_text(x),
        elems.len() > 0 ==> spec_json_items(elems.push(x)) == spec_json_items(elems) + seq![',']
            + spec_json_text(x),
    decreases elems.len(),
{
    let p = elems.push(x);
    if elems.len() == 0 {
        assert(p[0] == x);
    } else {
        assert(p[0] == elems[0]);
        assert(p.drop_first() =~= elems.drop_first().push(x));
        lemma_items_snoc(elems.drop_first(), x);
        if elems.len() == 1 {
            assert(spec_json_items(p) =~= spec_json_items(elems) + seq![','] + spec_json_text(x));
        } else {
            assert(spec_json_items(p) =~= spec_json_items(elems) + seq![','] + spec_json_text(x));
        }
    }
}

/// One more object entry extends the member list with a comma and its text.
proof fn lemma_members_snoc(entries: Seq<(Seq<char>, SpecJson)>, k: Seq<char>, v: SpecJson)
    ensures
        entries.len() == 0 ==> spec_json_members(entries.push((k, v))) == spec_quoted(k)
            + seq![':'] + spec_json_text(v),
        entries.len() > 0 ==> spec_json_members(entries.push((k, v))) == spec_json_members(entries)
            + seq![','] + spec_quoted(k) + seq![':'] + spec_json_text(v),
    decreases entries.len(),
{
    let p = entries.push((k, v));
    if entries.len() == 0 {
        assert(p[0] == (k, v));
    } else {
        assert(p[0] == entries[0]);
        assert(p.drop_first() =~= entries.drop_first().push((k, v)));
        lemma_members_snoc(entries.drop_first(), k, v);
        if entries.len() == 1 {
            assert(spec_json_members(p) =~= spec_json_members(entries) + seq![','] + spec_quoted(k)
                + seq![':'] + spec_json_text(v));
        } else {
            assert(spec_json_members(p) =~= spec_json_members(entries) + seq![','] + spec_quoted(k)
                + seq![':'] + spec_json_text(v));
        }
    }
}

/// Escaping distributes over appending one character.
proof fn lemma_escape_snoc(s: Seq<char>, c: char)
    ensures
        spec_escape(s.push(c)) == spec_escape(s) + spec_escape_char(c),
{
    assert(s.push(c).drop_last() =~= s);
    assert(s.push(c).last() == c);
}

/// The escape of one character, as an executable vector.
fn escape_char_vec(c: char) -> (r: Vec<char>)
    ensures
        r@ == spec_escape_char(c),
{
    let mut r: Vec<char> = Vec::new();
    if c == '"' {
        r.push('\\');
        r.push('"');
        assert(r@ =~= spec_escape_char(c));
    } else if c == '\\' {
        r.push('\\');
        r.push('\\');
        assert(r@ =~= spec_escape_char(c));
    } else if c == '\u{08}' {
        r.push('\\');
        r.push('b');
        assert(r@ =~= spec_escape_char(c));
    } else if c == '\u{0c}' {
        r.push('\\');
        r.push('f');
        assert(r@ =~= spec_escape_char(c));
    } else if c == '\n' {
        r.push('\\');
        r.push('n');
        assert(r@ =~= spec_escape_char(c));
    } else if c == '\r' {
        r.push('\\');
        r.push('r');
        assert(r@ =~= spec_escape_char(c));
    } else if c == '\t' {
        r.push('\\');
        r.push('t');
        assert(r@ =~= spec_escape_char(c));
    } else if (c as u32) < 0x20 {
        let hi = (c as u32) / 16;
        let lo = (c as u32) % 16;
        let hic: char = if hi < 10 {
            ((48 + hi) as u8) as char
        } else {
            ((87 + hi) as u8) as char
        };
        let loc: char = if lo < 10 {
            ((48 + lo) as u8) as char
        } else {
            ((87 + lo) as u8) as char
        };
        r.push('\\');
        r.push('u');
        r.push('0');
        r.push('0');
        r.push(hic);
        r.push(loc);
        assert(hic == hex_digit(hi as nat));
        assert(loc == hex_digit(lo as nat));
        assert(r@ =~= spec_escape_char(c));
    } else {
        r.push(c);
        assert(r@ =~= spec_escape_char(c));
    }
    r
}

/// The JSON string literal for `s`, matching `spec_quoted`.
fn quote_string(s: &str) -> (r: Vec<char>)
    ensures
        r@ == spec_quoted(s@),
{
    let sv = chars::to_chars(s);
    let mut out: Vec<char> = Vec::new();
    out.push('"');
    let mut i: usize = 0;
    assert(sv@.subrange(0, 0) =~= Seq::<char>::empty());
    assert(out@ =~= seq!['"'] + spec_escape(sv@.subrange(0, 0)));
    while i < sv.len()
        invariant
            sv@ == s@,
            i <= sv@.len(),
            out@ == seq!['"'] + spec_escape(sv@.subrange(0, i as int)),
        decreases sv@.len() - i,
    {
        let ev = escape_char_vec(sv[i]);
        let mut k: usize = 0;
        let ghost before = out@;
        while k < ev.len()
            invariant
                k <= ev@.len(),
                out@ =~= before + ev@.subrange(0, k as int),
            decreases ev@.len() - k,
        {
            out.push(ev[k]);
            k = k + 1;
        }
        proof {
            assert(ev@.subrange(0, ev@.len() as int) =~= ev@);
            lemma_escape_snoc(sv@.subrange(0, i as int), sv@[i as int]);
            assert(sv@.subrange(0, i as int).push(sv@[i as int]) =~= sv@.subrange(
                0,
                i as int + 1,
            ));
        }
        i = i + 1;
    }
    assert(sv@.subrange(0, i as int) =~= s@);
    out.push('"');
    assert(out@ =~= spec_quoted(s@));
    out
}

/// Appends every character of `v` to `out`.
fn extend_chars(out: &mut Vec<char>, v: &Vec<char>)
    ensures
        final(out)@ == old(out)@ + v@,
{
    let mut k: usize = 0;
    let ghost before = out@;
    while k < v.len()
        invariant
            k <= v@.len(),
            out@ =~= before + v@.subrange(0, k as int),
        decreases v@.len() - k,
    {
        out.push(v[k]);
        k = k + 1;
    }
    assert(before + v@.subrange(0, v@.len() as int) =~= before + v@);
}

/// Appends an entry to an object entry list, extending its mirror by one.
pub fn obj_push(entries: &mut Vec<(String, JsonValue)>, k: String, v: JsonValue)
    ensures
        jview_entries(final(entries)@) == jview_entries(old(entries)@).push((k@, v@)),
        final(entries)@.len() == old(entries)@.len() + 1,
{
    let ghost before = entries@;
    let ghost kk = k@;
    let ghost vv = v@;
    entries.push((k, v));
    proof {
        lemma_jview_entries_index(before);
        lemma_jview_entries_index(entries@);
        assert(jview_entries(entries@) =~= jview_entries(before).push((kk, vv)));
    }
}

/// Appends a value to a list, extending its mirror by one.
pub fn arr_push(elems: &mut Vec<JsonValue>, v: JsonValue)
    ensures
        jview_list(final(elems)@) == jview_list(old(elems)@).push(v@),
        final(elems)@.len() == old(elems)@.len() + 1,
{
    let ghost before = elems@;
    let ghost vv = v@;
    elems.push(v);
    proof {
        lemma_jview_list_index(before);
        lemma_jview_list_index(elems@);
        assert(jview_list(elems@) =~= jview_list(before).push(vv));
    }
}

/// A structural copy of a list of values.
pub fn json_vec_clone(v: &Vec<JsonValue>) -> (r: Vec<JsonValue>)
    ensures
        jview_list(r@) == jview_list(v@),
{
    let mut out: Vec<JsonValue> = Vec::new();
    let mut i: usize = 0;
    proof {
        lemma_jview_list_index(v@);
        lemma_jview_list_index(out@);
        assert(jview_list(out@) =~= jview_list(v@).subrange(0, 0));
    }
    while i < v.len()
        invariant
            i <= v@.len(),
            jview_list(v@).len() == v@.len(),
            forall|j: int| 0 <= j < v@.len() ==> #[trigger] jview_list(v@)[j] == jview(v@[j]),
            jview_list(out@) =~= jview_list(v@).subrange(0, i as int),
        decreases v@.len() - i,
    {
        let c = json_clone(&v[i]);
        let ghost before = out@;
        out.push(c);
        proof {
            lemma_jview_list_index(before);
            lemma_jview_list_index(out@);
            assert(out@ =~= before.push(c));
            assert(jview_list(out@) =~= jview_list(v@).subrange(0, i as int + 1));
        }
        i = i + 1;
    }
    proof {
        assert(jview_list(v@).subrange(0, i as int) =~= jview_list(v@));
    }
    out
}

/// The compact JSON text of `v`, as characters, matching `spec_json_text`.
#[verifier::loop_isolation(false)]
fn json_chars(v: &JsonValue) -> (r: Vec<char>)
    ensures
        r@ == spec_json_text(v@),
    decreases v,
{
    match v {
        JsonValue::Null => {
            let mut out: Vec<char> = Vec::new();
            out.push('n');
            out.push('u');
            out.push('l');
            out.push('l');
            assert(out@ =~= spec_json_text(v@));
            out
        },
        JsonValue::Bool(b) => {
            let mut out: Vec<char> = Vec::new();
            if *b {
                out.push('t');
                out.push('r');
                out.push('u');
                out.push('e');
            } else {
                out.push('f');
                out.push('a');
                out.push('l');
                out.push('s');
                out.push('e');
            }
            assert(out@ =~= spec_json_text(v@));
            out
        },
        JsonValue::Int(i) => {
            let s = chars::i64_to_string(*i);
            let out = chars::to_chars(s.as_str());
            out
        },
        JsonValue::NumText(s) => chars::to_chars(s.as_str()),
        JsonValue::Str(s) => quote_string(s.as_str()),
        JsonValue::Arr(elems) => {
            let mut out: Vec<char> = Vec::new();
            out.push('[');
            let ghost ev = jview_list(elems@);
            proof {
                lemma_jview_list_index(elems@);
                assert(ev.subrange(0, 0) =~= Seq::<SpecJson>::empty());
            }
            let mut i: usize = 0;
            while i < elems.len()
                invariant
                    ev == jview_list(elems@),
                    ev.len() == elems@.len(),
                    forall|j: int| 0 <= j < ev.len() ==> #[trigger] ev[j] == jview(elems@[j]),
                    i <= elems@.len(),
                    out@ == seq!['['] + spec_json_items(ev.subrange(0, i as int)),
                decreases elems@.len() - i,
            {
                if i > 0 {
                    out.push(',');
                }
                let piece = json_chars(&elems[i]);
                extend_chars(&mut out, &piece);
                proof {
                    lemma_items_snoc(ev.subrange(0, i as int), ev[i as int]);
                    assert(ev.subrange(0, i as int).push(ev[i as int]) =~= ev.subrange(
                        0,
                        i as int + 1,
                    ));
                    assert(out@ =~= seq!['['] + spec_json_items(ev.subrange(0, i as int + 1)));
                }
                i = i + 1;
            }
            out.push(']');
            proof {
                assert(ev.subrange(0, i as int) =~= ev);
                assert(out@ =~= seq!['['] + spec_json_items(ev) + seq![']']);
            }
            out
        },
        JsonValue::Obj(entries) => {
            let mut out: Vec<char> = Vec::new();
            out.push('{');
            let ghost ev = jview_entries(entries@);
            proof {
                lemma_jview_entries_index(entries@);
                assert(ev.subrange(0, 0) =~= Seq::<(Seq<char>, SpecJson)>::empty());
            }
            let mut i: usize = 0;
            while i < entries.len()
                invariant
                    ev == jview_entries(entries@),
                    ev.len() == entries@.len(),
                    forall|j: int| 0 <= j < ev.len() ==> #[trigger] ev[j] == (entries@[j].0@, jview(
                        entries@[j].1,
                    )),
                    i <= entries@.len(),
                    out@ == seq!['{'] + spec_json_members(ev.subrange(0, i as int)),
                decreases entries@.len() - i,
            {
                if i > 0 {
                    out.push(',');
                }
                let kq = quote_string(entries[i].0.as_str());
                extend_chars(&mut out, &kq);
                out.push(':');
                let piece = json_chars(&entries[i].1);
                extend_chars(&mut out, &piece);
                proof {
                    lemma_members_snoc(ev.subrange(0, i as int), ev[i as int].0, ev[i as int].1);
                    assert(ev.subrange(0, i as int).push(ev[i as int]) =~= ev.subrange(
                        0,
                        i as int + 1,
                    ));
                    assert(out@ =~= seq!['{'] + spec_json_members(ev.subrange(0, i as int + 1)));
                }
                i = i + 1;
            }
            out.push('}');
            proof {
                assert(ev.subrange(0, i as int) =~= ev);
                assert(out@ =~= seq!['{'] + spec_json_members(ev) + seq!['}']);
            }
            out
        },
    }
}

/// Serializes `v` as compact JSON text.
pub fn to_text(v: &JsonValue) -> (r: String)
    ensures
        r@ == spec_json_text(v@),
{
    let cs = json_chars(v);
    chars::from_chars(&cs)
}

/// A structural copy of `v`.
#[verifier::loop_isolation(false)]
pub fn json_clone(v: &JsonValue) -> (r: JsonValue)
    ensures
        r@ == v@,
    decreases v,
{
    match v {
        JsonValue::Null => JsonValue::Null,
        JsonValue::Bool(b) => JsonValue::Bool(*b),
        JsonValue::Int(i) => JsonValue::Int(*i),
        JsonValue::NumText(s) => JsonValue::NumText(s.clone()),
        JsonValue::Str(s) => JsonValue::Str(s.clone()),
        JsonValue::Arr(elems) => {
            let mut out: Vec<JsonValue> = Vec::new();
            let mut i: usize = 0;
            proof {
                lemma_jview_list_index(elems@);
                lemma_jview_list_index(out@);
            }
            while i < elems.len()
                invariant
                    i <= elems@.len(),
                    out@.len() == i,
                    jview_list(out@) =~= jview_list(elems@).subrange(0, i as int),
                    forall|j: int| 0 <= j < elems@.len() ==> #[trigger] jview_list(elems@)[j]
                        == jview(elems@[j]),
                    jview_list(elems@).len() == elems@.len(),
                decreases elems@.len() - i,
            {
                let c = json_clone(&elems[i]);
                let ghost out_before = out@;
                out.push(c);
                proof {
                    lemma_jview_list_index(out_before);
                    lemma_jview_list_index(out@);
                    assert(out@ =~= out_before.push(c));
                    assert(jview_list(out@) =~= jview_list(elems@).subrange(0, i as int + 1));
                }
                i = i + 1;
            }
            proof {
                assert(jview_list(elems@).subrange(0, i as int) =~= jview_list(elems@));
            }
            JsonValue::Arr(out)
        },
        JsonValue::Obj(entries) => {
            let mut out: Vec<(String, JsonValue)> = Vec::new();
            let mut i: usize = 0;
            proof {
                lemma_jview_entries_index(entries@);
                lemma_jview_entries_index(out@);
            }
            while i < entries.len()
                invariant
                    i <= entries@.len(),
                    out@.len() == i,
                    jview_entries(out@) =~= jview_entries(entries@).subrange(0, i as int),
                    forall|j: int| 0 <= j < entries@.len() ==> #[trigger] jview_entries(entries@)[j]
                        == (entries@[j].0@, jview(entries@[j].1)),
                    jview_entries(entries@).len() == entries@.len(),
                decreases entries@.len() - i,
            {
                let kc = entries[i].0.clone();
                let vc = json_clone(&entries[i].1);
                let ghost out_before = out@;
                let ghost pushed = (kc, vc);
                out.push((kc, vc));
                proof {
                    lemma_jview_entries_index(out_before);
                    lemma_jview_entries_index(out@);
                    assert(out@ =~= out_before.push(pushed));
                    assert(jview_entries(out@) =~= jview_entries(entries@).subrange(
                        0,
                        i as int + 1,
                    ));
                }
                i = i + 1;
            }
            proof {
                assert(jview_entries(entries@).subrange(0, i as int) =~= jview_entries(entries@));
            }
            JsonValue::Obj(out)
        },
    }
}

} // verus!
