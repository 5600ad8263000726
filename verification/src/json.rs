//! The wire value model: a JSON value, its mathematical view, the object
//! lookup the decoder uses, and the renderer that error messages quote
//! values with.

use vstd::prelude::*;
use crate::text::{chars_to_string, int_str, render_i64};

verus! {

/// A JSON value. Struct schemas encode to and decode from the `Object`
/// variant; the other variants carry scalar field values and whatever a
/// caller may hand the decoder.
#[derive(Debug, PartialEq)]
pub enum JsonValue {
    Null,
    Bool(bool),
    Int(i64),
    Str(String),
    Array(Vec<JsonValue>),
    Object(Vec<(String, JsonValue)>),
}

/// The mathematical reading of a JSON value.
pub enum JVal {
    Null,
    Bool(bool),
    Int(int),
    Str(Seq<char>),
    Arr(Seq<JVal>),
    Obj(Seq<(Seq<char>, JVal)>),
}

/// The reading of a JSON value.
pub open spec fn jview(v: JsonValue) -> JVal
    decreases v,
{
    match v {
        JsonValue::Null => JVal::Null,
        JsonValue::Bool(b) => JVal::Bool(b),
        JsonValue::Int(i) => JVal::Int(i as int),
        JsonValue::Str(s) => JVal::Str(s@),
        JsonValue::Array(xs) => JVal::Arr(jviews_arr(xs@, 0)),
        JsonValue::Object(es) => JVal::Obj(jviews_obj(es@, 0)),
    }
}

/// The readings of the array elements from `i` on.
pub open spec fn jviews_arr(xs: Seq<JsonValue>, i: int) -> Seq<JVal>
    decreases xs, xs.len() - i,
{
    if i < 0 || i >= xs.len() {
        Seq::<JVal>::empty()
    } else {
        seq![jview(xs[i])] + jviews_arr(xs, i + 1)
    }
}

/// The readings of the object entries from `i` on.
pub open spec fn jviews_obj(es: Seq<(String, JsonValue)>, i: int) -> Seq<(Seq<char>, JVal)>
    decreases es, es.len() - i,
{
    if i < 0 || i >= es.len() {
        Seq::<(Seq<char>, JVal)>::empty()
    } else {
        seq![(es[i].0@, jview(es[i].1))] + jviews_obj(es, i + 1)
    }
}

impl View for JsonValue {
    type V = JVal;

    open spec fn view(&self) -> JVal {
        jview(*self)
    }
}

/// How `jviews_arr` reads element by element.
pub proof fn lemma_jviews_arr(xs: Seq<JsonValue>, i: int)
    requires
        0 <= i <= xs.len(),
    ensures
        jviews_arr(xs, i).len() == xs.len() - i,
        forall|k: int|
            0 <= k < xs.len() - i ==> #[trigger] jviews_arr(xs, i)[k] == jview(xs[i + k]),
    decreases xs.len() - i,
{
    if i < xs.len() {
        lemma_jviews_arr(xs, i + 1);
    }
}

/// How `jviews_obj` reads entry by entry.
pub proof fn lemma_jviews_obj(es: Seq<(String, JsonValue)>, i: int)
    requires
        0 <= i <= es.len(),
    ensures
        jviews_obj(es, i).len() == es.len() - i,
        forall|k: int|
            0 <= k < es.len() - i ==> #[trigger] jviews_obj(es, i)[k] == (
                es[i + k].0@,
                jview(es[i + k].1),
            ),
    decreases es.len() - i,
{
    if i < es.len() {
        lemma_jviews_obj(es, i + 1);
    }
}

/// Appending an entry appends its reading.
pub proof fn lemma_jviews_obj_push(es: Seq<(String, JsonValue)>, p: (String, JsonValue), i: int)
    requires
        0 <= i <= es.len(),
    ensures
        jviews_obj(es.push(p), i) == jviews_obj(es, i) + seq![(p.0@, jview(p.1))],
    decreases es.len() - i,
{
    if i < es.len() {
        lemma_jviews_obj_push(es, p, i + 1);
        assert(es.push(p)[i] == es[i]);
        assert(seq![(es[i].0@, jview(es[i].1))] + (jviews_obj(es, i + 1) + seq![
            (p.0@, jview(p.1)),
        ]) =~= (seq![(es[i].0@, jview(es[i].1))] + jviews_obj(es, i + 1)) + seq![
            (p.0@, jview(p.1)),
        ]);
    } else {
        assert(es.push(p)[i] == p);
        assert(jviews_obj(es.push(p), i + 1) == Seq::<(Seq<char>, JVal)>::empty());
        assert(jviews_obj(es.push(p), i) =~= jviews_obj(es, i) + seq![(p.0@, jview(p.1))]);
    }
}

/// First entry of `entries` whose key reads `name`, if any.
pub open spec fn obj_lookup(entries: Seq<(Seq<char>, JVal)>, name: Seq<char>) -> Option<JVal>
    decreases entries.len(),
{
    if entries.len() == 0 {
        None
    } else if entries[0].0 == name {
        Some(entries[0].1)
    } else {
        obj_lookup(entries.drop_first(), name)
    }
}

/// Looks a wire name up in an object's entries.
pub fn lookup<'a>(entries: &'a Vec<(String, JsonValue)>, name: &String) -> (r: Option<
    &'a JsonValue,
>)
    ensures
        match r {
            Some(v) => obj_lookup(jviews_obj(entries@, 0), name@) == Some(v@),
            None => obj_lookup(jviews_obj(entries@, 0), name@) is None,
        },
{
    let ghost evs = jviews_obj(entries@, 0);
    proof {
        lemma_jviews_obj(entries@, 0);
        assert(evs.skip(0) =~= evs);
    }
    let mut i: usize = 0;
    while i < entries.len()
        invariant
            i <= entries@.len(),
            evs == jviews_obj(entries@, 0),
            evs.len() == entries@.len(),
            forall|k: int|
                0 <= k < entries@.len() ==> #[trigger] evs[k] == (
                    entries@[k].0@,
                    jview(entries@[k].1),
                ),
            obj_lookup(evs, name@) == obj_lookup(evs.skip(i as int), name@),
        decreases entries@.len() - i,
    {
        if entries[i].0 == *name {
            proof {
                assert(evs.skip(i as int)[0] == evs[i as int]);
            }
            return Some(&entries[i].1);
        }
        proof {
            assert(evs.skip(i as int)[0] == evs[i as int]);
            assert(evs.skip(i as int).drop_first() =~= evs.skip(i as int + 1));
        }
        i = i + 1;
    }
    proof {
        assert(evs.skip(evs.len() as int) =~= Seq::<(Seq<char>, JVal)>::empty());
    }
    None
}

/// A string escaped for quoting inside a rendered JSON value: quotes and
/// backslashes get a backslash, every other character stands as it is.
pub open spec fn escape_str(s: Seq<char>) -> Seq<char>
    decreases s.len(),
{
    if s.len() == 0 {
        Seq::<char>::empty()
    } else {
        let head = if s[0] == '"' {
            seq!['\\', '"']
        } else if s[0] == '\\' {
            seq!['\\', '\\']
        } else {
            seq![s[0]]
        };
        head + escape_str(s.drop_first())
    }
}

/// The rendering of one JSON value as a single line of text.
pub open spec fn render_jval(v: JVal) -> Seq<char>
    decreases v,
{
    match v {
        JVal::Null => seq!['n', 'u', 'l', 'l'],
        JVal::Bool(b) => if b {
            seq!['t', 'r', 'u', 'e']
        } else {
            seq!['f', 'a', 'l', 's', 'e']
        },
        JVal::Int(i) => int_str(i),
        JVal::Str(s) => seq!['"'] + escape_str(s) + seq!['"'],
        JVal::Arr(xs) => seq!['['] + render_items(xs, 0) + seq![']'],
        JVal::Obj(es) => seq!['{'] + render_entries(es, 0) + seq!['}'],
    }
}

/// The comma-separated renderings of `xs[i ..]`.
pub open spec fn render_items(xs: Seq<JVal>, i: int) -> Seq<char>
    decreases xs, xs.len() - i,
{
    if i < 0 || i >= xs.len() {
        Seq::<char>::empty()
    } else {
        let sep = if i + 1 < xs.len() {
            seq![',']
        } else {
            Seq::<char>::empty()
        };
        render_jval(xs[i]) + sep + render_items(xs, i + 1)
    }
}

/// The comma-separated renderings of the `"key":value` pairs of `es[i ..]`.
pub open spec fn render_entries(es: Seq<(Seq<char>, JVal)>, i: int) -> Seq<char>
    decreases es, es.len() - i,
{
    if i < 0 || i >= es.len() {
        Seq::<char>::empty()
    } else {
        let sep = if i + 1 < es.len() {
            seq![',']
        } else {
            Seq::<char>::empty()
        };
        seq!['"'] + escape_str(es[i].0) + seq!['"', ':'] + render_jval(es[i].1) + sep
            + render_entries(es, i + 1)
    }
}

fn escape_chars(s: &String) -> (r: Vec<char>)
    ensures
        r@ == escape_str(s@),
{
    let cs = crate::text::str_to_chars(s.as_str());
    let mut out: Vec<char> = Vec::new();
    proof {
        assert(s@.skip(0) =~= s@);
        assert(out@ + escape_str(s@) =~= escape_str(s@));
    }
    let mut i: usize = 0;
    while i < cs.len()
        invariant
            i <= cs@.len(),
            cs@ == s@,
            escape_str(s@) == out@ + escape_str(s@.skip(i as int)),
        decreases cs@.len() - i,
    {
        let ghost prev_out = out@;
        let ghost suffix = s@.skip(i as int);
        let c = cs[i];
        if c == '"' {
            out.push('\\');
            out.push('"');
        } else if c == '\\' {
            out.push('\\');
            out.push('\\');
        } else {
            out.push(c);
        }
        proof {
            let head = if suffix[0] == '"' {
                seq!['\\', '"']
            } else if suffix[0] == '\\' {
                seq!['\\', '\\']
            } else {
                seq![suffix[0]]
            };
            assert(suffix[0] == s@[i as int]);
            assert(out@ =~= prev_out + head);
            assert(suffix.drop_first() =~= s@.skip(i as int + 1));
            assert(escape_str(suffix) == head + escape_str(s@.skip(i as int + 1)));
            assert(prev_out + (head + escape_str(s@.skip(i as int + 1))) =~= out@ + escape_str(
                s@.skip(i as int + 1),
            ));
        }
        i = i + 1;
    }
    proof {
        assert(out@ + escape_str(s@.skip(s@.len() as int)) =~= out@);
    }
    out
}

fn render_chars(v: &JsonValue) -> (r: Vec<char>)
    ensures
        r@ == render_jval(v@),
    decreases *v,
{
    match v {
        JsonValue::Null => {
            let mut out: Vec<char> = Vec::new();
            out.push('n');
            out.push('u');
            out.push('l');
            out.push('l');
            proof {
                assert(out@ =~= render_jval(v@));
            }
            out
        },
        JsonValue::Bool(b) => {
            let mut out: Vec<char> = Vec::new();
            if *b {
                out.push('t');
                out.push('r');
                out.push('u');
                out.push('e');
            } else {
                out.push('f');
                out.push('a');
                out.push('l');
                out.push('s');
                out.push('e');
            }
            proof {
                assert(out@ =~= render_jval(v@));
            }
            out
        },
        JsonValue::Int(i) => render_i64(*i),
        JsonValue::Str(s) => {
            let mut out: Vec<char> = Vec::new();
            out.push('"');
            let mut esc = escape_chars(s);
            out.append(&mut esc);
            out.push('"');
            proof {
                assert(out@ =~= render_jval(v@));
            }
            out
        },
        JsonValue::Array(xs) => {
            let ghost items = jviews_arr(xs@, 0);
            proof {
                lemma_jviews_arr(xs@, 0);
            }
            let mut out: Vec<char> = Vec::new();
            out.push('[');
            proof {
                assert(out@ =~= seq!['[']);
            }
            let mut i: usize = 0;
            while i < xs.len()
                invariant
                    i <= xs@.len(),
                    items == jviews_arr(xs@, 0),
                    items.len() == xs@.len(),
                    forall|k: int|
                        0 <= k < xs@.len() ==> #[trigger] items[k] == jview(xs@[k]),
                    *v == JsonValue::Array(*xs),
                    seq!['['] + render_items(items, 0) == out@ + render_items(items, i as int),
                decreases xs@.len() - i,
            {
                let ghost prev_out = out@;
                proof {
                    assert(decreases_to!(*v => v->Array_0));
                    assert(v->Array_0 == *xs);
                    assert(decreases_to!(*xs => xs@));
                    assert(decreases_to!(xs@ => xs@[i as int]));
                    assert(decreases_to!(*v => xs@[i as int]));
                }
                let mut item = render_chars(&xs[i]);
                out.append(&mut item);
                if i + 1 < xs.len() {
                    out.push(',');
                }
                proof {
                    let sep = if i + 1 < items.len() {
                        seq![',']
                    } else {
                        Seq::<char>::empty()
                    };
                    assert(out@ =~= prev_out + (render_jval(items[i as int]) + sep));
                    assert(render_items(items, i as int) == render_jval(items[i as int]) + sep
                        + render_items(items, i as int + 1));
                    assert(prev_out + (render_jval(items[i as int]) + sep) + render_items(
                        items,
                        i as int + 1,
                    ) =~= prev_out + render_items(items, i as int));
                }
                i = i + 1;
            }
            out.push(']');
            proof {
                assert(out@ =~= render_jval(v@));
            }
            out
        },
        JsonValue::Object(es) => {
            let ghost items = jviews_obj(es@, 0);
            proof {
                lemma_jviews_obj(es@, 0);
            }
            let mut out: Vec<char> = Vec::new();
            out.push('{');
            proof {
                assert(out@ =~= seq!['{']);
            }
            let mut i: usize = 0;
            while i < es.len()
                invariant
                    i <= es@.len(),
                    items == jviews_obj(es@, 0),
                    items.len() == es@.len(),
                    forall|k: int|
                        0 <= k < es@.len() ==> #[trigger] items[k] == (
                            es@[k].0@,
                            jview(es@[k].1),
                        ),
                    *v == JsonValue::Object(*es),
                    seq!['{'] + render_entries(items, 0) == out@ + render_entries(items, i as int),
                decreases es@.len() - i,
            {
                let ghost prev_out = out@;
                out.push('"');
                let mut key = escape_chars(&es[i].0);
                out.append(&mut key);
                out.push('"');
                out.push(':');
                proof {
                    assert(decreases_to!(*v => v->Object_0));
                    assert(v->Object_0 == *es);
                    assert(decreases_to!(*es => es@));
                    assert(decreases_to!(es@ => es@[i as int]));
                    assert(decreases_to!(es@[i as int] => es@[i as int].1));
                    assert(decreases_to!(*v => es@[i as int].1));
                }
                let mut item = render_chars(&es[i].1);
                out.append(&mut item);
                if i + 1 < es.len() {
                    out.push(',');
                }
                proof {
                    let sep = if i + 1 < items.len() {
                        seq![',']
                    } else {
                        Seq::<char>::empty()
                    };
                    let piece = seq!['"'] + escape_str(items[i as int].0) + seq!['"', ':']
                        + render_jval(items[i as int].1) + sep;
                    assert(out@ =~= prev_out + piece);
                    assert(render_entries(items, i as int) == piece + render_entries(
                        items,
                        i as int + 1,
                    ));
                    assert(prev_out + piece + render_entries(items, i as int + 1) =~= prev_out
                        + render_entries(items, i as int));
                }
                i = i + 1;
            }
            out.push('}');
            proof {
                assert(out@ =~= render_jval(v@));
            }
            out
        },
    }
}

impl JsonValue {
    /// Renders the value as a single line of text, as error messages quote it.
    pub fn render(&self) -> (r: String)
        ensures
            r@ == render_jval(self@),
    {
        let cs = render_chars(self);
        chars_to_string(&cs)
    }
}

} // verus!
