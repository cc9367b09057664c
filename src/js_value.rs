//! Abstract values: what a constant-folding evaluator knows about an
//! expression without running it, and a bounded rendering of them for
//! diagnostics.

use vstd::prelude::*;
use vstd::string::*;

verus! {

/// A literal that the evaluator could fold completely.
#[derive(Clone, Debug, PartialEq, Eq)]
pub enum ConstantValue {
    Str(String),
    /// A numeric literal, kept as its source text.
    Num(String),
    Bool(bool),
    Null,
    Undefined,
}

/// An approximation of an expression's value.
#[derive(Debug, PartialEq, Eq)]
pub enum JsValue {
    Constant(ConstantValue),
    Array(Vec<JsValue>),
    Object(Vec<ObjectPart>),
    /// Anything that could not be reduced statically, with the reason.
    Unknown(String),
}

/// One entry of an object literal.
#[derive(Debug, PartialEq, Eq)]
pub enum ObjectPart {
    KeyValue(JsValue, JsValue),
    Spread(JsValue),
}

/// The string a value holds, if it is a constant string.
pub open spec fn str_of(v: JsValue) -> Option<Seq<char>> {
    match v {
        JsValue::Constant(ConstantValue::Str(s)) => Some(s@),
        _ => None,
    }
}

impl JsValue {
    pub fn as_str(&self) -> (r: Option<&String>)
        ensures
            match r {
                Some(s) => str_of(*self) == Some(s@),
                None => str_of(*self).is_none(),
            },
    {
        match self {
            JsValue::Constant(ConstantValue::Str(s)) => Some(s),
            _ => None,
        }
    }
}

pub open spec fn render_constant(c: ConstantValue) -> Seq<char> {
    match c {
        ConstantValue::Str(s) => "\""@ + s@ + "\""@,
        ConstantValue::Num(t) => t@,
        ConstantValue::Bool(b) => if b { "true"@ } else { "false"@ },
        ConstantValue::Null => "null"@,
        ConstantValue::Undefined => "undefined"@,
    }
}

/// Text of a value, nested containers shown down to `depth` levels and at
/// most [`EXPLAIN_WIDTH`] entries each; what lies beyond is elided.
pub open spec fn render(v: JsValue, depth: nat) -> Seq<char>
    decreases depth, 0nat,
{
    match v {
        JsValue::Constant(c) => render_constant(c),
        JsValue::Array(items) => if depth == 0 {
            "[...]"@
        } else {
            "["@ + render_items(items@, (depth - 1) as nat) + "]"@
        },
        JsValue::Object(parts) => if depth == 0 {
            "{...}"@
        } else {
            "{"@ + render_parts(parts@, (depth - 1) as nat) + "}"@
        },
        JsValue::Unknown(reason) => "unknown ("@ + reason@ + ")"@,
    }
}

/// Items joined by ", ".
pub open spec fn join_items(items: Seq<JsValue>, depth: nat) -> Seq<char>
    decreases depth, items.len() + 2,
{
    if items.len() == 0 {
        Seq::empty()
    } else if items.len() == 1 {
        render(items[0], depth)
    } else {
        join_items(items.drop_last(), depth) + ", "@ + render(items.last(), depth)
    }
}

pub open spec fn render_part(p: ObjectPart, depth: nat) -> Seq<char>
    decreases depth, 1nat,
{
    match p {
        ObjectPart::KeyValue(k, v) => render(k, depth) + ": "@ + render(v, depth),
        ObjectPart::Spread(v) => "..."@ + render(v, depth),
    }
}

/// Parts joined by ", ".
pub open spec fn join_parts(parts: Seq<ObjectPart>, depth: nat) -> Seq<char>
    decreases depth, parts.len() + 2,
{
    if parts.len() == 0 {
        Seq::empty()
    } else if parts.len() == 1 {
        render_part(parts[0], depth)
    } else {
        join_parts(parts.drop_last(), depth) + ", "@ + render_part(parts.last(), depth)
    }
}

/// Most items of one array or object that are shown.
pub const EXPLAIN_WIDTH: usize = 8;

/// The first [`EXPLAIN_WIDTH`] items joined by ", ", and ", ..." after them
/// when there are more.
pub open spec fn render_items(items: Seq<JsValue>, depth: nat) -> Seq<char>
    decreases depth, items.len() + 3,
{
    if items.len() > EXPLAIN_WIDTH {
        join_items(items.subrange(0, EXPLAIN_WIDTH as int), depth) + ", ..."@
    } else {
        join_items(items, depth)
    }
}

/// The first [`EXPLAIN_WIDTH`] parts joined by ", ", and ", ..." after them
/// when there are more.
pub open spec fn render_parts(parts: Seq<ObjectPart>, depth: nat) -> Seq<char>
    decreases depth, parts.len() + 3,
{
    if parts.len() > EXPLAIN_WIDTH {
        join_parts(parts.subrange(0, EXPLAIN_WIDTH as int), depth) + ", ..."@
    } else {
        join_parts(parts, depth)
    }
}

fn render_constant_exec(c: &ConstantValue) -> (r: String)
    ensures
        r@ == render_constant(*c),
{
    match c {
        ConstantValue::Str(s) => {
            let q = String::from_str("\"");
            q.concat(s.as_str()).concat("\"")
        },
        ConstantValue::Num(t) => t.clone(),
        ConstantValue::Bool(b) => if *b {
            String::from_str("true")
        } else {
            String::from_str("false")
        },
        ConstantValue::Null => String::from_str("null"),
        ConstantValue::Undefined => String::from_str("undefined"),
    }
}

/// Renders `v` as [`render`] describes it.
pub fn explain(v: &JsValue, depth: usize) -> (r: String)
    ensures
        r@ == render(*v, depth as nat),
    decreases depth, 0nat,
{
    match v {
        JsValue::Constant(c) => render_constant_exec(c),
        JsValue::Array(items) => {
            if depth == 0 {
                String::from_str("[...]")
            } else {
                let inner = explain_items(items, depth - 1);
                String::from_str("[").concat(inner.as_str()).concat("]")
            }
        },
        JsValue::Object(parts) => {
            if depth == 0 {
                String::from_str("{...}")
            } else {
                let inner = explain_parts(parts, depth - 1);
                String::from_str("{").concat(inner.as_str()).concat("}")
            }
        },
        JsValue::Unknown(reason) => {
            String::from_str("unknown (").concat(reason.as_str()).concat(")")
        },
    }
}

fn explain_items(items: &Vec<JsValue>, depth: usize) -> (r: String)
    ensures
        r@ == render_items(items@, depth as nat),
    decreases depth, items@.len() + 3,
{
    let shown = if items.len() > EXPLAIN_WIDTH {
        EXPLAIN_WIDTH
    } else {
        items.len()
    };
    let mut out = String::new();
    let mut i: usize = 0;
    while i < shown
        invariant
            shown <= items@.len(),
            shown == EXPLAIN_WIDTH || shown == items@.len(),
            i <= shown,
            out@ == join_items(items@.subrange(0, i as int), depth as nat),
        decreases items@.len() - i,
    {
        let s = explain(&items[i], depth);
        if i == 0 {
            out = s;
        } else {
            out = out.concat(", ").concat(s.as_str());
        }
        let ghost next = items@.subrange(0, i + 1);
        assert(next.drop_last() =~= items@.subrange(0, i as int));
        i = i + 1;
    }
    if items.len() > EXPLAIN_WIDTH {
        out = out.concat(", ...");
    } else {
        assert(items@.subrange(0, items@.len() as int) =~= items@);
    }
    out
}

fn explain_part(p: &ObjectPart, depth: usize) -> (r: String)
    ensures
        r@ == render_part(*p, depth as nat),
    decreases depth, 1nat,
{
    match p {
        ObjectPart::KeyValue(k, v) => {
            let ks = explain(k, depth);
            let vs = explain(v, depth);
            ks.concat(": ").concat(vs.as_str())
        },
        ObjectPart::Spread(v) => {
            let vs = explain(v, depth);
            String::from_str("...").concat(vs.as_str())
        },
    }
}

fn explain_parts(parts: &Vec<ObjectPart>, depth: usize) -> (r: String)
    ensures
        r@ == render_parts(parts@, depth as nat),
    decreases depth, parts@.len() + 3,
{
    let shown = if parts.len() > EXPLAIN_WIDTH {
        EXPLAIN_WIDTH
    } else {
        parts.len()
    };
    let mut out = String::new();
    let mut i: usize = 0;
    while i < shown
        invariant
            shown <= parts@.len(),
            shown == EXPLAIN_WIDTH || shown == parts@.len(),
            i <= shown,
            out@ == join_parts(parts@.subrange(0, i as int), depth as nat),
        decreases parts@.len() - i,
    {
        let s = explain_part(&parts[i], depth);
        if i == 0 {
            out = s;
        } else {
            out = out.concat(", ").concat(s.as_str());
        }
        let ghost next = parts@.subrange(0, i + 1);
        assert(next.drop_last() =~= parts@.subrange(0, i as int));
        i = i + 1;
    }
    if parts.len() > EXPLAIN_WIDTH {
        out = out.concat(", ...");
    } else {
        assert(parts@.subrange(0, parts@.len() as int) =~= parts@);
    }
    out
}

} // verus!
