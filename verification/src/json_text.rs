//! Compact JSON text of a `JsonValue`: object members in the order they are
//! held, strings escaped as JSON requires (quote, backslash and control
//! characters; the common ones by their short escapes, the rest as `\u00XX`
//! with lower-case hex digits).

use vstd::prelude::*;
use crate::json::JsonValue;
use crate::text::{cat, owned, substring, to_chars};

verus! {

/// The lower-case hex digit of `d`, for `d < 16`.
pub open spec fn hex_digit(d: nat) -> char {
    seq!['0', '1', '2', '3', '4', '5', '6', '7', '8', '9', 'a', 'b', 'c', 'd', 'e', 'f'][d as int]
}

/// How `c` appears inside a JSON string.
pub open spec fn escape_char(c: char) -> Seq<char> {
    if c == '"' {
        seq!['\\', '"']
    } else if c == '\\' {
        seq!['\\', '\\']
    } else if c == '\n' {
        seq!['\\', 'n']
    } else if c == '\r' {
        seq!['\\', 'r']
    } else if c == '\t' {
        seq!['\\', 't']
    } else if c == '\u{8}' {
        seq!['\\', 'b']
    } else if c == '\u{c}' {
        seq!['\\', 'f']
    } else if (c as u32) < 32 {
        seq!['\\', 'u', '0', '0', hex_digit((c as u32 / 16) as nat), hex_digit((c as u32 % 16) as nat)]
    } else {
        seq![c]
    }
}

/// The characters of `s`, each escaped.
pub open spec fn escape_text(s: Seq<char>) -> Seq<char>
    decreases s.len(),
{
    if s.len() == 0 {
        seq![]
    } else {
        escape_text(s.drop_last()) + escape_char(s.last())
    }
}

/// `s` as a JSON string literal.
pub open spec fn quoted(s: Seq<char>) -> Seq<char> {
    seq!['"'] + escape_text(s) + seq!['"']
}

/// The compact JSON text of `v`.
pub open spec fn spec_render(v: JsonValue) -> Seq<char>
    decreases v,
{
    match v {
        JsonValue::Null => "null"@,
        JsonValue::Bool(b) => if b { "true"@ } else { "false"@ },
        JsonValue::Number(n) => n@,
        JsonValue::String(s) => quoted(s@),
        JsonValue::Array(items) => seq!['['] + render_items(items@) + seq![']'],
        JsonValue::Object(members) => seq!['{'] + render_members(members@) + seq!['}'],
    }
}

/// The texts of `items`, separated by commas.
pub open spec fn render_items(items: Seq<JsonValue>) -> Seq<char>
    decreases items,
{
    if items.len() == 0 {
        seq![]
    } else if items.len() == 1 {
        spec_render(items[0])
    } else {
        render_items(items.drop_last()) + seq![','] + spec_render(items.last())
    }
}

/// The members as `"key":value`, separated by commas.
pub open spec fn render_members(members: Seq<(String, JsonValue)>) -> Seq<char>
    decreases members,
{
    if members.len() == 0 {
        seq![]
    } else if members.len() == 1 {
        quoted(members[0].0@) + seq![':'] + spec_render(members[0].1)
    } else {
        render_members(members.drop_last()) + seq![','] + quoted(members.last().0@) + seq![':'] + spec_render(
            members.last().1,
        )
    }
}

/// The JSON escape of one character, as text.
fn escaped_char(s: &str, i: usize, c: char) -> (r: String)
    requires
        i < s@.len(),
        i < usize::MAX,
        s@[i as int] == c,
    ensures
        r@ == escape_char(c),
{
    proof {
        reveal_strlit("\\\"");
        reveal_strlit("\\\\");
        reveal_strlit("\\n");
        reveal_strlit("\\r");
        reveal_strlit("\\t");
        reveal_strlit("\\b");
        reveal_strlit("\\f");
        reveal_strlit("\\u00");
        reveal_strlit("0123456789abcdef");
    }
    if c == '"' {
        owned("\\\"")
    } else if c == '\\' {
        owned("\\\\")
    } else if c == '\n' {
        owned("\\n")
    } else if c == '\r' {
        owned("\\r")
    } else if c == '\t' {
        owned("\\t")
    } else if c == '\u{8}' {
        owned("\\b")
    } else if c == '\u{c}' {
        owned("\\f")
    } else if (c as u32) < 32 {
        let code = c as u32;
        let hi = (code / 16) as usize;
        let lo = (code % 16) as usize;
        let digits = "0123456789abcdef";
        let mut r = owned("\\u00");
        let h = substring(digits, hi, hi + 1);
        let l = substring(digits, lo, lo + 1);
        r.append(h.as_str());
        r.append(l.as_str());
        proof {
            assert(h@ =~= seq![hex_digit(hi as nat)]);
            assert(l@ =~= seq![hex_digit(lo as nat)]);
            assert(r@ =~= escape_char(c));
        }
        r
    } else {
        let r = substring(s, i, i + 1);
        proof {
            assert(r@ =~= seq![c]);
        }
        r
    }
}

/// `s` as a JSON string literal (see [`quoted`]).
pub fn quote_text(s: &str) -> (r: String)
    ensures
        r@ == quoted(s@),
{
    proof {
        reveal_strlit("\"");
    }
    let chars = to_chars(s);
    let mut out = owned("\"");
    let mut i: usize = 0;
    while i < chars.len()
        invariant
            chars@ == s@,
            i <= chars@.len(),
            out@ == seq!['"'] + escape_text(s@.take(i as int)),
        decreases chars@.len() - i,
    {
        let piece = escaped_char(s, i, chars[i]);
        out.append(piece.as_str());
        proof {
            let next = s@.take(i + 1);
            assert(next.drop_last() =~= s@.take(i as int));
            assert(next.last() == s@[i as int]);
            assert(out@ =~= seq!['"'] + escape_text(next));
        }
        i += 1;
    }
    proof {
        assert(s@.take(s@.len() as int) =~= s@);
    }
    out.append("\"");
    proof {
        reveal_strlit("\"");
    }
    out
}

/// The compact JSON text of `v`, object members in the order they are held.
pub fn render_json(v: &JsonValue) -> (r: String)
    ensures
        r@ == spec_render(*v),
    decreases v,
{
    proof {
        reveal_strlit("null");
        reveal_strlit("true");
        reveal_strlit("false");
        reveal_strlit("[");
        reveal_strlit("]");
        reveal_strlit("{");
        reveal_strlit("}");
        reveal_strlit(",");
        reveal_strlit(":");
    }
    match v {
        JsonValue::Null => owned("null"),
        JsonValue::Bool(b) => if *b { owned("true") } else { owned("false") },
        JsonValue::Number(n) => n.clone(),
        JsonValue::String(s) => quote_text(s.as_str()),
        JsonValue::Array(items) => {
            let mut out = owned("[");
            let mut i: usize = 0;
            while i < items.len()
                invariant
                    i <= items@.len(),
                    *v == JsonValue::Array(*items),
                    out@ == seq!['['] + render_items(items@.take(i as int)),
                decreases items@.len() - i,
            {
                proof {
                    assert(decreases_to!(*v => (*v)->Array_0));
                    assert(decreases_to!(*items => items[i as int]));
                    reveal_strlit(",");
                }
                let text = render_json(&items[i]);
                let ghost before = out@;
                if i > 0 {
                    out.append(",");
                }
                out.append(text.as_str());
                proof {
                    let next = items@.take(i + 1);
                    assert(next.drop_last() =~= items@.take(i as int));
                    assert(next.last() == items@[i as int]);
                    if i == 0 {
                        assert(items@.take(0) =~= Seq::<JsonValue>::empty());
                        assert(next[0] == items@[0]);
                    }
                    assert(out@ =~= seq!['['] + render_items(next));
                }
                i += 1;
            }
            proof {
                assert(items@.take(items@.len() as int) =~= items@);
                reveal_strlit("]");
            }
            out.append("]");
            out
        },
        JsonValue::Object(members) => {
            let mut out = owned("{");
            let mut i: usize = 0;
            while i < members.len()
                invariant
                    i <= members@.len(),
                    *v == JsonValue::Object(*members),
                    out@ == seq!['{'] + render_members(members@.take(i as int)),
                decreases members@.len() - i,
            {
                proof {
                    assert(decreases_to!(*v => (*v)->Object_0));
                    assert(decreases_to!(*members => members[i as int]));
                    assert(decreases_to!(members[i as int] => members[i as int].1));
                    reveal_strlit(",");
                    reveal_strlit(":");
                }
                let key = quote_text(members[i].0.as_str());
                let text = render_json(&members[i].1);
                if i > 0 {
                    out.append(",");
                }
                out.append(key.as_str());
                out.append(":");
                out.append(text.as_str());
                proof {
                    let next = members@.take(i + 1);
                    assert(next.drop_last() =~= members@.take(i as int));
                    assert(next.last() == members@[i as int]);
                    if i == 0 {
                        assert(members@.take(0) =~= Seq::<(String, JsonValue)>::empty());
                        assert(next[0] == members@[0]);
                    }
                    assert(out@ =~= seq!['{'] + render_members(next));
                }
                i += 1;
            }
            proof {
                assert(members@.take(members@.len() as int) =~= members@);
                reveal_strlit("}");
            }
            out.append("}");
            out
        },
    }
}

} // verus!
