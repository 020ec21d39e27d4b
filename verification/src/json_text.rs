//! JSON text as `serde_json` writes it: quoted strings, optional strings and arrays.

use vstd::prelude::*;
use crate::text::owned;
use crate::crypto::hex_digit;
use crate::policy::lifecycle::string_views;

verus! {

/// How a JSON string writes the character `c`: quote and backslash escaped, the named
/// control escapes, other control characters as `\u00XX` in lowercase hex, and every
/// other character as itself.
pub open spec fn json_escape(c: char) -> Seq<char> {
    if c == '"' {
        seq!['\\', '"']
    } else if c == '\\' {
        seq!['\\', '\\']
    } else if c == '\x08' {
        seq!['\\', 'b']
    } else if c == '\x0c' {
        seq!['\\', 'f']
    } else if c == '\n' {
        seq!['\\', 'n']
    } else if c == '\r' {
        seq!['\\', 'r']
    } else if c == '\t' {
        seq!['\\', 't']
    } else if (c as u32) < 0x20 {
        seq!['\\', 'u', '0', '0', hex_digit((c as u32) as int / 16), hex_digit((c as u32) as int % 16)]
    } else {
        seq![c]
    }
}

/// The escaped body of a JSON string holding `s`.
pub open spec fn json_escaped(s: Seq<char>) -> Seq<char>
    decreases s.len(),
{
    if s.len() == 0 {
        Seq::empty()
    } else {
        json_escaped(s.drop_last()) + json_escape(s.last())
    }
}

/// The JSON string holding `s`.
pub open spec fn json_quoted(s: Seq<char>) -> Seq<char> {
    seq!['"'] + json_escaped(s) + seq!['"']
}

/// The JSON string of `s` (`serde_json::to_string` on a string, which cannot fail).
#[verifier::external_body]
pub(crate) fn json_quote(s: &str) -> (r: String)
    ensures
        r@ == json_quoted(s@),
{
    match serde_json::to_string(s) {
        Ok(text) => text,
        Err(_) => String::new(),
    }
}

/// The JSON text `null` or the JSON string of `o`.
pub open spec fn json_optional(o: Option<Seq<char>>) -> Seq<char> {
    match o {
        Some(s) => json_quoted(s),
        None => "null"@,
    }
}

/// Items separated by commas.
pub open spec fn comma_joined(items: Seq<Seq<char>>) -> Seq<char>
    decreases items.len(),
{
    if items.len() == 0 {
        Seq::empty()
    } else if items.len() == 1 {
        items[0]
    } else {
        comma_joined(items.drop_last()) + ","@ + items.last()
    }
}

/// The JSON array of already written items.
pub open spec fn json_array(items: Seq<Seq<char>>) -> Seq<char> {
    "["@ + comma_joined(items) + "]"@
}

/// One more item joins after a comma, unless it is the first.
pub(crate) proof fn lemma_comma_joined_push(items: Seq<Seq<char>>, x: Seq<char>)
    ensures
        comma_joined(items.push(x)) == if items.len() == 0 {
            x
        } else {
            comma_joined(items) + ","@ + x
        },
{
    assert(items.push(x).drop_last() =~= items);
}

/// The JSON array of the written items.
pub(crate) fn array_of(items: &Vec<String>) -> (r: String)
    ensures
        r@ == json_array(string_views(items@)),
{
    let mut out = owned("[");
    let mut i: usize = 0;
    proof {
        assert(string_views(items@).take(0) =~= Seq::<Seq<char>>::empty());
    }
    while i < items.len()
        invariant
            i <= items@.len(),
            out@ == "["@ + comma_joined(string_views(items@).take(i as int)),
        decreases items@.len() - i,
    {
        let ghost before = string_views(items@).take(i as int);
        proof {
            assert(string_views(items@).take(i + 1) =~= before.push(items@[i as int]@));
            lemma_comma_joined_push(before, items@[i as int]@);
        }
        if i > 0 {
            out.append(",");
        }
        out.append(items[i].as_str());
        proof {
            if i == 0 {
                assert(before =~= Seq::<Seq<char>>::empty());
                assert(out@ =~= "["@ + comma_joined(string_views(items@).take(i + 1)));
            } else {
                assert(out@ =~= "["@ + comma_joined(string_views(items@).take(i + 1)));
            }
        }
        i = i + 1;
    }
    proof {
        assert(string_views(items@).take(items@.len() as int) =~= string_views(items@));
    }
    out.append("]");
    out
}

/// The JSON string of `o`, or `null`.
pub(crate) fn optional_text(o: Option<&str>) -> (r: String)
    ensures
        r@ == json_optional(
            match o {
                Some(s) => Some(s@),
                None => None,
            },
        ),
{
    match o {
        Some(s) => json_quote(s),
        None => owned("null"),
    }
}

} // verus!
