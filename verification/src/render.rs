//! Rendering a document as JSON text: a compact form, used when a value is
//! shown inline, and a pretty form with two-space indents, used when a
//! document is persisted.
//!
//! Strings are quoted with the usual JSON escapes: quote, backslash, and the
//! named control characters by a two-character escape, any other control
//! character as `\u00` and two hex digits. A number appears as the text of
//! its literal, exactly as it was decoded.

use vstd::prelude::*;

use crate::json::{JsonValue, JsonRep, rep_seq_from, rep_entries_from, lemma_rep_seq_from, lemma_rep_entries_from};

verus! {

/// The lower-case hex digit of a nibble.
pub open spec fn hex_digit(n: int) -> char {
    if n == 0 { '0' } else if n == 1 { '1' } else if n == 2 { '2' } else if n == 3 { '3' }
    else if n == 4 { '4' } else if n == 5 { '5' } else if n == 6 { '6' } else if n == 7 { '7' }
    else if n == 8 { '8' } else if n == 9 { '9' } else if n == 10 { 'a' } else if n == 11 { 'b' }
    else if n == 12 { 'c' } else if n == 13 { 'd' } else if n == 14 { 'e' } else { 'f' }
}

/// The escape of one character inside a JSON string.
pub open spec fn esc_char(c: char) -> Seq<char> {
    if c == '"' { seq!['\\', '"'] }
    else if c == '\\' { seq!['\\', '\\'] }
    else if c == '\n' { seq!['\\', 'n'] }
    else if c == '\r' { seq!['\\', 'r'] }
    else if c == '\t' { seq!['\\', 't'] }
    else if c == '\u{8}' { seq!['\\', 'b'] }
    else if c == '\u{c}' { seq!['\\', 'f'] }
    else if (c as u32) < 0x20 {
        seq!['\\', 'u', '0', '0', hex_digit(c as u32 as int / 16), hex_digit(c as u32 as int % 16)]
    } else {
        seq![c]
    }
}

/// The escapes of the characters `s[i..]`, in order.
pub open spec fn esc_from(s: Seq<char>, i: int) -> Seq<char>
    decreases s.len() - i,
{
    if i < 0 || i >= s.len() {
        Seq::empty()
    } else {
        esc_char(s[i]) + esc_from(s, i + 1)
    }
}

/// `s` escaped and wrapped in quotes.
pub open spec fn quoted(s: Seq<char>) -> Seq<char> {
    seq!['"'] + esc_from(s, 0) + seq!['"']
}

/// The compact JSON text of `v`.
pub open spec fn render(v: JsonRep) -> Seq<char>
    decreases v, 0int,
{
    match v {
        JsonRep::Null => seq!['n', 'u', 'l', 'l'],
        JsonRep::Bool(b) => if b {
            seq!['t', 'r', 'u', 'e']
        } else {
            seq!['f', 'a', 'l', 's', 'e']
        },
        JsonRep::Num(s) => s,
        JsonRep::Str(s) => quoted(s),
        JsonRep::Arr(a) => seq!['['] + render_items(a, 0) + seq![']'],
        JsonRep::Obj(o) => seq!['{'] + render_members(o, 0) + seq!['}'],
    }
}

/// The compact texts of the elements `a[i..]`, each after a comma except the
/// first of the whole array.
pub open spec fn render_items(a: Seq<JsonRep>, i: int) -> Seq<char>
    decreases a, a.len() - i,
{
    if i < 0 || i >= a.len() {
        Seq::empty()
    } else {
        let head = if i > 0 {
            seq![','] + render(a[i])
        } else {
            render(a[i])
        };
        head + render_items(a, i + 1)
    }
}

/// The compact texts of the entries `o[i..]`, each `"key":value`, after a
/// comma except the first of the whole object.
pub open spec fn render_members(o: Seq<(Seq<char>, JsonRep)>, i: int) -> Seq<char>
    decreases o, o.len() - i,
{
    if i < 0 || i >= o.len() {
        Seq::empty()
    } else {
        let head = if i > 0 {
            seq![','] + quoted(o[i].0) + seq![':'] + render(o[i].1)
        } else {
            quoted(o[i].0) + seq![':'] + render(o[i].1)
        };
        head + render_members(o, i + 1)
    }
}

/// The lower-case hex digit of a nibble.
fn hex_digit_exec(n: u32) -> (r: char)
    requires
        n < 16,
    ensures
        r == hex_digit(n as int),
{
    if n == 0 { '0' } else if n == 1 { '1' } else if n == 2 { '2' } else if n == 3 { '3' }
    else if n == 4 { '4' } else if n == 5 { '5' } else if n == 6 { '6' } else if n == 7 { '7' }
    else if n == 8 { '8' } else if n == 9 { '9' } else if n == 10 { 'a' } else if n == 11 { 'b' }
    else if n == 12 { 'c' } else if n == 13 { 'd' } else if n == 14 { 'e' } else { 'f' }
}

/// Append the escape of `c` to `out`.
fn push_escaped(c: char, out: &mut Vec<char>)
    ensures
        final(out)@ == old(out)@ + esc_char(c),
{
    if c == '"' {
        out.push('\\');
        out.push('"');
    } else if c == '\\' {
        out.push('\\');
        out.push('\\');
    } else if c == '\n' {
        out.push('\\');
        out.push('n');
    } else if c == '\r' {
        out.push('\\');
        out.push('r');
    } else if c == '\t' {
        out.push('\\');
        out.push('t');
    } else if c == '\u{8}' {
        out.push('\\');
        out.push('b');
    } else if c == '\u{c}' {
        out.push('\\');
        out.push('f');
    } else if (c as u32) < 0x20 {
        let n = c as u32;
        out.push('\\');
        out.push('u');
        out.push('0');
        out.push('0');
        let d1 = hex_digit_exec(n / 16);
        out.push(d1);
        let d2 = hex_digit_exec(n % 16);
        out.push(d2);
    } else {
        out.push(c);
    }
    proof {
        assert(out@ =~= old(out)@ + esc_char(c));
    }
}

/// Append the escapes of `cs[i..]` to `out`.
fn write_esc_from(cs: &Vec<char>, i: usize, out: &mut Vec<char>)
    requires
        i <= cs.len(),
    ensures
        final(out)@ == old(out)@ + esc_from(cs@, i as int),
    decreases cs.len() - i,
{
    if i < cs.len() {
        push_escaped(cs[i], out);
        write_esc_from(cs, i + 1, out);
    }
    proof {
        assert(out@ =~= old(out)@ + esc_from(cs@, i as int));
    }
}

/// Append `s`, escaped and quoted, to `out`.
fn write_quoted(s: &String, out: &mut Vec<char>)
    ensures
        final(out)@ == old(out)@ + quoted(s@),
{
    out.push('"');
    let cs = crate::text::chars_of(s.as_str());
    write_esc_from(&cs, 0, out);
    out.push('"');
    proof {
        assert(out@ =~= old(out)@ + quoted(s@));
    }
}

/// Append the characters `src[i..]` to `out`.
fn append_chars(src: &Vec<char>, i: usize, out: &mut Vec<char>)
    requires
        i <= src.len(),
    ensures
        final(out)@ == old(out)@ + src@.subrange(i as int, src@.len() as int),
    decreases src.len() - i,
{
    if i < src.len() {
        out.push(src[i]);
        append_chars(src, i + 1, out);
    }
    proof {
        assert(out@ =~= old(out)@ + src@.subrange(i as int, src@.len() as int));
    }
}

/// Append the compact text of `v` to `out`.
fn write_value(v: &JsonValue, out: &mut Vec<char>)
    ensures
        final(out)@ == old(out)@ + render(v.rep()),
    decreases *v, 0int,
{
    match v {
        JsonValue::Null => {
            out.push('n');
            out.push('u');
            out.push('l');
            out.push('l');
        },
        JsonValue::Bool(b) => {
            if *b {
                out.push('t');
                out.push('r');
                out.push('u');
                out.push('e');
            } else {
                out.push('f');
                out.push('a');
                out.push('l');
                out.push('s');
                out.push('e');
            }
        },
        JsonValue::Num(s) => {
            let cs = crate::text::chars_of(s.as_str());
            append_chars(&cs, 0, out);
        },
        JsonValue::Str(s) => {
            write_quoted(s, out);
        },
        JsonValue::Arr(a) => {
            out.push('[');
            write_items(a, 0, out);
            out.push(']');
        },
        JsonValue::Obj(o) => {
            out.push('{');
            write_members(o, 0, out);
            out.push('}');
        },
    }
    proof {
        assert(out@ =~= old(out)@ + render(v.rep()));
    }
}

/// Append the compact texts of the elements `a[i..]` to `out`.
fn write_items(a: &Vec<JsonValue>, i: usize, out: &mut Vec<char>)
    requires
        i <= a.len(),
    ensures
        final(out)@ == old(out)@ + render_items(rep_seq_from(a@, 0), i as int),
    decreases a@, a.len() - i,
{
    proof {
        lemma_rep_seq_from(a@, 0);
    }
    if i < a.len() {
        if i > 0 {
            out.push(',');
        }
        write_value(&a[i], out);
        write_items(a, i + 1, out);
    }
    proof {
        assert(out@ =~= old(out)@ + render_items(rep_seq_from(a@, 0), i as int));
    }
}

/// Append the compact texts of the entries `o[i..]` to `out`.
fn write_members(o: &Vec<(String, JsonValue)>, i: usize, out: &mut Vec<char>)
    requires
        i <= o.len(),
    ensures
        final(out)@ == old(out)@ + render_members(rep_entries_from(o@, 0), i as int),
    decreases o@, o.len() - i,
{
    proof {
        lemma_rep_entries_from(o@, 0);
    }
    if i < o.len() {
        if i > 0 {
            out.push(',');
        }
        write_quoted(&o[i].0, out);
        out.push(':');
        write_value(&o[i].1, out);
        write_members(o, i + 1, out);
    }
    proof {
        assert(out@ =~= old(out)@ + render_members(rep_entries_from(o@, 0), i as int));
    }
}

/// The pretty JSON text of `v`, standing behind the indent `pad`: arrays and
/// objects spread one element per line, indented two spaces beyond `pad`.
pub open spec fn pretty(v: JsonRep, pad: Seq<char>) -> Seq<char>
    decreases v, 0int,
{
    match v {
        JsonRep::Arr(a) => if a.len() == 0 {
            seq!['[', ']']
        } else {
            seq!['['] + pretty_items(a, 0, pad + seq![' ', ' ']) + seq!['\n'] + pad + seq![']']
        },
        JsonRep::Obj(o) => if o.len() == 0 {
            seq!['{', '}']
        } else {
            seq!['{'] + pretty_members(o, 0, pad + seq![' ', ' ']) + seq!['\n'] + pad + seq!['}']
        },
        _ => render(v),
    }
}

/// The pretty texts of the elements `a[i..]`, each on a line of its own
/// behind `pad`, each after a comma except the first of the whole array.
pub open spec fn pretty_items(a: Seq<JsonRep>, i: int, pad: Seq<char>) -> Seq<char>
    decreases a, a.len() - i,
{
    if i < 0 || i >= a.len() {
        Seq::empty()
    } else {
        let sep = if i > 0 {
            seq![',', '\n']
        } else {
            seq!['\n']
        };
        sep + pad + pretty(a[i], pad) + pretty_items(a, i + 1, pad)
    }
}

/// The pretty texts of the entries `o[i..]`, each `"key": value` on a line of
/// its own behind `pad`, each after a comma except the first of the whole
/// object.
pub open spec fn pretty_members(o: Seq<(Seq<char>, JsonRep)>, i: int, pad: Seq<char>) -> Seq<char>
    decreases o, o.len() - i,
{
    if i < 0 || i >= o.len() {
        Seq::empty()
    } else {
        let sep = if i > 0 {
            seq![',', '\n']
        } else {
            seq!['\n']
        };
        sep + pad + quoted(o[i].0) + seq![':', ' '] + pretty(o[i].1, pad) + pretty_members(
            o,
            i + 1,
            pad,
        )
    }
}

/// The pretty JSON text of a whole document, with no outer indent.
pub open spec fn pretty_rep(v: JsonRep) -> Seq<char> {
    pretty(v, Seq::empty())
}

/// Append the pretty text of `v` to `out`; `pad` is the current indent and
/// comes back unchanged.
fn write_pretty(v: &JsonValue, pad: &mut Vec<char>, out: &mut Vec<char>)
    ensures
        final(pad)@ == old(pad)@,
        final(out)@ == old(out)@ + pretty(v.rep(), old(pad)@),
    decreases *v, 0int,
{
    match v {
        JsonValue::Arr(a) => {
            if a.len() == 0 {
                out.push('[');
                out.push(']');
            } else {
                out.push('[');
                pad.push(' ');
                pad.push(' ');
                proof {
                    assert(pad@ =~= old(pad)@ + seq![' ', ' ']);
                }
                write_pretty_items(a, 0, pad, out);
                pad.pop();
                pad.pop();
                proof {
                    assert(pad@ =~= old(pad)@);
                }
                out.push('\n');
                append_chars(pad, 0, out);
                out.push(']');
            }
        },
        JsonValue::Obj(o) => {
            if o.len() == 0 {
                out.push('{');
                out.push('}');
            } else {
                out.push('{');
                pad.push(' ');
                pad.push(' ');
                proof {
                    assert(pad@ =~= old(pad)@ + seq![' ', ' ']);
                }
                write_pretty_members(o, 0, pad, out);
                pad.pop();
                pad.pop();
                proof {
                    assert(pad@ =~= old(pad)@);
                }
                out.push('\n');
                append_chars(pad, 0, out);
                out.push('}');
            }
        },
        _ => {
            write_value(v, out);
        },
    }
    proof {
        assert(pad@ =~= old(pad)@);
        assert(out@ =~= old(out)@ + pretty(v.rep(), old(pad)@));
    }
}

/// Append the pretty texts of the elements `a[i..]` to `out`.
fn write_pretty_items(a: &Vec<JsonValue>, i: usize, pad: &mut Vec<char>, out: &mut Vec<char>)
    requires
        i <= a.len(),
    ensures
        final(pad)@ == old(pad)@,
        final(out)@ == old(out)@ + pretty_items(rep_seq_from(a@, 0), i as int, old(pad)@),
    decreases a@, a.len() - i,
{
    proof {
        lemma_rep_seq_from(a@, 0);
    }
    if i < a.len() {
        if i > 0 {
            out.push(',');
        }
        out.push('\n');
        append_chars(pad, 0, out);
        write_pretty(&a[i], pad, out);
        write_pretty_items(a, i + 1, pad, out);
    }
    proof {
        assert(out@ =~= old(out)@ + pretty_items(rep_seq_from(a@, 0), i as int, old(pad)@));
    }
}

/// Append the pretty texts of the entries `o[i..]` to `out`.
fn write_pretty_members(
    o: &Vec<(String, JsonValue)>,
    i: usize,
    pad: &mut Vec<char>,
    out: &mut Vec<char>,
)
    requires
        i <= o.len(),
    ensures
        final(pad)@ == old(pad)@,
        final(out)@ == old(out)@ + pretty_members(rep_entries_from(o@, 0), i as int, old(pad)@),
    decreases o@, o.len() - i,
{
    proof {
        lemma_rep_entries_from(o@, 0);
    }
    if i < o.len() {
        if i > 0 {
            out.push(',');
        }
        out.push('\n');
        append_chars(pad, 0, out);
        write_quoted(&o[i].0, out);
        out.push(':');
        out.push(' ');
        write_pretty(&o[i].1, pad, out);
        write_pretty_members(o, i + 1, pad, out);
    }
    proof {
        assert(out@ =~= old(out)@ + pretty_members(rep_entries_from(o@, 0), i as int, old(pad)@));
    }
}

/// The pretty JSON text of `v`, as a newly allocated string.
pub fn to_json_pretty(v: &JsonValue) -> (r: String)
    ensures
        r@ == pretty_rep(v.rep()),
{
    let mut out: Vec<char> = Vec::new();
    let mut pad: Vec<char> = Vec::new();
    write_pretty(v, &mut pad, &mut out);
    proof {
        assert(pad@ =~= Seq::<char>::empty());
        assert(out@ =~= pretty_rep(v.rep()));
    }
    crate::text::string_from_chars(&out)
}

/// The pretty JSON text of an object given by its entry list, as a newly
/// allocated string: the form in which a document is persisted.
pub fn object_pretty(entries: &Vec<(String, JsonValue)>) -> (r: String)
    ensures
        r@ == pretty_rep(JsonRep::Obj(rep_entries_from(entries@, 0))),
{
    proof {
        lemma_rep_entries_from(entries@, 0);
    }
    let mut out: Vec<char> = Vec::new();
    if entries.len() == 0 {
        out.push('{');
        out.push('}');
    } else {
        out.push('{');
        let mut pad: Vec<char> = Vec::new();
        pad.push(' ');
        pad.push(' ');
        proof {
            assert(pad@ =~= Seq::<char>::empty() + seq![' ', ' ']);
        }
        write_pretty_members(entries, 0, &mut pad, &mut out);
        out.push('\n');
        out.push('}');
    }
    proof {
        assert(out@ =~= pretty_rep(JsonRep::Obj(rep_entries_from(entries@, 0))));
    }
    crate::text::string_from_chars(&out)
}

/// The compact JSON text of `v`, as a newly allocated string.
pub fn to_json_text(v: &JsonValue) -> (r: String)
    ensures
        r@ == render(v.rep()),
{
    let mut out: Vec<char> = Vec::new();
    write_value(v, &mut out);
    crate::text::string_from_chars(&out)
}

} // verus!
