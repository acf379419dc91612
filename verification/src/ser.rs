//! Pretty-printing of a JSON document: two-space indentation, keys quoted,
//! strings escaped. The exact output is pinned down character by character.

use vstd::prelude::*;
use crate::json::{views_of_fields, views_of_seq, Json, JsonV};
use crate::strings::{append_chars, string_from_chars};

verus! {

/// The escape of one character inside a JSON string: quotes and
/// backslashes are backslash-escaped, the named control characters use
/// their short forms, other control characters use a `\u00..` form, and
/// everything else stands for itself.
pub open spec fn esc_char(c: char) -> Seq<char> {
    if c == '"' {
        seq!['\\', '"']
    } else if c == '\\' {
        seq!['\\', '\\']
    } else if c == '\u{8}' {
        seq!['\\', 'b']
    } else if c == '\u{c}' {
        seq!['\\', 'f']
    } else if c == '\n' {
        seq!['\\', 'n']
    } else if c == '\r' {
        seq!['\\', 'r']
    } else if c == '\t' {
        seq!['\\', 't']
    } else if (c as u32) < 32 {
        seq!['\\', 'u', '0', '0', hex_digit((c as u32) as int / 16), hex_digit((c as u32) as int % 16)]
    } else {
        seq![c]
    }
}

/// The lower-case hexadecimal digit for a value below sixteen.
pub open spec fn hex_digit(n: int) -> char {
    if n == 0 {
        '0'
    } else if n == 1 {
        '1'
    } else if n == 2 {
        '2'
    } else if n == 3 {
        '3'
    } else if n == 4 {
        '4'
    } else if n == 5 {
        '5'
    } else if n == 6 {
        '6'
    } else if n == 7 {
        '7'
    } else if n == 8 {
        '8'
    } else if n == 9 {
        '9'
    } else if n == 10 {
        'a'
    } else if n == 11 {
        'b'
    } else if n == 12 {
        'c'
    } else if n == 13 {
        'd'
    } else if n == 14 {
        'e'
    } else {
        'f'
    }
}

/// A whole string escaped, character by character.
pub open spec fn esc_string(s: Seq<char>) -> Seq<char>
    decreases s.len(),
{
    if s.len() == 0 {
        Seq::empty()
    } else {
        esc_char(s[0]) + esc_string(s.drop_first())
    }
}

/// The pretty form of a document at a given indentation.
pub open spec fn pretty_v(v: JsonV, ind: Seq<char>) -> Seq<char>
    decreases v,
{
    match v {
        JsonV::Null => seq!['n', 'u', 'l', 'l'],
        JsonV::Bool(b) => if b {
            seq!['t', 'r', 'u', 'e']
        } else {
            seq!['f', 'a', 'l', 's', 'e']
        },
        JsonV::Num(s) => s,
        JsonV::Str(s) => seq!['"'] + esc_string(s) + seq!['"'],
        JsonV::Arr(elems) => if elems.len() == 0 {
            seq!['[', ']']
        } else {
            seq!['['] + pretty_items(elems, ind + seq![' ', ' ']) + seq!['\n'] + ind + seq![']']
        },
        JsonV::Obj(fields) => if fields.len() == 0 {
            seq!['{', '}']
        } else {
            seq!['{'] + pretty_fields(fields, ind + seq![' ', ' ']) + seq!['\n'] + ind + seq!['}']
        },
    }
}

/// The items of an array, each on its own indented line, comma-separated.
pub open spec fn pretty_items(elems: Seq<JsonV>, ind: Seq<char>) -> Seq<char>
    decreases elems,
{
    if elems.len() == 0 {
        Seq::empty()
    } else {
        seq!['\n'] + ind + pretty_v(elems[0], ind) + (if elems.len() > 1 {
            seq![',']
        } else {
            Seq::empty()
        }) + pretty_items(elems.drop_first(), ind)
    }
}

/// The members of an object, each on its own indented line, the key
/// quoted and separated from its value by a colon and a space.
pub open spec fn pretty_fields(fields: Seq<(Seq<char>, JsonV)>, ind: Seq<char>) -> Seq<char>
    decreases fields,
{
    if fields.len() == 0 {
        Seq::empty()
    } else {
        seq!['\n'] + ind + seq!['"'] + esc_string(fields[0].0) + seq!['"', ':', ' '] + pretty_v(
            fields[0].1,
            ind,
        ) + (if fields.len() > 1 {
            seq![',']
        } else {
            Seq::empty()
        }) + pretty_fields(fields.drop_first(), ind)
    }
}

/// Appends the escape of one character.
fn write_esc_char(out: &mut Vec<char>, c: char)
    ensures
        final(out)@ == old(out)@ + esc_char(c),
{
    if c == '"' {
        out.push('\\');
        out.push('"');
    } else if c == '\\' {
        out.push('\\');
        out.push('\\');
    } else if c == '\u{8}' {
        out.push('\\');
        out.push('b');
    } else if c == '\u{c}' {
        out.push('\\');
        out.push('f');
    } else if c == '\n' {
        out.push('\\');
        out.push('n');
    } else if c == '\r' {
        out.push('\\');
        out.push('r');
    } else if c == '\t' {
        out.push('\\');
        out.push('t');
    } else if (c as u32) < 32 {
        let code = c as u32;
        out.push('\\');
        out.push('u');
        out.push('0');
        out.push('0');
        out.push(hex_digit_exec(code / 16));
        out.push(hex_digit_exec(code % 16));
    } else {
        out.push(c);
    }
    proof {
        assert(final(out)@ =~= old(out)@ + esc_char(c));
    }
}

/// The lower-case hexadecimal digit for a value below sixteen.
fn hex_digit_exec(n: u32) -> (r: char)
    requires
        n < 16,
    ensures
        r == hex_digit(n as int),
{
    if n == 0 {
        '0'
    } else if n == 1 {
        '1'
    } else if n == 2 {
        '2'
    } else if n == 3 {
        '3'
    } else if n == 4 {
        '4'
    } else if n == 5 {
        '5'
    } else if n == 6 {
        '6'
    } else if n == 7 {
        '7'
    } else if n == 8 {
        '8'
    } else if n == 9 {
        '9'
    } else if n == 10 {
        'a'
    } else if n == 11 {
        'b'
    } else if n == 12 {
        'c'
    } else if n == 13 {
        'd'
    } else if n == 14 {
        'e'
    } else {
        'f'
    }
}

/// Appends a whole escaped string.
#[verifier::loop_isolation(false)]
fn write_esc_string(out: &mut Vec<char>, s: &String)
    ensures
        final(out)@ == old(out)@ + esc_string(s@),
{
    let cs = crate::strings::chars_of(s.as_str());
    let mut i: usize = 0;
    proof {
        assert(out@ =~= old(out)@ + esc_string(cs@.subrange(0, 0)));
    }
    while i < cs.len()
        invariant
            i <= cs@.len(),
            cs@ == s@,
            out@ == old(out)@ + esc_string(cs@.subrange(0, i as int)),
        decreases cs@.len() - i,
    {
        write_esc_char(out, cs[i]);
        proof {
            lemma_esc_string_snoc(cs@.subrange(0, i + 1));
            assert(cs@.subrange(0, i + 1).drop_last() =~= cs@.subrange(0, i as int));
            assert(out@ =~= old(out)@ + esc_string(cs@.subrange(0, i + 1)));
        }
        i += 1;
    }
    proof {
        assert(cs@.subrange(0, cs@.len() as int) =~= cs@);
    }
}

/// Escaping a string splits at its last character.
proof fn lemma_esc_string_snoc(s: Seq<char>)
    requires
        s.len() > 0,
    ensures
        esc_string(s) == esc_string(s.drop_last()) + esc_char(s.last()),
    decreases s.len(),
{
    if s.len() == 1 {
        assert(s.drop_first().len() == 0);
        assert(s.drop_last().len() == 0);
        assert(esc_string(s.drop_first()) == Seq::<char>::empty());
        assert(esc_string(s.drop_last()) == Seq::<char>::empty());
        assert(esc_string(s) == esc_char(s[0]) + esc_string(s.drop_first()));
        assert(s.last() == s[0]);
        assert(esc_string(s) =~= esc_string(s.drop_last()) + esc_char(s.last()));
    } else {
        lemma_esc_string_snoc(s.drop_first());
        assert(s.drop_first().drop_last() =~= s.drop_last().drop_first());
        assert(s.drop_first().last() == s.last());
        assert(s.drop_last()[0] == s[0]);
        assert(s.drop_last().len() > 0);
        assert(esc_string(s) == esc_char(s[0]) + esc_string(s.drop_first()));
        assert(esc_string(s.drop_last()) == esc_char(s.drop_last()[0]) + esc_string(
            s.drop_last().drop_first(),
        ));
        assert(esc_char(s[0]) + (esc_string(s.drop_last().drop_first()) + esc_char(s.last()))
            =~= (esc_char(s[0]) + esc_string(s.drop_last().drop_first())) + esc_char(s.last()));
    }
}

/// Appends the pretty form of a document at the given indentation.
#[verifier::loop_isolation(false)]
#[verifier::rlimit(100)]
fn write_pretty(v: &Json, ind: &Vec<char>, out: &mut Vec<char>)
    ensures
        final(out)@ == old(out)@ + pretty_v(v@, ind@),
    decreases *v,
{
    match v {
        Json::Null => {
            out.push('n');
            out.push('u');
            out.push('l');
            out.push('l');
            proof {
                assert(out@ =~= old(out)@ + pretty_v(v@, ind@));
            }
        }
        Json::Bool(b) => {
            if *b {
                out.push('t');
                out.push('r');
                out.push('u');
                out.push('e');
            } else {
                out.push('f');
                out.push('a');
                out.push('l');
                out.push('s');
                out.push('e');
            }
            proof {
                assert(out@ =~= old(out)@ + pretty_v(v@, ind@));
            }
        }
        Json::Num(s) => {
            let cs = crate::strings::chars_of(s.as_str());
            append_chars(out, &cs);
            proof {
                assert(out@ =~= old(out)@ + pretty_v(v@, ind@));
            }
        }
        Json::Str(s) => {
            out.push('"');
            write_esc_string(out, s);
            out.push('"');
            proof {
                assert(out@ =~= old(out)@ + pretty_v(v@, ind@));
            }
        }
        Json::Arr(elems) => {
            let ghost all = views_of_seq(elems@);
            proof {
                crate::json::lemma_views_of_seq(elems@);
                assert(v@ == JsonV::Arr(all));
            }
            if elems.len() == 0 {
                out.push('[');
                out.push(']');
                proof {
                    assert(out@ =~= old(out)@ + pretty_v(v@, ind@));
                }
            } else {
                let mut inner: Vec<char> = Vec::new();
                append_chars(&mut inner, ind);
                inner.push(' ');
                inner.push(' ');
                proof {
                    assert(inner@ =~= ind@ + seq![' ', ' ']);
                }
                out.push('[');
                let ghost head = out@;
                let mut i: usize = 0;
                proof {
                    assert(all.subrange(0, all.len() as int) =~= all);
                    assert(head + Seq::<char>::empty() =~= head);
                }
                while i < elems.len()
                    invariant
                        i <= elems@.len(),
                        all == views_of_seq(elems@),
                        elems@.len() > 0,
                        inner@ == ind@ + seq![' ', ' '],
                        head + pretty_items(all, inner@) == out@ + pretty_items(
                            all.subrange(i as int, all.len() as int),
                            inner@,
                        ),
                    decreases elems@.len() - i,
                {
                    proof {
                        let tail = all.subrange(i as int, all.len() as int);
                        assert(tail[0] == all[i as int]);
                        assert(tail.drop_first() =~= all.subrange(i + 1, all.len() as int));
                        assert(decreases_to!(*v => (*v)->Arr_0));
                        assert(decreases_to!(*elems => elems@[i as int]));
                    }
                    let ghost prev = out@;
                    out.push('\n');
                    append_chars(out, &inner);
                    write_pretty(&elems[i], &inner, out);
                    if i + 1 < elems.len() {
                        out.push(',');
                        proof {
                            assert(out@ =~= prev + (seq!['\n'] + inner@ + pretty_v(
                                all[i as int],
                                inner@,
                            ) + seq![',']));
                        }
                    } else {
                        proof {
                            assert(out@ =~= prev + (seq!['\n'] + inner@ + pretty_v(
                                all[i as int],
                                inner@,
                            ) + Seq::<char>::empty()));
                        }
                    }
                    proof {
                        assert(prev + (seq!['\n'] + inner@ + pretty_v(all[i as int], inner@) + (
                        if all.subrange(i as int, all.len() as int).len() > 1 {
                            seq![',']
                        } else {
                            Seq::<char>::empty()
                        }) + pretty_items(all.subrange(i + 1, all.len() as int), inner@)) =~= out@
                            + pretty_items(all.subrange(i + 1, all.len() as int), inner@));
                    }
                    i += 1;
                }
                out.push('\n');
                append_chars(out, ind);
                out.push(']');
                proof {
                    assert(all.subrange(all.len() as int, all.len() as int) =~= Seq::<
                        JsonV,
                    >::empty());
                    assert(out@ =~= old(out)@ + pretty_v(v@, ind@));
                }
            }
        }
        Json::Obj(fields) => {
            let ghost all = views_of_fields(fields@);
            proof {
                crate::json::lemma_views_of_fields(fields@);
                assert(v@ == JsonV::Obj(all));
            }
            if fields.len() == 0 {
                out.push('{');
                out.push('}');
                proof {
                    assert(out@ =~= old(out)@ + pretty_v(v@, ind@));
                }
            } else {
                let mut inner: Vec<char> = Vec::new();
                append_chars(&mut inner, ind);
                inner.push(' ');
                inner.push(' ');
                proof {
                    assert(inner@ =~= ind@ + seq![' ', ' ']);
                }
                out.push('{');
                let ghost head = out@;
                let mut i: usize = 0;
                proof {
                    assert(all.subrange(0, all.len() as int) =~= all);
                    assert(head + Seq::<char>::empty() =~= head);
                }
                while i < fields.len()
                    invariant
                        i <= fields@.len(),
                        all == views_of_fields(fields@),
                        fields@.len() > 0,
                        inner@ == ind@ + seq![' ', ' '],
                        head + pretty_fields(all, inner@) == out@ + pretty_fields(
                            all.subrange(i as int, all.len() as int),
                            inner@,
                        ),
                    decreases fields@.len() - i,
                {
                    proof {
                        let tail = all.subrange(i as int, all.len() as int);
                        assert(tail[0] == all[i as int]);
                        assert(tail.drop_first() =~= all.subrange(i + 1, all.len() as int));
                        assert(decreases_to!(*v => (*v)->Obj_0));
                        assert(decreases_to!(*fields => fields@[i as int]));
                        assert(decreases_to!(fields@[i as int] => fields@[i as int].1));
                    }
                    let ghost prev = out@;
                    out.push('\n');
                    append_chars(out, &inner);
                    out.push('"');
                    write_esc_string(out, &fields[i].0);
                    out.push('"');
                    out.push(':');
                    out.push(' ');
                    write_pretty(&fields[i].1, &inner, out);
                    if i + 1 < fields.len() {
                        out.push(',');
                        proof {
                            assert(out@ =~= prev + (seq!['\n'] + inner@ + seq!['"'] + esc_string(
                                all[i as int].0,
                            ) + seq!['"', ':', ' '] + pretty_v(all[i as int].1, inner@) + seq![
                                ',',
                            ]));
                        }
                    } else {
                        proof {
                            assert(out@ =~= prev + (seq!['\n'] + inner@ + seq!['"'] + esc_string(
                                all[i as int].0,
                            ) + seq!['"', ':', ' '] + pretty_v(all[i as int].1, inner@) + Seq::<
                                char,
                            >::empty()));
                        }
                    }
                    proof {
                        assert(prev + (seq!['\n'] + inner@ + seq!['"'] + esc_string(
                            all[i as int].0,
                        ) + seq!['"', ':', ' '] + pretty_v(all[i as int].1, inner@) + (
                        if all.subrange(i as int, all.len() as int).len() > 1 {
                            seq![',']
                        } else {
                            Seq::<char>::empty()
                        }) + pretty_fields(all.subrange(i + 1, all.len() as int), inner@)) =~= out@
                            + pretty_fields(all.subrange(i + 1, all.len() as int), inner@));
                    }
                    i += 1;
                }
                out.push('\n');
                append_chars(out, ind);
                out.push('}');
                proof {
                    assert(all.subrange(all.len() as int, all.len() as int) =~= Seq::<
                        (Seq<char>, JsonV),
                    >::empty());
                    assert(out@ =~= old(out)@ + pretty_v(v@, ind@));
                }
            }
        }
    }
}

/// The pretty form of a whole document, starting at no indentation.
pub fn json_to_pretty_string(v: &Json) -> (r: String)
    ensures
        r@ == pretty_v(v@, Seq::<char>::empty()),
{
    let ind: Vec<char> = Vec::new();
    let mut out: Vec<char> = Vec::new();
    write_pretty(v, &ind, &mut out);
    proof {
        assert(out@ =~= pretty_v(v@, Seq::<char>::empty()));
    }
    string_from_chars(&out)
}

} // verus!
