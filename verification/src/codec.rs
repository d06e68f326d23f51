//! The persisted form of the configuration value.
//!
//! The store file holds a single JSON record `{"typora_path":"<path>"}`
//! and is rewritten in full on every set. `encode_store` produces that
//! record, escaping the path as a JSON string ( `"` and `\` by a
//! backslash escape, control characters as `\u00XX`); `parse_store`
//! reads it back, also accepting the other standard JSON string
//! escapes. Parsing inverts encoding exactly: see
//! `lemma_store_round_trip`.

use vstd::prelude::*;

verus! {

/// The record's text before the value.
pub open spec fn store_prefix() -> Seq<char> {
    "{\"typora_path\":\""@
}

/// The record's text after the value.
pub open spec fn store_suffix() -> Seq<char> {
    "\"}"@
}

/// The hexadecimal digit for `d`, lower case.
pub open spec fn hex_char_of(d: int) -> char {
    if d == 0 {
        '0'
    } else if d == 1 {
        '1'
    } else if d == 2 {
        '2'
    } else if d == 3 {
        '3'
    } else if d == 4 {
        '4'
    } else if d == 5 {
        '5'
    } else if d == 6 {
        '6'
    } else if d == 7 {
        '7'
    } else if d == 8 {
        '8'
    } else if d == 9 {
        '9'
    } else if d == 10 {
        'a'
    } else if d == 11 {
        'b'
    } else if d == 12 {
        'c'
    } else if d == 13 {
        'd'
    } else if d == 14 {
        'e'
    } else {
        'f'
    }
}

/// Whether `c` is a hexadecimal digit (either case).
pub open spec fn is_hex_digit(c: char) -> bool {
    (48 <= c as u32 && c as u32 <= 57) || (97 <= c as u32 && c as u32 <= 102) || (65 <= c as u32
        && c as u32 <= 70)
}

/// The value of the hexadecimal digit `c`.
pub open spec fn hex_val(c: char) -> int {
    if 48 <= c as u32 && c as u32 <= 57 {
        c as int - 48
    } else if 97 <= c as u32 && c as u32 <= 102 {
        c as int - 87
    } else {
        c as int - 55
    }
}

/// How one character of the value is written in the record: `"` and
/// `\` get a backslash escape, control characters become `\u00XX`,
/// everything else stands as it is.
pub open spec fn esc_char(c: char) -> Seq<char> {
    if c == '"' {
        seq!['\\', '"']
    } else if c == '\\' {
        seq!['\\', '\\']
    } else if (c as u32) < 32 {
        seq!['\\', 'u', '0', '0', hex_char_of(c as int / 16), hex_char_of(c as int % 16)]
    } else {
        seq![c]
    }
}

/// The whole value, escaped character by character.
pub open spec fn escape_seq(s: Seq<char>) -> Seq<char>
    decreases s.len(),
{
    if s.len() == 0 {
        Seq::empty()
    } else {
        esc_char(s[0]) + escape_seq(s.drop_first())
    }
}

/// The full record text for the value `p`.
pub open spec fn encode_store_seq(p: Seq<char>) -> Seq<char> {
    store_prefix() + escape_seq(p) + store_suffix()
}

/// The character a one-letter JSON escape stands for, if `c` is one.
pub open spec fn unesc_simple(c: char) -> Option<char> {
    if c == '"' {
        Some('"')
    } else if c == '\\' {
        Some('\\')
    } else if c == '/' {
        Some('/')
    } else if c == 'n' {
        Some('\n')
    } else if c == 't' {
        Some('\t')
    } else if c == 'r' {
        Some('\r')
    } else if c == 'b' {
        Some('\u{8}')
    } else if c == 'f' {
        Some('\u{c}')
    } else {
        None
    }
}

/// Whether `v` is a Unicode scalar value, and so the code of a `char`.
pub open spec fn is_scalar_value(v: int) -> bool {
    (0 <= v && v < 0xD800) || (0xE000 <= v && v <= 0x10FFFF)
}

/// Prepends `a` to a parse result, keeping failure as failure.
pub open spec fn opt_prepend(a: Seq<char>, o: Option<Seq<char>>) -> Option<Seq<char>> {
    match o {
        Some(r) => Some(a + r),
        None => None,
    }
}

/// Reads an escaped JSON string body back: `None` on a lone or unknown
/// escape, a bad `\u` sequence, or a raw `"` or control character.
pub open spec fn unescape_seq(s: Seq<char>) -> Option<Seq<char>>
    decreases s.len(),
{
    if s.len() == 0 {
        Some(Seq::empty())
    } else if s[0] == '\\' {
        if s.len() < 2 {
            None
        } else if unesc_simple(s[1]) is Some {
            opt_prepend(seq![unesc_simple(s[1])->Some_0], unescape_seq(s.skip(2)))
        } else if s[1] == 'u' {
            if s.len() < 6 {
                None
            } else if is_hex_digit(s[2]) && is_hex_digit(s[3]) && is_hex_digit(s[4])
                && is_hex_digit(s[5]) {
                let v = hex_val(s[2]) * 4096 + hex_val(s[3]) * 256 + hex_val(s[4]) * 16 + hex_val(
                    s[5],
                );
                if is_scalar_value(v) {
                    opt_prepend(seq![v as char], unescape_seq(s.skip(6)))
                } else {
                    None
                }
            } else {
                None
            }
        } else {
            None
        }
    } else if s[0] == '"' || (s[0] as u32) < 32 {
        None
    } else {
        opt_prepend(seq![s[0]], unescape_seq(s.skip(1)))
    }
}

/// The value a record text holds: present exactly when the text is the
/// record frame around a well-formed escaped string body.
pub open spec fn parse_store_seq(s: Seq<char>) -> Option<Seq<char>> {
    if s.len() >= 18 && s.subrange(0, 16) == store_prefix() && s.subrange(
        s.len() - 2,
        s.len() as int,
    ) == store_suffix() {
        unescape_seq(s.subrange(16, s.len() - 2))
    } else {
        None
    }
}

/// Relies on String::push: appends exactly one character at the end.
#[verifier::external_body]
fn push_char(s: &mut String, c: char)
    ensures
        final(s)@ == old(s)@.push(c),
{
    s.push(c);
}

/// Relies on char::from_u32: returns the character with code `v` when
/// `v` is a Unicode scalar value, and `None` otherwise.
#[verifier::external_body]
fn char_of_u32(v: u32) -> (r: Option<char>)
    ensures
        match r {
            Some(c) => is_scalar_value(v as int) && c == v as char,
            None => !is_scalar_value(v as int),
        },
{
    char::from_u32(v)
}

/// The hexadecimal digit for `d`, lower case.
fn hex_char(d: u8) -> (c: char)
    requires
        d < 16,
    ensures
        c == hex_char_of(d as int),
{
    if d == 0 {
        '0'
    } else if d == 1 {
        '1'
    } else if d == 2 {
        '2'
    } else if d == 3 {
        '3'
    } else if d == 4 {
        '4'
    } else if d == 5 {
        '5'
    } else if d == 6 {
        '6'
    } else if d == 7 {
        '7'
    } else if d == 8 {
        '8'
    } else if d == 9 {
        '9'
    } else if d == 10 {
        'a'
    } else if d == 11 {
        'b'
    } else if d == 12 {
        'c'
    } else if d == 13 {
        'd'
    } else if d == 14 {
        'e'
    } else {
        'f'
    }
}

/// The value of the hexadecimal digit `c`, or `None`.
fn hex_val_of(c: char) -> (r: Option<u8>)
    ensures
        match r {
            Some(v) => is_hex_digit(c) && v < 16 && v as int == hex_val(c),
            None => !is_hex_digit(c),
        },
{
    let u = c as u32;
    if 48 <= u && u <= 57 {
        Some((u - 48) as u8)
    } else if 97 <= u && u <= 102 {
        Some((u - 87) as u8)
    } else if 65 <= u && u <= 70 {
        Some((u - 55) as u8)
    } else {
        None
    }
}

/// Escaping distributes over concatenation.
proof fn lemma_escape_append(a: Seq<char>, b: Seq<char>)
    ensures
        escape_seq(a + b) == escape_seq(a) + escape_seq(b),
    decreases a.len(),
{
    if a.len() == 0 {
        assert(a + b =~= b);
        assert(escape_seq(a) + escape_seq(b) =~= escape_seq(b));
    } else {
        assert((a + b)[0] == a[0]);
        assert((a + b).drop_first() =~= a.drop_first() + b);
        lemma_escape_append(a.drop_first(), b);
        assert(esc_char(a[0]) + escape_seq(a.drop_first()) + escape_seq(b) =~= esc_char(a[0]) + (
        escape_seq(a.drop_first()) + escape_seq(b)));
    }
}

/// Escaping one more character appends its escape.
proof fn lemma_escape_snoc(s: Seq<char>, i: int)
    requires
        0 <= i < s.len(),
    ensures
        escape_seq(s.subrange(0, i + 1)) == escape_seq(s.subrange(0, i)) + esc_char(s[i]),
{
    let one = seq![s[i]];
    assert(s.subrange(0, i + 1) =~= s.subrange(0, i) + one);
    lemma_escape_append(s.subrange(0, i), one);
    assert(one.drop_first() =~= Seq::<char>::empty());
    assert(escape_seq(one.drop_first()) == Seq::<char>::empty());
    assert(one.len() == 1 && one[0] == s[i]);
    assert(escape_seq(one) == esc_char(s[i]) + Seq::<char>::empty());
    assert(esc_char(s[i]) + Seq::<char>::empty() =~= esc_char(s[i]));
}

/// Writes the record text for the value `path`.
pub fn encode_store(path: &str) -> (r: String)
    ensures
        r@ == encode_store_seq(path@),
{
    let mut out = String::from_str("{\"typora_path\":\"");
    let n = path.unicode_len();
    let mut i: usize = 0;
    proof {
        assert(path@.subrange(0, 0) =~= Seq::<char>::empty());
    }
    while i < n
        invariant
            i <= n,
            n == path@.len(),
            out@ == store_prefix() + escape_seq(path@.subrange(0, i as int)),
        decreases n - i,
    {
        let ghost done = path@.subrange(0, i as int);
        let c = path.get_char(i);
        if c == '"' {
            out.append("\\\"");
            proof {
                reveal_strlit("\\\"");
                assert("\\\""@ =~= esc_char(c));
            }
        } else if c == '\\' {
            out.append("\\\\");
            proof {
                reveal_strlit("\\\\");
                assert("\\\\"@ =~= esc_char(c));
            }
        } else if (c as u32) < 32 {
            let u = c as u32;
            out.append("\\u00");
            push_char(&mut out, hex_char((u / 16) as u8));
            push_char(&mut out, hex_char((u % 16) as u8));
            proof {
                reveal_strlit("\\u00");
                assert(u as int == c as int);
                assert("\\u00"@.push(hex_char_of(c as int / 16)).push(hex_char_of(c as int % 16))
                    =~= esc_char(c));
            }
        } else {
            push_char(&mut out, c);
            proof {
                assert((store_prefix() + escape_seq(done)).push(c) =~= store_prefix() + escape_seq(
                    done,
                ) + esc_char(c));
            }
        }
        proof {
            lemma_escape_snoc(path@, i as int);
            assert(store_prefix() + escape_seq(done) + esc_char(path@[i as int]) =~= store_prefix()
                + escape_seq(path@.subrange(0, i + 1)));
        }
        i = i + 1;
    }
    out.append("\"}");
    proof {
        assert(path@.subrange(0, n as int) =~= path@);
        assert(store_prefix() + escape_seq(path@) + store_suffix() =~= encode_store_seq(path@));
    }
    out
}

/// Reads the record text back; `None` when the text is not a record
/// written by `encode_store` (up to the JSON escapes parsing accepts).
pub fn parse_store(text: &str) -> (r: Option<String>)
    ensures
        r.deep_view() == parse_store_seq(text@),
{
    let n = text.unicode_len();
    if n < 18 {
        return None;
    }
    let pre = "{\"typora_path\":\"";
    proof {
        reveal_strlit("{\"typora_path\":\"");
        assert(pre@ == store_prefix());
        assert(pre@.len() == 16);
    }
    let mut i: usize = 0;
    proof {
        assert(text@.subrange(0, 0) =~= pre@.subrange(0, 0));
    }
    while i < 16
        invariant
            i <= 16,
            n == text@.len(),
            n >= 18,
            pre@ == store_prefix(),
            pre@.len() == 16,
            text@.subrange(0, i as int) == pre@.subrange(0, i as int),
        decreases 16 - i,
    {
        if text.get_char(i) != pre.get_char(i) {
            proof {
                assert(text@.subrange(0, 16)[i as int] == text@[i as int]);
                assert(store_prefix()[i as int] == pre@[i as int]);
                assert(text@.subrange(0, 16) != store_prefix());
            }
            return None;
        }
        proof {
            assert(text@.subrange(0, i + 1) =~= text@.subrange(0, i as int).push(text@[i as int]));
            assert(pre@.subrange(0, i + 1) =~= pre@.subrange(0, i as int).push(pre@[i as int]));
        }
        i = i + 1;
    }
    proof {
        assert(pre@.subrange(0, 16) =~= pre@);
        assert(text@.subrange(0, 16) == store_prefix());
    }
    if text.get_char(n - 2) != '"' || text.get_char(n - 1) != '}' {
        proof {
            reveal_strlit("\"}");
            assert(text@.subrange(n - 2, n as int)[0] == text@[n - 2]);
            assert(text@.subrange(n - 2, n as int)[1] == text@[n - 1]);
            assert(text@.subrange(n - 2, n as int) != store_suffix());
        }
        return None;
    }
    proof {
        reveal_strlit("\"}");
        assert(text@.subrange(n - 2, n as int) =~= store_suffix());
    }
    let m = n - 2;
    let ghost mid = text@.subrange(16, m as int);
    let mut out = String::new();
    let mut i: usize = 16;
    proof {
        assert(text@.subrange(16, m as int) =~= mid);
        assert(opt_prepend(out@, unescape_seq(mid)) == unescape_seq(mid));
        if unescape_seq(mid) is Some {
            assert(Seq::<char>::empty() + unescape_seq(mid)->Some_0 =~= unescape_seq(
                mid,
            )->Some_0);
        }
    }
    while i < m
        invariant
            16 <= i <= m,
            m == n - 2,
            n == text@.len(),
            n >= 18,
            mid == text@.subrange(16, m as int),
            text@.subrange(0, 16) == store_prefix(),
            text@.subrange(n - 2, n as int) == store_suffix(),
            unescape_seq(mid) == opt_prepend(out@, unescape_seq(text@.subrange(i as int, m as int))),
        decreases m - i,
    {
        let ghost rem = text@.subrange(i as int, m as int);
        proof {
            assert(rem.len() == m - i);
            assert(rem[0] == text@[i as int]);
        }
        let c = text.get_char(i);
        if c == '\\' {
            if i + 1 >= m {
                proof {
                    assert(rem.len() == 1);
                    assert(unescape_seq(rem) is None);
                }
                return None;
            }
            proof {
                assert(rem[1] == text@[i + 1]);
            }
            let e = text.get_char(i + 1);
            let simple: Option<char> = if e == '"' {
                Some('"')
            } else if e == '\\' {
                Some('\\')
            } else if e == '/' {
                Some('/')
            } else if e == 'n' {
                Some('\n')
            } else if e == 't' {
                Some('\t')
            } else if e == 'r' {
                Some('\r')
            } else if e == 'b' {
                Some('\u{8}')
            } else if e == 'f' {
                Some('\u{c}')
            } else {
                None
            };
            proof {
                assert(simple == unesc_simple(e));
            }
            match simple {
                Some(d) => {
                    let ghost out0 = out@;
                    push_char(&mut out, d);
                    proof {
                        assert(rem.skip(2) =~= text@.subrange(i + 2, m as int));
                        assert(unescape_seq(rem) == opt_prepend(
                            seq![d],
                            unescape_seq(rem.skip(2)),
                        ));
                        lemma_opt_prepend_nest(out0, seq![d], unescape_seq(rem.skip(2)));
                        assert(out0 + seq![d] =~= out0.push(d));
                    }
                    i = i + 2;
                },
                None => {
                    if e == 'u' {
                        if m - i < 6 {
                            proof {
                                assert(rem.len() < 6);
                                assert(unescape_seq(rem) is None);
                            }
                            return None;
                        }
                        proof {
                            assert(rem[2] == text@[i + 2]);
                            assert(rem[3] == text@[i + 3]);
                            assert(rem[4] == text@[i + 4]);
                            assert(rem[5] == text@[i + 5]);
                        }
                        let h1 = hex_val_of(text.get_char(i + 2));
                        let h2 = hex_val_of(text.get_char(i + 3));
                        let h3 = hex_val_of(text.get_char(i + 4));
                        let h4 = hex_val_of(text.get_char(i + 5));
                        match (h1, h2, h3, h4) {
                            (Some(d1), Some(d2), Some(d3), Some(d4)) => {
                                let v: u32 = (d1 as u32) * 4096 + (d2 as u32) * 256 + (d3
                                    as u32) * 16 + (d4 as u32);
                                let ghost sv = hex_val(rem[2]) * 4096 + hex_val(rem[3]) * 256
                                    + hex_val(rem[4]) * 16 + hex_val(rem[5]);
                                proof {
                                    assert(v as int == sv);
                                }
                                match char_of_u32(v) {
                                    Some(d) => {
                                        let ghost out0 = out@;
                                        push_char(&mut out, d);
                                        proof {
                                            assert(rem.skip(6) =~= text@.subrange(
                                                i + 6,
                                                m as int,
                                            ));
                                            assert(unescape_seq(rem) == opt_prepend(
                                                seq![d],
                                                unescape_seq(rem.skip(6)),
                                            ));
                                            lemma_opt_prepend_nest(
                                                out0,
                                                seq![d],
                                                unescape_seq(rem.skip(6)),
                                            );
                                            assert(out0 + seq![d] =~= out0.push(d));
                                        }
                                        i = i + 6;
                                    },
                                    None => {
                                        proof {
                                            assert(unescape_seq(rem) is None);
                                        }
                                        return None;
                                    },
                                }
                            },
                            _ => {
                                proof {
                                    assert(unescape_seq(rem) is None);
                                }
                                return None;
                            },
                        }
                    } else {
                        proof {
                            assert(unescape_seq(rem) is None);
                        }
                        return None;
                    }
                },
            }
        } else if c == '"' {
            proof {
                assert(unescape_seq(rem) is None);
            }
            return None;
        } else {
            let u = c as u32;
            if u < 32 {
                proof {
                    assert(unescape_seq(rem) is None);
                }
                return None;
            }
            let ghost out0 = out@;
            push_char(&mut out, c);
            proof {
                assert(rem.skip(1) =~= text@.subrange(i + 1, m as int));
                assert(unescape_seq(rem) == opt_prepend(seq![c], unescape_seq(rem.skip(1))));
                lemma_opt_prepend_nest(out0, seq![c], unescape_seq(rem.skip(1)));
                assert(out0 + seq![c] =~= out0.push(c));
            }
            i = i + 1;
        }
    }
    proof {
        assert(text@.subrange(m as int, m as int) =~= Seq::<char>::empty());
        assert(unescape_seq(text@.subrange(m as int, m as int)) == Some(Seq::<char>::empty()));
        assert(out@ + Seq::<char>::empty() =~= out@);
        assert(unescape_seq(mid) == Some(out@));
    }
    Some(out)
}

/// Prepending twice is prepending the concatenation.
proof fn lemma_opt_prepend_nest(a: Seq<char>, b: Seq<char>, o: Option<Seq<char>>)
    ensures
        opt_prepend(a, opt_prepend(b, o)) == opt_prepend(a + b, o),
{
    match o {
        Some(r) => {
            assert(a + (b + r) =~= (a + b) + r);
        },
        None => {},
    }
}

/// A character's code read as `int` and as `u32` is the same value,
/// and casting it back yields the character.
proof fn lemma_char_cast(c: char)
    ensures
        c as int == c as u32 as int,
        0 <= c as int <= 0x10FFFF,
        (c as int) as char == c,
{
}

/// Each hexadecimal digit written by the encoder reads back as itself.
proof fn lemma_hex_char_of(d: int)
    requires
        0 <= d < 16,
    ensures
        is_hex_digit(hex_char_of(d)),
        hex_val(hex_char_of(d)) == d,
{
}

/// Unescaping inverts escaping: every string's escaped form parses
/// back to exactly that string.
proof fn lemma_unescape_escape(p: Seq<char>)
    ensures
        unescape_seq(escape_seq(p)) == Some(p),
    decreases p.len(),
{
    if p.len() == 0 {
    } else {
        let c = p[0];
        let rest = p.drop_first();
        lemma_unescape_escape(rest);
        let e = esc_char(c);
        let s = escape_seq(p);
        assert(s == e + escape_seq(rest));
        if c == '"' || c == '\\' {
            assert(s[0] == '\\');
            assert(s[1] == c);
            assert(unesc_simple(c) == Some(c));
            assert(s.skip(2) =~= escape_seq(rest));
            assert(unescape_seq(s) == opt_prepend(seq![c], Some(rest)));
            assert(seq![c] + rest =~= p);
        } else if (c as u32) < 32 {
            let v = c as int;
            lemma_char_cast(c);
            assert(0 <= v < 32);
            lemma_hex_char_of(v / 16);
            lemma_hex_char_of(v % 16);
            assert(s[0] == '\\');
            assert(s[1] == 'u');
            assert(s[2] == '0');
            assert(s[3] == '0');
            assert(s[4] == hex_char_of(v / 16));
            assert(s[5] == hex_char_of(v % 16));
            assert(unesc_simple('u') is None);
            assert(hex_val('0') == 0);
            assert(hex_val(s[2]) * 4096 + hex_val(s[3]) * 256 + hex_val(s[4]) * 16 + hex_val(s[5])
                == v);
            assert(is_scalar_value(v));
            assert(v as char == c);
            assert(s.skip(6) =~= escape_seq(rest));
            assert(unescape_seq(s) == opt_prepend(seq![c], Some(rest)));
            assert(seq![c] + rest =~= p);
        } else {
            assert(s[0] == c);
            assert(s.skip(1) =~= escape_seq(rest));
            assert(unescape_seq(s) == opt_prepend(seq![c], Some(rest)));
            assert(seq![c] + rest =~= p);
        }
    }
}

/// Round trip: for every value `p`, the record written for `p` parses
/// back to exactly `p`.
pub proof fn lemma_store_round_trip(p: Seq<char>)
    ensures
        parse_store_seq(encode_store_seq(p)) == Some(p),
{
    let s = encode_store_seq(p);
    reveal_strlit("{\"typora_path\":\"");
    reveal_strlit("\"}");
    assert(store_prefix().len() == 16);
    assert(store_suffix().len() == 2);
    assert(s.len() == 18 + escape_seq(p).len());
    assert(s.subrange(0, 16) =~= store_prefix());
    assert(s.subrange(s.len() - 2, s.len() as int) =~= store_suffix());
    assert(s.subrange(16, s.len() - 2) =~= escape_seq(p));
    lemma_unescape_escape(p);
}

} // verus!
