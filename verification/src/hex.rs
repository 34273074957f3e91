use vstd::prelude::*;

verus! {

/// Lower-case hexadecimal digits, indexed by value.
pub open spec fn hex_digits() -> Seq<char> {
    seq!['0', '1', '2', '3', '4', '5', '6', '7', '8', '9', 'a', 'b', 'c', 'd', 'e', 'f']
}

/// A byte as two lower-case hexadecimal digits, high nibble first
/// (the `{:02x}` rendering).
pub open spec fn byte_hex(b: u8) -> Seq<char> {
    seq![hex_digits()[(b >> 4u8) as int], hex_digits()[(b & 0x0fu8) as int]]
}

/// Bytes rendered as two-digit lower-case hex, separated by single spaces,
/// e.g. `[0xd2, 0x03]` becomes `"d2 03"`.
pub open spec fn hex_spaced(bytes: Seq<u8>) -> Seq<char>
    decreases bytes.len(),
{
    if bytes.len() == 0 {
        seq![]
    } else if bytes.len() == 1 {
        byte_hex(bytes[0])
    } else {
        hex_spaced(bytes.drop_last()) + seq![' '] + byte_hex(bytes.last())
    }
}

/// The one-character string for a nibble.
fn nibble_str(n: u8) -> (s: &'static str)
    requires
        n < 16,
    ensures
        s@ == seq![hex_digits()[n as int]],
{
    let digits = "0123456789abcdef";
    proof {
        reveal_strlit("0123456789abcdef");
        assert(digits@ =~= hex_digits());
    }
    digits.substring_ascii(n as usize, n as usize + 1)
}

/// Renders bytes as space-separated two-digit lower-case hex.
pub fn bytes_to_hex(bytes: &[u8]) -> (hex: String)
    ensures
        hex@ == hex_spaced(bytes@),
{
    let mut hex = String::new();
    let n: usize = bytes.len();
    for i in 0..n
        invariant
            n == bytes@.len(),
            hex@ == hex_spaced(bytes@.take(i as int)),
    {
        if i > 0 {
            proof {
                reveal_strlit(" ");
            }
            hex.append(" ");
        }
        let b: u8 = bytes[i];
        assert(b >> 4u8 < 16 && b & 0x0fu8 < 16) by (bit_vector);
        hex.append(nibble_str(b >> 4));
        hex.append(nibble_str(b & 0x0f));
        assert(bytes@.take(i + 1).drop_last() =~= bytes@.take(i as int));
        assert(hex_spaced(bytes@.take(i + 1)) =~= hex@);
    }
    assert(bytes@.take(n as int) =~= bytes@);
    hex
}

/// The digit for value `n` is the ASCII character `'0' + n` below ten and
/// `'a' + n - 10` from ten on: lower-case hexadecimal, as `{:02x}` writes it.
pub proof fn lemma_hex_digits_ascii(n: int)
    requires
        0 <= n < 16,
    ensures
        hex_digits()[n] as u32 == (if n < 10 {
            48 + n
        } else {
            87 + n
        }),
{
}

/// A character has a hexadecimal value exactly when it is an ASCII digit or
/// a letter `a`-`f` in either case, and the value is the digit's own number
/// (`'0'` is 0, ..., `'9'` is 9, `'a'`/`'A'` is 10, ..., `'f'`/`'F'` is 15).
pub proof fn lemma_hex_value_ascii(c: char)
    ensures
        hex_value(c) is Some <==> (48 <= c as u32 <= 57 || 97 <= c as u32 <= 102 || 65
            <= c as u32 <= 70),
        hex_value(c) matches Some(d) ==> {
            ||| d < 10 && c as u32 == 48 + d
            ||| 10 <= d < 16 && (c as u32 == 87 + d || c as u32 == 55 + d)
        },
{
}

proof fn lemma_nibbles(b: u8)
    ensures
        b >> 4u8 < 16,
        b & 0x0fu8 < 16,
{
    assert(b >> 4u8 < 16 && b & 0x0fu8 < 16) by (bit_vector);
}

/// Layout of the rendering of `n` bytes: byte `i` occupies characters `3i`
/// and `3i + 1`, written as the ASCII codes of its high and low nibbles in
/// lower-case hexadecimal, and character `3i + 2` is a space between it and
/// the next byte.
pub proof fn lemma_hex_spaced_layout(bytes: Seq<u8>)
    ensures
        forall|i: int|
            0 <= i < bytes.len() ==> {
                &&& hex_spaced(bytes)[3 * i] as u32 == (if (#[trigger] bytes[i] >> 4u8) < 10 {
                    48 + (bytes[i] >> 4u8)
                } else {
                    87 + (bytes[i] >> 4u8)
                })
                &&& hex_spaced(bytes)[3 * i + 1] as u32 == (if (bytes[i] & 0x0fu8) < 10 {
                    48 + (bytes[i] & 0x0fu8)
                } else {
                    87 + (bytes[i] & 0x0fu8)
                })
                &&& i + 1 < bytes.len() ==> hex_spaced(bytes)[3 * i + 2] == ' '
            },
    decreases bytes.len(),
{
    lemma_hex_spaced_len(bytes);
    let s = hex_spaced(bytes);
    if bytes.len() == 1 {
        lemma_nibbles(bytes[0]);
        lemma_hex_digits_ascii((bytes[0] >> 4u8) as int);
        lemma_hex_digits_ascii((bytes[0] & 0x0fu8) as int);
    } else if bytes.len() > 1 {
        let init = bytes.drop_last();
        let last = bytes.last();
        lemma_hex_spaced_layout(init);
        lemma_hex_spaced_len(init);
        let m = hex_spaced(init).len();
        lemma_nibbles(last);
        lemma_hex_digits_ascii((last >> 4u8) as int);
        lemma_hex_digits_ascii((last & 0x0fu8) as int);
        assert forall|i: int| 0 <= i < bytes.len() implies {
            &&& s[3 * i] as u32 == (if (#[trigger] bytes[i] >> 4u8) < 10 {
                48 + (bytes[i] >> 4u8)
            } else {
                87 + (bytes[i] >> 4u8)
            })
            &&& s[3 * i + 1] as u32 == (if (bytes[i] & 0x0fu8) < 10 {
                48 + (bytes[i] & 0x0fu8)
            } else {
                87 + (bytes[i] & 0x0fu8)
            })
            &&& i + 1 < bytes.len() ==> s[3 * i + 2] == ' '
        } by {
            if i < bytes.len() - 1 {
                assert(bytes[i] == init[i]);
                assert(s[3 * i] == hex_spaced(init)[3 * i]);
                assert(s[3 * i + 1] == hex_spaced(init)[3 * i + 1]);
                if i + 2 < bytes.len() {
                    assert(s[3 * i + 2] == hex_spaced(init)[3 * i + 2]);
                } else {
                    assert(3 * i + 2 == m);
                }
            } else {
                assert(bytes[i] == last);
                assert(3 * i == m + 1);
            }
        }
    }
}

/// The rendering of `n` bytes is `3n - 1` characters long (empty for no bytes).
pub proof fn lemma_hex_spaced_len(bytes: Seq<u8>)
    ensures
        bytes.len() == 0 ==> hex_spaced(bytes).len() == 0,
        bytes.len() > 0 ==> hex_spaced(bytes).len() == 3 * bytes.len() - 1,
    decreases bytes.len(),
{
    if bytes.len() > 1 {
        lemma_hex_spaced_len(bytes.drop_last());
    }
}

proof fn lemma_byte_hex_injective(a: u8, b: u8)
    requires
        byte_hex(a) == byte_hex(b),
    ensures
        a == b,
{
    let ha = a >> 4u8;
    let la = a & 0x0fu8;
    let hb = b >> 4u8;
    let lb = b & 0x0fu8;
    assert(a >> 4u8 < 16 && a & 0x0fu8 < 16 && b >> 4u8 < 16 && b & 0x0fu8 < 16) by (bit_vector);
    assert(byte_hex(a)[0] == byte_hex(b)[0]);
    assert(byte_hex(a)[1] == byte_hex(b)[1]);
    assert(ha == hb);
    assert(la == lb);
    assert(a == b) by (bit_vector)
        requires
            a >> 4u8 == b >> 4u8,
            a & 0x0fu8 == b & 0x0fu8,
    ;
}

/// Value of one hexadecimal digit, in either case.
pub open spec fn hex_value(c: char) -> Option<u8> {
    if '0' <= c <= '9' {
        Some(((c as u32) - ('0' as u32)) as u8)
    } else if 'a' <= c <= 'f' {
        Some(((c as u32) - ('a' as u32) + 10) as u8)
    } else if 'A' <= c <= 'F' {
        Some(((c as u32) - ('A' as u32) + 10) as u8)
    } else {
        None
    }
}

/// The byte written by two hexadecimal digits, high digit first.
pub open spec fn parse_byte(hi: char, lo: char) -> Option<u8> {
    match (hex_value(hi), hex_value(lo)) {
        (Some(h), Some(l)) => Some((h * 16 + l) as u8),
        _ => None,
    }
}

/// Reads text made of two-digit hexadecimal groups separated by single
/// spaces back into bytes; `None` when the text is not of that form.
pub open spec fn parse_hex_spaced(s: Seq<char>) -> Option<Seq<u8>>
    decreases s.len(),
{
    if s.len() == 0 {
        Some(seq![])
    } else if s.len() == 2 {
        match parse_byte(s[0], s[1]) {
            Some(b) => Some(seq![b]),
            None => None,
        }
    } else if s.len() >= 5 && s[s.len() - 3] == ' ' {
        match (parse_hex_spaced(s.take(s.len() - 3)), parse_byte(s[s.len() - 2], s[s.len() - 1])) {
            (Some(bs), Some(b)) => Some(bs.push(b)),
            _ => None,
        }
    } else {
        None
    }
}

proof fn lemma_join_nibbles(h: u8, l: u8)
    requires
        h < 16,
        l < 16,
    ensures
        ((h * 16 + l) as u8) >> 4u8 == h,
        ((h * 16 + l) as u8) & 0x0fu8 == l,
{
    assert(((h * 16 + l) as u8) >> 4u8 == h && ((h * 16 + l) as u8) & 0x0fu8 == l) by (bit_vector)
        requires
            h < 16,
            l < 16,
    ;
}

/// Only well-formed text is read: when text parses to `n` bytes it is
/// `3n - 1` characters long (empty for none), characters `3i` and `3i + 1`
/// are hexadecimal digits whose values are the high and low nibbles of byte
/// `i`, and character `3i + 2` is a space before the next byte.
pub proof fn lemma_parse_hex_spaced_sound(s: Seq<char>)
    ensures
        parse_hex_spaced(s) matches Some(b) ==> {
            &&& b.len() == 0 ==> s.len() == 0
            &&& b.len() > 0 ==> s.len() == 3 * b.len() - 1
            &&& forall|i: int|
                0 <= i < b.len() ==> {
                    &&& hex_value(s[3 * i]) == Some(#[trigger] b[i] >> 4u8)
                    &&& hex_value(s[3 * i + 1]) == Some(b[i] & 0x0fu8)
                    &&& i + 1 < b.len() ==> s[3 * i + 2] == ' '
                }
        },
    decreases s.len(),
{
    if s.len() == 2 {
        if let Some(h) = hex_value(s[0]) {
            if let Some(l) = hex_value(s[1]) {
                lemma_hex_value_ascii(s[0]);
                lemma_hex_value_ascii(s[1]);
                lemma_join_nibbles(h, l);
            }
        }
    } else if s.len() >= 5 && s[s.len() - 3] == ' ' {
        let t = s.take(s.len() - 3);
        lemma_parse_hex_spaced_sound(t);
        let n = s.len();
        if let Some(bs) = parse_hex_spaced(t) {
            if let Some(h) = hex_value(s[n - 2]) {
                if let Some(l) = hex_value(s[n - 1]) {
                    lemma_hex_value_ascii(s[n - 2]);
                    lemma_hex_value_ascii(s[n - 1]);
                    lemma_join_nibbles(h, l);
                    let b = bs.push((h * 16 + l) as u8);
                    lemma_parse_hex_spaced_len(t);
                    assert(t.len() > 0);
                    assert(bs.len() > 0);
                    assert forall|i: int| 0 <= i < b.len() implies {
                        &&& hex_value(s[3 * i]) == Some(#[trigger] b[i] >> 4u8)
                        &&& hex_value(s[3 * i + 1]) == Some(b[i] & 0x0fu8)
                        &&& i + 1 < b.len() ==> s[3 * i + 2] == ' '
                    } by {
                        if i < bs.len() {
                            assert(b[i] == bs[i]);
                            assert(s[3 * i] == t[3 * i]);
                            assert(s[3 * i + 1] == t[3 * i + 1]);
                            if i + 1 < bs.len() {
                                assert(s[3 * i + 2] == t[3 * i + 2]);
                            }
                        }
                    }
                }
            }
        }
    }
}

/// Text that parses is empty or two characters longer than a multiple of three.
proof fn lemma_parse_hex_spaced_len(s: Seq<char>)
    requires
        parse_hex_spaced(s) is Some,
    ensures
        s.len() == 0 || s.len() % 3 == 2,
    decreases s.len(),
{
    if s.len() >= 5 {
        lemma_parse_hex_spaced_len(s.take(s.len() - 3));
    }
}

/// Every group-aligned prefix of text that parses parses too.
proof fn lemma_parse_hex_spaced_prefix(s: Seq<char>, m: int)
    requires
        parse_hex_spaced(s) is Some,
        2 <= m <= s.len(),
        m % 3 == 2,
    ensures
        parse_hex_spaced(s.take(m)) is Some,
    decreases s.len(),
{
    if m < s.len() {
        lemma_parse_hex_spaced_len(s);
        let t = s.take(s.len() - 3);
        assert(t.take(m) =~= s.take(m));
        if m == t.len() {
            assert(t =~= s.take(m));
        } else {
            lemma_parse_hex_spaced_prefix(t, m);
        }
    } else {
        assert(s.take(m) =~= s);
    }
}

fn hex_digit_value(c: char) -> (v: Option<u8>)
    ensures
        v == hex_value(c),
        v matches Some(d) ==> d < 16,
{
    if '0' <= c && c <= '9' {
        Some((c as u8) - 48)
    } else if 'a' <= c && c <= 'f' {
        Some((c as u8) - 87)
    } else if 'A' <= c && c <= 'F' {
        Some((c as u8) - 55)
    } else {
        None
    }
}

/// Reads text of two-digit hexadecimal groups (either case) separated by
/// single spaces, as `bytes_to_hex` writes it, back into bytes; `None` when
/// the text is not of that form.
pub fn hex_to_bytes(hex: &str) -> (bytes: Option<Vec<u8>>)
    ensures
        match bytes {
            Some(v) => parse_hex_spaced(hex@) == Some(v@),
            None => parse_hex_spaced(hex@) is None,
        },
{
    let n: usize = hex.unicode_len();
    if n == 0 {
        let empty: Vec<u8> = Vec::new();
        assert(empty@ =~= Seq::<u8>::empty());
        return Some(empty);
    }
    if n % 3 != 2 {
        proof {
            if parse_hex_spaced(hex@) is Some {
                lemma_parse_hex_spaced_len(hex@);
            }
        }
        return None;
    }
    let groups: usize = n / 3 + 1;
    let mut out: Vec<u8> = Vec::new();
    let mut k: usize = 0;
    while k < groups
        invariant
            n == hex@.len(),
            n % 3 == 2,
            groups == n / 3 + 1,
            k <= groups,
            out@.len() == k,
            k > 0 ==> parse_hex_spaced(hex@.take(3 * k - 1)) == Some(out@),
        decreases groups - k,
    {
        let ghost s = hex@;
        let ghost p = s.take(3 * k + 2);
        assert(p.len() == 3 * k + 2);
        if k > 0 {
            if hex.get_char(3 * k - 1) != ' ' {
                proof {
                    assert(p[p.len() - 3] == s[3 * k - 1]);
                    assert(parse_hex_spaced(p) is None);
                    if parse_hex_spaced(s) is Some {
                        lemma_parse_hex_spaced_prefix(s, 3 * k + 2);
                    }
                }
                return None;
            }
        }
        let hi = hex_digit_value(hex.get_char(3 * k));
        let lo = hex_digit_value(hex.get_char(3 * k + 1));
        proof {
            assert(p[p.len() - 2] == s[3 * k as int]);
            assert(p[p.len() - 1] == s[3 * k + 1]);
            if k > 0 {
                assert(p.take(p.len() - 3) =~= s.take(3 * k - 1));
            }
        }
        match (hi, lo) {
            (Some(h), Some(l)) => {
                out.push(h * 16 + l);
                assert(parse_hex_spaced(p) == Some(out@)) by {
                    if k == 0 {
                        assert(out@ =~= seq![(h * 16 + l) as u8]);
                    }
                }
            },
            _ => {
                proof {
                    assert(parse_hex_spaced(p) is None);
                    if parse_hex_spaced(s) is Some {
                        lemma_parse_hex_spaced_prefix(s, 3 * k + 2);
                    }
                }
                return None;
            },
        }
        k = k + 1;
    }
    assert(hex@.take(3 * k - 1) =~= hex@);
    Some(out)
}

proof fn lemma_hex_value_of_digit(n: u8)
    requires
        n < 16,
    ensures
        hex_value(hex_digits()[n as int]) == Some(n),
{
    if n == 0 {
    } else if n == 1 {
    } else if n == 2 {
    } else if n == 3 {
    } else if n == 4 {
    } else if n == 5 {
    } else if n == 6 {
    } else if n == 7 {
    } else if n == 8 {
    } else if n == 9 {
    } else if n == 10 {
    } else if n == 11 {
    } else if n == 12 {
    } else if n == 13 {
    } else if n == 14 {
    } else {
    }
}

proof fn lemma_parse_byte_hex(b: u8)
    ensures
        parse_byte(byte_hex(b)[0], byte_hex(b)[1]) == Some(b),
{
    assert(b >> 4u8 < 16 && b & 0x0fu8 < 16) by (bit_vector);
    lemma_hex_value_of_digit(b >> 4u8);
    lemma_hex_value_of_digit(b & 0x0fu8);
    assert(((b >> 4u8) * 16 + (b & 0x0fu8)) as u8 == b) by (bit_vector);
}

/// The hex rendering can be read back: parsing the rendering of any bytes
/// gives those bytes again.
pub proof fn lemma_hex_spaced_parse_back(bytes: Seq<u8>)
    ensures
        parse_hex_spaced(hex_spaced(bytes)) == Some(bytes),
    decreases bytes.len(),
{
    lemma_hex_spaced_len(bytes);
    if bytes.len() == 1 {
        lemma_parse_byte_hex(bytes[0]);
        assert(seq![bytes[0]] =~= bytes);
    } else if bytes.len() > 1 {
        let s = hex_spaced(bytes);
        let n = s.len();
        let prefix = bytes.drop_last();
        lemma_hex_spaced_len(prefix);
        lemma_hex_spaced_parse_back(prefix);
        assert(s.take(n - 3) =~= hex_spaced(prefix));
        assert(s[n - 3] == ' ');
        assert(s[n - 2] == byte_hex(bytes.last())[0]);
        assert(s[n - 1] == byte_hex(bytes.last())[1]);
        lemma_parse_byte_hex(bytes.last());
        assert(prefix.push(bytes.last()) =~= bytes);
    }
}

/// The hex rendering loses nothing: different byte strings never render to
/// the same text.
pub proof fn lemma_hex_spaced_injective(a: Seq<u8>, b: Seq<u8>)
    requires
        hex_spaced(a) == hex_spaced(b),
    ensures
        a == b,
    decreases a.len(),
{
    lemma_hex_spaced_len(a);
    lemma_hex_spaced_len(b);
    if a.len() == 0 || b.len() == 0 {
        assert(a.len() == b.len());
        assert(a =~= b);
    } else {
        assert(a.len() == b.len());
        let n = hex_spaced(a).len();
        if a.len() == 1 {
            lemma_byte_hex_injective(a[0], b[0]);
            assert(a =~= b);
        } else {
            let ha = hex_spaced(a);
            let hb = hex_spaced(b);
            assert(ha.subrange(n - 2, n as int) =~= byte_hex(a.last()));
            assert(hb.subrange(n - 2, n as int) =~= byte_hex(b.last()));
            lemma_byte_hex_injective(a.last(), b.last());
            lemma_hex_spaced_len(a.drop_last());
            assert(ha.subrange(0, n - 3) =~= hex_spaced(a.drop_last()));
            assert(hb.subrange(0, n - 3) =~= hex_spaced(b.drop_last()));
            lemma_hex_spaced_injective(a.drop_last(), b.drop_last());
            assert(a =~= a.drop_last().push(a.last()));
            assert(b =~= b.drop_last().push(b.last()));
        }
    }
}

} // verus!
