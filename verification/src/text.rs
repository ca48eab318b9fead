//! Text: white space, decimal and hexadecimal digits.
use vstd::prelude::*;

verus! {

/// Characters with the Unicode property `White_Space`.
pub open spec fn is_white_space(c: char) -> bool {
    let u = c as int;
    ||| 0x9 <= u <= 0xd
    ||| u == 0x20
    ||| u == 0x85
    ||| u == 0xa0
    ||| u == 0x1680
    ||| 0x2000 <= u <= 0x200a
    ||| u == 0x2028
    ||| u == 0x2029
    ||| u == 0x202f
    ||| u == 0x205f
    ||| u == 0x3000
}

/// `s` without the white space that it starts with.
pub open spec fn trim_start(s: Seq<char>) -> Seq<char>
    decreases s.len(),
{
    if s.len() > 0 && is_white_space(s[0]) {
        trim_start(s.drop_first())
    } else {
        s
    }
}

/// `s` without the white space that it ends with.
pub open spec fn trim_end(s: Seq<char>) -> Seq<char>
    decreases s.len(),
{
    if s.len() > 0 && is_white_space(s.last()) {
        trim_end(s.drop_last())
    } else {
        s
    }
}

/// `s` without the white space at its two ends.
pub open spec fn trimmed(s: Seq<char>) -> Seq<char> {
    trim_end(trim_start(s))
}

/// The number of bytes of `s` in UTF-8.
pub open spec fn byte_len(s: Seq<char>) -> nat {
    vstd::utf8::encode_utf8(s).len()
}

/// The decimal digit `d`.
pub open spec fn digit(d: int) -> char {
    (0x30 + d) as char
}

/// `n` in decimal, without leading zeros.
pub open spec fn decimal(n: nat) -> Seq<char>
    decreases n,
{
    if n < 10 {
        seq![digit(n as int)]
    } else {
        decimal(n / 10).push(digit((n % 10) as int))
    }
}

/// `i` in decimal, with a minus sign where it is negative.
pub open spec fn signed_decimal(i: int) -> Seq<char> {
    if i < 0 {
        seq!['-'] + decimal((-i) as nat)
    } else {
        decimal(i as nat)
    }
}

/// The lower-case hexadecimal digit `d`.
pub open spec fn hex_digit(d: int) -> char {
    if d < 10 {
        digit(d)
    } else {
        (0x61 + (d - 10)) as char
    }
}

/// Two lower-case hexadecimal digits per byte, the high one first.
pub open spec fn lower_hex(bytes: Seq<u8>) -> Seq<char> {
    Seq::new(
        2 * bytes.len(),
        |i: int|
            if i % 2 == 0 {
                hex_digit(bytes[i / 2] as int / 16)
            } else {
                hex_digit(bytes[i / 2] as int % 16)
            },
    )
}

/// A hexadecimal digit in either case.
pub open spec fn is_hex_digit(c: char) -> bool {
    ||| '0' <= c <= '9'
    ||| 'a' <= c <= 'f'
    ||| 'A' <= c <= 'F'
}

/// Lower-case hexadecimal text holds nothing but hexadecimal digits.
pub proof fn law_lower_hex_digits(bytes: Seq<u8>)
    ensures
        lower_hex(bytes).len() == 2 * bytes.len(),
        forall|i: int| 0 <= i < lower_hex(bytes).len() ==> is_hex_digit(#[trigger] lower_hex(bytes)[i]),
{
}

/// Trimmed text neither starts nor ends with white space.
pub proof fn law_trimmed_ends(s: Seq<char>)
    ensures
        trimmed(s).len() > 0 ==> !is_white_space(trimmed(s)[0]) && !is_white_space(
            trimmed(s).last(),
        ),
{
    lemma_trim_start_shape(s);
    lemma_trim_end_shape(trim_start(s));
}

/// Trimming text that was trimmed changes nothing.
pub proof fn law_trimmed_twice(s: Seq<char>)
    ensures
        trimmed(trimmed(s)) == trimmed(s),
{
    law_trimmed_ends(s);
}

/// The number that a run of decimal digits spells.
pub open spec fn spelled(digits: Seq<char>) -> int
    decreases digits.len(),
{
    if digits.len() == 0 {
        0
    } else {
        10 * spelled(digits.drop_last()) + (digits.last() as int - '0' as int)
    }
}

/// The number that a lower-case hexadecimal digit stands for.
pub open spec fn hex_worth(c: char) -> int {
    if c <= '9' {
        c as int - '0' as int
    } else {
        c as int - 'a' as int + 10
    }
}

/// Decimal text spells its number, in digits alone, and starts with a zero only where it is
/// zero.
pub proof fn law_decimal_spells(n: nat)
    ensures
        decimal(n).len() > 0,
        forall|i: int| 0 <= i < decimal(n).len() ==> '0' <= #[trigger] decimal(n)[i] <= '9',
        spelled(decimal(n)) == n,
        decimal(n)[0] == '0' ==> decimal(n).len() == 1,
    decreases n,
{
    if n < 10 {
        let d = decimal(n);
        assert(d.drop_last() =~= Seq::<char>::empty());
        assert(spelled(d.drop_last()) == 0);
        assert(d.last() as int == 0x30 + n);
    } else {
        law_decimal_spells(n / 10);
        let d = decimal(n);
        assert(d.drop_last() =~= decimal(n / 10));
        assert(d.last() as int == 0x30 + n % 10);
        assert(d[0] == decimal(n / 10)[0]);
        if d[0] == '0' {
            assert(decimal(n / 10).len() == 1);
            assert(decimal(n / 10).drop_last() =~= Seq::<char>::empty());
            assert(spelled(decimal(n / 10).drop_last()) == 0);
        }
    }
}

/// Decimal text with a sign spells its number: in digits alone where it is not negative,
/// and otherwise behind one minus sign.
pub proof fn law_signed_decimal_spells(i: int)
    ensures
        i >= 0 ==> spelled(signed_decimal(i)) == i && forall|k: int|
            0 <= k < signed_decimal(i).len() ==> '0' <= #[trigger] signed_decimal(i)[k] <= '9',
        i < 0 ==> signed_decimal(i)[0] == '-' && spelled(signed_decimal(i).skip(1)) == -i
            && forall|k: int|
            1 <= k < signed_decimal(i).len() ==> '0' <= #[trigger] signed_decimal(i)[k] <= '9',
{
    if i < 0 {
        law_decimal_spells((-i) as nat);
        let d = decimal((-i) as nat);
        assert(signed_decimal(i).skip(1) =~= d);
        assert forall|k: int| 1 <= k < signed_decimal(i).len() implies '0'
            <= #[trigger] signed_decimal(i)[k] <= '9' by {
            assert(signed_decimal(i)[k] == d[k - 1]);
        }
    } else {
        law_decimal_spells(i as nat);
    }
}

/// Two numbers have the same decimal text only where they are the same.
pub proof fn law_decimal_tells_apart(a: int, b: int)
    requires
        a != b,
    ensures
        signed_decimal(a) != signed_decimal(b),
        a >= 0 && b >= 0 ==> decimal(a as nat) != decimal(b as nat),
{
    law_signed_decimal_spells(a);
    law_signed_decimal_spells(b);
    law_decimal_spells((if a < 0 { -a } else { a }) as nat);
    law_decimal_spells((if b < 0 { -b } else { b }) as nat);
}

/// What is written of a number is its decimal text and spells it.
pub proof fn law_written_numbers(n: u64, t: String, i: i64, u: String)
    requires
        call_ensures(decimal_text, (n,), t),
        call_ensures(signed_decimal_text, (i,), u),
    ensures
        t@.len() > 0,
        spelled(t@) == n,
        forall|k: int| 0 <= k < t@.len() ==> '0' <= #[trigger] t@[k] <= '9',
        t@[0] == '0' ==> t@.len() == 1,
        i >= 0 ==> spelled(u@) == i,
        i < 0 ==> u@[0] == '-' && spelled(u@.skip(1)) == -i,
        n == i ==> t@ == u@,
{
    law_decimal_spells(n as nat);
    law_signed_decimal_spells(i as int);
}

/// Each byte is written in two lower-case hexadecimal digits that together are worth it, so
/// the bytes can be read back.
pub proof fn law_lower_hex_spells(bytes: Seq<u8>)
    ensures
        lower_hex(bytes).len() == 2 * bytes.len(),
        forall|i: int|
            0 <= i < bytes.len() ==> 16 * hex_worth(lower_hex(bytes)[2 * i]) + hex_worth(
                lower_hex(bytes)[2 * i + 1],
            ) == #[trigger] bytes[i],
        forall|i: int|
            0 <= i < lower_hex(bytes).len() ==> ('0' <= #[trigger] lower_hex(bytes)[i] <= '9' || 'a'
                <= lower_hex(bytes)[i] <= 'f'),
{
    assert forall|i: int| 0 <= i < bytes.len() implies 16 * hex_worth(lower_hex(bytes)[2 * i])
        + hex_worth(lower_hex(bytes)[2 * i + 1]) == #[trigger] bytes[i] by {
        assert((2 * i) % 2 == 0 && (2 * i) / 2 == i);
        assert((2 * i + 1) % 2 == 1 && (2 * i + 1) / 2 == i);
        assert(lower_hex(bytes)[2 * i] == hex_digit(bytes[i] as int / 16));
        assert(lower_hex(bytes)[2 * i + 1] == hex_digit(bytes[i] as int % 16));
    }
}

/// Two runs of bytes have the same hexadecimal text only where they are the same.
pub proof fn law_lower_hex_tells_apart(a: Seq<u8>, b: Seq<u8>)
    requires
        lower_hex(a) == lower_hex(b),
    ensures
        a == b,
{
    law_lower_hex_spells(a);
    law_lower_hex_spells(b);
    assert forall|i: int| 0 <= i < a.len() implies a[i] == b[i] by {
        assert(16 * hex_worth(lower_hex(a)[2 * i]) + hex_worth(lower_hex(a)[2 * i + 1]) == a[i]);
        assert(16 * hex_worth(lower_hex(b)[2 * i]) + hex_worth(lower_hex(b)[2 * i + 1]) == b[i]);
    }
    assert(a =~= b);
}

/// Trimming takes white space alone, and from the two ends alone: what stays is one run of
/// the text, with nothing but white space before and behind it.
pub proof fn law_trimmed_is_the_middle(s: Seq<char>)
    ensures
        exists|from: int, to: int|
            {
                &&& 0 <= from <= to <= s.len()
                &&& trimmed(s) == #[trigger] s.subrange(from, to)
                &&& forall|i: int| 0 <= i < from ==> is_white_space(#[trigger] s[i])
                &&& forall|i: int| to <= i < s.len() ==> is_white_space(#[trigger] s[i])
            },
{
    lemma_trim_start_shape(s);
    let rest = trim_start(s);
    lemma_trim_end_shape(rest);
    lemma_trim_end_cut(rest);
    let from = s.len() - rest.len();
    let to = from + trim_end(rest).len();
    assert(s.subrange(from, to) =~= trimmed(s));
    assert forall|i: int| to <= i < s.len() implies is_white_space(#[trigger] s[i]) by {
        assert(rest[i - from] == s[i]);
    }
}

/// `trim_end` cuts off nothing but white space.
proof fn lemma_trim_end_cut(s: Seq<char>)
    ensures
        trim_end(s).len() <= s.len(),
        forall|i: int| trim_end(s).len() <= i < s.len() ==> is_white_space(#[trigger] s[i]),
    decreases s.len(),
{
    if s.len() > 0 && is_white_space(s.last()) {
        let t = s.drop_last();
        lemma_trim_end_cut(t);
        assert forall|i: int| trim_end(s).len() <= i < s.len() implies is_white_space(
            #[trigger] s[i],
        ) by {
            if i < t.len() {
                assert(t[i] == s[i]);
            }
        }
    }
}

/// Text that neither starts nor ends with white space is trimmed to itself, and white space
/// around a text does not change what it is trimmed to.
pub proof fn law_trimmed_keeps_text(before: Seq<char>, s: Seq<char>, behind: Seq<char>)
    requires
        forall|i: int| 0 <= i < before.len() ==> is_white_space(#[trigger] before[i]),
        forall|i: int| 0 <= i < behind.len() ==> is_white_space(#[trigger] behind[i]),
        s.len() > 0 ==> !is_white_space(s[0]) && !is_white_space(s.last()),
    ensures
        trimmed(s) == s,
        trimmed(before + s + behind) == s,
{
    let all = before + s + behind;
    law_trimmed_is_the_middle(all);
    law_trimmed_ends(all);
    let (from, to) = choose|from: int, to: int|
        {
            &&& 0 <= from <= to <= all.len()
            &&& trimmed(all) == #[trigger] all.subrange(from, to)
            &&& forall|i: int| 0 <= i < from ==> is_white_space(#[trigger] all[i])
            &&& forall|i: int| to <= i < all.len() ==> is_white_space(#[trigger] all[i])
        };
    let (b, e) = (before.len() as int, (before.len() + s.len()) as int);
    assert forall|i: int| 0 <= i < b || e <= i < all.len() implies is_white_space(
        #[trigger] all[i],
    ) by {
        if i < b {
            assert(all[i] == before[i]);
        } else {
            assert(all[i] == behind[i - e]);
        }
    }
    if from < to {
        assert(all.subrange(from, to)[0] == all[from]);
        assert(all.subrange(from, to).last() == all[to - 1]);
    }
    if s.len() > 0 {
        assert(all[b] == s[0]);
        assert(all[e - 1] == s.last());
        assert(from == b && to == e);
        assert(all.subrange(b, e) =~= s);
    } else if from < to {
        assert(is_white_space(all[from]));
    }
}

/// What `trim` returns is one run of its text, with white space alone before and behind it
/// and none at its own ends.
pub proof fn law_trim_result(s: &str, t: &str)
    requires
        call_ensures(trim, (s,), t),
    ensures
        exists|from: int, to: int|
            {
                &&& 0 <= from <= to <= s@.len()
                &&& t@ == #[trigger] s@.subrange(from, to)
                &&& forall|i: int| 0 <= i < from ==> is_white_space(#[trigger] s@[i])
                &&& forall|i: int| to <= i < s@.len() ==> is_white_space(#[trigger] s@[i])
            },
        t@.len() > 0 ==> !is_white_space(t@[0]) && !is_white_space(t@.last()),
{
    law_trimmed_is_the_middle(s@);
    law_trimmed_ends(s@);
}

/// Of the ASCII characters, the space and the five from tab to carriage return are white
/// space, and no other is.
pub proof fn law_ascii_white_space(c: char)
    requires
        (c as int) < 128,
    ensures
        is_white_space(c) <==> c == ' ' || '\t' <= c <= '\r',
{
}

/// Bytes add up over the characters of a text, and a character takes one to four of them by
/// its code point.
pub proof fn law_byte_len_adds(a: Seq<char>, b: Seq<char>, c: char)
    ensures
        byte_len(Seq::<char>::empty()) == 0,
        byte_len(a + b) == byte_len(a) + byte_len(b),
        byte_len(seq![c]) == if (c as int) < 0x80 {
            1int
        } else if (c as int) < 0x800 {
            2
        } else if (c as int) < 0x1_0000 {
            3
        } else {
            4
        },
    decreases a.len(),
{
    let one = seq![c];
    assert(one.drop_first() =~= Seq::<char>::empty());
    assert(vstd::utf8::encode_utf8(one.drop_first()).len() == 0);
    if a.len() == 0 {
        assert(a + b =~= b);
    } else {
        law_byte_len_adds(a.drop_first(), b, c);
        assert((a + b).drop_first() =~= a.drop_first() + b);
    }
}

/// `trim_start` cuts off a prefix of white space and stops at the first other character.
proof fn lemma_trim_start_shape(s: Seq<char>)
    ensures
        trim_start(s).len() <= s.len(),
        trim_start(s) == s.skip(s.len() - trim_start(s).len()),
        forall|i: int| 0 <= i < s.len() - trim_start(s).len() ==> is_white_space(#[trigger] s[i]),
        trim_start(s).len() > 0 ==> !is_white_space(trim_start(s)[0]),
    decreases s.len(),
{
    if s.len() > 0 && is_white_space(s[0]) {
        let t = s.drop_first();
        lemma_trim_start_shape(t);
        assert forall|i: int| 0 <= i < s.len() - trim_start(s).len() implies is_white_space(
            #[trigger] s[i],
        ) by {
            if i > 0 {
                assert(t[i - 1] == s[i]);
            }
        }
    }
}

/// `trim_end` cuts off a suffix of white space and stops at the last other character.
proof fn lemma_trim_end_shape(s: Seq<char>)
    ensures
        trim_end(s).len() <= s.len(),
        trim_end(s) == s.take(trim_end(s).len() as int),
        trim_end(s).len() > 0 ==> !is_white_space(trim_end(s).last()),
        trim_end(s).len() == 0 ==> forall|i: int| 0 <= i < s.len() ==> is_white_space(#[trigger] s[i]),
    decreases s.len(),
{
    if s.len() > 0 && is_white_space(s.last()) {
        let t = s.drop_last();
        lemma_trim_end_shape(t);
        if trim_end(s).len() == 0 {
            assert forall|i: int| 0 <= i < s.len() implies is_white_space(#[trigger] s[i]) by {
                if i < t.len() {
                    assert(t[i] == s[i]);
                }
            }
        }
    }
}

/// The characters of `s`.
pub(crate) fn chars_of(s: &str) -> (v: Vec<char>)
    ensures
        v@ == s@,
{
    let mut v: Vec<char> = Vec::new();
    for c in it: s.chars()
        invariant
            it.seq() == s@,
            v@ == s@.take(it.index() as int),
    {
        v.push(c);
    }
    v
}

fn white_space(c: char) -> (b: bool)
    ensures
        b == is_white_space(c),
{
    let u: u32 = c as u32;
    (0x9 <= u && u <= 0xd) || u == 0x20 || u == 0x85 || u == 0xa0 || u == 0x1680 || (0x2000 <= u
        && u <= 0x200a) || u == 0x2028 || u == 0x2029 || u == 0x202f || u == 0x205f || u == 0x3000
}

/// `s` without the white space at its two ends.
pub fn trim(s: &str) -> (t: &str)
    ensures
        t@ == trimmed(s@),
{
    let chars = chars_of(s);
    let mut from: usize = 0;
    assert(s@.skip(0) == s@);
    while from < chars.len() && white_space(chars[from])
        invariant
            from <= chars.len(),
            chars@ == s@,
            trim_start(s@) == trim_start(s@.skip(from as int)),
        decreases chars.len() - from,
    {
        assert(s@.skip(from as int).drop_first() == s@.skip(from + 1));
        from = from + 1;
    }
    let mut to: usize = chars.len();
    assert(s@.skip(from as int) == s@.subrange(from as int, to as int));
    while to > from && white_space(chars[to - 1])
        invariant
            from <= to <= chars.len(),
            chars@ == s@,
            trimmed(s@) == trim_end(s@.subrange(from as int, to as int)),
        decreases to,
    {
        assert(s@.subrange(from as int, to as int).drop_last() == s@.subrange(
            from as int,
            to - 1,
        ));
        to = to - 1;
    }
    s.substring_char(from, to)
}

/// The decimal digit `d` as text.
fn digit_text(d: u64) -> (t: &'static str)
    requires
        d < 10,
    ensures
        t@ == seq![digit(d as int)],
{
    proof {
        reveal_strlit("0");
        reveal_strlit("1");
        reveal_strlit("2");
        reveal_strlit("3");
        reveal_strlit("4");
        reveal_strlit("5");
        reveal_strlit("6");
        reveal_strlit("7");
        reveal_strlit("8");
        reveal_strlit("9");
    }
    match d {
        0 => "0",
        1 => "1",
        2 => "2",
        3 => "3",
        4 => "4",
        5 => "5",
        6 => "6",
        7 => "7",
        8 => "8",
        _ => "9",
    }
}

/// `n` in decimal.
pub fn decimal_text(n: u64) -> (t: String)
    ensures
        t@ == decimal(n as nat),
    decreases n,
{
    let last = digit_text(n % 10);
    if n < 10 {
        last.to_owned()
    } else {
        let mut t = decimal_text(n / 10);
        t.append(last);
        t
    }
}

/// `i` in decimal, with a minus sign where it is negative.
pub fn signed_decimal_text(i: i64) -> (t: String)
    ensures
        t@ == signed_decimal(i as int),
{
    if i < 0 {
        let magnitude: u64 = if i == i64::MIN {
            0x8000_0000_0000_0000
        } else {
            (-i) as u64
        };
        proof {
            reveal_strlit("-");
        }
        let mut t = "-".to_owned();
        t.append(decimal_text(magnitude).as_str());
        t
    } else {
        decimal_text(i as u64)
    }
}

/// Whether `c` is a hexadecimal digit in either case.
pub(crate) fn hex_digit_char(c: char) -> (b: bool)
    ensures
        b == is_hex_digit(c),
{
    ('0' <= c && c <= '9') || ('a' <= c && c <= 'f') || ('A' <= c && c <= 'F')
}

/// The number of bytes of `s` in UTF-8.
pub(crate) fn byte_count(s: &str) -> (n: usize)
    ensures
        n == byte_len(s@),
{
    s.as_bytes().len()
}

} // verus!
