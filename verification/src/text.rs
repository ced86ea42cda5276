//! Plain text utilities the shell is built on: ASCII case folding,
//! splitting a line on spaces, reading and printing decimal numbers.

use vstd::prelude::*;
use vstd::string::StrSliceExecFns;

verus! {

/// ASCII lowercase folding of one character: an uppercase letter maps to
/// its lowercase partner, every other character stays itself.
pub open spec fn lower_char(c: char) -> char {
    if 65 <= c as u32 && c as u32 <= 90 {
        ((c as u32 + 32) as u8) as char
    } else {
        c
    }
}

/// ASCII lowercase folding of a whole sequence of characters.
pub open spec fn lower_chars(s: Seq<char>) -> Seq<char> {
    s.map_values(|c: char| lower_char(c))
}

/// Folds one character to ASCII lowercase.
pub fn to_lower(c: char) -> (r: char)
    ensures
        r == lower_char(c),
{
    let n = c as u32;
    if 65 <= n && n <= 90 {
        ((n + 32) as u8) as char
    } else {
        c
    }
}

/// The space-separated tokens of a line, in order.  Splitting keeps empty
/// tokens, so consecutive spaces, a leading space or a trailing space each
/// contribute one, and the result always holds at least one token.
pub open spec fn split_spaces(s: Seq<char>) -> Seq<Seq<char>>
    decreases s.len(),
{
    if s.len() == 0 {
        seq![Seq::<char>::empty()]
    } else if s[0] == ' ' {
        seq![Seq::<char>::empty()] + split_spaces(s.drop_first())
    } else {
        let rest = split_spaces(s.drop_first());
        seq![seq![s[0]] + rest[0]] + rest.drop_first()
    }
}

/// A split line always yields at least one token.
pub proof fn lemma_split_spaces_len(s: Seq<char>)
    ensures
        split_spaces(s).len() >= 1,
    decreases s.len(),
{
    if s.len() > 0 {
        lemma_split_spaces_len(s.drop_first());
    }
}

/// Splitting a line whose first space stands at position `k` (or which has
/// none, when `k` is the length) peels off the prefix before that space as
/// the first token.
pub proof fn lemma_split_at_first_space(s: Seq<char>, k: int)
    requires
        0 <= k <= s.len(),
        forall|j: int| 0 <= j < k ==> s[j] != ' ',
        k < s.len() ==> s[k] == ' ',
    ensures
        split_spaces(s) == seq![s.take(k)] + (if k < s.len() {
            split_spaces(s.skip(k + 1))
        } else {
            Seq::<Seq<char>>::empty()
        }),
    decreases s.len(),
{
    if k == 0 {
        if s.len() == 0 {
            assert(split_spaces(s) =~~= seq![s.take(0)]);
        } else {
            assert(s.skip(1) =~= s.drop_first());
            assert(split_spaces(s) =~~= seq![s.take(0)] + split_spaces(s.skip(1)));
        }
    } else {
        let t = s.drop_first();
        lemma_split_at_first_space(t, k - 1);
        let tail = if k < s.len() {
            split_spaces(s.skip(k + 1))
        } else {
            Seq::<Seq<char>>::empty()
        };
        if k < s.len() {
            assert(t.skip(k) =~= s.skip(k + 1));
        }
        let rest = split_spaces(t);
        assert(rest == seq![t.take(k - 1)] + tail);
        lemma_split_spaces_len(t);
        assert(seq![s[0]] + rest[0] =~= s.take(k));
        assert(rest.drop_first() =~= tail);
        assert(split_spaces(s) =~~= seq![s.take(k)] + tail);
    }
}

/// Splits a line into its space-separated tokens, empty tokens kept.
pub fn split_line(s: &str) -> (tokens: Vec<String>)
    ensures
        tokens.deep_view() == split_spaces(s@),
{
    let n = s.unicode_len();
    let mut tokens: Vec<String> = Vec::new();
    let mut start: usize = 0;
    let mut i: usize = 0;
    proof {
        assert(s@.skip(0) =~= s@);
        assert(tokens.deep_view() =~= Seq::<Seq<char>>::empty());
        assert(tokens.deep_view() + split_spaces(s@) =~= split_spaces(s@));
    }
    while i < n
        invariant
            0 <= start <= i <= n,
            n == s@.len(),
            forall|j: int| start <= j < i ==> s@[j] != ' ',
            split_spaces(s@) == tokens.deep_view() + split_spaces(s@.skip(start as int)),
        decreases n - i,
    {
        let c = s.get_char(i);
        if c == ' ' {
            let ghost toks0 = tokens.deep_view();
            let tok = s.substring_char(start, i).to_owned();
            tokens.push(tok);
            proof {
                lemma_split_at_first_space(s@.skip(start as int), i - start);
                assert(s@.skip(start as int).take(i - start) =~= s@.subrange(
                    start as int,
                    i as int,
                ));
                assert(s@.skip(start as int).skip(i - start + 1) =~= s@.skip(i + 1));
                assert(tokens.deep_view() =~= toks0.push(tok@));
                assert(tokens.deep_view() + split_spaces(s@.skip(i + 1)) =~~= toks0
                    + split_spaces(s@.skip(start as int)));
            }
            start = i + 1;
        }
        i = i + 1;
    }
    let ghost toks0 = tokens.deep_view();
    let tok = s.substring_char(start, n).to_owned();
    tokens.push(tok);
    proof {
        lemma_split_at_first_space(s@.skip(start as int), n - start);
        assert(s@.skip(start as int).take(n - start) =~= s@.subrange(start as int, n as int));
        assert(tokens.deep_view() =~= toks0.push(tok@));
        assert(tokens.deep_view() =~~= toks0 + split_spaces(s@.skip(start as int)));
    }
    tokens
}

/// Whether `c` is a decimal digit.
pub open spec fn is_digit(c: char) -> bool {
    48 <= c as u32 && c as u32 <= 57
}

/// The numeric value of a digit character.
pub open spec fn digit_value(c: char) -> int {
    c as u32 - 48
}

/// The digit character for a value below ten.
pub open spec fn digit_char(d: int) -> char {
    ((48 + d) as u8) as char
}

/// Whether `s` is a plain decimal numeral: one or more digits and nothing
/// else, with no sign and no surrounding blanks.
pub open spec fn is_dec_digits(s: Seq<char>) -> bool {
    s.len() > 0 && forall|j: int| 0 <= j < s.len() ==> is_digit(s[j])
}

/// The number a sequence of digit characters denotes.
pub open spec fn dec_value(s: Seq<char>) -> int
    decreases s.len(),
{
    if s.len() == 0 {
        0
    } else {
        dec_value(s.drop_last()) * 10 + digit_value(s.last())
    }
}

/// A numeral made of digits denotes a number that is not negative.
pub proof fn lemma_dec_value_nonneg(s: Seq<char>)
    requires
        forall|j: int| 0 <= j < s.len() ==> is_digit(s[j]),
    ensures
        dec_value(s) >= 0,
    decreases s.len(),
{
    if s.len() > 0 {
        lemma_dec_value_nonneg(s.drop_last());
    }
}

/// Reading one more digit multiplies the value so far by ten and adds it.
pub proof fn lemma_dec_value_step(s: Seq<char>, i: int)
    requires
        0 <= i < s.len(),
    ensures
        dec_value(s.take(i + 1)) == dec_value(s.take(i)) * 10 + digit_value(s[i]),
{
    assert(s.take(i + 1).drop_last() =~= s.take(i));
    assert(s.take(i + 1).last() == s[i]);
}

/// A numeral denotes at least as much as any of its prefixes.
pub proof fn lemma_dec_value_prefix_le(s: Seq<char>, i: int)
    requires
        forall|j: int| 0 <= j < s.len() ==> is_digit(s[j]),
        0 <= i <= s.len(),
    ensures
        dec_value(s.take(i)) <= dec_value(s),
    decreases s.len(),
{
    if i == s.len() {
        assert(s.take(i) =~= s);
    } else {
        let t = s.drop_last();
        lemma_dec_value_nonneg(t);
        assert(s.take(i) =~= t.take(i));
        lemma_dec_value_prefix_le(t, i);
    }
}

/// Reads an unsigned decimal numeral, rejecting anything else and any
/// value that does not fit in 32 bits.
pub fn parse_u32(s: &str) -> (r: Option<u32>)
    ensures
        r is Some <==> is_dec_digits(s@) && dec_value(s@) <= u32::MAX,
        r matches Some(v) ==> v == dec_value(s@),
{
    let n = s.unicode_len();
    if n == 0 {
        return None;
    }
    let mut acc: u32 = 0;
    let mut i: usize = 0;
    proof {
        assert(s@.take(0) =~= Seq::<char>::empty());
    }
    while i < n
        invariant
            0 <= i <= n,
            n == s@.len(),
            forall|j: int| 0 <= j < i ==> is_digit(s@[j]),
            acc == dec_value(s@.take(i as int)),
        decreases n - i,
    {
        let c = s.get_char(i);
        let u = c as u32;
        if u < 48 || u > 57 {
            return None;
        }
        let d = u - 48;
        let wide: u64 = acc as u64 * 10 + d as u64;
        proof {
            lemma_dec_value_step(s@, i as int);
        }
        if wide > u32::MAX as u64 {
            proof {
                if is_dec_digits(s@) {
                    lemma_dec_value_prefix_le(s@, i + 1);
                }
            }
            return None;
        }
        acc = wide as u32;
        i = i + 1;
    }
    proof {
        assert(s@.take(n as int) =~= s@);
    }
    Some(acc)
}

/// The decimal numeral of a number, most significant digit first, with no
/// leading zero except on the number zero itself.
pub open spec fn dec_numeral(n: nat) -> Seq<char>
    decreases n,
{
    if n < 10 {
        seq![digit_char(n as int)]
    } else {
        dec_numeral(n / 10).push(digit_char((n % 10) as int))
    }
}

/// Hands out the one-character string for a digit value.
fn digit_str(d: u32) -> (s: &'static str)
    requires
        d < 10,
    ensures
        s@ =~= seq![digit_char(d as int)],
{
    proof {
        reveal_strlit("0");
        reveal_strlit("1");
        reveal_strlit("2");
        reveal_strlit("3");
        reveal_strlit("4");
        reveal_strlit("5");
        reveal_strlit("6");
        reveal_strlit("7");
        reveal_strlit("8");
        reveal_strlit("9");
    }
    match d {
        0 => "0",
        1 => "1",
        2 => "2",
        3 => "3",
        4 => "4",
        5 => "5",
        6 => "6",
        7 => "7",
        8 => "8",
        _ => "9",
    }
}

/// The digit values of `ds`, least significant first, read back as the
/// characters of a numeral.
pub open spec fn digit_chars_rev(ds: Seq<u32>) -> Seq<char> {
    Seq::new(ds.len(), |i: int| digit_char(ds[ds.len() - 1 - i] as int))
}

/// Prints a number as its decimal numeral.
pub fn u32_to_decimal(x: u32) -> (s: String)
    ensures
        s@ == dec_numeral(x as nat),
{
    let mut digits: Vec<u32> = Vec::new();
    let mut v: u32 = x;
    while v >= 10
        invariant
            forall|j: int| 0 <= j < digits@.len() ==> digits@[j] < 10,
            dec_numeral(x as nat) == dec_numeral(v as nat) + digit_chars_rev(digits@),
        decreases v,
    {
        let ghost ds0 = digits@;
        let d = v % 10;
        digits.push(d);
        proof {
            assert(digit_chars_rev(ds0.push(d)) =~= seq![digit_char(d as int)] + digit_chars_rev(
                ds0,
            ));
            assert(dec_numeral(v as nat) + digit_chars_rev(ds0) =~= dec_numeral((v / 10) as nat)
                + digit_chars_rev(ds0.push(d)));
        }
        v = v / 10;
    }
    let ghost ds0 = digits@;
    let last = v;
    digits.push(last);
    proof {
        assert(digit_chars_rev(ds0.push(last)) =~= seq![digit_char(last as int)]
            + digit_chars_rev(ds0));
        assert(dec_numeral(x as nat) =~= digit_chars_rev(digits@));
    }
    let mut out = String::new();
    let mut j: usize = digits.len();
    while j > 0
        invariant
            j <= digits@.len(),
            forall|k: int| 0 <= k < digits@.len() ==> digits@[k] < 10,
            digit_chars_rev(digits@) == dec_numeral(x as nat),
            out@ == digit_chars_rev(digits@).take(digits@.len() - j),
        decreases j,
    {
        let ghost out0 = out@;
        let piece = digit_str(digits[j - 1]);
        out.append(piece);
        proof {
            assert(out@ =~= digit_chars_rev(digits@).take(digits@.len() - (j - 1)));
        }
        j = j - 1;
    }
    proof {
        assert(digit_chars_rev(digits@).take(digits@.len() as int) =~= digit_chars_rev(digits@));
    }
    out
}

} // verus!
