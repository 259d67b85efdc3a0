//! Text as sequences of characters: numerals, comparison, and trimming.

use vstd::prelude::*;

verus! {

/// `String::push` appends one character to the end of the string.
pub assume_specification[ String::push ](s: &mut String, c: char)
    ensures
        final(s)@ == old(s)@.push(c),
;

/// The numeral of a single decimal digit.
pub open spec fn digit_char(d: int) -> char {
    (48 + d) as char
}

/// The decimal numeral of `n`, without leading zeros.
pub open spec fn decimal_text(n: nat) -> Seq<char>
    decreases n,
{
    if n < 10 {
        seq![digit_char(n as int)]
    } else {
        decimal_text(n / 10).push(digit_char((n % 10) as int))
    }
}

/// `text` with zeros in front, so that it has at least `width` characters.
pub open spec fn zero_padded(text: Seq<char>, width: nat) -> Seq<char> {
    if text.len() >= width {
        text
    } else {
        Seq::new((width - text.len()) as nat, |i: int| '0') + text
    }
}

/// The decimal numeral of `n` in at least `width` characters: zeros fill the room between the
/// sign, if there is one, and the digits.
pub open spec fn padded_decimal_text(n: int, width: nat) -> Seq<char> {
    if n < 0 {
        seq!['-'] + zero_padded(
            decimal_text((-n) as nat),
            if width == 0 {
                0
            } else {
                (width - 1) as nat
            },
        )
    } else {
        zero_padded(decimal_text(n as nat), width)
    }
}

/// The lower-case numeral of a single hexadecimal digit.
pub open spec fn hex_digit_char(d: int) -> char {
    if d < 10 {
        (48 + d) as char
    } else {
        (87 + d) as char
    }
}

/// The last `width` hexadecimal digits of `n`.
pub open spec fn hex_text(n: nat, width: nat) -> Seq<char>
    decreases width,
{
    if width == 0 {
        Seq::empty()
    } else {
        hex_text(n / 16, (width - 1) as nat).push(hex_digit_char((n % 16) as int))
    }
}

/// `text` with each of the letters `A` to `Z` replaced by its lower-case form.
pub open spec fn ascii_lower(text: Seq<char>) -> Seq<char> {
    Seq::new(text.len(), |i: int| ascii_lower_char(text[i]))
}

/// `c`, or its lower-case form if it is one of the letters `A` to `Z`.
pub open spec fn ascii_lower_char(c: char) -> char {
    if 'A' <= c <= 'Z' {
        (c as int + 32) as char
    } else {
        c
    }
}

/// The characters of `s`, one by one.
pub fn chars_of(s: &str) -> (chars: Vec<char>)
    ensures
        chars@ == s@,
{
    let mut chars: Vec<char> = Vec::new();
    for c in it: s.chars()
        invariant
            it.seq() == s@,
            chars@ == s@.take(it.index()),
    {
        chars.push(c);
    }
    chars
}

/// The string made of `chars[from..to]`.
pub fn string_of(chars: &Vec<char>, from: usize, to: usize) -> (s: String)
    requires
        from <= to <= chars@.len(),
    ensures
        s@ == chars@.subrange(from as int, to as int),
{
    let mut s = String::new();
    for i in from..to
        invariant
            from <= to <= chars@.len(),
            s@ == chars@.subrange(from as int, i as int),
    {
        s.push(chars[i]);
    }
    s
}

/// Whether two strings hold the same characters.
pub fn same_text(a: &str, b: &str) -> (same: bool)
    ensures
        same == (a@ == b@),
{
    a.to_owned() == b.to_owned()
}

/// The decimal numeral of `n`.
pub fn decimal(n: u64) -> (s: String)
    ensures
        s@ == decimal_text(n as nat),
    decreases n,
{
    if n < 10 {
        let mut s = String::new();
        s.push((48 + n as u8) as char);
        s
    } else {
        let mut s = decimal(n / 10);
        s.push((48 + (n % 10) as u8) as char);
        s
    }
}

/// The decimal numeral of `n` in at least `width` characters.
pub fn padded_decimal(n: i64, width: usize) -> (s: String)
    ensures
        s@ == padded_decimal_text(n as int, width as nat),
{
    let magnitude: u64 = if n < 0 {
        (-(n + 1)) as u64 + 1
    } else {
        n as u64
    };
    let digits = chars_of(decimal(magnitude).as_str());
    let mut s = String::new();
    let mut room: usize = width;
    if n < 0 {
        s.push('-');
        if room > 0 {
            room = room - 1;
        }
    }
    let ghost sign = s@;
    let zeros: usize = if digits.len() < room {
        room - digits.len()
    } else {
        0
    };
    for i in 0..zeros
        invariant
            s@ == sign + Seq::new(i as nat, |k: int| '0'),
    {
        s.push('0');
        assert(s@ == sign + Seq::new((i + 1) as nat, |k: int| '0'));
    }
    s.append(decimal(magnitude).as_str());
    proof {
        assert(sign + Seq::new(zeros as nat, |k: int| '0') + decimal_text(magnitude as nat) == sign
            + zero_padded(decimal_text(magnitude as nat), room as nat));
    }
    s
}

/// The 16 hexadecimal digits of `n`.
pub fn hex16(n: u64) -> (s: String)
    ensures
        s@ == hex_text(n as nat, 16),
{
    hex_digits(n, 16)
}

fn hex_digits(n: u64, width: usize) -> (s: String)
    ensures
        s@ == hex_text(n as nat, width as nat),
    decreases width,
{
    if width == 0 {
        String::new()
    } else {
        let mut s = hex_digits(n / 16, width - 1);
        let d: u8 = (n % 16) as u8;
        let c: u8 = if d < 10 {
            48 + d
        } else {
            87 + d
        };
        s.push(c as char);
        s
    }
}

/// Two numbers below 16 to the power of `width` that have the same `width` hexadecimal digits are
/// the same number.
pub proof fn law_hex_text_injective(a: nat, b: nat, width: nat)
    requires
        a < vstd::arithmetic::power::pow(16, width),
        b < vstd::arithmetic::power::pow(16, width),
        hex_text(a, width) == hex_text(b, width),
    ensures
        a == b,
    decreases width,
{
    reveal(vstd::arithmetic::power::pow);
    if width > 0 {
        let w = (width - 1) as nat;
        assert(hex_text(a, width).drop_last() == hex_text(a / 16, w));
        assert(hex_text(b, width).drop_last() == hex_text(b / 16, w));
        assert(hex_text(a, width).last() == hex_digit_char((a % 16) as int));
        assert(hex_text(b, width).last() == hex_digit_char((b % 16) as int));
        assert(vstd::arithmetic::power::pow(16, width) == 16 * vstd::arithmetic::power::pow(16, w));
        law_hex_text_injective(a / 16, b / 16, w);
    }
}

/// Whether `s` starts with `prefix`.
pub fn starts_with(s: &str, prefix: &str) -> (answer: bool)
    ensures
        answer == prefix@.is_prefix_of(s@),
{
    let chars = chars_of(s);
    let wanted = chars_of(prefix);
    if chars.len() < wanted.len() {
        return false;
    }
    for i in 0..wanted.len()
        invariant
            chars@ == s@,
            wanted@ == prefix@,
            wanted@.len() <= chars@.len(),
            forall|k: int| 0 <= k < i ==> chars@[k] == wanted@[k],
    {
        if chars[i] != wanted[i] {
            proof {
                assert(s@.subrange(0, prefix@.len() as int)[i as int] == chars@[i as int]);
            }
            return false;
        }
    }
    proof {
        assert(s@.subrange(0, prefix@.len() as int) =~= prefix@);
    }
    true
}

/// Whether `s` ends with `suffix`.
pub fn ends_with(s: &str, suffix: &str) -> (answer: bool)
    ensures
        answer == suffix@.is_suffix_of(s@),
{
    let chars = chars_of(s);
    let wanted = chars_of(suffix);
    if chars.len() < wanted.len() {
        return false;
    }
    let from: usize = chars.len() - wanted.len();
    same_text(string_of(&chars, from, chars.len()).as_str(), suffix)
}

/// `s` without its first `count` characters.
pub fn without_first(s: &str, count: usize) -> (rest: String)
    requires
        count <= s@.len(),
    ensures
        rest@ == s@.skip(count as int),
{
    let chars = chars_of(s);
    let rest = string_of(&chars, count, chars.len());
    proof {
        assert(rest@ == s@.skip(count as int));
    }
    rest
}

/// The first `count` characters of `s`, or all of them if there are fewer.
pub fn first_chars(s: &str, count: usize) -> (start: String)
    ensures
        start@ == (if s@.len() <= count {
            s@
        } else {
            s@.take(count as int)
        }),
{
    let chars = chars_of(s);
    let to: usize = if chars.len() <= count {
        chars.len()
    } else {
        count
    };
    let start = string_of(&chars, 0, to);
    proof {
        assert(start@ == s@.take(to as int));
        assert(s@.take(s@.len() as int) == s@);
    }
    start
}

/// `s` with the letters `A` to `Z` in lower case.
pub fn to_ascii_lowercase(s: &str) -> (lower: String)
    ensures
        lower@ == ascii_lower(s@),
{
    let chars = chars_of(s);
    let mut lower = String::new();
    for i in 0..chars.len()
        invariant
            chars@ == s@,
            lower@.len() == i,
            forall|k: int| 0 <= k < i ==> lower@[k] == ascii_lower_char(s@[k]),
    {
        let c = chars[i];
        if 'A' <= c && c <= 'Z' {
            lower.push((c as u8 + 32) as char);
        } else {
            lower.push(c);
        }
    }
    proof {
        assert(lower@ =~= ascii_lower(s@));
    }
    lower
}

/// Whether Unicode gives `c` the property White_Space.
pub open spec fn is_white_space(c: char) -> bool {
    ||| '\u{9}' <= c <= '\u{d}'
    ||| c == ' '
    ||| c == '\u{85}'
    ||| c == '\u{a0}'
    ||| c == '\u{1680}'
    ||| '\u{2000}' <= c <= '\u{200a}'
    ||| c == '\u{2028}'
    ||| c == '\u{2029}'
    ||| c == '\u{202f}'
    ||| c == '\u{205f}'
    ||| c == '\u{3000}'
}

/// `text` without the white space at its start.
pub open spec fn trimmed_start(text: Seq<char>) -> Seq<char>
    decreases text.len(),
{
    if text.len() > 0 && is_white_space(text[0]) {
        trimmed_start(text.skip(1))
    } else {
        text
    }
}

/// `text` without the white space at its end.
pub open spec fn trimmed_end(text: Seq<char>) -> Seq<char>
    decreases text.len(),
{
    if text.len() > 0 && is_white_space(text.last()) {
        trimmed_end(text.drop_last())
    } else {
        text
    }
}

/// `text` without the white space at either end.
pub open spec fn trimmed(text: Seq<char>) -> Seq<char> {
    trimmed_end(trimmed_start(text))
}

fn white_space(c: char) -> (answer: bool)
    ensures
        answer == is_white_space(c),
{
    ('\u{9}' <= c && c <= '\u{d}') || c == ' ' || c == '\u{85}' || c == '\u{a0}' || c
        == '\u{1680}' || ('\u{2000}' <= c && c <= '\u{200a}') || c == '\u{2028}' || c
        == '\u{2029}' || c == '\u{202f}' || c == '\u{205f}' || c == '\u{3000}'
}

/// `s` without the white space at either end.
pub fn trim(s: &str) -> (inner: String)
    ensures
        inner@ == trimmed(s@),
{
    let chars = chars_of(s);
    let mut from: usize = 0;
    proof {
        assert(s@.skip(0) == s@);
    }
    while from < chars.len() && white_space(chars[from])
        invariant
            chars@ == s@,
            from <= chars@.len(),
            trimmed_start(s@) == trimmed_start(s@.skip(from as int)),
        decreases chars@.len() - from,
    {
        proof {
            assert(s@.skip(from as int).skip(1) == s@.skip(from + 1));
        }
        from = from + 1;
    }
    let ghost rest = s@.skip(from as int);
    proof {
        assert(trimmed_start(s@) == rest);
    }
    let mut to: usize = chars.len();
    proof {
        assert(s@.subrange(from as int, to as int) == rest);
    }
    while from < to && white_space(chars[to - 1])
        invariant
            chars@ == s@,
            from <= to <= chars@.len(),
            trimmed_end(rest) == trimmed_end(s@.subrange(from as int, to as int)),
        decreases to,
    {
        proof {
            assert(s@.subrange(from as int, to as int).drop_last() == s@.subrange(
                from as int,
                to - 1,
            ));
        }
        to = to - 1;
    }
    string_of(&chars, from, to)
}

/// Whether `a` comes before `b` when texts are ordered by the code points of their characters,
/// and a text comes before its continuations.
pub open spec fn text_before(a: Seq<char>, b: Seq<char>) -> bool
    decreases a.len(),
{
    if b.len() == 0 {
        false
    } else if a.len() == 0 {
        true
    } else if a[0] == b[0] {
        text_before(a.skip(1), b.skip(1))
    } else {
        a[0] < b[0]
    }
}

/// Whether `a` comes before `b` in the order of code points.
pub fn is_before(a: &str, b: &str) -> (answer: bool)
    ensures
        answer == text_before(a@, b@),
{
    let first = chars_of(a);
    let second = chars_of(b);
    let mut i: usize = 0;
    proof {
        assert(a@.skip(0) == a@);
        assert(b@.skip(0) == b@);
    }
    while i < first.len() && i < second.len()
        invariant
            first@ == a@,
            second@ == b@,
            i <= first@.len(),
            i <= second@.len(),
            text_before(a@, b@) == text_before(a@.skip(i as int), b@.skip(i as int)),
        decreases first@.len() - i,
    {
        if first[i] != second[i] {
            return first[i] < second[i];
        }
        proof {
            assert(a@.skip(i as int).skip(1) == a@.skip(i + 1));
            assert(b@.skip(i as int).skip(1) == b@.skip(i + 1));
        }
        i = i + 1;
    }
    i < second.len()
}

/// Of two different texts, one comes before the other.
pub proof fn law_text_order_total(a: Seq<char>, b: Seq<char>)
    ensures
        text_before(a, b) || text_before(b, a) || a == b,
        !(text_before(a, b) && text_before(b, a)),
        !text_before(a, a),
    decreases a.len(),
{
    if a.len() > 0 {
        law_text_order_total(a.skip(1), a.skip(1));
    }
    if a.len() > 0 && b.len() > 0 && a[0] == b[0] {
        law_text_order_total(a.skip(1), b.skip(1));
        if a.skip(1) == b.skip(1) {
            assert(a =~= seq![a[0]] + a.skip(1));
            assert(b =~= seq![b[0]] + b.skip(1));
        }
    } else if a.len() == 0 && b.len() == 0 {
        assert(a =~= b);
    }
}

/// The order of texts is transitive.
pub proof fn law_text_order_transitive(a: Seq<char>, b: Seq<char>, c: Seq<char>)
    requires
        text_before(a, b),
        text_before(b, c),
    ensures
        text_before(a, c),
    decreases a.len(),
{
    if a.len() > 0 && a[0] == b[0] && b[0] == c[0] {
        law_text_order_transitive(a.skip(1), b.skip(1), c.skip(1));
    }
}

/// Of two texts that agree up to a place, the one with the smaller character there comes first.
pub proof fn law_first_difference_decides(a: Seq<char>, b: Seq<char>, place: int)
    requires
        0 <= place < a.len(),
        place < b.len(),
        forall|k: int| 0 <= k < place ==> a[k] == b[k],
        a[place] < b[place],
    ensures
        text_before(a, b),
    decreases place,
{
    if place > 0 {
        assert(a[0] == b[0]);
        law_first_difference_decides(a.skip(1), b.skip(1), place - 1);
    }
}

/// A common start does not change which of two texts comes first.
pub proof fn law_common_start_keeps_order(start: Seq<char>, a: Seq<char>, b: Seq<char>)
    requires
        text_before(a, b),
    ensures
        text_before(start + a, start + b),
    decreases start.len(),
{
    if start.len() == 0 {
        assert(start + a =~= a && start + b =~= b);
    } else {
        law_common_start_keeps_order(start.skip(1), a, b);
        assert((start + a).skip(1) =~= start.skip(1) + a);
        assert((start + b).skip(1) =~= start.skip(1) + b);
    }
}

/// What follows two texts of the same length does not change which of them comes first.
pub proof fn law_continuations_keep_order(
    a: Seq<char>,
    b: Seq<char>,
    after_a: Seq<char>,
    after_b: Seq<char>,
)
    requires
        a.len() == b.len(),
        text_before(a, b),
    ensures
        text_before(a + after_a, b + after_b),
    decreases a.len(),
{
    if a[0] == b[0] {
        law_continuations_keep_order(a.skip(1), b.skip(1), after_a, after_b);
        assert((a + after_a).skip(1) =~= a.skip(1) + after_a);
        assert((b + after_b).skip(1) =~= b.skip(1) + after_b);
    }
}

/// The number that decimal digits tell.
pub open spec fn number_of(digits: Seq<char>) -> int
    decreases digits.len(),
{
    if digits.len() == 0 {
        0
    } else {
        10 * number_of(digits.drop_last()) + (digits.last() as int - '0' as int)
    }
}

/// The numeral of a number tells that number, in digits alone, and does not start with a zero
/// unless it is the numeral of zero.
pub proof fn law_numeral_tells_its_number(n: nat)
    ensures
        number_of(decimal_text(n)) == n,
        decimal_text(n).len() > 0,
        forall|i: int| 0 <= i < decimal_text(n).len() ==> '0' <= #[trigger] decimal_text(n)[i] <= '9',
        n > 0 ==> decimal_text(n)[0] != '0',
        n < 10 ==> decimal_text(n).len() == 1,
    decreases n,
{
    let text = decimal_text(n);
    if n < 10 {
        assert(text.drop_last() =~= Seq::<char>::empty());
        assert(number_of(text.drop_last()) == 0);
    } else {
        law_numeral_tells_its_number(n / 10);
        assert(text.drop_last() =~= decimal_text(n / 10));
        assert forall|i: int| 0 <= i < text.len() implies '0' <= #[trigger] text[i] <= '9' by {
            if i < text.len() - 1 {
                assert(text[i] == decimal_text(n / 10)[i]);
            }
        }
        assert(text[0] == decimal_text(n / 10)[0]);
    }
}

proof fn lemma_zeros_tell_nothing(zeros: nat, digits: Seq<char>)
    ensures
        number_of(Seq::new(zeros, |i: int| '0') + digits) == number_of(digits),
    decreases zeros + digits.len(),
{
    let front = Seq::new(zeros, |i: int| '0');
    let text = front + digits;
    if digits.len() > 0 {
        assert(text.drop_last() =~= front + digits.drop_last());
        lemma_zeros_tell_nothing(zeros, digits.drop_last());
    } else if zeros > 0 {
        let fewer = Seq::new((zeros - 1) as nat, |i: int| '0');
        assert(text.drop_last() =~= fewer + digits);
        lemma_zeros_tell_nothing((zeros - 1) as nat, digits);
    } else {
        assert(text =~= digits);
    }
}

/// A padded numeral tells its number too: after the sign, if the number is negative, in digits
/// alone, and it is as long as asked for unless the numeral itself is longer.
pub proof fn law_padded_numeral_tells_its_number(n: int, width: nat)
    ensures
        ({
            let text = padded_decimal_text(n, width);
            let sign = if n < 0 {
                1int
            } else {
                0int
            };
            let own = decimal_text((if n < 0 { -n } else { n }) as nat).len() + sign;
            &&& n < 0 <==> text[0] == '-'
            &&& number_of(text.skip(sign)) == if n < 0 { -n } else { n }
            &&& text.len() == if own < width { width as int } else { own }
            &&& forall|i: int| sign <= i < text.len() ==> '0' <= #[trigger] text[i] <= '9'
        }),
{
    let magnitude = (if n < 0 { -n } else { n }) as nat;
    let digits = decimal_text(magnitude);
    law_numeral_tells_its_number(magnitude);
    let sign = if n < 0 { 1int } else { 0int };
    let text = padded_decimal_text(n, width);
    let room: nat = if n < 0 && width > 0 { (width - 1) as nat } else { width };
    if digits.len() < room {
        lemma_zeros_tell_nothing((room - digits.len()) as nat, digits);
    }
    assert(text.skip(sign) =~= zero_padded(digits, room));
    assert forall|i: int| sign <= i < text.len() implies '0' <= #[trigger] text[i] <= '9' by {
        let k = i - (text.len() - digits.len());
        if k >= 0 {
            assert(text[i] == digits[k]);
        }
    }
}

/// The number that hexadecimal digits in lower case tell.
pub open spec fn hex_number_of(digits: Seq<char>) -> int
    decreases digits.len(),
{
    if digits.len() == 0 {
        0
    } else {
        16 * hex_number_of(digits.drop_last()) + (if digits.last() <= '9' {
            digits.last() as int - '0' as int
        } else {
            digits.last() as int - 'a' as int + 10
        })
    }
}

/// The hexadecimal digits of a number tell it, if they are enough, and there are as many as asked
/// for.
pub proof fn law_hex_digits_tell_their_number(n: nat, width: nat)
    ensures
        hex_text(n, width).len() == width,
        forall|i: int|
            0 <= i < width ==> '0' <= #[trigger] hex_text(n, width)[i] <= '9' || 'a' <= hex_text(
                n,
                width,
            )[i] <= 'f',
        n < vstd::arithmetic::power::pow(16, width) ==> hex_number_of(hex_text(n, width)) == n,
    decreases width,
{
    reveal(vstd::arithmetic::power::pow);
    if width > 0 {
        let w = (width - 1) as nat;
        let text = hex_text(n, width);
        law_hex_digits_tell_their_number(n / 16, w);
        assert(text.drop_last() =~= hex_text(n / 16, w));
        assert(vstd::arithmetic::power::pow(16, width) == 16 * vstd::arithmetic::power::pow(16, w));
        assert forall|i: int| 0 <= i < width implies '0' <= #[trigger] text[i] <= '9' || 'a'
            <= text[i] <= 'f' by {
            if i < width - 1 {
                assert(text[i] == hex_text(n / 16, w)[i]);
            }
        }
    }
}

/// Lower case changes the letters `A` to `Z` alone, each to the letter 32 places further on.
pub proof fn law_lower_case_changes_capitals_alone(text: Seq<char>)
    ensures
        ascii_lower(text).len() == text.len(),
        forall|i: int|
            0 <= i < text.len() ==> (#[trigger] ascii_lower(text)[i]) as int == text[i] as int + if 65
                <= text[i] as int <= 90 {
                32int
            } else {
                0int
            },
{
}

/// White space is what Unicode lists under that property.
pub proof fn law_white_space(c: char)
    ensures
        is_white_space(c) <==> seq![
            0x09int,
            0x0a,
            0x0b,
            0x0c,
            0x0d,
            0x20,
            0x85,
            0xa0,
            0x1680,
            0x2000,
            0x2001,
            0x2002,
            0x2003,
            0x2004,
            0x2005,
            0x2006,
            0x2007,
            0x2008,
            0x2009,
            0x200a,
            0x2028,
            0x2029,
            0x202f,
            0x205f,
            0x3000,
        ].contains(c as int),
{
    let all = seq![
        0x09int,
        0x0a,
        0x0b,
        0x0c,
        0x0d,
        0x20,
        0x85,
        0xa0,
        0x1680,
        0x2000,
        0x2001,
        0x2002,
        0x2003,
        0x2004,
        0x2005,
        0x2006,
        0x2007,
        0x2008,
        0x2009,
        0x200a,
        0x2028,
        0x2029,
        0x202f,
        0x205f,
        0x3000,
    ];
    if is_white_space(c) {
        let n = c as int;
        let place: int = if n <= 0x0d {
            n - 9
        } else if n == 0x20 {
            5
        } else if n == 0x85 {
            6
        } else if n == 0xa0 {
            7
        } else if n == 0x1680 {
            8
        } else if n <= 0x200a {
            n - 0x2000 + 9
        } else if n == 0x2028 {
            20
        } else if n == 0x2029 {
            21
        } else if n == 0x202f {
            22
        } else if n == 0x205f {
            23
        } else {
            24
        };
        assert(all[place] == n);
    }
}

/// Trimming takes away white space at either end and nothing else, and leaves none there.
pub proof fn law_trimming_takes_white_space_alone(text: Seq<char>) -> (cut: (int, int))
    ensures
        0 <= cut.0 <= cut.1 <= text.len(),
        trimmed(text) == text.subrange(cut.0, cut.1),
        forall|i: int| 0 <= i < cut.0 ==> is_white_space(#[trigger] text[i]),
        forall|i: int| cut.1 <= i < text.len() ==> is_white_space(#[trigger] text[i]),
        cut.0 < cut.1 ==> !is_white_space(text[cut.0]) && !is_white_space(text[cut.1 - 1]),
{
    let from = lemma_trimmed_start(text);
    let rest = text.skip(from);
    let count = lemma_trimmed_end(rest);
    assert(rest.take(count) =~= text.subrange(from, from + count));
    assert forall|i: int| from + count <= i < text.len() implies is_white_space(#[trigger] text[i]) by {
        assert(rest[i - from] == text[i]);
    }
    if count > 0 {
        assert(rest[count - 1] == text[from + count - 1]);
    }
    (from, from + count)
}

proof fn lemma_trimmed_start(text: Seq<char>) -> (from: int)
    ensures
        0 <= from <= text.len(),
        trimmed_start(text) == text.skip(from),
        forall|i: int| 0 <= i < from ==> is_white_space(#[trigger] text[i]),
        from < text.len() ==> !is_white_space(text[from]),
    decreases text.len(),
{
    if text.len() > 0 && is_white_space(text[0]) {
        let rest = text.skip(1);
        let from = lemma_trimmed_start(rest);
        assert(rest.skip(from) =~= text.skip(from + 1));
        assert forall|i: int| 0 <= i < from + 1 implies is_white_space(#[trigger] text[i]) by {
            if i > 0 {
                assert(rest[i - 1] == text[i]);
            }
        }
        from + 1
    } else {
        assert(text.skip(0) =~= text);
        0
    }
}

proof fn lemma_trimmed_end(text: Seq<char>) -> (count: int)
    ensures
        0 <= count <= text.len(),
        trimmed_end(text) == text.take(count),
        forall|i: int| count <= i < text.len() ==> is_white_space(#[trigger] text[i]),
        count > 0 ==> !is_white_space(text[count - 1]),
    decreases text.len(),
{
    if text.len() > 0 && is_white_space(text.last()) {
        let rest = text.drop_last();
        let count = lemma_trimmed_end(rest);
        assert(rest.take(count) =~= text.take(count));
        assert forall|i: int| count <= i < text.len() implies is_white_space(#[trigger] text[i]) by {
            if i < rest.len() {
                assert(rest[i] == text[i]);
            }
        }
        count
    } else {
        assert(text.take(text.len() as int) =~= text);
        text.len() as int
    }
}

/// A text comes before each of its continuations.
pub proof fn law_start_comes_before_continuation(start: Seq<char>, rest: Seq<char>)
    requires
        rest.len() > 0,
    ensures
        text_before(start, start + rest),
    decreases start.len(),
{
    if start.len() > 0 {
        law_start_comes_before_continuation(start.skip(1), rest);
        assert((start + rest).skip(1) =~= start.skip(1) + rest);
    }
}

} // verus!
