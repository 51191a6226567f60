//! The plain text operations that requests and replies are read and written with.

use vstd::prelude::*;
use vstd::string::*;
use vstd::utf8::*;

verus! {

broadcast use vstd::string::group_string_axioms;

/// `std::str::from_utf8`: the text that the bytes encode, or `None` where they are not valid
/// UTF-8.
#[verifier::external_body]
pub(crate) fn utf8_text(bytes: &[u8]) -> (res: Option<&str>)
    ensures
        res is Some <==> valid_utf8(bytes@),
        res matches Some(text) ==> text@ == decode_utf8(bytes@),
{
    std::str::from_utf8(bytes).ok()
}

/// The characters of an optional piece of text.
pub open spec fn text_view(text: Option<String>) -> Option<Seq<char>> {
    match text {
        Some(t) => Some(t@),
        None => None,
    }
}

/// The characters of an optional borrowed piece of text.
pub open spec fn str_view(text: Option<&str>) -> Option<Seq<char>> {
    match text {
        Some(t) => Some(t@),
        None => None,
    }
}

/// The characters of `s`, one by one.
pub(crate) fn chars_of(s: &str) -> (res: Vec<char>)
    ensures
        res@ == s@,
{
    let mut res: Vec<char> = Vec::new();
    for c in it: s.chars()
        invariant
            res@.len() == it.index(),
            forall|i: int| 0 <= i < res@.len() ==> res@[i] == it.seq()[i],
            it.seq() == s@,
    {
        res.push(c);
    }
    assert(res@ =~= s@);
    res
}

/// Whether two character lists are the same.
fn same_chars(a: &Vec<char>, b: &Vec<char>) -> (res: bool)
    ensures
        res == (a@ == b@),
{
    if a.len() != b.len() {
        return false;
    }
    let mut i: usize = 0;
    while i < a.len()
        invariant
            i <= a@.len(),
            a@.len() == b@.len(),
            forall|j: int| 0 <= j < i ==> a@[j] == b@[j],
        decreases a@.len() - i,
    {
        if a[i] != b[i] {
            return false;
        }
        i += 1;
    }
    assert(a@ =~= b@);
    true
}

/// Whether two texts are the same.
pub(crate) fn same_text(a: &str, b: &str) -> (res: bool)
    ensures
        res == (a@ == b@),
{
    same_chars(&chars_of(a), &chars_of(b))
}

/// Whether `s` ends with `suffix`.
pub(crate) fn ends_with(s: &str, suffix: &str) -> (res: bool)
    ensures
        res == suffix@.is_suffix_of(s@),
{
    let s_chars = chars_of(s);
    let tail = chars_of(suffix);
    if tail.len() > s_chars.len() {
        return false;
    }
    let start: usize = s_chars.len() - tail.len();
    let mut i: usize = 0;
    while i < tail.len()
        invariant
            i <= tail@.len(),
            start + tail.len() == s_chars.len(),
            s_chars@ == s@,
            tail@ == suffix@,
            forall|j: int| 0 <= j < i ==> s_chars@[start + j] == tail@[j],
        decreases tail@.len() - i,
    {
        if s_chars[start + i] != tail[i] {
            proof {
                let whole = s@.subrange(start as int, s@.len() as int);
                assert(whole[i as int] == s_chars@[start + i]);
            }
            return false;
        }
        i += 1;
    }
    assert(s@.subrange(start as int, s@.len() as int) =~= suffix@);
    true
}

/// The Unicode property White_Space.
pub open spec fn is_white_space(c: char) -> bool {
    let n = c as u32;
    ||| 0x9 <= n <= 0xd
    ||| n == 0x20
    ||| n == 0x85
    ||| n == 0xa0
    ||| n == 0x1680
    ||| 0x2000 <= n <= 0x200a
    ||| n == 0x2028
    ||| n == 0x2029
    ||| n == 0x202f
    ||| n == 0x205f
    ||| n == 0x3000
}

fn white_space(c: char) -> (res: bool)
    ensures
        res == is_white_space(c),
{
    let n: u32 = c as u32;
    (0x9 <= n && n <= 0xd) || n == 0x20 || n == 0x85 || n == 0xa0 || n == 0x1680 || (0x2000 <= n
        && n <= 0x200a) || n == 0x2028 || n == 0x2029 || n == 0x202f || n == 0x205f || n == 0x3000
}

/// `s` without its leading white space.
pub open spec fn trim_start(s: Seq<char>) -> Seq<char>
    decreases s.len(),
{
    if s.len() > 0 && is_white_space(s.first()) {
        trim_start(s.drop_first())
    } else {
        s
    }
}

/// `s` without its trailing white space.
pub open spec fn trim_end(s: Seq<char>) -> Seq<char>
    decreases s.len(),
{
    if s.len() > 0 && is_white_space(s.last()) {
        trim_end(s.drop_last())
    } else {
        s
    }
}

/// `s` without the white space around it.
pub open spec fn trim(s: Seq<char>) -> Seq<char> {
    trim_end(trim_start(s))
}

/// The part of `s` between the white space around it.
pub(crate) fn trimmed(s: &str) -> (res: &str)
    ensures
        res@ == trim(s@),
{
    let chars = chars_of(s);
    let mut start: usize = 0;
    assert(s@.subrange(0, s@.len() as int) =~= s@);
    while start < chars.len() && white_space(chars[start])
        invariant
            start <= chars@.len(),
            chars@ == s@,
            trim_start(s@) == trim_start(s@.subrange(start as int, s@.len() as int)),
        decreases chars@.len() - start,
    {
        assert(s@.subrange(start as int, s@.len() as int).drop_first() =~= s@.subrange(
            start + 1,
            s@.len() as int,
        ));
        start += 1;
    }
    let mut end: usize = chars.len();
    while end > start && white_space(chars[end - 1])
        invariant
            start <= end <= chars@.len(),
            chars@ == s@,
            trim_end(trim_start(s@)) == trim_end(s@.subrange(start as int, end as int)),
        decreases end,
    {
        assert(s@.subrange(start as int, end as int).drop_last() =~= s@.subrange(
            start as int,
            end - 1,
        ));
        end -= 1;
    }
    s.substring_char(start, end)
}

/// The pieces of `s` between the occurrences of `sep`: always one more than there are
/// occurrences.
pub open spec fn split(s: Seq<char>, sep: char) -> Seq<Seq<char>>
    decreases s.len(),
{
    if s.len() == 0 {
        seq![Seq::<char>::empty()]
    } else {
        let before = split(s.drop_last(), sep);
        if s.last() == sep {
            before.push(Seq::empty())
        } else {
            before.update(before.len() - 1, before.last().push(s.last()))
        }
    }
}

/// Splitting gives at least one piece.
pub(crate) proof fn lemma_split_nonempty(s: Seq<char>, sep: char)
    ensures
        split(s, sep).len() > 0,
    decreases s.len(),
{
    if s.len() > 0 {
        lemma_split_nonempty(s.drop_last(), sep);
    }
}

/// The views of a list of texts.
pub open spec fn views(pieces: Seq<&str>) -> Seq<Seq<char>> {
    pieces.map_values(|p: &str| p@)
}

/// Cuts `s` at each occurrence of `sep`.
pub(crate) fn split_at_each<'a>(s: &'a str, sep: char) -> (res: Vec<&'a str>)
    ensures
        views(res@) == split(s@, sep),
{
    let chars = chars_of(s);
    let mut res: Vec<&'a str> = Vec::new();
    let mut start: usize = 0;
    let mut i: usize = 0;
    assert(s@.take(0) =~= Seq::<char>::empty());
    assert(views(res@).push(s@.subrange(0, 0)) =~= split(s@.take(0), sep));
    while i < chars.len()
        invariant
            start <= i <= chars@.len(),
            chars@ == s@,
            views(res@).push(s@.subrange(start as int, i as int)) == split(s@.take(i as int), sep),
        decreases chars@.len() - i,
    {
        let ghost before = views(res@);
        let ghost last = s@.subrange(start as int, i as int);
        assert(s@.take(i + 1).drop_last() =~= s@.take(i as int));
        assert(s@.take(i + 1).last() == chars@[i as int]);
        assert(before.push(last).last() == last);
        if chars[i] == sep {
            let piece = s.substring_char(start, i);
            res.push(piece);
            assert(views(res@) =~= before.push(last));
            start = i + 1;
            assert(s@.subrange(start as int, i + 1) =~= Seq::<char>::empty());
        } else {
            assert(s@.subrange(start as int, i + 1) =~= last.push(chars@[i as int]));
            assert(before.push(last).update(before.len() as int, last.push(chars@[i as int]))
                =~= before.push(last.push(chars@[i as int])));
        }
        i += 1;
    }
    assert(s@.take(i as int) =~= s@);
    let ghost before = views(res@);
    let piece = s.substring_char(start, chars.len());
    res.push(piece);
    assert(views(res@) =~= before.push(s@.subrange(start as int, s@.len() as int)));
    res
}

/// The lower-case form of an ASCII capital; any other character itself.
pub open spec fn lower_char(c: char) -> char {
    if 'A' <= c <= 'Z' {
        ((c as u32) + 32) as char
    } else {
        c
    }
}

/// `s` with its ASCII capitals in lower case.
pub open spec fn lower(s: Seq<char>) -> Seq<char> {
    s.map_values(|c: char| lower_char(c))
}

fn lower_case(c: char) -> (res: char)
    ensures
        res == lower_char(c),
{
    if 'A' <= c && c <= 'Z' {
        ((c as u8) + 32) as char
    } else {
        c
    }
}

/// Whether two texts are the same but for the case of ASCII letters.
pub(crate) fn same_ignoring_case(a: &str, b: &str) -> (res: bool)
    ensures
        res == same_but_case(a@, b@),
{
    let x = chars_of(a);
    let y = chars_of(b);
    if x.len() != y.len() {
        assert(lower(a@).len() != lower(b@).len());
        return false;
    }
    let mut i: usize = 0;
    while i < x.len()
        invariant
            i <= x@.len(),
            x@.len() == y@.len(),
            x@ == a@,
            y@ == b@,
            forall|j: int| 0 <= j < i ==> lower_char(x@[j]) == lower_char(y@[j]),
        decreases x@.len() - i,
    {
        if lower_case(x[i]) != lower_case(y[i]) {
            assert(lower(a@)[i as int] != lower(b@)[i as int]);
            return false;
        }
        i += 1;
    }
    assert(lower(a@) =~= lower(b@));
    true
}

/// Two texts are the same but for the case of ASCII letters.
pub open spec fn same_but_case(a: Seq<char>, b: Seq<char>) -> bool {
    lower(a) == lower(b)
}

/// The items of a comma-separated list: the pieces between the commas, without the white space
/// around them, and without those that are then empty.
pub open spec fn list_items(s: Seq<char>) -> Seq<Seq<char>> {
    kept_items(split(s, ','))
}

/// The pieces without the white space around them, and without those that are then empty.
pub open spec fn kept_items(pieces: Seq<Seq<char>>) -> Seq<Seq<char>>
    decreases pieces.len(),
{
    if pieces.len() == 0 {
        Seq::empty()
    } else {
        let before = kept_items(pieces.drop_last());
        let item = trim(pieces.last());
        if item.len() == 0 {
            before
        } else {
            before.push(item)
        }
    }
}

/// Reads a comma-separated list.
pub(crate) fn items_of<'a>(s: &'a str) -> (res: Vec<&'a str>)
    ensures
        views(res@) == list_items(s@),
{
    let pieces = split_at_each(s, ',');
    let mut res: Vec<&'a str> = Vec::new();
    let mut i: usize = 0;
    assert(views(pieces@).take(0) =~= Seq::<Seq<char>>::empty());
    assert(views(res@) =~= Seq::<Seq<char>>::empty());
    while i < pieces.len()
        invariant
            i <= pieces@.len(),
            views(res@) == kept_items(views(pieces@).take(i as int)),
        decreases pieces@.len() - i,
    {
        let item = trimmed(pieces[i]);
        assert(views(pieces@).take(i + 1).drop_last() =~= views(pieces@).take(i as int));
        assert(views(pieces@).take(i + 1).last() == pieces@[i as int]@);
        if !item.is_empty() {
            let ghost before = views(res@);
            res.push(item);
            assert(views(res@) =~= before.push(item@));
        }
        i += 1;
    }
    assert(views(pieces@).take(i as int) =~= views(pieces@));
    res
}

/// The character of a decimal digit.
pub open spec fn digit(d: nat) -> char
    recommends
        d < 10,
{
    (('0' as u32) + d) as char
}

/// `n` written in decimal, without leading zeros.
pub open spec fn decimal(n: nat) -> Seq<char>
    decreases n,
{
    if n < 10 {
        seq![digit(n)]
    } else {
        decimal(n / 10).push(digit(n % 10))
    }
}

fn digit_text(d: u64) -> (res: &'static str)
    requires
        d < 10,
    ensures
        res@ == seq![digit(d as nat)],
{
    proof {
        reveal_strlit("0");
        reveal_strlit("1");
        reveal_strlit("2");
        reveal_strlit("3");
        reveal_strlit("4");
        reveal_strlit("5");
        reveal_strlit("6");
        reveal_strlit("7");
        reveal_strlit("8");
        reveal_strlit("9");
    }
    let res: &'static str = match d {
        0 => "0",
        1 => "1",
        2 => "2",
        3 => "3",
        4 => "4",
        5 => "5",
        6 => "6",
        7 => "7",
        8 => "8",
        _ => "9",
    };
    assert(res@ =~= seq![digit(d as nat)]);
    res
}

/// Writes `n` in decimal.
pub(crate) fn decimal_text(n: u64) -> (res: String)
    ensures
        res@ == decimal(n as nat),
    decreases n,
{
    let mut res = if n < 10 {
        String::new()
    } else {
        decimal_text(n / 10)
    };
    res.append(digit_text(n % 10));
    assert(res@ =~= decimal(n as nat));
    res
}

/// A decimal digit.
pub open spec fn is_digit(c: char) -> bool {
    '0' <= c <= '9'
}

/// The number that a run of decimal digits stands for.
pub open spec fn digits_value(s: Seq<char>) -> nat
    decreases s.len(),
{
    if s.len() == 0 {
        0
    } else {
        digits_value(s.drop_last()) * 10 + ((s.last() as u32) - ('0' as u32)) as nat
    }
}

/// A run of decimal digits, with or without a plus sign in front.
pub open spec fn digits_of(s: Seq<char>) -> Seq<char> {
    if s.len() > 0 && s.first() == '+' {
        s.drop_first()
    } else {
        s
    }
}

/// The size that a text states: an optional plus sign and at least one decimal digit, and
/// nothing else; `None` where it is anything else or too large for a `usize`.
pub open spec fn size_value(s: Seq<char>) -> Option<usize> {
    let digits = digits_of(s);
    if digits.len() > 0 && (forall|i: int| 0 <= i < digits.len() ==> is_digit(#[trigger] digits[i]))
        && digits_value(digits) <= usize::MAX {
        Some(digits_value(digits) as usize)
    } else {
        None
    }
}

/// Further digits never make a number smaller.
proof fn lemma_digits_value_grows(s: Seq<char>, k: int)
    requires
        0 <= k <= s.len(),
        forall|i: int| 0 <= i < s.len() ==> is_digit(#[trigger] s[i]),
    ensures
        digits_value(s.take(k)) <= digits_value(s),
    decreases s.len(),
{
    if k == s.len() {
        assert(s.take(k) =~= s);
    } else {
        let t = s.drop_last();
        assert forall|i: int| 0 <= i < t.len() implies is_digit(#[trigger] t[i]) by {
            assert(t[i] == s[i]);
        }
        lemma_digits_value_grows(t, k);
        assert(t.take(k) =~= s.take(k));
        assert(is_digit(s[s.len() - 1]));
    }
}

/// Reads a size from a text.
pub(crate) fn parse_size(s: &str) -> (res: Option<usize>)
    ensures
        res == size_value(s@),
{
    let chars = chars_of(s);
    let start: usize = if chars.len() > 0 && chars[0] == '+' {
        1
    } else {
        0
    };
    let ghost digits = digits_of(s@);
    assert(digits =~= chars@.subrange(start as int, chars@.len() as int));
    if start == chars.len() {
        return None;
    }
    let mut value: usize = 0;
    let mut i: usize = start;
    let mut fits = true;
    assert(digits.take(0) =~= Seq::<char>::empty());
    while i < chars.len()
        invariant
            start <= i <= chars@.len(),
            digits == digits_of(s@),
            digits == chars@.subrange(start as int, chars@.len() as int),
            forall|j: int| 0 <= j < i - start ==> is_digit(#[trigger] digits[j]),
            fits ==> value == digits_value(digits.take(i - start)),
            !fits ==> exists|k: int|
                0 <= k <= i - start && digits_value(#[trigger] digits.take(k)) > usize::MAX,
        decreases chars@.len() - i,
    {
        let c = chars[i];
        assert(digits[i - start] == c);
        if !('0' <= c && c <= '9') {
            return None;
        }
        let d: usize = (c as u32 - '0' as u32) as usize;
        assert(digits.take(i - start + 1).drop_last() =~= digits.take(i - start));
        assert(digits.take(i - start + 1).last() == c);
        if fits {
            if value > (usize::MAX - d) / 10 {
                fits = false;
                assert(digits_value(digits.take(i - start + 1)) > usize::MAX);
            } else {
                value = value * 10 + d;
            }
        }
        i += 1;
    }
    assert(digits.take(i - start) =~= digits);
    if fits {
        Some(value)
    } else {
        proof {
            let k = choose|k: int|
                0 <= k <= digits.len() && digits_value(#[trigger] digits.take(k)) > usize::MAX;
            lemma_digits_value_grows(digits, k);
        }
        None
    }
}

/// The longest prefix of `s` that takes at most `max` bytes in UTF-8.
pub open spec fn utf8_prefix(s: Seq<char>, max: nat) -> Seq<char>
    decreases s.len(),
{
    if s.len() == 0 || encode_utf8(s).len() <= max {
        s
    } else {
        utf8_prefix(s.drop_last(), max)
    }
}

/// The longest prefix that fits is a prefix, and fits.
pub(crate) proof fn lemma_utf8_prefix(s: Seq<char>, max: nat)
    ensures
        utf8_prefix(s, max).is_prefix_of(s),
        encode_utf8(utf8_prefix(s, max)).len() <= max,
    decreases s.len(),
{
    if s.len() > 0 && encode_utf8(s).len() > max {
        lemma_utf8_prefix(s.drop_last(), max);
    }
}

/// UTF-8 encodes a text piece by piece.
pub(crate) proof fn lemma_encode_concat(a: Seq<char>, b: Seq<char>)
    ensures
        encode_utf8(a + b) == encode_utf8(a) + encode_utf8(b),
    decreases a.len(),
{
    if a.len() == 0 {
        assert(a + b =~= b);
        assert(encode_utf8(a) + encode_utf8(b) =~= encode_utf8(b));
    } else {
        assert((a + b).drop_first() =~= a.drop_first() + b);
        lemma_encode_concat(a.drop_first(), b);
        assert(encode_utf8(a + b) =~= encode_utf8(a) + encode_utf8(b));
    }
}

/// The end of a prefix is a character boundary of the whole.
proof fn lemma_prefix_boundary(a: Seq<char>, b: Seq<char>)
    ensures
        is_char_boundary(encode_utf8(a + b), encode_utf8(a).len() as int),
    decreases a.len(),
{
    encode_utf8_valid_utf8(a + b);
    if a.len() > 0 {
        let whole = a + b;
        assert(whole.drop_first() =~= a.drop_first() + b);
        lemma_prefix_boundary(a.drop_first(), b);
        encode_utf8_first_scalar(whole);
        encode_utf8_first_scalar(a);
        lemma_encode_concat(a, b);
        assert(pop_first_scalar(encode_utf8(whole)) =~= encode_utf8(whole.drop_first()));
        assert(whole[0] == a[0]);
    }
}

/// A prefix that fits, and that one more character would make too long, is the longest.
proof fn lemma_longest_prefix(s: Seq<char>, k: int, max: nat)
    requires
        0 <= k <= s.len(),
        encode_utf8(s.take(k)).len() <= max,
        k < s.len() ==> encode_utf8(s.take(k + 1)).len() > max,
    ensures
        utf8_prefix(s, max) == s.take(k),
    decreases s.len(),
{
    if k == s.len() {
        assert(s.take(k) =~= s);
    } else {
        let t = s.drop_last();
        lemma_encode_concat(s.take(k + 1), s.skip(k + 1));
        assert(s.take(k + 1) + s.skip(k + 1) =~= s);
        assert(t.take(k) =~= s.take(k));
        if k < t.len() {
            assert(t.take(k + 1) =~= s.take(k + 1));
        }
        lemma_longest_prefix(t, k, max);
    }
}

/// Cuts `s` to at most `max` bytes of UTF-8, at the last character boundary that leaves it so.
pub(crate) fn cut_to_bytes(s: &str, max: usize) -> (res: &str)
    ensures
        res@ == utf8_prefix(s@, max as nat),
{
    let ghost bytes = encode_utf8(s@);
    let len = s.as_bytes().len();
    if len <= max {
        return s;
    }
    proof {
        encode_utf8_valid_utf8(s@);
        is_char_boundary_start_end_of_seq(bytes);
    }
    let mut end: usize = max;
    while end > 0 && !s.is_char_boundary(end)
        invariant
            end <= max,
            bytes == encode_utf8(s@),
            forall|j: int| end < j <= max ==> !#[trigger] is_char_boundary(bytes, j),
        decreases end,
    {
        end -= 1;
    }
    let (head, tail) = s.split_at(end);
    proof {
        let k = head@.len() as int;
        encode_utf8_decode_utf8(s@);
        encode_utf8_decode_utf8(head@);
        encode_utf8_decode_utf8(tail@);
        decode_utf8_split(bytes, end as int);
        assert(s@ == head@ + tail@);
        assert(s@.take(k) =~= head@);
        if k < s@.len() {
            let longer = s@.take(k + 1);
            let more = s@.skip(k + 1);
            assert(longer + more =~= s@);
            lemma_prefix_boundary(longer, more);
            assert(longer =~= head@ + seq![s@[k]]);
            lemma_encode_concat(head@, seq![s@[k]]);
            encode_utf8_first_scalar(seq![s@[k]]);
        }
        lemma_longest_prefix(s@, k, max as nat);
    }
    head
}

} // verus!
