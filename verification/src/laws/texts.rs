//! Laws of texts, numbers, header values and JSON strings.

use crate::headers::{field_text, has_room, header_fields, header_text, values_of};
use crate::json::{escaped, escaped_char, is_one_line, quoted};
use crate::text::{
    decimal, digits_value, kept_items, lemma_split_nonempty, list_items,
    lower, same_but_case, size_value, split, str_view, text_view, trim, trim_end, trim_start,
    utf8_prefix, views,
};
use http::HeaderMap;
use vstd::prelude::*;
use vstd::utf8::*;

verus! {

broadcast use vstd::seq_lib::group_seq_properties;

/// White space is a tab, a line feed, a vertical tab, a form feed, a carriage return, a space, or
/// one of the further characters that Unicode counts as such.
pub proof fn white_space_characters(c: char)
    ensures
        crate::text::is_white_space(c) <==> {
            ||| c == '\t'
            ||| c == '\n'
            ||| c == '\u{b}'
            ||| c == '\u{c}'
            ||| c == '\r'
            ||| c == ' '
            ||| c == '\u{85}'
            ||| c == '\u{a0}'
            ||| c == '\u{1680}'
            ||| '\u{2000}' <= c <= '\u{200a}'
            ||| c == '\u{2028}'
            ||| c == '\u{2029}'
            ||| c == '\u{202f}'
            ||| c == '\u{205f}'
            ||| c == '\u{3000}'
        },
{
}

proof fn lemma_trim_start(s: Seq<char>) -> (i: int)
    ensures
        0 <= i <= s.len(),
        trim_start(s) == s.subrange(i, s.len() as int),
        forall|k: int| 0 <= k < i ==> crate::text::is_white_space(#[trigger] s[k]),
        i < s.len() ==> !crate::text::is_white_space(s[i]),
    decreases s.len(),
{
    if s.len() > 0 && crate::text::is_white_space(s.first()) {
        let rest = s.drop_first();
        let j = lemma_trim_start(rest);
        assert(rest.subrange(j, rest.len() as int) =~= s.subrange(j + 1, s.len() as int));
        assert forall|k: int| 0 <= k < j + 1 implies crate::text::is_white_space(
            #[trigger] s[k],
        ) by {
            if k > 0 {
                assert(rest[k - 1] == s[k]);
            }
        }
        if j + 1 < s.len() {
            assert(rest[j] == s[j + 1]);
        }
        j + 1
    } else {
        assert(s.subrange(0, s.len() as int) =~= s);
        0
    }
}

proof fn lemma_trim_end(s: Seq<char>) -> (j: int)
    ensures
        0 <= j <= s.len(),
        trim_end(s) == s.subrange(0, j),
        forall|k: int| j <= k < s.len() ==> crate::text::is_white_space(#[trigger] s[k]),
        j > 0 ==> !crate::text::is_white_space(s[j - 1]),
    decreases s.len(),
{
    if s.len() > 0 && crate::text::is_white_space(s.last()) {
        let rest = s.drop_last();
        let j = lemma_trim_end(rest);
        assert(rest.subrange(0, j) =~= s.subrange(0, j));
        assert forall|k: int| j <= k < s.len() implies crate::text::is_white_space(
            #[trigger] s[k],
        ) by {
            if k < s.len() - 1 {
                assert(rest[k] == s[k]);
            }
        }
        if j > 0 {
            assert(rest[j - 1] == s[j - 1]);
        }
        j
    } else {
        assert(s.subrange(0, s.len() as int) =~= s);
        s.len() as int
    }
}

/// Trimming takes away white space at both ends, all of it, and nothing else.
pub proof fn trimming(s: Seq<char>) -> (ends: (int, int))
    ensures
        0 <= ends.0 <= ends.1 <= s.len(),
        trim(s) == s.subrange(ends.0, ends.1),
        forall|k: int| 0 <= k < ends.0 ==> crate::text::is_white_space(#[trigger] s[k]),
        forall|k: int| ends.1 <= k < s.len() ==> crate::text::is_white_space(#[trigger] s[k]),
        trim(s).len() > 0 ==> !crate::text::is_white_space(trim(s).first())
            && !crate::text::is_white_space(trim(s).last()),
{
    let i = lemma_trim_start(s);
    let t = trim_start(s);
    let j = lemma_trim_end(t);
    assert(t.subrange(0, j) =~= s.subrange(i, i + j));
    assert forall|k: int| i + j <= k < s.len() implies crate::text::is_white_space(
        #[trigger] s[k],
    ) by {
        assert(t[k - i] == s[k]);
    }
    if j > 0 {
        assert(t[0] == s[i]);
    }
    (i, i + j)
}

/// The pieces in a row, with `sep` between them.
pub open spec fn rejoined(pieces: Seq<Seq<char>>, sep: char) -> Seq<char>
    decreases pieces.len(),
{
    if pieces.len() == 0 {
        Seq::empty()
    } else if pieces.len() == 1 {
        pieces[0]
    } else {
        rejoined(pieces.drop_last(), sep).push(sep) + pieces.last()
    }
}

/// Splitting cuts a text at the separator, everywhere and nowhere else: no piece holds it, and the
/// pieces with the separator between them are the text.
pub proof fn splitting(s: Seq<char>, sep: char)
    ensures
        split(s, sep).len() > 0,
        rejoined(split(s, sep), sep) == s,
        forall|k: int|
            0 <= k < split(s, sep).len() ==> !(#[trigger] split(s, sep)[k]).contains(sep),
    decreases s.len(),
{
    lemma_split_nonempty(s, sep);
    if s.len() > 0 {
        let rest = s.drop_last();
        let c = s.last();
        splitting(rest, sep);
        let before = split(rest, sep);
        let now = split(s, sep);
        assert(rest.push(c) =~= s);
        if c == sep {
            assert(now.drop_last() =~= before);
            assert(rejoined(now, sep) =~= s);
            assert forall|k: int| 0 <= k < now.len() implies !(#[trigger] now[k]).contains(sep) by {
                if k < before.len() {
                    assert(now[k] == before[k]);
                }
            }
        } else {
            assert(now.drop_last() =~= before.drop_last());
            assert(now.last() == before.last().push(c));
            assert(rejoined(now, sep) =~= rejoined(before, sep).push(c));
            assert forall|k: int| 0 <= k < now.len() implies !(#[trigger] now[k]).contains(sep) by {
                if k < before.len() - 1 {
                    assert(now[k] == before[k]);
                } else {
                    assert(!before[before.len() - 1].contains(sep));
                    if now[k].contains(sep) {
                        let i = now[k].index_of(sep);
                        assert(i < before.last().len());
                        assert(before.last()[i] == sep);
                    }
                }
            }
        }
    }
}

/// A list is its pieces between the commas, trimmed, without those that are then empty.
pub proof fn listing(s: Seq<char>)
    ensures
        list_items(s) == split(s, ',').map_values(|p: Seq<char>| trim(p)).filter(
            |p: Seq<char>| p.len() > 0,
        ),
{
    lemma_kept_items(split(s, ','));
}

proof fn lemma_kept_items(pieces: Seq<Seq<char>>)
    ensures
        kept_items(pieces) == pieces.map_values(|p: Seq<char>| trim(p)).filter(
            |p: Seq<char>| p.len() > 0,
        ),
    decreases pieces.len(),
{
    reveal(Seq::filter);
    let trims = pieces.map_values(|p: Seq<char>| trim(p));
    if pieces.len() > 0 {
        lemma_kept_items(pieces.drop_last());
        assert(trims.drop_last() =~= pieces.drop_last().map_values(|p: Seq<char>| trim(p)));
        assert(trims.last() == trim(pieces.last()));
    }
}

/// Lower case replaces each ASCII capital by the small letter, and leaves the rest.
pub proof fn lower_case_letters(s: Seq<char>)
    ensures
        lower(s).len() == s.len(),
        forall|i: int|
            0 <= i < s.len() ==> if 'A' <= s[i] <= 'Z' {
                (#[trigger] lower(s)[i]) as int == s[i] as int + 32
            } else {
                lower(s)[i] == s[i]
            },
{
}

/// Texts are the same but for case if they are the same in lower case.
pub proof fn same_in_lower_case(a: Seq<char>, b: Seq<char>)
    ensures
        same_but_case(a, b) <==> lower(a) == lower(b),
{
}

/// The value of digits: nothing stands for zero, and each further digit counts the others ten
/// times.
pub proof fn digits_count_tenfold(s: Seq<char>, c: char)
    requires
        '0' <= c <= '9',
    ensures
        digits_value(Seq::empty()) == 0,
        digits_value(s.push(c)) == 10 * digits_value(s) + (c as int - 48),
{
    assert(s.push(c).drop_last() =~= s);
}

/// A number in decimal is digits that stand for it, without a zero in front.
pub proof fn decimal_stands_for_its_number(n: nat)
    ensures
        digits_value(decimal(n)) == n,
        decimal(n).len() > 0,
        n >= 10 ==> decimal(n)[0] != '0',
        forall|i: int| 0 <= i < decimal(n).len() ==> '0' <= #[trigger] decimal(n)[i] <= '9',
    decreases n,
{
    if n >= 10 {
        decimal_stands_for_its_number(n / 10);
        let d = crate::text::digit(n % 10);
        digits_count_tenfold(decimal(n / 10), d);
        assert(decimal(n)[0] == decimal(n / 10)[0]);
        if n < 100 {
            assert(0 < n / 10 < 10);
            assert(decimal(n / 10)[0] == crate::text::digit(n / 10));
        }
    } else {
        let d = crate::text::digit(n);
        digits_count_tenfold(Seq::empty(), d);
        assert(decimal(n) =~= Seq::<char>::empty().push(d));
    }
}

/// Digits, with or without a plus sign in front, state the size that they stand for, where it is
/// one.
pub proof fn sizes_of_digits(s: Seq<char>)
    requires
        s.len() > 0,
        forall|i: int| 0 <= i < s.len() ==> '0' <= #[trigger] s[i] <= '9',
    ensures
        size_value(s) == (if digits_value(s) <= usize::MAX {
            Some(digits_value(s) as usize)
        } else {
            None
        }),
        size_value(seq!['+'] + s) == size_value(s),
{
    assert('0' <= s[0] <= '9');
    assert((seq!['+'] + s).drop_first() =~= s);
}

/// Nothing but digits with or without a plus sign in front states a size.
pub proof fn only_digits_state_sizes(s: Seq<char>, i: int)
    requires
        s.len() == 0 || s == seq!['+'] || {
            &&& 0 <= i < s.len()
            &&& !('0' <= s[i] <= '9')
            &&& i > 0 || s[i] != '+'
        },
    ensures
        size_value(s) is None,
{
    if s.len() > 0 && s != seq!['+'] {
        let digits = crate::text::digits_of(s);
        if s.first() == '+' {
            assert(digits[i - 1] == s[i]);
        } else {
            assert(digits[i] == s[i]);
        }
    }
}

/// The cut text is a beginning of the text that takes at most `max` bytes, and no longer beginning
/// does.
pub proof fn cutting_keeps_the_most(s: Seq<char>, max: nat, other: Seq<char>)
    requires
        other.is_prefix_of(s),
        encode_utf8(other).len() <= max,
    ensures
        utf8_prefix(s, max).is_prefix_of(s),
        encode_utf8(utf8_prefix(s, max)).len() <= max,
        other.len() <= utf8_prefix(s, max).len(),
    decreases s.len(),
{
    crate::text::lemma_utf8_prefix(s, max);
    if s.len() > 0 && encode_utf8(s).len() > max {
        if other.len() == s.len() {
            assert(other =~= s);
        } else {
            assert(other.is_prefix_of(s.drop_last())) by {
                assert(other =~= s.drop_last().subrange(0, other.len() as int));
            }
            cutting_keeps_the_most(s.drop_last(), max, other);
        }
    }
}

/// A header value is text if all its bytes are visible ASCII, spaces or tabs; its characters are
/// then those bytes.
pub proof fn header_values_as_text(value: Seq<u8>)
    ensures
        header_text(value) is Some <==> (forall|i: int|
            0 <= i < value.len() ==> (32 <= #[trigger] value[i] <= 126 || value[i] == 9)),
        header_text(value) matches Some(t) ==> t.len() == value.len() && (forall|i: int|
            0 <= i < value.len() ==> (#[trigger] t[i]) as int == value[i] as int),
{
    assert(forall|b: u8|
        #[trigger] crate::headers::is_visible(b) <==> (32 <= b <= 126 || b == 9));
    if header_text(value) is Some {
        assert(forall|i: int|
            0 <= i < value.len() ==> crate::headers::is_visible(#[trigger] value[i]));
    }
}

/// The values of a field are those that the map holds under its name in lower case.
pub proof fn fields_by_name(headers: HeaderMap, name: Seq<char>)
    ensures
        header_fields(headers).dom().contains(lower(name)) ==> values_of(headers, name)
            == header_fields(headers)[lower(name)],
        !header_fields(headers).dom().contains(lower(name)) ==> values_of(headers, name).len() == 0,
{
}

/// The text of a field is that of its first value.
pub proof fn text_of_a_field(headers: HeaderMap, name: Seq<char>)
    ensures
        values_of(headers, name).len() == 0 ==> field_text(headers, name) is None,
        values_of(headers, name).len() > 0 ==> field_text(headers, name) == header_text(
            values_of(headers, name)[0],
        ),
{
}

/// Optional texts are there with their characters, or are not there.
pub proof fn optional_texts(owned: String, borrowed: &str)
    ensures
        text_view(Some(owned)) == Some(owned@),
        text_view(None) is None,
        str_view(Some(borrowed)) == Some(borrowed@),
        str_view(None) is None,
{
}

/// Lists of texts stand for the characters of each, in their order.
pub proof fn lists_of_texts(pieces: Seq<&str>)
    ensures
        views(pieces).len() == pieces.len(),
        forall|i: int| 0 <= i < pieces.len() ==> #[trigger] views(pieces)[i] == pieces[i]@,
{
}

/// A text is one line if it holds neither a line feed nor a carriage return.
pub proof fn single_lines(s: Seq<char>)
    ensures
        is_one_line(s) <==> !s.contains('\n') && !s.contains('\r'),
{
    if is_one_line(s) {
        assert(forall|i: int| 0 <= i < s.len() ==> s[i] != '\n' && s[i] != '\r');
    }
}

/// There is surely room for one more field beside up to 6553 names.
pub proof fn room_for_one_more(headers: HeaderMap)
    ensures
        has_room(headers) <==> header_fields(headers).dom().finite() && header_fields(
            headers,
        ).dom().len() < 6554,
{
}

/// In a JSON string a quotation mark, a backslash and the common control characters are written
/// with a backslash and a letter, the other control characters with their number, and every other
/// character as it is.
pub proof fn json_characters(c: char)
    ensures
        c == '"' ==> escaped(seq![c]) == seq!['\\', '"'],
        c == '\\' ==> escaped(seq![c]) == seq!['\\', '\\'],
        c == '\n' ==> escaped(seq![c]) == seq!['\\', 'n'],
        c == '\r' ==> escaped(seq![c]) == seq!['\\', 'r'],
        c == '\t' ==> escaped(seq![c]) == seq!['\\', 't'],
        c == '\u{8}' ==> escaped(seq![c]) == seq!['\\', 'b'],
        c == '\u{c}' ==> escaped(seq![c]) == seq!['\\', 'f'],
        c as int >= 32 && c != '"' && c != '\\' ==> escaped(seq![c]) == seq![c],
        (c as int) < 32 && c != '\n' && c != '\r' && c != '\t' && c != '\u{8}' && c != '\u{c}'
            ==> {
            let text = escaped(seq![c]);
            let high = text[4] as int - 48;
            let low = if text[5] <= '9' {
                text[5] as int - 48
            } else {
                text[5] as int - 87
            };
            text.len() == 6 && text.take(4) == seq!['\\', 'u', '0', '0'] && 0 <= high <= 1 && 0
                <= low <= 15 && 16 * high + low == c as int
        },
{
    let one = seq![c];
    assert(one.drop_last() =~= Seq::<char>::empty());
    assert(escaped(one.drop_last()) =~= Seq::<char>::empty());
    assert(one.last() == c);
    assert(escaped(one) =~= escaped_char(c));
    if (c as int) < 32 {
        let v = c as u32;
        assert(v / 16 < 2 && v % 16 < 16 && v == 16 * (v / 16) + v % 16);
        let text = escaped_char(c);
        if c != '\n' && c != '\r' && c != '\t' && c != '\u{8}' && c != '\u{c}' {
            assert(text.take(4) =~= seq!['\\', 'u', '0', '0']);
        }
    }
}

/// A JSON string is written character by character, between quotation marks.
pub proof fn json_strings(a: Seq<char>, b: Seq<char>)
    ensures
        quoted(a) == seq!['"'] + escaped(a) + seq!['"'],
        escaped(Seq::empty()) == Seq::<char>::empty(),
        escaped(a + b) == escaped(a) + escaped(b),
    decreases b.len(),
{
    if b.len() == 0 {
        assert(a + b =~= a);
        assert(escaped(a) + escaped(b) =~= escaped(a));
    } else {
        assert((a + b).drop_last() =~= a + b.drop_last());
        json_strings(a, b.drop_last());
        assert(escaped(a + b) =~= escaped(a) + escaped(b));
    }
}

/// A text without quotation marks, backslashes and control characters is written as it is.
pub proof fn plain_json_strings(s: Seq<char>)
    requires
        forall|i: int|
            0 <= i < s.len() ==> (#[trigger] s[i]) as int >= 32 && s[i] != '"' && s[i] != '\\',
    ensures
        quoted(s) == seq!['"'] + s + seq!['"'],
    decreases s.len(),
{
    lemma_plain_escaped(s);
}

proof fn lemma_plain_escaped(s: Seq<char>)
    requires
        forall|i: int|
            0 <= i < s.len() ==> (#[trigger] s[i]) as int >= 32 && s[i] != '"' && s[i] != '\\',
    ensures
        escaped(s) == s,
    decreases s.len(),
{
    if s.len() > 0 {
        let rest = s.drop_last();
        assert forall|i: int| 0 <= i < rest.len() implies (#[trigger] rest[i]) as int >= 32
            && rest[i] != '"' && rest[i] != '\\' by {
            assert(rest[i] == s[i]);
        }
        lemma_plain_escaped(rest);
        assert(s[s.len() - 1] as int >= 32);
        assert(escaped(s) =~= s);
    }
}

} // verus!
