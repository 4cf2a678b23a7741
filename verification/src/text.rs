//! Text handling on sequences of characters.
use vstd::prelude::*;

verus! {

/// `String::push` appends the given character to the end of the string.
pub assume_specification[ String::push ](text: &mut String, c: char)
    ensures
        final(text)@ == old(text)@.push(c),
;

/// The characters of the Unicode property White_Space.
pub open spec fn is_white_space(c: char) -> bool {
    let n = c as u32;
    ||| 0x9 <= n <= 0xd
    ||| n == 0x20
    ||| n == 0x85
    ||| n == 0xa0
    ||| n == 0x1680
    ||| 0x2000 <= n <= 0x200a
    ||| n == 0x2028
    ||| n == 0x2029
    ||| n == 0x202f
    ||| n == 0x205f
    ||| n == 0x3000
}

/// Whether a character is Unicode white space.
pub fn white_space(c: char) -> (r: bool)
    ensures
        r == is_white_space(c),
{
    let n: u32 = c as u32;
    (0x9 <= n && n <= 0xd) || n == 0x20 || n == 0x85 || n == 0xa0 || n == 0x1680 || (0x2000 <= n
        && n <= 0x200a) || n == 0x2028 || n == 0x2029 || n == 0x202f || n == 0x205f || n == 0x3000
}

/// Whether a text is empty.
pub fn is_empty(text: &String) -> (r: bool)
    ensures
        r == (text@.len() == 0),
{
    let r: bool = *text == String::new();
    proof {
        if text@.len() == 0 {
            assert(text@ =~= Seq::<char>::empty());
        }
    }
    r
}

/// `String::from_utf8`, with its error left out: the text that some bytes
/// encode, where they are valid UTF-8.
#[verifier::external_body]
pub(crate) fn text_from_utf8(bytes: Vec<u8>) -> (r: Option<String>)
    ensures
        r is Some == vstd::utf8::valid_utf8(bytes@),
        r is Some ==> r->0@ == vstd::utf8::decode_utf8(bytes@),
{
    String::from_utf8(bytes).ok()
}

/// The characters of a text.
pub(crate) fn chars_of(text: &str) -> (r: Vec<char>)
    ensures
        r@ == text@,
{
    let mut chars: Vec<char> = Vec::new();
    for c in iter: text.chars()
        invariant
            iter.seq() == text@,
            chars@ == text@.take(iter.index()),
    {
        proof {
            assert(text@.take(iter.index() + 1) =~= text@.take(iter.index()).push(c));
        }
        chars.push(c);
    }
    proof {
        assert(text@.take(text@.len() as int) =~= text@);
    }
    chars
}

/// The text of the characters from `from` up to `to`.
pub(crate) fn text_of(chars: &Vec<char>, from: usize, to: usize) -> (r: String)
    requires
        from <= to <= chars@.len(),
    ensures
        r@ == chars@.subrange(from as int, to as int),
{
    let mut text: String = String::new();
    let mut i: usize = from;
    while i < to
        invariant
            from <= i <= to <= chars@.len(),
            text@ == chars@.subrange(from as int, i as int),
        decreases to - i,
    {
        text.push(chars[i]);
        proof {
            assert(chars@.subrange(from as int, i + 1) =~= chars@.subrange(
                from as int,
                i as int,
            ).push(chars@[i as int]));
        }
        i = i + 1;
    }
    text
}

/// A text without its leading white space.
pub open spec fn trim_start(text: Seq<char>) -> Seq<char>
    decreases text.len(),
{
    if text.len() > 0 && is_white_space(text[0]) {
        trim_start(text.drop_first())
    } else {
        text
    }
}

/// A text without its trailing white space.
pub open spec fn trim_end(text: Seq<char>) -> Seq<char>
    decreases text.len(),
{
    if text.len() > 0 && is_white_space(text.last()) {
        trim_end(text.drop_last())
    } else {
        text
    }
}

/// A text without white space around it.
pub open spec fn trimmed(text: Seq<char>) -> Seq<char> {
    trim_end(trim_start(text))
}

/// Removes the white space at both ends of a text.
pub fn trim(text: &str) -> (r: String)
    ensures
        r@ == trimmed(text@),
{
    let chars: Vec<char> = chars_of(text);
    let mut from: usize = 0;
    proof {
        assert(text@.skip(0) =~= text@);
    }
    while from < chars.len() && white_space(chars[from])
        invariant
            chars@ == text@,
            from <= chars@.len(),
            trim_start(text@) == trim_start(text@.skip(from as int)),
        decreases chars@.len() - from,
    {
        proof {
            assert(text@.skip(from as int).drop_first() =~= text@.skip(from + 1));
        }
        from = from + 1;
    }
    let mut to: usize = chars.len();
    proof {
        assert(text@.subrange(from as int, to as int) =~= text@.skip(from as int));
    }
    while to > from && white_space(chars[to - 1])
        invariant
            chars@ == text@,
            from <= to <= chars@.len(),
            trim_end(text@.skip(from as int)) == trim_end(text@.subrange(from as int, to as int)),
        decreases to - from,
    {
        proof {
            assert(text@.subrange(from as int, to as int).drop_last() =~= text@.subrange(
                from as int,
                to - 1,
            ));
        }
        to = to - 1;
    }
    text_of(&chars, from, to)
}

/// What stands before and after the first occurrence of a separator.
pub open spec fn split_text(text: Seq<char>, separator: char) -> Option<(Seq<char>, Seq<char>)> {
    match text.index_of_first(separator) {
        Some(i) => Some((text.take(i), text.skip(i + 1))),
        None => None,
    }
}

/// Splits a text at the first occurrence of a separator.
pub fn split_once(text: &str, separator: char) -> (r: Option<(String, String)>)
    ensures
        match r {
            Some((head, tail)) => text@ == head@ + seq![separator] + tail@ && !head@.contains(
                separator,
            ),
            None => !text@.contains(separator),
        },
        match r {
            Some((head, tail)) => split_text(text@, separator) == Some((head@, tail@)),
            None => split_text(text@, separator) is None,
        },
{
    let chars: Vec<char> = chars_of(text);
    proof {
        text@.index_of_first_ensures(separator);
    }
    let mut i: usize = 0;
    while i < chars.len()
        invariant
            chars@ == text@,
            i <= chars@.len(),
            forall|j: int| 0 <= j < i ==> chars@[j] != separator,
        decreases chars@.len() - i,
    {
        if chars[i] == separator {
            let head: String = text_of(&chars, 0, i);
            let tail: String = text_of(&chars, i + 1, chars.len());
            proof {
                assert(text@ =~= head@ + seq![separator] + tail@);
                text@.index_of_first_ensures(separator);
                assert(text@[i as int] == separator);
                assert(head@ =~= text@.take(i as int));
                assert(tail@ =~= text@.skip(i + 1));
            }
            return Some((head, tail));
        }
        i = i + 1;
    }
    None
}

/// There is only one way to split a text at the first occurrence of a separator.
pub proof fn lemma_split_unique(
    head1: Seq<char>,
    tail1: Seq<char>,
    head2: Seq<char>,
    tail2: Seq<char>,
    separator: char,
)
    requires
        head1 + seq![separator] + tail1 == head2 + seq![separator] + tail2,
        !head1.contains(separator),
        !head2.contains(separator),
    ensures
        head1 == head2,
        tail1 == tail2,
{
    let s1 = head1 + seq![separator] + tail1;
    let s2 = head2 + seq![separator] + tail2;
    if head1.len() < head2.len() {
        assert(s1[head1.len() as int] == separator);
        assert(s2[head1.len() as int] == head2[head1.len() as int]);
        assert(head2.contains(separator));
    }
    if head2.len() < head1.len() {
        assert(s2[head2.len() as int] == separator);
        assert(s1[head2.len() as int] == head1[head2.len() as int]);
        assert(head1.contains(separator));
    }
    assert(head1 =~= s1.take(head1.len() as int));
    assert(head2 =~= s2.take(head2.len() as int));
    assert(tail1 =~= s1.skip(head1.len() as int + 1));
    assert(tail2 =~= s2.skip(head2.len() as int + 1));
}

/// Texts joined with a separator between them.
pub open spec fn joined(parts: Seq<Seq<char>>, separator: Seq<char>) -> Seq<char>
    decreases parts.len(),
{
    if parts.len() == 0 {
        Seq::empty()
    } else if parts.len() == 1 {
        parts[0]
    } else {
        joined(parts.drop_last(), separator) + separator + parts.last()
    }
}

/// The texts that a vector of strings holds.
pub open spec fn texts(parts: Seq<String>) -> Seq<Seq<char>> {
    Seq::new(parts.len(), |i: int| parts[i]@)
}

/// The texts that a sequence of string slices holds.
pub open spec fn slice_texts(parts: Seq<&str>) -> Seq<Seq<char>> {
    Seq::new(parts.len(), |i: int| parts[i]@)
}

/// Joins texts with a separator between them.
pub fn join(parts: &[&str], separator: &str) -> (r: String)
    ensures
        r@ == joined(slice_texts(parts@), separator@),
{
    let mut text: String = String::new();
    let mut i: usize = 0;
    let ghost all = slice_texts(parts@);
    while i < parts.len()
        invariant
            all == slice_texts(parts@),
            i <= parts@.len(),
            text@ == joined(all.take(i as int), separator@),
        decreases parts@.len() - i,
    {
        if i > 0 {
            text.append(separator);
        }
        text.append(parts[i]);
        proof {
            assert(all.take(i + 1).drop_last() =~= all.take(i as int));
            assert(Seq::<char>::empty() + all[0] =~= all[0]);
        }
        i = i + 1;
    }
    proof {
        assert(all.take(all.len() as int) =~= all);
    }
    text
}

/// Whether `needle` stands in `text` at position `i`.
pub open spec fn stands_at(text: Seq<char>, needle: Seq<char>, i: int) -> bool {
    0 <= i && i + needle.len() <= text.len() && text.subrange(i, i + needle.len()) == needle
}

/// Whether `needle` stands anywhere in `text`.
pub open spec fn holds_text(text: Seq<char>, needle: Seq<char>) -> bool {
    exists|i: int| #[trigger] stands_at(text, needle, i)
}

/// Whether a text stands in another one.
pub fn contains_text(text: &str, needle: &str) -> (r: bool)
    ensures
        r == holds_text(text@, needle@),
{
    let chars: Vec<char> = chars_of(text);
    let wanted: Vec<char> = chars_of(needle);
    if chars.len() < wanted.len() {
        return false;
    }
    let total: usize = chars.len();
    let last: usize = total - wanted.len();
    let mut i: usize = 0;
    loop
        invariant
            chars@ == text@,
            wanted@ == needle@,
            total == chars@.len(),
            last == total - wanted@.len(),
            i <= last,
            forall|k: int| 0 <= k < i ==> !stands_at(text@, needle@, k),
        decreases last - i,
    {
        let mut j: usize = 0;
        while j < wanted.len() && chars[i + j] == wanted[j]
            invariant
                chars@ == text@,
                wanted@ == needle@,
                total == chars@.len(),
                i + wanted@.len() <= total,
                j <= wanted@.len(),
                forall|k: int| 0 <= k < j ==> chars@[i + k] == wanted@[k],
            decreases wanted@.len() - j,
        {
            j = j + 1;
        }
        if j == wanted.len() {
            proof {
                assert(text@.subrange(i as int, i + needle@.len()) =~= needle@);
                assert(stands_at(text@, needle@, i as int));
            }
            return true;
        }
        proof {
            if stands_at(text@, needle@, i as int) {
                assert(text@.subrange(i as int, i + needle@.len())[j as int] == needle@[j as int]);
            }
        }
        if i == last {
            return false;
        }
        i = i + 1;
    }
}

/// The character of a decimal digit.
pub open spec fn digit_char(d: nat) -> char {
    (48 + d) as char
}

/// A number in decimal notation, without leading zeros.
pub open spec fn decimal_text(n: nat) -> Seq<char>
    decreases n,
{
    if n < 10 {
        seq![digit_char(n)]
    } else {
        decimal_text(n / 10).push(digit_char(n % 10))
    }
}

/// Writes a number in decimal notation.
pub fn decimal(n: u64) -> (r: String)
    ensures
        r@ == decimal_text(n as nat),
    decreases n,
{
    let mut text: String = if n < 10 {
        String::new()
    } else {
        decimal(n / 10)
    };
    let d: u8 = (n % 10) as u8;
    text.push((48 + d) as char);
    proof {
        assert(text@ =~= decimal_text(n as nat));
    }
    text
}

/// Every character of a decimal notation is a digit.
pub proof fn lemma_decimal_digits(n: nat)
    ensures
        decimal_text(n).len() > 0,
        forall|i: int| 0 <= i < decimal_text(n).len() ==> '0' <= #[trigger] decimal_text(n)[i] <= '9',
    decreases n,
{
    if n >= 10 {
        lemma_decimal_digits(n / 10);
    }
}

/// The number that a decimal notation stands for.
pub open spec fn decimal_value(text: Seq<char>) -> int
    decreases text.len(),
{
    if text.len() == 0 {
        0
    } else {
        decimal_value(text.drop_last()) * 10 + (text.last() as u32 - 48)
    }
}

/// Reading a decimal notation gives back the number it was made from.
pub proof fn law_decimal_read_back(n: nat)
    ensures
        decimal_value(decimal_text(n)) == n,
    decreases n,
{
    reveal_with_fuel(decimal_value, 2);
    if n >= 10 {
        law_decimal_read_back(n / 10);
        assert(decimal_text(n).drop_last() =~= decimal_text(n / 10));
    } else {
        assert(decimal_text(n).drop_last() =~= Seq::<char>::empty());
    }
}

/// These characters are white space, and no others.
pub proof fn law_white_space(c: char)
    ensures
        is_white_space(c) <==> seq![
            '\u{9}',
            '\u{a}',
            '\u{b}',
            '\u{c}',
            '\u{d}',
            '\u{20}',
            '\u{85}',
            '\u{a0}',
            '\u{1680}',
            '\u{2000}',
            '\u{2001}',
            '\u{2002}',
            '\u{2003}',
            '\u{2004}',
            '\u{2005}',
            '\u{2006}',
            '\u{2007}',
            '\u{2008}',
            '\u{2009}',
            '\u{200a}',
            '\u{2028}',
            '\u{2029}',
            '\u{202f}',
            '\u{205f}',
            '\u{3000}',
        ].contains(c),
{
    let all = seq![
        '\u{9}',
        '\u{a}',
        '\u{b}',
        '\u{c}',
        '\u{d}',
        '\u{20}',
        '\u{85}',
        '\u{a0}',
        '\u{1680}',
        '\u{2000}',
        '\u{2001}',
        '\u{2002}',
        '\u{2003}',
        '\u{2004}',
        '\u{2005}',
        '\u{2006}',
        '\u{2007}',
        '\u{2008}',
        '\u{2009}',
        '\u{200a}',
        '\u{2028}',
        '\u{2029}',
        '\u{202f}',
        '\u{205f}',
        '\u{3000}',
    ];
    let n = c as u32;
    if is_white_space(c) {
        if 0x9 <= n <= 0xd {
            assert(all[n - 0x9] == c);
        } else if n == 0x20 {
            assert(all[5] == c);
        } else if n == 0x85 {
            assert(all[6] == c);
        } else if n == 0xa0 {
            assert(all[7] == c);
        } else if n == 0x1680 {
            assert(all[8] == c);
        } else if 0x2000 <= n <= 0x200a {
            assert(all[9 + n - 0x2000] == c);
        } else if n == 0x2028 {
            assert(all[20] == c);
        } else if n == 0x2029 {
            assert(all[21] == c);
        } else if n == 0x202f {
            assert(all[22] == c);
        } else if n == 0x205f {
            assert(all[23] == c);
        } else {
            assert(all[24] == c);
        }
    }
}

/// Where the white space before a text ends.
proof fn lemma_trim_start(text: Seq<char>) -> (i: int)
    ensures
        0 <= i <= text.len(),
        trim_start(text) == text.skip(i),
        forall|k: int| 0 <= k < i ==> is_white_space(#[trigger] text[k]),
        i < text.len() ==> !is_white_space(text[i]),
    decreases text.len(),
{
    if text.len() > 0 && is_white_space(text[0]) {
        let rest = text.drop_first();
        let i = lemma_trim_start(rest);
        assert(rest.skip(i) =~= text.skip(i + 1));
        assert forall|k: int| 0 <= k < i + 1 implies is_white_space(#[trigger] text[k]) by {
            if k > 0 {
                assert(rest[k - 1] == text[k]);
            }
        }
        if i < rest.len() {
            assert(rest[i] == text[i + 1]);
        }
        i + 1
    } else {
        assert(text.skip(0) =~= text);
        0
    }
}

/// Where the white space behind a text begins.
proof fn lemma_trim_end(text: Seq<char>) -> (j: int)
    ensures
        0 <= j <= text.len(),
        trim_end(text) == text.take(j),
        forall|k: int| j <= k < text.len() ==> is_white_space(#[trigger] text[k]),
        j > 0 ==> !is_white_space(text[j - 1]),
    decreases text.len(),
{
    if text.len() > 0 && is_white_space(text.last()) {
        let rest = text.drop_last();
        let j = lemma_trim_end(rest);
        assert(rest.take(j) =~= text.take(j));
        assert forall|k: int| j <= k < text.len() implies is_white_space(#[trigger] text[k]) by {
            if k < rest.len() {
                assert(rest[k] == text[k]);
            }
        }
        if j > 0 {
            assert(rest[j - 1] == text[j - 1]);
        }
        j
    } else {
        assert(text.take(text.len() as int) =~= text);
        text.len() as int
    }
}

/// Trimming a text takes white space off its ends, all of it and nothing else.
pub proof fn law_trimmed(text: Seq<char>)
    ensures
        exists|i: int, j: int|
            {
                &&& 0 <= i <= j <= text.len()
                &&& trimmed(text) == #[trigger] text.subrange(i, j)
                &&& forall|k: int|
                    0 <= k < i || j <= k < text.len() ==> is_white_space(#[trigger] text[k])
                &&& i < j ==> !is_white_space(text[i]) && !is_white_space(text[j - 1])
            },
{
    let i = lemma_trim_start(text);
    let rest = text.skip(i);
    let j = lemma_trim_end(rest);
    assert(rest.take(j) =~= text.subrange(i, i + j));
    assert forall|k: int| 0 <= k < i || i + j <= k < text.len() implies is_white_space(
        #[trigger] text[k],
    ) by {
        if k >= i {
            assert(rest[k - i] == text[k]);
        }
    }
    if j > 0 {
        assert(rest[0] == text[i]);
        assert(rest[j - 1] == text[i + j - 1]);
    }
}

/// A text splits at the first separator, and one without a separator does not.
pub proof fn law_split_text(head: Seq<char>, tail: Seq<char>, text: Seq<char>, separator: char)
    ensures
        !head.contains(separator) ==> split_text(head + seq![separator] + tail, separator) == Some(
            (head, tail),
        ),
        split_text(text, separator) is None <==> !text.contains(separator),
{
    text.index_of_first_ensures(separator);
    if !head.contains(separator) {
        let whole = head + seq![separator] + tail;
        whole.index_of_first_ensures(separator);
        assert(whole[head.len() as int] == separator);
        assert(whole.contains(separator));
        let i = whole.index_of_first(separator)->0;
        if i < head.len() {
            assert(whole[i] == head[i]);
        }
        assert(whole.take(i) =~= head);
        assert(whole.skip(i + 1) =~= tail);
    }
}

/// Joining puts the separator between the texts, and nothing else.
pub proof fn law_joined(parts: Seq<Seq<char>>, part: Seq<char>, separator: Seq<char>)
    ensures
        joined(Seq::empty(), separator) == Seq::<char>::empty(),
        joined(seq![part], separator) == part,
        parts.len() > 0 ==> joined(parts.push(part), separator) == joined(parts, separator)
            + separator + part,
{
    assert(parts.push(part).drop_last() =~= parts);
}

/// A text holds another one just where it is that one with something before
/// and something behind it.
pub proof fn law_holds_text(
    before: Seq<char>,
    needle: Seq<char>,
    behind: Seq<char>,
    text: Seq<char>,
)
    ensures
        holds_text(before + needle + behind, needle),
        holds_text(text, needle) ==> exists|i: int|
            0 <= i <= text.len() - needle.len() && text == #[trigger] text.take(i) + needle
                + text.skip(i + needle.len()),
{
    let whole = before + needle + behind;
    assert(whole.subrange(before.len() as int, (before.len() + needle.len()) as int) =~= needle);
    assert(stands_at(whole, needle, before.len() as int));
    if holds_text(text, needle) {
        let i = choose|i: int| #[trigger] stands_at(text, needle, i);
        assert(text =~= text.take(i) + text.subrange(i, i + needle.len()) + text.skip(
            i + needle.len(),
        ));
    }
}

/// The notation of a digit is its character, and the notation of a larger
/// number is that of its tens followed by that of its ones.
pub proof fn law_decimal_notation(tens: nat, ones: nat)
    requires
        ones < 10,
    ensures
        decimal_text(ones).len() == 1,
        decimal_text(ones)[0] as u32 == 48 + ones,
        tens > 0 ==> decimal_text(10 * tens + ones) == decimal_text(tens) + decimal_text(ones),
{
    if tens > 0 {
        let n = 10 * tens + ones;
        assert(n / 10 == tens && n % 10 == ones);
        assert(decimal_text(n) =~= decimal_text(tens) + decimal_text(ones));
    }
}

/// Strings and string slices are taken one by one.
pub proof fn law_texts(strings: Seq<String>, slices: Seq<&str>, i: int)
    ensures
        texts(strings).len() == strings.len(),
        slice_texts(slices).len() == slices.len(),
        0 <= i < strings.len() ==> texts(strings)[i] == strings[i]@,
        0 <= i < slices.len() ==> slice_texts(slices)[i] == slices[i]@,
{
}

} // verus!
