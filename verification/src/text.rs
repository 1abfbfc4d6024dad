//! Text: searching, splitting, trimming, and decimal numbers.
//!
//! Text is modelled as its sequence of characters.

use vstd::prelude::*;

verus! {

/// Whether `needle` stands in `hay` at position `at`.
pub open spec fn occurs_at(hay: Seq<char>, needle: Seq<char>, at: int) -> bool {
    &&& 0 <= at
    &&& at + needle.len() <= hay.len()
    &&& hay.subrange(at, at + needle.len()) == needle
}

/// Whether `needle` stands anywhere in `hay`.
pub open spec fn contains(hay: Seq<char>, needle: Seq<char>) -> bool {
    exists|at: int| occurs_at(hay, needle, at)
}

/// Whether `at` is the leftmost position at which `needle` stands in `hay`.
pub open spec fn occurs_first_at(hay: Seq<char>, needle: Seq<char>, at: int) -> bool {
    &&& occurs_at(hay, needle, at)
    &&& forall|before: int| before < at ==> !occurs_at(hay, needle, before)
}

/// What stands before and after the leftmost occurrence of `sep` in `text`, if there is one.
pub open spec fn split_once_spec(text: Seq<char>, sep: Seq<char>) -> Option<
    (Seq<char>, Seq<char>),
> {
    if contains(text, sep) {
        let at = choose|at: int| occurs_first_at(text, sep, at);
        Some((text.subrange(0, at), text.subrange(at + sep.len(), text.len() as int)))
    } else {
        None
    }
}

/// Whether `text` begins with `prefix`.
pub open spec fn has_prefix(text: Seq<char>, prefix: Seq<char>) -> bool {
    prefix.is_prefix_of(text)
}

/// Whether `text` ends with `suffix`.
pub open spec fn has_suffix(text: Seq<char>, suffix: Seq<char>) -> bool {
    suffix.is_suffix_of(text)
}

/// What follows `prefix` in `text`, if `text` begins with it.
pub open spec fn strip_prefix_spec(text: Seq<char>, prefix: Seq<char>) -> Option<Seq<char>> {
    if has_prefix(text, prefix) {
        Some(text.skip(prefix.len() as int))
    } else {
        None
    }
}

/// What precedes `suffix` in `text`, if `text` ends with it.
pub open spec fn strip_suffix_spec(text: Seq<char>, suffix: Seq<char>) -> Option<Seq<char>> {
    if has_suffix(text, suffix) {
        Some(text.take(text.len() - suffix.len()))
    } else {
        None
    }
}

/// `text` without the characters `c` that it begins with.
pub open spec fn trim_start_spec(text: Seq<char>, c: char) -> Seq<char>
    decreases text.len(),
{
    if text.len() > 0 && text[0] == c {
        trim_start_spec(text.drop_first(), c)
    } else {
        text
    }
}

/// `text` without the characters `c` that it ends with.
pub open spec fn trim_end_spec(text: Seq<char>, c: char) -> Seq<char>
    decreases text.len(),
{
    if text.len() > 0 && text.last() == c {
        trim_end_spec(text.drop_last(), c)
    } else {
        text
    }
}

/// `text` without the copies of `prefix` that it begins with.
pub open spec fn trim_prefixes_spec(text: Seq<char>, prefix: Seq<char>) -> Seq<char>
    decreases text.len(),
{
    if prefix.len() > 0 && has_prefix(text, prefix) {
        trim_prefixes_spec(text.skip(prefix.len() as int), prefix)
    } else {
        text
    }
}

/// The decimal digit of a number below ten.
pub open spec fn digit(d: int) -> char {
    ('0' as int + d) as char
}

/// The lower-case hexadecimal digit of a number below sixteen.
pub open spec fn hex_digit(d: int) -> char {
    if d < 10 {
        digit(d)
    } else {
        ('a' as int + d - 10) as char
    }
}

/// A natural number in decimal, without leading zeros.
pub open spec fn decimal_nat(n: nat) -> Seq<char>
    decreases n,
{
    if n < 10 {
        seq![digit(n as int)]
    } else {
        decimal_nat(n / 10).push(digit((n % 10) as int))
    }
}

/// An integer in decimal, with a minus sign where it is negative.
pub open spec fn decimal(n: int) -> Seq<char> {
    if n < 0 {
        seq!['-'] + decimal_nat((-n) as nat)
    } else {
        decimal_nat(n as nat)
    }
}

/// Where `needle` stands in `hay`, it stands at a leftmost position.
proof fn lemma_some_first(hay: Seq<char>, needle: Seq<char>, at: int) -> (first: int)
    requires
        occurs_at(hay, needle, at),
    ensures
        occurs_first_at(hay, needle, first),
    decreases at,
{
    if exists|before: int| before < at && occurs_at(hay, needle, before) {
        let before = choose|before: int| before < at && occurs_at(hay, needle, before);
        lemma_some_first(hay, needle, before)
    } else {
        at
    }
}

/// A leftmost occurrence is where the text is split.
pub proof fn lemma_split_at(text: Seq<char>, sep: Seq<char>, at: int)
    requires
        occurs_first_at(text, sep, at),
    ensures
        split_once_spec(text, sep) == Some(
            (text.subrange(0, at), text.subrange(at + sep.len(), text.len() as int)),
        ),
{
    let chosen = choose|at: int| occurs_first_at(text, sep, at);
    assert(occurs_first_at(text, sep, chosen));
    assert(chosen == at);
}

/// A text that is split is what stands before the separator, the separator, and what stands
/// after it; and the separator stands no further left.
pub proof fn lemma_split_parts(text: Seq<char>, sep: Seq<char>)
    ensures
        split_once_spec(text, sep) matches Some((before, after)) ==> {
            &&& text == before + sep + after
            &&& occurs_first_at(text, sep, before.len() as int)
        },
        split_once_spec(text, sep) is None <==> !contains(text, sep),
{
    if contains(text, sep) {
        let some = choose|at: int| occurs_at(text, sep, at);
        let first = lemma_some_first(text, sep, some);
        lemma_split_at(text, sep, first);
        let before = text.subrange(0, first);
        let after = text.subrange(first + sep.len(), text.len() as int);
        assert(text.subrange(first, first + sep.len()) == sep);
        assert(text =~= before + text.subrange(first, first + sep.len()) + after);
    }
}

/// The characters of a text.
pub fn chars_of(text: &str) -> (chars: Vec<char>)
    ensures
        chars@ == text@,
{
    let mut chars: Vec<char> = Vec::new();
    for c in it: text.chars()
        invariant
            it.seq() == text@,
            chars@ == text@.take(it.index() as int),
    {
        chars.push(c);
        assert(text@.take(it.index() + 1) =~= text@.take(it.index() as int).push(c));
    }
    assert(text@.take(text@.len() as int) =~= text@);
    chars
}

/// Whether two texts are equal.
pub fn same_text(a: &str, b: &str) -> (same: bool)
    ensures
        same == (a@ == b@),
{
    a.to_owned() == b.to_owned()
}

/// Whether `needle` stands in `hay` at position `at`.
fn occurs(hay: &Vec<char>, needle: &Vec<char>, at: usize) -> (found: bool)
    requires
        at + needle@.len() <= hay@.len(),
    ensures
        found == occurs_at(hay@, needle@, at as int),
{
    let end: usize = hay.len();
    let mut k: usize = 0;
    while k < needle.len()
        invariant
            end == hay@.len(),
            at + needle@.len() <= end,
            0 <= k <= needle@.len(),
            forall|j: int| 0 <= j < k ==> hay@[at + j] == needle@[j],
        decreases needle@.len() - k,
    {
        if hay[at + k] != needle[k] {
            assert(hay@.subrange(at as int, at + needle@.len())[k as int] != needle@[k as int]);
            return false;
        }
        k += 1;
    }
    assert(hay@.subrange(at as int, at + needle@.len()) =~= needle@);
    true
}

/// The leftmost position at which `needle` stands in `hay`.
fn find(hay: &Vec<char>, needle: &Vec<char>) -> (found: Option<usize>)
    ensures
        match found {
            Some(at) => occurs_first_at(hay@, needle@, at as int),
            None => !contains(hay@, needle@),
        },
{
    if needle.len() > hay.len() {
        return None;
    }
    let last: usize = hay.len() - needle.len();
    let mut at: usize = 0;
    loop
        invariant
            needle@.len() <= hay@.len(),
            last == hay@.len() - needle@.len(),
            at <= last,
            forall|before: int| before < at ==> !occurs_at(hay@, needle@, before),
        decreases last - at,
    {
        if occurs(hay, needle, at) {
            return Some(at);
        }
        if at == last {
            return None;
        }
        at += 1;
    }
}

/// A part of a text, by the positions of its characters.
fn part(text: &str, from: usize, to: usize) -> (res: String)
    requires
        from <= to <= text@.len(),
    ensures
        res@ == text@.subrange(from as int, to as int),
{
    text.substring_char(from, to).to_owned()
}

/// Splits `text` at the leftmost occurrence of `sep`.
pub fn split_once(text: &str, sep: &str) -> (res: Option<(String, String)>)
    ensures
        res.deep_view() == split_once_spec(text@, sep@),
{
    let chars = chars_of(text);
    let sep_chars = chars_of(sep);
    match find(&chars, &sep_chars) {
        Some(at) => {
            proof {
                lemma_split_at(text@, sep@, at as int);
            }
            let end: usize = chars.len();
            assert(at + sep@.len() <= end);
            let before = part(text, 0, at);
            let after = part(text, at + sep_chars.len(), end);
            Some((before, after))
        },
        None => None,
    }
}

/// Whether `text` begins with `prefix`.
pub fn starts_with(text: &str, prefix: &str) -> (res: bool)
    ensures
        res == has_prefix(text@, prefix@),
{
    let chars = chars_of(text);
    let prefix_chars = chars_of(prefix);
    if prefix_chars.len() > chars.len() {
        return false;
    }
    occurs(&chars, &prefix_chars, 0)
}

/// Removes `prefix` from the front of `text`, if it stands there.
pub fn strip_prefix(text: &str, prefix: &str) -> (res: Option<String>)
    ensures
        res.deep_view() == strip_prefix_spec(text@, prefix@),
{
    let chars = chars_of(text);
    let prefix_chars = chars_of(prefix);
    if prefix_chars.len() <= chars.len() && occurs(&chars, &prefix_chars, 0) {
        Some(part(text, prefix_chars.len(), chars.len()))
    } else {
        None
    }
}

/// Removes `suffix` from the end of `text`, if it stands there.
pub fn strip_suffix(text: &str, suffix: &str) -> (res: Option<String>)
    ensures
        res.deep_view() == strip_suffix_spec(text@, suffix@),
{
    let chars = chars_of(text);
    let suffix_chars = chars_of(suffix);
    if suffix_chars.len() <= chars.len() {
        let at: usize = chars.len() - suffix_chars.len();
        if occurs(&chars, &suffix_chars, at) {
            return Some(part(text, 0, at));
        }
    }
    None
}

/// Removes the characters `c` that `text` begins with.
pub fn trim_start(text: &str, c: char) -> (res: String)
    ensures
        res@ == trim_start_spec(text@, c),
{
    let chars = chars_of(text);
    let mut at: usize = 0;
    assert(text@.skip(0) =~= text@);
    while at < chars.len() && chars[at] == c
        invariant
            chars@ == text@,
            at <= chars@.len(),
            trim_start_spec(text@, c) == trim_start_spec(text@.skip(at as int), c),
        decreases chars@.len() - at,
    {
        assert(text@.skip(at as int).drop_first() =~= text@.skip(at + 1));
        at += 1;
    }
    assert(text@.skip(at as int) =~= text@.subrange(at as int, text@.len() as int));
    part(text, at, chars.len())
}

/// Removes the characters `c` that `text` ends with.
pub fn trim_end(text: &str, c: char) -> (res: String)
    ensures
        res@ == trim_end_spec(text@, c),
{
    let chars = chars_of(text);
    let mut end: usize = chars.len();
    assert(text@.take(text@.len() as int) =~= text@);
    while end > 0 && chars[end - 1] == c
        invariant
            chars@ == text@,
            end <= chars@.len(),
            trim_end_spec(text@, c) == trim_end_spec(text@.take(end as int), c),
        decreases end,
    {
        assert(text@.take(end as int).drop_last() =~= text@.take(end - 1));
        end -= 1;
    }
    assert(text@.take(end as int) =~= text@.subrange(0, end as int));
    part(text, 0, end)
}

/// Removes the copies of `prefix` that `text` begins with.
pub fn trim_prefixes(text: &str, prefix: &str) -> (res: String)
    ensures
        res@ == trim_prefixes_spec(text@, prefix@),
{
    let chars = chars_of(text);
    let prefix_chars = chars_of(prefix);
    let mut at: usize = 0;
    assert(text@.skip(0) =~= text@);
    while prefix_chars.len() > 0 && prefix_chars.len() <= chars.len() - at && occurs(
        &chars,
        &prefix_chars,
        at,
    )
        invariant
            chars@ == text@,
            prefix_chars@ == prefix@,
            at <= chars@.len(),
            trim_prefixes_spec(text@, prefix@) == trim_prefixes_spec(
                text@.skip(at as int),
                prefix@,
            ),
        decreases chars@.len() - at,
    {
        assert(text@.skip(at as int).subrange(0, prefix@.len() as int) =~= text@.subrange(
            at as int,
            at + prefix@.len(),
        ));
        assert(text@.skip(at as int).skip(prefix@.len() as int) =~= text@.skip(at + prefix@.len()));
        at += prefix_chars.len();
    }
    assert(has_prefix(text@.skip(at as int), prefix@) ==> text@.skip(at as int).subrange(
        0,
        prefix@.len() as int,
    ) =~= text@.subrange(at as int, at + prefix@.len()));
    assert(text@.skip(at as int) =~= text@.subrange(at as int, text@.len() as int));
    part(text, at, chars.len())
}

/// Appends a natural number in decimal.
fn append_nat(out: &mut String, n: u64)
    ensures
        final(out)@ == old(out)@ + decimal_nat(n as nat),
    decreases n,
{
    if n >= 10 {
        append_nat(out, n / 10);
    }
    let d: u64 = n % 10;
    proof {
        reveal_strlit("0");
        reveal_strlit("1");
        reveal_strlit("2");
        reveal_strlit("3");
        reveal_strlit("4");
        reveal_strlit("5");
        reveal_strlit("6");
        reveal_strlit("7");
        reveal_strlit("8");
        reveal_strlit("9");
    }
    let figure: &str = if d == 0 {
        "0"
    } else if d == 1 {
        "1"
    } else if d == 2 {
        "2"
    } else if d == 3 {
        "3"
    } else if d == 4 {
        "4"
    } else if d == 5 {
        "5"
    } else if d == 6 {
        "6"
    } else if d == 7 {
        "7"
    } else if d == 8 {
        "8"
    } else {
        "9"
    };
    assert(figure@ =~= seq![digit(d as int)]);
    out.append(figure);
    assert(out@ =~= old(out)@ + decimal_nat(n as nat));
}

/// A natural number in decimal.
pub fn nat_text(n: u64) -> (res: String)
    ensures
        res@ == decimal(n as int),
{
    let mut out = String::new();
    append_nat(&mut out, n);
    assert(out@ =~= decimal(n as int));
    out
}

/// An integer in decimal.
pub fn int_text(n: i64) -> (res: String)
    ensures
        res@ == decimal(n as int),
{
    let mut out = String::new();
    if n < 0 {
        proof {
            reveal_strlit("-");
        }
        let magnitude: u64 = (-(n as i128)) as u64;
        out.append("-");
        append_nat(&mut out, magnitude);
        assert("-"@ =~= seq!['-']);
        assert(out@ =~= decimal(n as int));
    } else {
        append_nat(&mut out, n as u64);
        assert(out@ =~= decimal(n as int));
    }
    out
}

// ---- What these are for ----

/// A text begins with another one exactly when something follows that one in it, and stripping
/// gives what follows.
pub proof fn law_prefixes(text: Seq<char>, prefix: Seq<char>, rest: Seq<char>)
    ensures
        has_prefix(prefix + rest, prefix),
        has_prefix(text, prefix) ==> text == prefix + text.skip(prefix.len() as int),
        strip_prefix_spec(text, prefix) == Some(rest) <==> text == prefix + rest,
        strip_prefix_spec(text, prefix) is Some <==> has_prefix(text, prefix),
{
    assert((prefix + rest).subrange(0, prefix.len() as int) =~= prefix);
    assert((prefix + rest).skip(prefix.len() as int) =~= rest);
    if has_prefix(text, prefix) {
        assert(text =~= prefix + text.skip(prefix.len() as int));
    }
}

/// A text ends with another one exactly when something precedes that one in it, and stripping
/// gives what precedes.
pub proof fn law_suffixes(text: Seq<char>, suffix: Seq<char>, rest: Seq<char>)
    ensures
        has_suffix(rest + suffix, suffix),
        has_suffix(text, suffix) ==> text == text.take(text.len() - suffix.len()) + suffix,
        strip_suffix_spec(text, suffix) == Some(rest) <==> text == rest + suffix,
        strip_suffix_spec(text, suffix) is Some <==> has_suffix(text, suffix),
{
    let whole = rest + suffix;
    assert(whole.subrange(whole.len() - suffix.len(), whole.len() as int) =~= suffix);
    assert(whole.take(whole.len() - suffix.len()) =~= rest);
    if has_suffix(text, suffix) {
        assert(text =~= text.take(text.len() - suffix.len()) + suffix);
    }
}

/// Whether a text is cut by the first of the separators in it.
pub open spec fn is_cut(
    text: Seq<char>,
    before: Seq<char>,
    sep: Seq<char>,
    after: Seq<char>,
) -> bool {
    &&& text == before + sep + after
    &&& forall|i: int|
        0 <= i < before.len() ==> #[trigger] text.subrange(i, i + sep.len()) != sep
}

/// A text is split where its first separator cuts it, and nowhere else.
pub proof fn law_split_cuts(
    text: Seq<char>,
    before: Seq<char>,
    sep: Seq<char>,
    after: Seq<char>,
)
    ensures
        split_once_spec(text, sep) == Some((before, after)) <==> is_cut(text, before, sep, after),
{
    lemma_split_parts(text, sep);
    if split_once_spec(text, sep) == Some((before, after)) {
        assert forall|i: int| 0 <= i < before.len() implies #[trigger] text.subrange(
            i,
            i + sep.len(),
        ) != sep by {
            assert(!occurs_at(text, sep, i));
        }
    }
    if is_cut(text, before, sep, after) {
        let at = before.len() as int;
        assert(text.subrange(at, at + sep.len()) =~= sep);
        assert(occurs_first_at(text, sep, at));
        lemma_split_at(text, sep, at);
        assert(text.subrange(0, at) =~= before);
        assert(text.subrange(at + sep.len(), text.len() as int) =~= after);
    }
}

/// A text is not split exactly when the separator stands nowhere in it.
pub proof fn law_no_split(text: Seq<char>, sep: Seq<char>)
    ensures
        split_once_spec(text, sep) is None <==> forall|i: int|
            0 <= i <= text.len() - sep.len() ==> #[trigger] text.subrange(i, i + sep.len()) != sep,
{
    lemma_split_parts(text, sep);
    if split_once_spec(text, sep) is None {
        assert forall|i: int| 0 <= i <= text.len() - sep.len() implies #[trigger] text.subrange(
            i,
            i + sep.len(),
        ) != sep by {
            assert(!occurs_at(text, sep, i));
        }
    }
    if contains(text, sep) {
        let at = choose|at: int| occurs_at(text, sep, at);
        assert(text.subrange(at, at + sep.len()) == sep);
    }
}

/// Whether a text holds nothing but one character.
pub open spec fn only(text: Seq<char>, c: char) -> bool {
    forall|i: int| 0 <= i < text.len() ==> #[trigger] text[i] == c
}

/// What is trimmed from the start of a text is all of a character that it begins with, and
/// nothing else.
pub proof fn law_trimmed_start(text: Seq<char>, c: char)
    ensures
        ({
            let rest = trim_start_spec(text, c);
            &&& rest.len() <= text.len()
            &&& only(text.take(text.len() - rest.len()), c)
            &&& text == text.take(text.len() - rest.len()) + rest
            &&& rest.len() > 0 ==> rest[0] != c
        }),
    decreases text.len(),
{
    let rest = trim_start_spec(text, c);
    if text.len() > 0 && text[0] == c {
        law_trimmed_start(text.drop_first(), c);
        let cut = text.drop_first().take(text.len() - 1 - rest.len());
        assert(text.take(text.len() - rest.len()) =~= seq![c] + cut);
        assert(text =~= seq![c] + text.drop_first());
        assert(text =~= text.take(text.len() - rest.len()) + rest);
    } else {
        assert(text =~= text.take(0) + rest);
    }
}

/// What is trimmed from the end of a text is all of a character that it ends with, and nothing
/// else.
pub proof fn law_trimmed_end(text: Seq<char>, c: char)
    ensures
        ({
            let rest = trim_end_spec(text, c);
            &&& rest.len() <= text.len()
            &&& only(text.skip(rest.len() as int), c)
            &&& text == rest + text.skip(rest.len() as int)
            &&& rest.len() > 0 ==> rest.last() != c
        }),
    decreases text.len(),
{
    let rest = trim_end_spec(text, c);
    if text.len() > 0 && text.last() == c {
        law_trimmed_end(text.drop_last(), c);
        let cut = text.drop_last().skip(rest.len() as int);
        assert(text =~= text.drop_last().push(c));
        assert(text.skip(rest.len() as int) =~= cut.push(c));
        assert(rest + cut.push(c) =~= (rest + cut).push(c));
    } else {
        assert(text =~= rest + text.skip(rest.len() as int));
    }
}

/// A prefix, a number of times.
pub open spec fn times(prefix: Seq<char>, count: nat) -> Seq<char>
    decreases count,
{
    if count == 0 {
        Seq::empty()
    } else {
        prefix + times(prefix, (count - 1) as nat)
    }
}

/// What is trimmed of a prefix is all of its copies that a text begins with.
pub proof fn law_trimmed_prefixes(text: Seq<char>, prefix: Seq<char>) -> (count: nat)
    requires
        prefix.len() > 0,
    ensures
        text == times(prefix, count) + trim_prefixes_spec(text, prefix),
        trim_prefixes_spec(text, prefix).len() >= prefix.len() ==> trim_prefixes_spec(
            text,
            prefix,
        ).take(prefix.len() as int) != prefix,
    decreases text.len(),
{
    let rest = trim_prefixes_spec(text, prefix);
    if has_prefix(text, prefix) {
        let fewer = law_trimmed_prefixes(text.skip(prefix.len() as int), prefix);
        let count = (fewer + 1) as nat;
        assert(text =~= prefix + text.skip(prefix.len() as int));
        assert(times(prefix, count) == prefix + times(prefix, fewer));
        assert(text =~= times(prefix, count) + rest);
        count
    } else {
        assert(text =~= times(prefix, 0) + rest);
        if rest.len() >= prefix.len() && rest.take(prefix.len() as int) == prefix {
            assert(text.subrange(0, prefix.len() as int) =~= prefix);
        }
        0
    }
}

/// The number that decimal digits stand for.
pub open spec fn digits_value(digits: Seq<char>) -> int
    decreases digits.len(),
{
    if digits.len() == 0 {
        0
    } else {
        10 * digits_value(digits.drop_last()) + (digits.last() as int - '0' as int)
    }
}

/// Whether a text holds nothing but decimal digits.
pub open spec fn all_digits(text: Seq<char>) -> bool {
    forall|i: int| 0 <= i < text.len() ==> '0' <= #[trigger] text[i] <= '9'
}

/// Whether a text is how a natural number is written: its digits, the first of which is no zero
/// unless it is the only one.
pub open spec fn writes_nat(text: Seq<char>, n: int) -> bool {
    &&& text.len() > 0
    &&& all_digits(text)
    &&& text.len() > 1 ==> text[0] != '0'
    &&& digits_value(text) == n
}

/// Whether a text is how a number is written: after a minus sign where it is negative.
pub open spec fn writes(text: Seq<char>, n: int) -> bool {
    if n < 0 {
        text.len() > 0 && text[0] == '-' && writes_nat(text.skip(1), -n)
    } else {
        writes_nat(text, n)
    }
}

proof fn lemma_decimal_nat(n: nat)
    ensures
        writes_nat(decimal_nat(n), n as int),
        n > 0 ==> decimal_nat(n)[0] != '0',
    decreases n,
{
    reveal_with_fuel(digits_value, 2);
    let text = decimal_nat(n);
    if n < 10 {
        assert(text.drop_last() =~= Seq::empty());
        assert(text.last() == digit(n as int));
        assert(digit(n as int) as int == '0' as int + n);
        assert(digits_value(text) == n);
    } else {
        lemma_decimal_nat(n / 10);
        let front = decimal_nat(n / 10);
        assert(text.drop_last() =~= front);
        assert(text[0] == front[0]);
        let last = (n % 10) as int;
        assert(digit(last) as int == '0' as int + last);
        assert(text.last() == digit(last));
        assert forall|i: int| 0 <= i < text.len() implies '0' <= #[trigger] text[i] <= '9' by {
            if i < front.len() {
                assert(text[i] == front[i]);
            }
        }
    }
}

/// Numbers are written in decimal.
pub proof fn law_decimal_writes(n: int)
    ensures
        writes(decimal(n), n),
{
    if n < 0 {
        lemma_decimal_nat((-n) as nat);
        assert(decimal(n)[0] == '-');
        assert(decimal(n).skip(1) =~= decimal_nat((-n) as nat));
    } else {
        lemma_decimal_nat(n as nat);
    }
}

} // verus!
