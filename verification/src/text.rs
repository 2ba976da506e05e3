//! Text: numbers in words of digits, trimming, shortening, joining and ordering.

use vstd::prelude::*;
use vstd::relations::*;
use vstd::string::*;

verus! {

/// The texts that a list of strings holds.
pub open spec fn texts(items: Seq<String>) -> Seq<Seq<char>> {
    Seq::new(items.len(), |i: int| items[i]@)
}

/// The one-character text of a decimal digit.
pub open spec fn digit(d: nat) -> Seq<char> {
    if d == 0 {
        "0"@
    } else if d == 1 {
        "1"@
    } else if d == 2 {
        "2"@
    } else if d == 3 {
        "3"@
    } else if d == 4 {
        "4"@
    } else if d == 5 {
        "5"@
    } else if d == 6 {
        "6"@
    } else if d == 7 {
        "7"@
    } else if d == 8 {
        "8"@
    } else {
        "9"@
    }
}

/// The decimal digits of a number, without leading zeros.
pub open spec fn decimal(n: nat) -> Seq<char>
    decreases n,
{
    if n < 10 {
        digit(n)
    } else {
        decimal(n / 10) + digit(n % 10)
    }
}

fn digit_text(d: u128) -> (r: &'static str)
    requires
        d < 10,
    ensures
        r@ == digit(d as nat),
{
    if d == 0 {
        "0"
    } else if d == 1 {
        "1"
    } else if d == 2 {
        "2"
    } else if d == 3 {
        "3"
    } else if d == 4 {
        "4"
    } else if d == 5 {
        "5"
    } else if d == 6 {
        "6"
    } else if d == 7 {
        "7"
    } else if d == 8 {
        "8"
    } else {
        "9"
    }
}

/// Writes a number in decimal.
pub fn decimal_text(n: u128) -> (r: String)
    ensures
        r@ == decimal(n as nat),
    decreases n,
{
    if n < 10 {
        digit_text(n).to_owned()
    } else {
        let mut r = decimal_text(n / 10);
        r.append(digit_text(n % 10));
        r
    }
}

/// The value of a decimal digit character.
pub open spec fn digit_value(c: char) -> Option<nat> {
    if '0' <= c <= '9' {
        Some((c as int - '0' as int) as nat)
    } else {
        None
    }
}

/// The number that a text of decimal digits stands for, read from left to right.
pub open spec fn digits_value(s: Seq<char>) -> Option<nat>
    decreases s.len(),
{
    if s.len() == 0 {
        Some(0)
    } else {
        match (digits_value(s.drop_last()), digit_value(s.last())) {
            (Some(high), Some(low)) => Some(high * 10 + low),
            _ => None,
        }
    }
}

/// The number that a text stands for: decimal digits, at least one, after an optional plus sign,
/// within 64 bits.
pub open spec fn parsed_number(s: Seq<char>) -> Option<u64> {
    let digits = if s.len() > 0 && s[0] == '+' {
        s.drop_first()
    } else {
        s
    };
    if digits.len() == 0 {
        None
    } else {
        match digits_value(digits) {
            Some(n) => if n <= u64::MAX {
                Some(n as u64)
            } else {
                None
            },
            None => None,
        }
    }
}

/// The characters of a text, one by one.
fn characters(s: &str) -> (r: Vec<char>)
    ensures
        r@ == s@,
{
    let mut r: Vec<char> = Vec::new();
    for c in iter: s.chars()
        invariant
            r@ == iter.seq().take(iter.index()),
            iter.seq() == s@,
    {
        r.push(c);
    }
    r
}

proof fn lemma_digits_prefix(s: Seq<char>, k: int)
    requires
        0 <= k <= s.len(),
    ensures
        digits_value(s.take(k)) is None ==> digits_value(s) is None,
        (digits_value(s.take(k)) matches Some(v) && v > u64::MAX) ==> (digits_value(s) matches Some(
            w,
        ) ==> w > u64::MAX),
    decreases s.len(),
{
    if k == s.len() {
        assert(s.take(k) =~= s);
    } else {
        lemma_digits_prefix(s.drop_last(), k);
        assert(s.drop_last().take(k) =~= s.take(k));
    }
}

/// Reads a number written in decimal, as `parsed_number` says.
pub fn parse_number(s: &str) -> (r: Option<u64>)
    ensures
        r == parsed_number(s@),
{
    let chars = characters(s);
    let start: usize = if chars.len() > 0 && chars[0] == '+' {
        1
    } else {
        0
    };
    let ghost digits = if s@.len() > 0 && s@[0] == '+' {
        s@.drop_first()
    } else {
        s@
    };
    assert(digits =~= s@.skip(start as int));
    if start == chars.len() {
        return None;
    }
    let mut value: u64 = 0;
    let mut i: usize = start;
    assert(digits.take(0) =~= Seq::<char>::empty());
    while i < chars.len()
        invariant
            start <= i <= chars.len(),
            chars@ == s@,
            digits == s@.skip(start as int),
            digits.len() > 0,
            parsed_number(s@) == (match digits_value(digits) {
                Some(n) => if n <= u64::MAX {
                    Some(n as u64)
                } else {
                    None
                },
                None => None,
            }),
            digits_value(digits.take(i - start)) == Some(value as nat),
        decreases chars.len() - i,
    {
        let c = chars[i];
        let ghost prefix = digits.take(i - start + 1);
        proof {
            assert(prefix.drop_last() =~= digits.take(i - start));
            assert(prefix.last() == c);
            lemma_digits_prefix(digits, i - start + 1);
        }
        if c < '0' || '9' < c {
            return None;
        }
        let low: u64 = (c as u32 - '0' as u32) as u64;
        if value > (u64::MAX - low) / 10 {
            return None;
        }
        value = value * 10 + low;
        i = i + 1;
    }
    assert(digits.take(i - start) =~= digits);
    Some(value)
}

/// Whether a character has the Unicode property `White_Space`.
pub open spec fn white_space(c: char) -> bool {
    ||| '\u{9}' <= c <= '\u{d}'
    ||| c == '\u{20}'
    ||| c == '\u{85}'
    ||| c == '\u{a0}'
    ||| c == '\u{1680}'
    ||| '\u{2000}' <= c <= '\u{200a}'
    ||| c == '\u{2028}'
    ||| c == '\u{2029}'
    ||| c == '\u{202f}'
    ||| c == '\u{205f}'
    ||| c == '\u{3000}'
}

/// Tells whether a character is white space.
pub fn is_white_space(c: char) -> (r: bool)
    ensures
        r == white_space(c),
{
    ('\u{9}' <= c && c <= '\u{d}') || c == '\u{20}' || c == '\u{85}' || c == '\u{a0}' || c == '\u{1680}' || (
    '\u{2000}' <= c && c <= '\u{200a}') || c == '\u{2028}' || c == '\u{2029}' || c == '\u{202f}' || c
        == '\u{205f}' || c == '\u{3000}'
}

/// A text without the white space it starts with.
pub open spec fn trimmed_start(s: Seq<char>) -> Seq<char>
    decreases s.len(),
{
    if s.len() > 0 && white_space(s[0]) {
        trimmed_start(s.drop_first())
    } else {
        s
    }
}

/// A text without the white space it ends with.
pub open spec fn trimmed_end(s: Seq<char>) -> Seq<char>
    decreases s.len(),
{
    if s.len() > 0 && white_space(s.last()) {
        trimmed_end(s.drop_last())
    } else {
        s
    }
}

/// A text without the white space at its two ends.
pub open spec fn trimmed(s: Seq<char>) -> Seq<char> {
    trimmed_end(trimmed_start(s))
}

/// Takes the white space off the two ends of a text.
pub fn trim(s: &str) -> (r: &str)
    ensures
        r@ == trimmed(s@),
{
    let chars = characters(s);
    let mut from: usize = 0;
    assert(s@.skip(0) =~= s@);
    while from < chars.len() && is_white_space(chars[from])
        invariant
            from <= chars.len(),
            chars@ == s@,
            trimmed_start(s@) == trimmed_start(s@.skip(from as int)),
        ensures
            from <= chars.len(),
            trimmed_start(s@) == s@.skip(from as int),
        decreases chars.len() - from,
    {
        assert(s@.skip(from as int).drop_first() =~= s@.skip(from + 1));
        from = from + 1;
    }
    let mut to: usize = chars.len();
    assert(s@.subrange(from as int, to as int) =~= s@.skip(from as int));
    while to > from && is_white_space(chars[to - 1])
        invariant
            from <= to <= chars.len(),
            chars@ == s@,
            trimmed_end(trimmed_start(s@)) == trimmed_end(s@.subrange(from as int, to as int)),
        ensures
            from <= to <= chars.len(),
            trimmed_end(trimmed_start(s@)) == s@.subrange(from as int, to as int),
        decreases to,
    {
        assert(s@.subrange(from as int, to as int).drop_last() =~= s@.subrange(
            from as int,
            to - 1,
        ));
        to = to - 1;
    }
    s.substring_char(from, to)
}

/// A text cut down to its first `limit` characters, with a mark where something was cut.
pub open spec fn truncated(text: Seq<char>, limit: nat) -> Seq<char> {
    if text.len() <= limit {
        text
    } else {
        text.take(limit as int) + "...(truncated)"@
    }
}

/// Keeps a text of at most `limit` characters as it is, and cuts a longer one.
pub fn truncate_text(text: &str, limit: usize) -> (r: String)
    ensures
        r@ == truncated(text@, limit as nat),
{
    if text.unicode_len() <= limit {
        return text.to_owned();
    }
    let mut r = text.substring_char(0, limit).to_owned();
    r.append("...(truncated)");
    r
}

/// The parts in their order with a separator between neighbours.
pub open spec fn joined(parts: Seq<Seq<char>>, separator: Seq<char>) -> Seq<char>
    decreases parts.len(),
{
    if parts.len() == 0 {
        Seq::empty()
    } else if parts.len() == 1 {
        parts[0]
    } else {
        joined(parts.drop_last(), separator) + separator + parts.last()
    }
}

/// Joining two lists is joining the one and the other with a separator between them.
pub proof fn joining_lists_joins_them(a: Seq<Seq<char>>, b: Seq<Seq<char>>, separator: Seq<char>)
    requires
        a.len() > 0,
        b.len() > 0,
    ensures
        joined(a + b, separator) == joined(a, separator) + separator + joined(b, separator),
    decreases b.len(),
{
    assert((a + b).drop_last() =~= a + b.drop_last());
    assert((a + b).last() == b.last());
    if b.len() == 1 {
        assert(a + b.drop_last() =~= a);
    } else {
        joining_lists_joins_them(a, b.drop_last(), separator);
        assert(joined(a + b, separator) =~= joined(a, separator) + separator + joined(b, separator));
    }
}

/// Whether one text stands before or equals another: by the first character in which they differ,
/// and a text before every longer one that starts with it.
pub open spec fn text_le(a: Seq<char>, b: Seq<char>) -> bool
    decreases a.len(),
{
    if a.len() == 0 {
        true
    } else if b.len() == 0 {
        false
    } else if a[0] != b[0] {
        a[0] < b[0]
    } else {
        text_le(a.drop_first(), b.drop_first())
    }
}

/// The order of texts.
pub open spec fn text_order() -> spec_fn(Seq<char>, Seq<char>) -> bool {
    |a: Seq<char>, b: Seq<char>| text_le(a, b)
}

/// A list of texts in the order of texts.
pub open spec fn sorted_texts(items: Seq<Seq<char>>) -> Seq<Seq<char>> {
    items.sort_by(text_order())
}

proof fn lemma_text_le_reflexive(a: Seq<char>)
    ensures
        text_le(a, a),
    decreases a.len(),
{
    if a.len() > 0 {
        lemma_text_le_reflexive(a.drop_first());
    }
}

proof fn lemma_text_le_antisymmetric(a: Seq<char>, b: Seq<char>)
    requires
        text_le(a, b),
        text_le(b, a),
    ensures
        a == b,
    decreases a.len(),
{
    if a.len() > 0 && b.len() > 0 {
        lemma_text_le_antisymmetric(a.drop_first(), b.drop_first());
        assert(a =~= seq![a[0]] + a.drop_first());
        assert(b =~= seq![b[0]] + b.drop_first());
    } else {
        assert(a =~= b);
    }
}

proof fn lemma_text_le_transitive(a: Seq<char>, b: Seq<char>, c: Seq<char>)
    requires
        text_le(a, b),
        text_le(b, c),
    ensures
        text_le(a, c),
    decreases a.len(),
{
    if a.len() > 0 && a[0] == b[0] && b[0] == c[0] {
        lemma_text_le_transitive(a.drop_first(), b.drop_first(), c.drop_first());
    }
}

proof fn lemma_text_le_total(a: Seq<char>, b: Seq<char>)
    ensures
        text_le(a, b) || text_le(b, a),
    decreases a.len(),
{
    if a.len() > 0 && b.len() > 0 && a[0] == b[0] {
        lemma_text_le_total(a.drop_first(), b.drop_first());
    }
}

/// Texts are in a total order.
pub proof fn text_order_is_total()
    ensures
        total_ordering(text_order()),
{
    let order = text_order();
    assert forall|a: Seq<char>| #[trigger] order(a, a) by {
        lemma_text_le_reflexive(a);
    }
    assert forall|a: Seq<char>, b: Seq<char>| #[trigger] order(a, b) && #[trigger] order(b, a) implies a == b by {
        lemma_text_le_antisymmetric(a, b);
    }
    assert forall|a: Seq<char>, b: Seq<char>, c: Seq<char>| #[trigger] order(a, b) && #[trigger] order(b, c) implies order(a, c) by {
        lemma_text_le_transitive(a, b, c);
    }
    assert forall|a: Seq<char>, b: Seq<char>| #[trigger] order(a, b) || #[trigger] order(b, a) by {
        lemma_text_le_total(a, b);
    }
}

fn text_not_after(a: &str, b: &str) -> (r: bool)
    ensures
        r == text_le(a@, b@),
{
    let left = characters(a);
    let right = characters(b);
    let mut i: usize = 0;
    assert(a@.skip(0) =~= a@);
    assert(b@.skip(0) =~= b@);
    while i < left.len() && i < right.len() && left[i] == right[i]
        invariant
            i <= left.len(),
            i <= right.len(),
            left@ == a@,
            right@ == b@,
            text_le(a@, b@) == text_le(a@.skip(i as int), b@.skip(i as int)),
        decreases left.len() - i,
    {
        assert(a@.skip(i as int).drop_first() =~= a@.skip(i + 1));
        assert(b@.skip(i as int).drop_first() =~= b@.skip(i + 1));
        i = i + 1;
    }
    if i == left.len() {
        true
    } else if i == right.len() {
        false
    } else {
        left[i] < right[i]
    }
}

/// Puts a list of strings in the order of texts.
pub fn sort_texts(items: &Vec<String>) -> (r: Vec<String>)
    ensures
        texts(r@) == sorted_texts(texts(items@)),
{
    let mut r: Vec<String> = Vec::new();
    let mut n: usize = 0;
    assert(texts(r@) =~= texts(items@).take(0));
    while n < items.len()
        invariant
            n <= items.len(),
            texts(r@).to_multiset() == texts(items@).take(n as int).to_multiset(),
            sorted_by(texts(r@), text_order()),
        decreases items.len() - n,
    {
        let mut at: usize = 0;
        while at < r.len() && text_not_after(r[at].as_str(), items[n].as_str())
            invariant
                at <= r.len(),
                n < items.len(),
                forall|j: int| 0 <= j < at ==> text_le(#[trigger] texts(r@)[j], items@[n as int]@),
            ensures
                at <= r.len(),
                forall|j: int| 0 <= j < at ==> text_le(#[trigger] texts(r@)[j], items@[n as int]@),
                at < r.len() ==> !text_le(texts(r@)[at as int], items@[n as int]@),
            decreases r.len() - at,
        {
            at = at + 1;
        }
        let ghost before = texts(r@);
        let ghost item = items@[n as int]@;
        r.insert(at, items[n].clone());
        proof {
            text_order_is_total();
            assert(texts(r@) =~= before.insert(at as int, item));
            vstd::seq_lib::to_multiset_insert(before, at as int, item);
            assert(texts(items@).take(n + 1) =~= texts(items@).take(n as int).push(item));
            vstd::seq_lib::to_multiset_build(texts(items@).take(n as int), item);
            let order = text_order();
            assert forall|i: int, j: int| 0 <= i < j < texts(r@).len() implies order(
                #[trigger] texts(r@)[i],
                #[trigger] texts(r@)[j],
            ) by {
                let after = texts(r@);
                if i < at && j == at {
                    assert(after[i] == before[i]);
                } else if i == at {
                    assert(after[j] == before[j - 1]);
                    lemma_text_le_total(item, before[at as int]);
                    if j - 1 > at {
                        assert(order(before[at as int], before[j - 1]));
                    } else {
                        lemma_text_le_reflexive(before[at as int]);
                    }
                    lemma_text_le_transitive(item, before[at as int], before[j - 1]);
                } else {
                    let bi = if i < at { i } else { i - 1 };
                    let bj = if j < at { j } else { j - 1 };
                    assert(after[i] == before[bi]);
                    assert(after[j] == before[bj]);
                    assert(order(before[bi], before[bj]));
                }
            }
        }
        n = n + 1;
    }
    proof {
        text_order_is_total();
        assert(texts(items@).take(n as int) =~= texts(items@));
        texts(items@).lemma_sort_by_ensures(text_order());
        vstd::seq_lib::lemma_sorted_unique(texts(r@), sorted_texts(texts(items@)), text_order());
    }
    r
}

/// Sorting keeps every text as often as it stood there, and puts each before all that follow it.
pub proof fn sorting_orders_and_keeps(items: Seq<Seq<char>>)
    ensures
        sorted_by(sorted_texts(items), text_order()),
        sorted_texts(items).to_multiset() == items.to_multiset(),
{
    text_order_is_total();
    items.lemma_sort_by_ensures(text_order());
}

/// Sorting does not look at the order that the texts come in.
pub proof fn sorting_forgets_the_order(a: Seq<Seq<char>>, b: Seq<Seq<char>>)
    requires
        a.to_multiset() == b.to_multiset(),
    ensures
        sorted_texts(a) == sorted_texts(b),
{
    sorting_orders_and_keeps(a);
    sorting_orders_and_keeps(b);
    text_order_is_total();
    vstd::seq_lib::lemma_sorted_unique(sorted_texts(a), sorted_texts(b), text_order());
}

/// Cutting a text down keeps its start, and gives at most `limit` characters and the mark.
pub proof fn truncating_keeps_the_start(text: Seq<char>, limit: nat)
    ensures
        truncated(text, limit).len() <= limit + 14,
        text.len() <= limit ==> truncated(text, limit) == text,
        text.len() > limit ==> truncated(text, limit).take(limit as int) == text.take(limit as int),
{
    reveal_strlit("...(truncated)");
    if text.len() > limit {
        assert(truncated(text, limit).take(limit as int) =~= text.take(limit as int));
    }
}

/// Cutting a text down further gives what cutting it down at once gives.
pub proof fn truncating_further_is_truncating(text: Seq<char>, larger: nat, smaller: nat)
    requires
        smaller <= larger,
    ensures
        truncated(truncated(text, larger), smaller) == truncated(text, smaller),
{
    truncating_keeps_the_start(text, larger);
    reveal_strlit("...(truncated)");
    if text.len() > larger {
        assert(truncated(text, larger).take(smaller as int) =~= text.take(smaller as int));
    }
}

/// Cutting down a text that was cut down changes nothing.
pub proof fn truncating_again_changes_nothing(text: Seq<char>, limit: nat)
    ensures
        truncated(truncated(text, limit), limit) == truncated(text, limit),
{
    truncating_further_is_truncating(text, limit, limit);
}

proof fn lemma_digit(d: nat)
    requires
        d < 10,
    ensures
        digit(d).len() == 1,
        digit_value(digit(d)[0]) == Some(d),
{
    reveal_strlit("0");
    reveal_strlit("1");
    reveal_strlit("2");
    reveal_strlit("3");
    reveal_strlit("4");
    reveal_strlit("5");
    reveal_strlit("6");
    reveal_strlit("7");
    reveal_strlit("8");
    reveal_strlit("9");
}

proof fn lemma_decimal(n: nat)
    ensures
        decimal(n).len() > 0,
        digit_value(decimal(n)[0]) is Some,
        digits_value(decimal(n)) == Some(n),
    decreases n,
{
    lemma_digit(n % 10);
    if n < 10 {
        assert(decimal(n).drop_last() =~= Seq::<char>::empty());
        assert(digits_value(Seq::<char>::empty()) == Some(0nat));
    } else {
        lemma_decimal(n / 10);
        assert(decimal(n).drop_last() =~= decimal(n / 10));
        assert(decimal(n).last() == digit(n % 10)[0]);
    }
}

/// A number that was written is read back.
pub proof fn numbers_are_read_back(n: u64)
    ensures
        parsed_number(decimal(n as nat)) == Some(n),
{
    lemma_decimal(n as nat);
}

proof fn lemma_trimmed_start(s: Seq<char>)
    ensures
        trimmed_start(s).len() > 0 ==> !white_space(trimmed_start(s)[0]),
    decreases s.len(),
{
    if s.len() > 0 && white_space(s[0]) {
        lemma_trimmed_start(s.drop_first());
    }
}

proof fn lemma_trimmed_end(s: Seq<char>)
    ensures
        trimmed_end(s).len() > 0 ==> !white_space(trimmed_end(s).last()) && trimmed_end(s)[0] == s[0],
    decreases s.len(),
{
    if s.len() > 0 && white_space(s.last()) {
        lemma_trimmed_end(s.drop_last());
    }
}

/// A trimmed text neither starts nor ends with white space, and trimming it again changes nothing.
pub proof fn trimming_leaves_no_white_space(s: Seq<char>)
    ensures
        trimmed(s).len() > 0 ==> !white_space(trimmed(s)[0]) && !white_space(trimmed(s).last()),
        trimmed(trimmed(s)) == trimmed(s),
{
    lemma_trimmed_start(s);
    lemma_trimmed_end(trimmed_start(s));
}

/// A list of strings holds its texts: as many, in the same places.
pub proof fn lists_hold_their_texts(items: Seq<String>)
    ensures
        texts(items).len() == items.len(),
        forall|i: int| 0 <= i < items.len() ==> #[trigger] texts(items)[i] == items[i]@,
{
}

/// A number below ten is written as one digit character, and every other number as what it has in
/// tens, followed by its last digit.
pub proof fn numbers_are_written_digit_by_digit(tens: nat, d: nat)
    requires
        d < 10,
    ensures
        decimal(d) == seq![('0' as u32 + d) as char],
        tens > 0 ==> decimal(tens * 10 + d) == decimal(tens).push(('0' as u32 + d) as char),
{
    lemma_digit(d);
    assert(digit(d) =~= seq![('0' as u32 + d) as char]);
    let n = tens * 10 + d;
    assert(n / 10 == tens && n % 10 == d);
    if tens > 0 {
        assert(decimal(n) =~= decimal(tens).push(('0' as u32 + d) as char));
    }
}

/// A text is read as a number one character after the other: each digit counts ten times what came
/// before it, and what is no digit, or goes beyond 64 bits, makes the whole no number.
pub proof fn numbers_are_read_digit_by_digit(s: Seq<char>, c: char)
    requires
        s.len() > 0,
        s != seq!['+'],
    ensures
        parsed_number(s.push(c)) == (match parsed_number(s) {
            Some(v) => if '0' <= c && c <= '9' && v * 10 + (c as u32 - '0' as u32) <= u64::MAX {
                Some((v * 10 + (c as u32 - '0' as u32)) as u64)
            } else {
                None
            },
            None => None,
        }),
{
    let all = s.push(c);
    let digits = if s[0] == '+' {
        s.drop_first()
    } else {
        s
    };
    if s[0] == '+' {
        assert(all.drop_first() =~= digits.push(c));
        if digits.len() == 0 {
            assert(s =~= seq!['+']);
        }
    }
    assert(digits.push(c).drop_last() =~= digits);
}

/// One digit is read as its value, with or without a plus sign before it; nothing else of that
/// length is a number, and neither is the empty text nor a plus sign alone.
pub proof fn single_digits_are_read(c: char)
    ensures
        parsed_number(seq![c]) == (if '0' <= c && c <= '9' {
            Some((c as u32 - '0' as u32) as u64)
        } else {
            None
        }),
        parsed_number(seq!['+', c]) == parsed_number(seq![c]) || c == '+',
        parsed_number(seq!['+', '+']) is None,
        parsed_number(Seq::empty()) is None,
{
    reveal_with_fuel(digits_value, 2);
    assert(seq![c].drop_last() =~= Seq::<char>::empty());
    assert(seq!['+', c].drop_first() =~= seq![c]);
    assert(seq!['+', '+'].drop_first() =~= seq!['+']);
    assert(seq!['+'].drop_last() =~= Seq::<char>::empty());
    assert(seq!['+'].drop_first() =~= Seq::<char>::empty());
    assert(digit_value('+') is None);
}

proof fn lemma_trimmed_start_is_a_tail(s: Seq<char>) -> (from: int)
    ensures
        0 <= from <= s.len(),
        trimmed_start(s) == s.skip(from),
        forall|i: int| 0 <= i < from ==> white_space(#[trigger] s[i]),
    decreases s.len(),
{
    if s.len() > 0 && white_space(s[0]) {
        let rest = lemma_trimmed_start_is_a_tail(s.drop_first());
        assert(s.drop_first().skip(rest) =~= s.skip(rest + 1));
        assert forall|i: int| 0 <= i < rest + 1 implies white_space(#[trigger] s[i]) by {
            if i > 0 {
                assert(s[i] == s.drop_first()[i - 1]);
            }
        }
        rest + 1
    } else {
        assert(s.skip(0) =~= s);
        0
    }
}

proof fn lemma_trimmed_end_is_a_start(s: Seq<char>) -> (to: int)
    ensures
        0 <= to <= s.len(),
        trimmed_end(s) == s.take(to),
        forall|i: int| to <= i < s.len() ==> white_space(#[trigger] s[i]),
    decreases s.len(),
{
    if s.len() > 0 && white_space(s.last()) {
        let to = lemma_trimmed_end_is_a_start(s.drop_last());
        assert(s.drop_last().take(to) =~= s.take(to));
        assert forall|i: int| to <= i < s.len() implies white_space(#[trigger] s[i]) by {
            if i < s.len() - 1 {
                assert(s[i] == s.drop_last()[i]);
            }
        }
        to
    } else {
        assert(s.take(s.len() as int) =~= s);
        s.len() as int
    }
}

/// Trimming takes white space off the two ends and nothing else: a text is some white space, what
/// trimming leaves of it, and some white space.
pub proof fn trimming_takes_white_space_only(s: Seq<char>)
    ensures
        exists|from: int, to: int|
            0 <= from <= to <= s.len() && trimmed(s) == #[trigger] s.subrange(from, to) && (forall|i: int|
                0 <= i < from || to <= i < s.len() ==> white_space(#[trigger] s[i])),
{
    let from = lemma_trimmed_start_is_a_tail(s);
    let rest = s.skip(from);
    let len = lemma_trimmed_end_is_a_start(rest);
    assert(rest.take(len) =~= s.subrange(from, from + len));
    assert forall|i: int| 0 <= i < from || from + len <= i < s.len() implies white_space(
        #[trigger] s[i],
    ) by {
        if i >= from {
            assert(s[i] == rest[i - from]);
        }
    }
}

/// What a text that is cut down has behind its start is the mark, and nothing else.
pub proof fn cut_texts_end_with_the_mark(text: Seq<char>, limit: nat)
    requires
        text.len() > limit,
    ensures
        truncated(text, limit).skip(limit as int) == "...(truncated)"@,
{
    assert(truncated(text, limit).skip(limit as int) =~= "...(truncated)"@);
}

/// Nothing joined is nothing, and one text joined is that text.
pub proof fn joining_one_text_gives_it(text: Seq<char>, separator: Seq<char>)
    ensures
        joined(Seq::empty(), separator) == Seq::<char>::empty(),
        joined(seq![text], separator) == text,
{
}

/// Texts are ordered by the first character in which they differ, whatever they start with in
/// common, and a text stands before every longer one that starts with it.
pub proof fn texts_are_ordered_by_their_first_difference(
    start: Seq<char>,
    x: char,
    a: Seq<char>,
    y: char,
    b: Seq<char>,
)
    ensures
        x < y ==> text_le(start + seq![x] + a, start + seq![y] + b),
        x < y ==> !text_le(start + seq![y] + b, start + seq![x] + a),
        text_le(start, start + a),
        a.len() > 0 ==> !text_le(start + a, start),
    decreases start.len(),
{
    let left = start + seq![x] + a;
    let right = start + seq![y] + b;
    if start.len() > 0 {
        let rest = start.drop_first();
        texts_are_ordered_by_their_first_difference(rest, x, a, y, b);
        assert(left.drop_first() =~= rest + seq![x] + a);
        assert(right.drop_first() =~= rest + seq![y] + b);
        assert((start + a).drop_first() =~= rest + a);
    } else {
        assert(left[0] == x && right[0] == y);
        assert(start + a =~= a);
    }
}

/// Of two texts in a sorted list the earlier stands before or equals the later.
pub proof fn sorted_texts_follow_the_order(items: Seq<Seq<char>>, i: int, j: int)
    requires
        0 <= i < j < items.len(),
    ensures
        sorted_texts(items).len() == items.len(),
        text_le(sorted_texts(items)[i], sorted_texts(items)[j]),
{
    sorting_orders_and_keeps(items);
    items.to_multiset_ensures();
    sorted_texts(items).to_multiset_ensures();
    assert(items.len() == items.to_multiset().len());
    assert(sorted_texts(items).len() == sorted_texts(items).to_multiset().len());
    let order = text_order();
    assert(order(sorted_texts(items)[i], sorted_texts(items)[j]));
}

} // verus!
