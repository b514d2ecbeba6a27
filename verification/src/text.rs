//! Text as sequences of characters: trimming, ASCII case, order, decimal numbers.

use vstd::prelude::*;
use vstd::string::*;

verus! {

/// `String::push` puts one character behind the text.
pub assume_specification[ String::push ](text: &mut String, c: char)
    ensures
        final(text)@ == old(text)@.push(c),
;

// ---- white space ----

/// The Unicode property `White_Space`.
pub open spec fn is_space(c: char) -> bool {
    let code = c as u32;
    ||| 0x9 <= code <= 0xD
    ||| code == 0x20
    ||| code == 0x85
    ||| code == 0xA0
    ||| code == 0x1680
    ||| 0x2000 <= code <= 0x200A
    ||| code == 0x2028
    ||| code == 0x2029
    ||| code == 0x202F
    ||| code == 0x205F
    ||| code == 0x3000
}

/// `s` without the white space at its beginning.
pub open spec fn trimmed_start(s: Seq<char>) -> Seq<char>
    decreases s.len(),
{
    if s.len() > 0 && is_space(s.first()) {
        trimmed_start(s.drop_first())
    } else {
        s
    }
}

/// `s` without the white space at its end.
pub open spec fn trimmed_end(s: Seq<char>) -> Seq<char>
    decreases s.len(),
{
    if s.len() > 0 && is_space(s.last()) {
        trimmed_end(s.drop_last())
    } else {
        s
    }
}

/// `s` without the white space at both ends.
pub open spec fn trimmed(s: Seq<char>) -> Seq<char> {
    trimmed_end(trimmed_start(s))
}

/// Whether `c` is white space.
pub fn is_whitespace(c: char) -> (yes: bool)
    ensures
        yes == is_space(c),
{
    let code: u32 = c as u32;
    (0x9 <= code && code <= 0xD) || code == 0x20 || code == 0x85 || code == 0xA0 || code == 0x1680
        || (0x2000 <= code && code <= 0x200A) || code == 0x2028 || code == 0x2029 || code == 0x202F
        || code == 0x205F || code == 0x3000
}

proof fn lemma_trimmed_start(s: Seq<char>, from: int)
    requires
        0 <= from <= s.len(),
        forall|i: int| 0 <= i < from ==> is_space(s[i]),
        from < s.len() ==> !is_space(s[from]),
    ensures
        trimmed_start(s) == s.skip(from),
    decreases s.len(),
{
    if from > 0 {
        let rest = s.drop_first();
        assert forall|i: int| 0 <= i < from - 1 implies is_space(rest[i]) by {
            assert(rest[i] == s[i + 1]);
        }
        lemma_trimmed_start(rest, from - 1);
        assert(rest.skip(from - 1) =~= s.skip(from));
    } else {
        assert(s.skip(0) =~= s);
    }
}

proof fn lemma_trimmed_end(s: Seq<char>, to: int)
    requires
        0 <= to <= s.len(),
        forall|i: int| to <= i < s.len() ==> is_space(s[i]),
        to > 0 ==> !is_space(s[to - 1]),
    ensures
        trimmed_end(s) == s.take(to),
    decreases s.len(),
{
    if to < s.len() {
        let rest = s.drop_last();
        lemma_trimmed_end(rest, to);
        assert(rest.take(to) =~= s.take(to));
    } else {
        assert(s.take(to) =~= s);
    }
}

/// `s` without the white space at both ends.
pub fn trim(s: &str) -> (core: &str)
    ensures
        core@ == trimmed(s@),
{
    let chars = chars_of(s);
    let mut from: usize = 0;
    while from < chars.len() && is_whitespace(chars[from])
        invariant
            from <= chars.len(),
            forall|i: int| 0 <= i < from ==> is_space(chars@[i]),
        decreases chars.len() - from,
    {
        from = from + 1;
    }
    let mut to: usize = chars.len();
    while to > from && is_whitespace(chars[to - 1])
        invariant
            from <= to <= chars.len(),
            forall|i: int| to <= i < chars@.len() ==> is_space(chars@[i]),
        decreases to,
    {
        to = to - 1;
    }
    proof {
        lemma_trimmed_start(s@, from as int);
        lemma_trimmed_end(s@.skip(from as int), to - from);
        assert(s@.skip(from as int).take(to - from) =~= s@.subrange(from as int, to as int));
    }
    s.substring_char(from, to)
}

// ---- ASCII case ----

/// The lower-case form of an ASCII letter; any other character as it is.
pub open spec fn ascii_lower(c: char) -> char {
    if 'A' <= c <= 'Z' {
        ((c as u32) + 32) as char
    } else {
        c
    }
}

/// `s` with its ASCII letters in lower case.
pub open spec fn lowered(s: Seq<char>) -> Seq<char> {
    s.map_values(|c: char| ascii_lower(c))
}

fn lower_char(c: char) -> (l: char)
    ensures
        l == ascii_lower(c),
{
    if 'A' <= c && c <= 'Z' {
        ((c as u8) + 32) as char
    } else {
        c
    }
}

/// `s` with its ASCII letters in lower case.
pub fn to_ascii_lowercase(s: &str) -> (l: String)
    ensures
        l@ == lowered(s@),
{
    let chars = chars_of(s);
    let mut l = String::new();
    let mut i: usize = 0;
    while i < chars.len()
        invariant
            i <= chars.len(),
            chars@ == s@,
            l@ == lowered(s@.take(i as int)),
        decreases chars.len() - i,
    {
        l.push(lower_char(chars[i]));
        i = i + 1;
        assert(l@ =~= lowered(s@.take(i as int)));
    }
    assert(s@.take(i as int) =~= s@);
    l
}

/// Whether `a` and `b` are the same text when ASCII case is disregarded.
pub fn eq_ignore_ascii_case(a: &str, b: &str) -> (same: bool)
    ensures
        same == (lowered(a@) == lowered(b@)),
{
    let left = to_ascii_lowercase(a);
    let right = to_ascii_lowercase(b);
    left == right
}

// ---- characters, equality, order ----

/// The characters of `s`, one by one.
pub fn chars_of(s: &str) -> (chars: Vec<char>)
    ensures
        chars@ == s@,
{
    let mut chars: Vec<char> = Vec::new();
    for c in it: s.chars()
        invariant
            it.seq() == s@,
            chars@ == s@.take(it.index() as int),
    {
        chars.push(c);
    }
    chars
}

/// Whether `a` and `b` are the same text.
pub fn same_text(a: &str, b: &str) -> (same: bool)
    ensures
        same == (a@ == b@),
{
    let left = a.to_owned();
    let right = b.to_owned();
    left == right
}

/// `a` stands before `b` in the order of their code points.
pub open spec fn before(a: Seq<char>, b: Seq<char>) -> bool
    decreases a.len(),
{
    if b.len() == 0 {
        false
    } else if a.len() == 0 {
        true
    } else if a.first() == b.first() {
        before(a.drop_first(), b.drop_first())
    } else {
        a.first() < b.first()
    }
}

pub proof fn lemma_before_irreflexive(a: Seq<char>)
    ensures
        !before(a, a),
    decreases a.len(),
{
    if a.len() > 0 {
        lemma_before_irreflexive(a.drop_first());
    }
}

pub proof fn lemma_before_transitive(a: Seq<char>, b: Seq<char>, c: Seq<char>)
    requires
        before(a, b),
        before(b, c),
    ensures
        before(a, c),
    decreases a.len(),
{
    if a.len() > 0 && a.first() == b.first() && b.first() == c.first() {
        lemma_before_transitive(a.drop_first(), b.drop_first(), c.drop_first());
    }
}

pub proof fn lemma_before_total(a: Seq<char>, b: Seq<char>)
    requires
        a != b,
    ensures
        before(a, b) || before(b, a),
    decreases a.len(),
{
    if a.len() == 0 || b.len() == 0 {
        if a.len() == b.len() {
            assert(a =~= b);
        }
    } else if a.first() == b.first() {
        if a.drop_first() == b.drop_first() {
            assert(a =~= seq![a.first()] + a.drop_first());
            assert(b =~= seq![b.first()] + b.drop_first());
        }
        lemma_before_total(a.drop_first(), b.drop_first());
    }
}

proof fn lemma_before_after_common(a: Seq<char>, b: Seq<char>, n: int)
    requires
        0 <= n <= a.len(),
        n <= b.len(),
        a.take(n) == b.take(n),
    ensures
        before(a, b) == before(a.skip(n), b.skip(n)),
    decreases n,
{
    if n == 0 {
        assert(a.skip(0) =~= a);
        assert(b.skip(0) =~= b);
    } else {
        assert(a.first() == a.take(n)[0]);
        assert(b.first() == b.take(n)[0]);
        let p = a.drop_first();
        let q = b.drop_first();
        assert forall|i: int| 0 <= i < n - 1 implies #[trigger] p[i] == q[i] by {
            assert(a[i + 1] == a.take(n)[i + 1]);
            assert(b[i + 1] == b.take(n)[i + 1]);
        }
        assert(p.take(n - 1) =~= q.take(n - 1));
        lemma_before_after_common(p, q, n - 1);
        assert(p.skip(n - 1) =~= a.skip(n));
        assert(q.skip(n - 1) =~= b.skip(n));
    }
}

/// Whether `a` stands before `b`.
pub fn precedes(a: &str, b: &str) -> (yes: bool)
    ensures
        yes == before(a@, b@),
{
    let left = chars_of(a);
    let right = chars_of(b);
    let mut i: usize = 0;
    while i < left.len() && i < right.len() && left[i] == right[i]
        invariant
            i <= left.len(),
            i <= right.len(),
            left@.take(i as int) == right@.take(i as int),
        decreases left.len() - i,
    {
        i = i + 1;
        assert(left@.take(i as int) =~= left@.take(i - 1).push(left@[i - 1]));
        assert(right@.take(i as int) =~= right@.take(i - 1).push(right@[i - 1]));
    }
    proof {
        lemma_before_after_common(a@, b@, i as int);
    }
    if i == right.len() {
        false
    } else if i == left.len() {
        true
    } else {
        left[i] < right[i]
    }
}

// ---- decimal numbers and lists ----

/// The decimal digit `d`.
pub open spec fn digit(d: nat) -> char {
    (48 + d) as char
}

/// `n` in decimal notation, without leading zeros.
pub open spec fn decimal(n: nat) -> Seq<char>
    decreases n,
{
    if n < 10 {
        seq![digit(n)]
    } else {
        decimal(n / 10).push(digit(n % 10))
    }
}

/// `n` in decimal notation.
pub fn decimal_text(n: u64) -> (text: String)
    ensures
        text@ == decimal(n as nat),
    decreases n,
{
    let mut text = if n < 10 {
        String::new()
    } else {
        decimal_text(n / 10)
    };
    let d: u8 = (n % 10) as u8;
    text.push((48 + d) as char);
    assert(text@ =~= decimal(n as nat));
    text
}

/// The first `n` of `parts`, with `separator` between two neighbours.
pub open spec fn joined(parts: Seq<Seq<char>>, separator: Seq<char>, n: nat) -> Seq<char>
    decreases n,
{
    if n == 0 {
        Seq::empty()
    } else if n == 1 {
        parts[0]
    } else {
        joined(parts, separator, (n - 1) as nat) + separator + parts[n - 1]
    }
}

// ---- laws ----

/// White space are the blanks and the line breaks of Unicode, and no other character.
pub proof fn white_space_is_blanks_and_line_breaks(c: char)
    ensures
        is_space(c) <==> set![
            0x9u32, 0xA, 0xB, 0xC, 0xD, 0x20, 0x85, 0xA0, 0x1680, 0x2000, 0x2001, 0x2002, 0x2003,
            0x2004, 0x2005, 0x2006, 0x2007, 0x2008, 0x2009, 0x200A, 0x2028, 0x2029, 0x202F, 0x205F,
            0x3000,
        ].contains(c as u32),
{
}

/// Whatever white space stands around a text that neither begins nor ends with it, trimming gives
/// that text back, with the white space inside it.
pub proof fn trimming_takes_off_the_surroundings(lead: Seq<char>, core: Seq<char>, trail: Seq<char>)
    requires
        forall|i: int| 0 <= i < lead.len() ==> is_space(#[trigger] lead[i]),
        forall|i: int| 0 <= i < trail.len() ==> is_space(#[trigger] trail[i]),
        core.len() > 0 ==> !is_space(core.first()) && !is_space(core.last()),
    ensures
        trimmed(lead + core + trail) == core,
{
    let s = lead + core + trail;
    if core.len() > 0 {
        assert(s[lead.len() as int] == core.first());
        lemma_trimmed_start(s, lead.len() as int);
        let rest = s.skip(lead.len() as int);
        assert(rest =~= core + trail);
        assert(rest[core.len() - 1] == core.last());
        lemma_trimmed_end(rest, core.len() as int);
        assert(rest.take(core.len() as int) =~= core);
    } else {
        lemma_trimmed_start(s, s.len() as int);
        assert(s.skip(s.len() as int) =~= core);
        assert(trimmed_end(core) == core);
    }
}

/// Where the white space at the beginning of a text ends.
proof fn lemma_lead_ends(s: Seq<char>) -> (from: int)
    ensures
        0 <= from <= s.len(),
        forall|i: int| 0 <= i < from ==> is_space(#[trigger] s[i]),
        from < s.len() ==> !is_space(s[from]),
    decreases s.len(),
{
    if s.len() > 0 && is_space(s.first()) {
        let rest = s.drop_first();
        let from = lemma_lead_ends(rest) + 1;
        assert forall|i: int| 0 <= i < from implies is_space(#[trigger] s[i]) by {
            if i > 0 {
                assert(rest[i - 1] == s[i]);
            }
        }
        from
    } else {
        0
    }
}

/// Where the white space at the end of a text begins.
proof fn lemma_trail_begins(s: Seq<char>) -> (to: int)
    ensures
        0 <= to <= s.len(),
        forall|i: int| to <= i < s.len() ==> is_space(#[trigger] s[i]),
        to > 0 ==> !is_space(s[to - 1]),
    decreases s.len(),
{
    if s.len() > 0 && is_space(s.last()) {
        let rest = s.drop_last();
        let to = lemma_trail_begins(rest);
        assert forall|i: int| to <= i < s.len() implies is_space(#[trigger] s[i]) by {
            if i < rest.len() {
                assert(rest[i] == s[i]);
            }
        }
        to
    } else {
        s.len() as int
    }
}

/// Every text is what trimming leaves of it, with nothing but white space around.
pub proof fn trimming_loses_only_white_space(s: Seq<char>) -> (around: (Seq<char>, Seq<char>))
    ensures
        s == around.0 + trimmed(s) + around.1,
        forall|i: int| 0 <= i < around.0.len() ==> is_space(#[trigger] around.0[i]),
        forall|i: int| 0 <= i < around.1.len() ==> is_space(#[trigger] around.1[i]),
        trimmed(s).len() > 0 ==> !is_space(trimmed(s).first()) && !is_space(trimmed(s).last()),
{
    let from = lemma_lead_ends(s);
    let rest = s.skip(from);
    let to = lemma_trail_begins(rest);
    lemma_trimmed_start(s, from);
    lemma_trimmed_end(rest, to);
    assert(trimmed(s) == rest.take(to));
    if to > 0 {
        assert(rest.take(to).first() == s[from]);
        assert(rest.take(to).last() == rest[to - 1]);
    }
    let trail = rest.skip(to);
    assert forall|i: int| 0 <= i < trail.len() implies is_space(#[trigger] trail[i]) by {
        assert(trail[i] == rest[to + i]);
    }
    assert(s =~= s.take(from) + rest.take(to) + trail);
    (s.take(from), trail)
}

/// Lower case keeps the length of a text and every character of it, but for the letters from `A` to
/// `Z`, each of which becomes the letter that stands 32 code points behind it.
pub proof fn lower_case_changes_capitals_only(s: Seq<char>, i: int)
    requires
        0 <= i < s.len(),
    ensures
        lowered(s).len() == s.len(),
        65 <= s[i] as u32 <= 90 ==> lowered(s)[i] as u32 == s[i] as u32 + 32,
        !(65 <= s[i] as u32 <= 90) ==> lowered(s)[i] == s[i],
{
}

/// Two texts are the same but for ASCII case exactly where they are of one length and each
/// character is the same, or the capital of the other.
pub proof fn case_is_compared_letter_by_letter(a: Seq<char>, b: Seq<char>)
    ensures
        lowered(a) == lowered(b) <==> a.len() == b.len() && forall|i: int|
            0 <= i < a.len() ==> {
                ||| #[trigger] a[i] == b[i]
                ||| 65 <= a[i] as u32 <= 90 && b[i] as u32 == a[i] as u32 + 32
                ||| 65 <= b[i] as u32 <= 90 && a[i] as u32 == b[i] as u32 + 32
            },
{
    if lowered(a) == lowered(b) {
        assert(lowered(a).len() == a.len() && lowered(b).len() == b.len());
        assert forall|i: int| 0 <= i < a.len() implies {
            ||| #[trigger] a[i] == b[i]
            ||| 65 <= a[i] as u32 <= 90 && b[i] as u32 == a[i] as u32 + 32
            ||| 65 <= b[i] as u32 <= 90 && a[i] as u32 == b[i] as u32 + 32
        } by {
            assert(lowered(a)[i] == lowered(b)[i]);
            lower_case_changes_capitals_only(a, i);
            lower_case_changes_capitals_only(b, i);
        }
    } else if a.len() == b.len() && (forall|i: int|
        0 <= i < a.len() ==> {
            ||| #[trigger] a[i] == b[i]
            ||| 65 <= a[i] as u32 <= 90 && b[i] as u32 == a[i] as u32 + 32
            ||| 65 <= b[i] as u32 <= 90 && a[i] as u32 == b[i] as u32 + 32
        }) {
        assert forall|i: int| 0 <= i < a.len() implies lowered(a)[i] == lowered(b)[i] by {
            assert(a[i] == a[i]);
            lower_case_changes_capitals_only(a, i);
            lower_case_changes_capitals_only(b, i);
        }
        assert(lowered(a) =~= lowered(b));
    }
}

/// What decides the order of two texts is the first place where they differ: the smaller code point
/// goes first, and a text goes before its continuations.
pub proof fn first_difference_decides_the_order(a: Seq<char>, b: Seq<char>, n: int)
    requires
        0 <= n <= a.len(),
        n <= b.len(),
        forall|i: int| 0 <= i < n ==> #[trigger] a[i] == b[i],
    ensures
        n < a.len() && n < b.len() && a[n] != b[n] ==> before(a, b) == (a[n] < b[n]),
        n == a.len() && n < b.len() ==> before(a, b),
        n == b.len() ==> !before(a, b),
{
    assert(a.take(n) =~= b.take(n));
    lemma_before_after_common(a, b, n);
    if n < a.len() && n < b.len() {
        assert(a.skip(n).first() == a[n]);
        assert(b.skip(n).first() == b[n]);
    }
}

/// A number in decimal notation is made of digits, does not begin with a zero unless it is zero, and
/// gives the number again when it is read digit by digit.
pub proof fn decimals_can_be_read_back(n: nat)
    ensures
        decimal(n).len() > 0,
        forall|i: int| 0 <= i < decimal(n).len() ==> '0' <= #[trigger] decimal(n)[i] <= '9',
        n > 0 ==> decimal(n).first() != '0',
        decimal(n).fold_left(0int, |value: int, c: char| 10 * value + (c as int - 48)) == n,
    decreases n,
{
    let read = |value: int, c: char| 10 * value + (c as int - 48);
    if n >= 10 {
        decimals_can_be_read_back(n / 10);
        let higher = decimal(n / 10);
        assert(decimal(n).drop_last() =~= higher);
        assert(decimal(n).first() == higher.first());
        assert(decimal(n).last() as int == 48 + n % 10);
    } else {
        assert(decimal(n).drop_last() =~= Seq::<char>::empty());
        assert(decimal(n).last() as int == 48 + n);
        assert(Seq::<char>::empty().fold_left(0int, read) == 0);
    }
}

/// Two numbers are never written alike.
pub proof fn decimals_are_distinct(m: nat, n: nat)
    requires
        decimal(m) == decimal(n),
    ensures
        m == n,
{
    decimals_can_be_read_back(m);
    decimals_can_be_read_back(n);
}

/// Joined parts stand in their order, with the separator between any two neighbours and nowhere
/// else: a row of parts can be cut between any two of them, and the separator is what is cut away.
pub proof fn joined_rows_can_be_cut(
    parts: Seq<Seq<char>>,
    separator: Seq<char>,
    left: nat,
    right: nat,
)
    requires
        left + right <= parts.len(),
    ensures
        joined(parts, separator, 0) == Seq::<char>::empty(),
        parts.len() > 0 ==> joined(parts, separator, 1) == parts[0],
        left > 0 && right > 0 ==> joined(parts, separator, left + right) == joined(
            parts,
            separator,
            left,
        ) + separator + joined(parts.skip(left as int), separator, right),
    decreases right,
{
    if left > 0 && right == 1 {
        assert(parts.skip(left as int)[0] == parts[left as int]);
    } else if left > 0 && right > 1 {
        joined_rows_can_be_cut(parts, separator, left, (right - 1) as nat);
        let rest = parts.skip(left as int);
        assert(rest[right - 1] == parts[left + right - 1]);
        assert(joined(parts, separator, left + right) =~= joined(parts, separator, left) + separator
            + joined(rest, separator, right));
    }
}

} // verus!
