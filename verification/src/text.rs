//! Strings: the few operations the rest of the crate needs, stated over
//! sequences of characters.

use vstd::prelude::*;

verus! {

/// `String::push`: appends one character to the end.
pub assume_specification[ String::push ](s: &mut String, ch: char)
    ensures
        final(s)@ == old(s)@.push(ch),
;

// ---------------------------------------------------------------- views

/// The character sequences of a list of owned strings.
pub open spec fn views(v: Seq<String>) -> Seq<Seq<char>> {
    v.map_values(|s: String| s@)
}

/// The character sequences of a list of string literals.
pub open spec fn literals(v: Seq<&'static str>) -> Seq<Seq<char>> {
    v.map_values(|s: &'static str| s@)
}

/// The characters of an optional string.
pub open spec fn opt_view(s: Option<String>) -> Option<Seq<char>> {
    match s {
        Some(t) => Some(t@),
        None => None,
    }
}

/// An optional borrowed string, as plain values.
pub open spec fn opt_str_view(s: Option<&str>) -> Option<Seq<char>> {
    match s {
        Some(t) => Some(t@),
        None => None,
    }
}

// ---------------------------------------------------------------- characters

/// The characters of a string, in order.
pub fn chars_of(s: &str) -> (v: Vec<char>)
    ensures
        v@ == s@,
{
    let mut v: Vec<char> = Vec::new();
    for c in it: s.chars()
        invariant
            v@ == it.seq().take(it.index()),
            it.seq() == s@,
    {
        v.push(c);
    }
    v
}

/// The string made of `chars[from..to]`.
pub fn string_of(chars: &Vec<char>, from: usize, to: usize) -> (s: String)
    requires
        from <= to <= chars@.len(),
    ensures
        s@ == chars@.subrange(from as int, to as int),
{
    let mut s = String::new();
    let mut i: usize = from;
    while i < to
        invariant
            from <= i <= to <= chars@.len(),
            s@ == chars@.subrange(from as int, i as int),
        decreases to - i,
    {
        s.push(chars[i]);
        i += 1;
    }
    s
}

/// Whether two strings hold the same characters.
pub fn same(a: &str, b: &str) -> (r: bool)
    ensures
        r == (a@ == b@),
{
    a.to_owned() == b.to_owned()
}

// ---------------------------------------------------------------- case

/// Whether a text is ASCII.
pub open spec fn ascii(s: Seq<char>) -> bool {
    forall|i: int| 0 <= i < s.len() ==> #[trigger] s[i] <= '\u{7f}'
}

/// The lowercase form of an ASCII character.
pub open spec fn ascii_lower(c: char) -> char {
    if 'A' <= c <= 'Z' {
        (c as int + 32) as char
    } else {
        c
    }
}

/// An ASCII text in lowercase.
pub open spec fn ascii_lowered(s: Seq<char>) -> Seq<char> {
    s.map_values(|c: char| ascii_lower(c))
}

/// The lowercase form of a string, by the Unicode rules of the standard library.
pub uninterp spec fn lowercase(s: Seq<char>) -> Seq<char>;

/// The lowercase form of a string.
pub open spec fn lower_of(s: Seq<char>) -> Seq<char> {
    if ascii(s) {
        ascii_lowered(s)
    } else {
        lowercase(s)
    }
}

/// `str::to_lowercase`: names its result, and claims that in an ASCII text the
/// letters `A` to `Z` become `a` to `z` and everything else stays. What becomes
/// of other texts is left unsaid.
#[verifier::external_body]
pub(crate) fn to_lowercase(s: &str) -> (r: String)
    ensures
        r@ == lowercase(s@),
        ascii(s@) ==> r@ == ascii_lowered(s@),
{
    s.to_lowercase()
}

// ---------------------------------------------------------------- whitespace

/// The Unicode `White_Space` property.
pub open spec fn whitespace(c: char) -> bool {
    ||| '\u{9}' <= c <= '\u{d}'
    ||| c == ' '
    ||| c == '\u{85}'
    ||| c == '\u{a0}'
    ||| c == '\u{1680}'
    ||| '\u{2000}' <= c <= '\u{200a}'
    ||| c == '\u{2028}'
    ||| c == '\u{2029}'
    ||| c == '\u{202f}'
    ||| c == '\u{205f}'
    ||| c == '\u{3000}'
}

/// Whether `c` has the Unicode `White_Space` property.
pub fn is_whitespace(c: char) -> (r: bool)
    ensures
        r == whitespace(c),
{
    ('\u{9}' <= c && c <= '\u{d}') || c == ' ' || c == '\u{85}' || c == '\u{a0}' || c == '\u{1680}'
        || ('\u{2000}' <= c && c <= '\u{200a}') || c == '\u{2028}' || c == '\u{2029}' || c
        == '\u{202f}' || c == '\u{205f}' || c == '\u{3000}'
}

/// `s` without its leading whitespace.
pub open spec fn trim_start(s: Seq<char>) -> Seq<char>
    decreases s.len(),
{
    if s.len() > 0 && whitespace(s[0]) {
        trim_start(s.drop_first())
    } else {
        s
    }
}

/// `s` without its trailing whitespace.
pub open spec fn trim_end(s: Seq<char>) -> Seq<char>
    decreases s.len(),
{
    if s.len() > 0 && whitespace(s.last()) {
        trim_end(s.drop_last())
    } else {
        s
    }
}

/// `s` without its leading and trailing whitespace.
pub open spec fn trimmed(s: Seq<char>) -> Seq<char> {
    trim_end(trim_start(s))
}

/// The first position at or after `from` that is not whitespace, or the end.
pub fn skip_space(chars: &Vec<char>, from: usize) -> (i: usize)
    requires
        from <= chars@.len(),
    ensures
        from <= i <= chars@.len(),
        trim_start(chars@.skip(from as int)) == chars@.skip(i as int),
{
    let mut i: usize = from;
    while i < chars.len() && is_whitespace(chars[i])
        invariant
            from <= i <= chars@.len(),
            trim_start(chars@.skip(from as int)) == trim_start(chars@.skip(i as int)),
        decreases chars@.len() - i,
    {
        assert(chars@.skip(i as int).drop_first() =~= chars@.skip(i + 1));
        i += 1;
    }
    i
}

/// `s` without its leading and trailing whitespace.
pub fn trim(s: &str) -> (r: String)
    ensures
        r@ == trimmed(s@),
{
    let chars = chars_of(s);
    let from: usize = skip_space(&chars, 0);
    assert(chars@.skip(0) =~= chars@);
    let mut to: usize = chars.len();
    assert(chars@.subrange(from as int, to as int) =~= chars@.skip(from as int));
    while to > from && is_whitespace(chars[to - 1])
        invariant
            from <= to <= chars@.len(),
            trim_end(trim_start(chars@)) == trim_end(chars@.subrange(from as int, to as int)),
        decreases to,
    {
        assert(chars@.subrange(from as int, to as int).drop_last() =~= chars@.subrange(
            from as int,
            to - 1,
        ));
        to -= 1;
    }
    string_of(&chars, from, to)
}

/// Whether `s` holds nothing but whitespace.
pub fn is_blank(s: &str) -> (r: bool)
    ensures
        r == (trimmed(s@).len() == 0),
{
    trim(s).as_str().is_empty()
}

// ---------------------------------------------------------------- splitting and joining

/// The pieces of `s` between occurrences of `sep`; always at least one.
pub open spec fn split_on(s: Seq<char>, sep: char) -> Seq<Seq<char>>
    decreases s.len(),
{
    if s.len() == 0 {
        seq![Seq::<char>::empty()]
    } else {
        let before = split_on(s.drop_last(), sep);
        if s.last() == sep {
            before.push(Seq::<char>::empty())
        } else {
            before.drop_last().push(before.last().push(s.last()))
        }
    }
}

/// Splitting always yields at least one piece.
pub proof fn lemma_split_nonempty(s: Seq<char>, sep: char)
    ensures
        split_on(s, sep).len() >= 1,
    decreases s.len(),
{
    if s.len() > 0 {
        lemma_split_nonempty(s.drop_last(), sep);
    }
}

/// The pieces of `s` between occurrences of `sep`.
pub fn split(s: &str, sep: char) -> (parts: Vec<String>)
    ensures
        views(parts@) == split_on(s@, sep),
{
    let chars = chars_of(s);
    let mut parts: Vec<String> = Vec::new();
    let mut current = String::new();
    let mut i: usize = 0;
    assert(views(parts@).push(current@) =~= split_on(chars@.take(0), sep));
    while i < chars.len()
        invariant
            i <= chars@.len(),
            views(parts@).push(current@) =~= split_on(chars@.take(i as int), sep),
        decreases chars@.len() - i,
    {
        let c = chars[i];
        assert(chars@.take(i + 1).drop_last() =~= chars@.take(i as int));
        assert(chars@.take(i + 1).last() == c);
        let ghost before = split_on(chars@.take(i as int), sep);
        assert(before.drop_last() =~= views(parts@));
        assert(before.last() == current@);
        if c == sep {
            let ghost old_parts = parts@;
            parts.push(current);
            assert(views(parts@) =~= views(old_parts).push(current@));
            current = String::new();
        } else {
            current.push(c);
        }
        i += 1;
    }
    assert(chars@.take(i as int) =~= s@);
    let ghost old_parts = parts@;
    parts.push(current);
    assert(views(parts@) =~= views(old_parts).push(current@));
    parts
}

/// `parts` with `sep` between each two neighbours.
pub open spec fn joined(parts: Seq<Seq<char>>, sep: Seq<char>) -> Seq<char>
    decreases parts.len(),
{
    if parts.len() == 0 {
        Seq::empty()
    } else if parts.len() == 1 {
        parts[0]
    } else {
        joined(parts.drop_last(), sep) + sep + parts.last()
    }
}

/// `parts` with `sep` between each two neighbours.
pub fn join(parts: &Vec<String>, sep: &str) -> (r: String)
    ensures
        r@ == joined(views(parts@), sep@),
{
    let mut r = String::new();
    let mut i: usize = 0;
    while i < parts.len()
        invariant
            i <= parts@.len(),
            r@ =~= joined(views(parts@).take(i as int), sep@),
        decreases parts@.len() - i,
    {
        assert(views(parts@).take(i + 1).drop_last() =~= views(parts@).take(i as int));
        if i > 0 {
            r.append(sep);
        }
        r.append(parts[i].as_str());
        i += 1;
    }
    assert(views(parts@).take(i as int) =~= views(parts@));
    r
}

/// What trimming leaves is a run of the text that neither begins nor ends with
/// whitespace, and trimming it again changes nothing.
pub proof fn lemma_trimmed_is_a_run(s: Seq<char>)
    ensures
        forall|c: char| #[trigger] trimmed(s).contains(c) ==> s.contains(c),
        trimmed(s).len() > 0 ==> !whitespace(trimmed(s)[0]) && !whitespace(trimmed(s).last()),
        trimmed(trimmed(s)) == trimmed(s),
{
    let t = trim_start(s);
    lemma_trim_start_is_a_run(s);
    lemma_trim_end_is_a_run(t);
    let r = trimmed(s);
    assert forall|c: char| #[trigger] r.contains(c) implies s.contains(c) by {
        assert(t.contains(c));
    }
}

proof fn lemma_trim_start_is_a_run(s: Seq<char>)
    ensures
        forall|c: char| #[trigger] trim_start(s).contains(c) ==> s.contains(c),
        trim_start(s).len() > 0 ==> !whitespace(trim_start(s)[0]),
    decreases s.len(),
{
    if s.len() > 0 && whitespace(s[0]) {
        let rest = s.drop_first();
        lemma_trim_start_is_a_run(rest);
        assert forall|c: char| #[trigger] trim_start(s).contains(c) implies s.contains(c) by {
            assert(rest.contains(c));
            let i = choose|i: int| 0 <= i < rest.len() && rest[i] == c;
            assert(s[i + 1] == c);
        }
    }
}

proof fn lemma_trim_end_is_a_run(s: Seq<char>)
    ensures
        forall|c: char| #[trigger] trim_end(s).contains(c) ==> s.contains(c),
        trim_end(s).len() > 0 ==> !whitespace(trim_end(s).last()) && trim_end(s)[0] == s[0],
    decreases s.len(),
{
    if s.len() > 0 && whitespace(s.last()) {
        let rest = s.drop_last();
        lemma_trim_end_is_a_run(rest);
        assert forall|c: char| #[trigger] trim_end(s).contains(c) implies s.contains(c) by {
            assert(rest.contains(c));
            let i = choose|i: int| 0 <= i < rest.len() && rest[i] == c;
            assert(s[i] == c);
        }
    }
}

/// Whether `s` holds nothing but whitespace.
pub open spec fn blank(s: Seq<char>) -> bool {
    forall|i: int| 0 <= i < s.len() ==> whitespace(#[trigger] s[i])
}

/// Trimming takes off whatever whitespace was put around a text.
pub proof fn lemma_trimmed_padding(before: Seq<char>, s: Seq<char>, after: Seq<char>)
    requires
        blank(before),
        blank(after),
    ensures
        trimmed(before + s + after) == trimmed(s),
{
    lemma_trim_start_prefix(before, s + after);
    assert(before + s + after =~= before + (s + after));
    lemma_trim_start_suffix(s, after);
    if trim_start(s).len() > 0 {
        lemma_trim_end_suffix(trim_start(s), after);
    } else {
        lemma_trim_start_prefix(after, Seq::empty());
        assert(after + Seq::<char>::empty() =~= after);
        assert(trim_start(s) =~= Seq::<char>::empty());
    }
}

proof fn lemma_trim_start_prefix(before: Seq<char>, s: Seq<char>)
    requires
        blank(before),
    ensures
        trim_start(before + s) == trim_start(s),
    decreases before.len(),
{
    if before.len() > 0 {
        assert((before + s).drop_first() =~= before.drop_first() + s);
        assert((before + s)[0] == before[0]);
        lemma_trim_start_prefix(before.drop_first(), s);
    } else {
        assert(before + s =~= s);
    }
}

proof fn lemma_trim_start_suffix(s: Seq<char>, after: Seq<char>)
    ensures
        trim_start(s + after) == if trim_start(s).len() > 0 {
            trim_start(s) + after
        } else {
            trim_start(after)
        },
    decreases s.len(),
{
    if s.len() == 0 {
        assert(s + after =~= after);
    } else {
        assert((s + after)[0] == s[0]);
        if whitespace(s[0]) {
            assert((s + after).drop_first() =~= s.drop_first() + after);
            lemma_trim_start_suffix(s.drop_first(), after);
        }
    }
}

proof fn lemma_trim_end_suffix(s: Seq<char>, after: Seq<char>)
    requires
        blank(after),
    ensures
        trim_end(s + after) == trim_end(s),
    decreases after.len(),
{
    if after.len() > 0 {
        assert((s + after).drop_last() =~= s + after.drop_last());
        assert((s + after).last() == after.last());
        lemma_trim_end_suffix(s, after.drop_last());
    } else {
        assert(s + after =~= s);
    }
}

/// What is put behind a text without a separator belongs to its last piece.
proof fn lemma_split_more(s: Seq<char>, t: Seq<char>, sep: char)
    requires
        !t.contains(sep),
    ensures
        split_on(s + t, sep) == split_on(s, sep).drop_last().push(split_on(s, sep).last() + t),
    decreases t.len(),
{
    lemma_split_nonempty(s, sep);
    let pieces = split_on(s, sep);
    if t.len() == 0 {
        assert(s + t =~= s);
        assert(pieces.last() + t =~= pieces.last());
        assert(pieces.drop_last().push(pieces.last()) =~= pieces);
    } else {
        let u = t.drop_last();
        assert forall|i: int| 0 <= i < u.len() implies u[i] != sep by {
            assert(t[i] == u[i]);
        }
        lemma_split_more(s, u, sep);
        assert((s + t).drop_last() =~= s + u);
        assert(t[t.len() - 1] == t.last());
        let before = pieces.drop_last().push(pieces.last() + u);
        assert(before.drop_last() =~= pieces.drop_last());
        assert((pieces.last() + u).push(t.last()) =~= pieces.last() + t);
    }
}

/// No piece holds the separator.
pub proof fn lemma_pieces_are_free(s: Seq<char>, sep: char)
    ensures
        forall|i: int| 0 <= i < split_on(s, sep).len() ==> !(#[trigger] split_on(s, sep)[i]).contains(
            sep,
        ),
    decreases s.len(),
{
    if s.len() > 0 {
        let before = split_on(s.drop_last(), sep);
        lemma_split_nonempty(s.drop_last(), sep);
        lemma_pieces_are_free(s.drop_last(), sep);
        if s.last() != sep {
            let last = before.last().push(s.last());
            assert(!before[before.len() - 1].contains(sep));
            assert forall|j: int| 0 <= j < last.len() implies last[j] != sep by {
                if j < last.len() - 1 {
                    assert(before.last()[j] == last[j]);
                }
            }
        }
    }
}

/// Splitting undoes joining, where no part holds the separator.
pub proof fn lemma_split_undoes_join(parts: Seq<Seq<char>>, sep: char)
    requires
        parts.len() > 0,
        forall|i: int| 0 <= i < parts.len() ==> !(#[trigger] parts[i]).contains(sep),
    ensures
        split_on(joined(parts, seq![sep]), sep) == parts,
    decreases parts.len(),
{
    assert(!parts[parts.len() - 1].contains(sep));
    if parts.len() == 1 {
        let none = Seq::<char>::empty();
        lemma_split_more(none, parts[0], sep);
        assert(none + parts[0] =~= parts[0]);
        assert(split_on(parts[0], sep) =~= parts);
    } else {
        let front = parts.drop_last();
        let head = joined(front, seq![sep]);
        assert forall|i: int| 0 <= i < front.len() implies !(#[trigger] front[i]).contains(sep) by {
            assert(parts[i] == front[i]);
        }
        lemma_split_undoes_join(front, sep);
        let cut = head + seq![sep];
        assert(cut.drop_last() =~= head);
        assert(cut.last() == sep);
        lemma_split_more(cut, parts.last(), sep);
        assert(split_on(cut, sep) == front.push(Seq::<char>::empty()));
        assert(Seq::<char>::empty() + parts.last() =~= parts.last());
        assert(front.push(Seq::<char>::empty()).drop_last() =~= front);
        assert(split_on(cut + parts.last(), sep) =~= parts);
    }
}

// ---------------------------------------------------------------- searching

/// The first position at or after `from` where `needle` occurs in `s`.
pub open spec fn find_from(s: Seq<char>, needle: Seq<char>, from: int) -> Option<int>
    decreases s.len() + 1 - from,
{
    if from < 0 || from + needle.len() > s.len() {
        None
    } else if s.subrange(from, from + needle.len()) == needle {
        Some(from)
    } else {
        find_from(s, needle, from + 1)
    }
}

/// What [`find_from`] returns is an occurrence, and none comes earlier.
pub proof fn lemma_find_is_first(s: Seq<char>, needle: Seq<char>, from: int)
    requires
        0 <= from,
    ensures
        match find_from(s, needle, from) {
            Some(i) => {
                &&& from <= i
                &&& i + needle.len() <= s.len()
                &&& s.subrange(i, i + needle.len()) == needle
                &&& forall|j: int|
                    from <= j < i ==> #[trigger] s.subrange(j, j + needle.len()) != needle
            },
            None => forall|j: int|
                from <= j <= s.len() - needle.len() ==> #[trigger] s.subrange(
                    j,
                    j + needle.len(),
                ) != needle,
        },
    decreases s.len() + 1 - from,
{
    if from + needle.len() <= s.len() && s.subrange(from, from + needle.len()) != needle {
        lemma_find_is_first(s, needle, from + 1);
    }
}

/// Whether `needle` stands at position `at` of `chars`.
pub(crate) fn occurs_at(chars: &Vec<char>, needle: &Vec<char>, at: usize) -> (r: bool)
    requires
        at + needle@.len() <= chars@.len(),
    ensures
        r == (chars@.subrange(at as int, at + needle@.len()) == needle@),
{
    let n: usize = chars.len();
    let mut k: usize = 0;
    while k < needle.len()
        invariant
            k <= needle@.len(),
            n == chars@.len(),
            at + needle@.len() <= chars@.len(),
            forall|j: int| 0 <= j < k ==> chars@[at + j] == needle@[j],
        decreases needle@.len() - k,
    {
        if chars[at + k] != needle[k] {
            assert(chars@.subrange(at as int, at + needle@.len())[k as int] != needle@[k as int]);
            return false;
        }
        k += 1;
    }
    assert(chars@.subrange(at as int, at + needle@.len()) =~= needle@);
    true
}

/// The first position at or after `from` where `needle` occurs in `chars`.
pub fn find(chars: &Vec<char>, needle: &Vec<char>, from: usize) -> (r: Option<usize>)
    requires
        from <= chars@.len(),
    ensures
        match r {
            Some(i) => find_from(chars@, needle@, from as int) == Some(i as int),
            None => find_from(chars@, needle@, from as int) is None,
        },
        r matches Some(i) ==> i + needle@.len() <= chars@.len(),
{
    let mut i: usize = from;
    if needle.len() > chars.len() {
        return None;
    }
    while i <= chars.len() - needle.len()
        invariant
            needle@.len() <= chars@.len(),
            from <= i <= chars@.len() - needle@.len() + 1 || i == from <= chars@.len(),
            find_from(chars@, needle@, from as int) == find_from(chars@, needle@, i as int),
        decreases chars@.len() + 1 - i,
    {
        if occurs_at(chars, needle, i) {
            return Some(i);
        }
        assert(needle@.len() == 0 ==> chars@.subrange(i as int, i as int) =~= needle@);
        i += 1;
    }
    None
}

/// Whether `s` begins with `prefix`.
pub open spec fn has_prefix(s: Seq<char>, prefix: Seq<char>) -> bool {
    prefix.len() <= s.len() && s.take(prefix.len() as int) == prefix
}

/// Whether `s` begins with `prefix`.
pub fn starts_with(s: &str, prefix: &str) -> (r: bool)
    ensures
        r == has_prefix(s@, prefix@),
{
    let chars = chars_of(s);
    let needle = chars_of(prefix);
    if needle.len() > chars.len() {
        return false;
    }
    assert(chars@.subrange(0, needle@.len() as int) =~= chars@.take(needle@.len() as int));
    occurs_at(&chars, &needle, 0)
}

// ---------------------------------------------------------------- numbers

/// The decimal digit for `d`.
pub open spec fn digit(d: nat) -> char
    recommends
        d < 10,
{
    if d == 0 {
        '0'
    } else if d == 1 {
        '1'
    } else if d == 2 {
        '2'
    } else if d == 3 {
        '3'
    } else if d == 4 {
        '4'
    } else if d == 5 {
        '5'
    } else if d == 6 {
        '6'
    } else if d == 7 {
        '7'
    } else if d == 8 {
        '8'
    } else {
        '9'
    }
}

fn digit_char(d: u64) -> (c: char)
    requires
        d < 10,
    ensures
        c == digit(d as nat),
{
    if d == 0 {
        '0'
    } else if d == 1 {
        '1'
    } else if d == 2 {
        '2'
    } else if d == 3 {
        '3'
    } else if d == 4 {
        '4'
    } else if d == 5 {
        '5'
    } else if d == 6 {
        '6'
    } else if d == 7 {
        '7'
    } else if d == 8 {
        '8'
    } else {
        '9'
    }
}

/// `n` written in decimal.
pub open spec fn decimal(n: nat) -> Seq<char>
    decreases n,
{
    if n < 10 {
        seq![digit(n)]
    } else {
        decimal(n / 10).push(digit(n % 10))
    }
}

/// `n` written in decimal.
pub fn to_decimal(n: u64) -> (s: String)
    ensures
        s@ == decimal(n as nat),
    decreases n,
{
    if n < 10 {
        let mut s = String::new();
        s.push(digit_char(n));
        assert(s@ =~= decimal(n as nat));
        s
    } else {
        let mut s = to_decimal(n / 10);
        s.push(digit_char(n % 10));
        s
    }
}

// ---------------------------------------------------------------- layout

/// `s` followed by as many spaces as it needs to be `width` characters wide.
pub open spec fn padded(s: Seq<char>, width: nat) -> Seq<char> {
    if s.len() >= width {
        s
    } else {
        s + Seq::new((width - s.len()) as nat, |i: int| ' ')
    }
}

/// `s` preceded by as many spaces as it needs to be `width` characters wide.
pub open spec fn padded_left(s: Seq<char>, width: nat) -> Seq<char> {
    if s.len() >= width {
        s
    } else {
        Seq::new((width - s.len()) as nat, |i: int| ' ') + s
    }
}

/// As many copies of `c` as `n` says.
pub fn repeat(c: char, n: usize) -> (s: String)
    ensures
        s@ == Seq::new(n as nat, |i: int| c),
{
    let mut s = String::new();
    let mut i: usize = 0;
    while i < n
        invariant
            i <= n,
            s@ =~= Seq::new(i as nat, |j: int| c),
        decreases n - i,
    {
        s.push(c);
        i += 1;
    }
    s
}

/// Left-aligns `s` in a field of `width` characters.
pub fn pad_right(s: &str, width: usize) -> (r: String)
    ensures
        r@ == padded(s@, width as nat),
{
    let n: usize = chars_of(s).len();
    let mut r = s.to_owned();
    if n < width {
        r.append(repeat(' ', width - n).as_str());
    }
    r
}

/// Right-aligns `s` in a field of `width` characters.
pub fn pad_left(s: &str, width: usize) -> (r: String)
    ensures
        r@ == padded_left(s@, width as nat),
{
    let n: usize = chars_of(s).len();
    if n < width {
        let mut r = repeat(' ', width - n);
        r.append(s);
        r
    } else {
        s.to_owned()
    }
}

// ---------------------------------------------------------------- copies

/// A copy of a list of strings.
pub fn copy_strings(v: &Vec<String>) -> (r: Vec<String>)
    ensures
        r@ == v@,
{
    let mut r: Vec<String> = Vec::new();
    let mut i: usize = 0;
    while i < v.len()
        invariant
            i <= v@.len(),
            r@ =~= v@.take(i as int),
        decreases v@.len() - i,
    {
        r.push(v[i].clone());
        i += 1;
    }
    r
}

// ---------------------------------------------------------------- laws

/// What can be seen is not whitespace: no letter, digit or sign of ASCII is, nor
/// any letter of the Latin, Greek and Cyrillic scripts. Spaces, tabs and line
/// breaks are.
pub proof fn law_only_gaps_are_whitespace(c: char)
    ensures
        '!' <= c <= '~' ==> !whitespace(c),
        '\u{a1}' <= c <= '\u{167f}' ==> !whitespace(c),
        c == ' ' || c == '\t' || c == '\n' || c == '\r' || c == '\u{a0}' ==> whitespace(c),
{
}

/// Trimming takes off whitespace at both ends, all of it, and nothing else.
pub proof fn law_trimming_takes_off_the_blank_ends(s: Seq<char>)
    ensures
        exists|a: int, b: int|
            {
                &&& 0 <= a <= b <= s.len()
                &&& trimmed(s) == #[trigger] s.subrange(a, b)
                &&& forall|i: int| 0 <= i < a ==> whitespace(#[trigger] s[i])
                &&& forall|i: int| b <= i < s.len() ==> whitespace(#[trigger] s[i])
                &&& a < b ==> !whitespace(s[a]) && !whitespace(s[b - 1])
            },
{
    let a = lemma_start_of(s);
    let t = s.skip(a);
    let n = lemma_end_of(t);
    assert(t.take(n) =~= s.subrange(a, a + n));
    assert forall|i: int| a + n <= i < s.len() implies whitespace(#[trigger] s[i]) by {
        assert(t[i - a] == s[i]);
    }
    if n > 0 {
        assert(t[0] == s[a] && t[n - 1] == s[a + n - 1]);
    }
    assert(trimmed(s) == s.subrange(a, a + n));
}

proof fn lemma_start_of(s: Seq<char>) -> (a: int)
    ensures
        0 <= a <= s.len(),
        trim_start(s) == s.skip(a),
        forall|i: int| 0 <= i < a ==> whitespace(#[trigger] s[i]),
        a < s.len() ==> !whitespace(s[a]),
    decreases s.len(),
{
    if s.len() > 0 && whitespace(s[0]) {
        let rest = s.drop_first();
        let b = lemma_start_of(rest);
        assert(rest.skip(b) =~= s.skip(b + 1));
        assert forall|i: int| 0 <= i < b + 1 implies whitespace(#[trigger] s[i]) by {
            if i > 0 {
                assert(rest[i - 1] == s[i]);
            }
        }
        b + 1
    } else {
        assert(s.skip(0) =~= s);
        0
    }
}

proof fn lemma_end_of(s: Seq<char>) -> (n: int)
    ensures
        0 <= n <= s.len(),
        trim_end(s) == s.take(n),
        forall|i: int| n <= i < s.len() ==> whitespace(#[trigger] s[i]),
        n > 0 ==> !whitespace(s[n - 1]),
    decreases s.len(),
{
    if s.len() > 0 && whitespace(s.last()) {
        let rest = s.drop_last();
        let n = lemma_end_of(rest);
        assert(rest.take(n) =~= s.take(n));
        assert forall|i: int| n <= i < s.len() implies whitespace(#[trigger] s[i]) by {
            if i < rest.len() {
                assert(rest[i] == s[i]);
            }
        }
        n
    } else {
        assert(s.take(s.len() as int) =~= s);
        s.len() as int
    }
}

/// Joining undoes splitting, and no piece holds the separator: nothing is lost
/// or added, and every separator separates.
pub proof fn law_joining_undoes_splitting(s: Seq<char>, sep: char)
    ensures
        joined(split_on(s, sep), seq![sep]) == s,
        forall|i: int|
            0 <= i < split_on(s, sep).len() ==> !(#[trigger] split_on(s, sep)[i]).contains(sep),
    decreases s.len(),
{
    lemma_pieces_are_free(s, sep);
    lemma_split_nonempty(s, sep);
    if s.len() == 0 {
        assert(joined(split_on(s, sep), seq![sep]) =~= s);
    } else {
        let front = s.drop_last();
        let before = split_on(front, sep);
        law_joining_undoes_splitting(front, sep);
        lemma_split_nonempty(front, sep);
        let now = split_on(s, sep);
        if s.last() == sep {
            assert(now.drop_last() =~= before);
            assert(joined(now, seq![sep]) =~= s);
        } else {
            assert(now.drop_last() =~= before.drop_last());
            assert(now.last() == before.last().push(s.last()));
            assert(joined(now, seq![sep]) =~= joined(before, seq![sep]).push(s.last()));
            assert(s =~= front.push(s.last()));
        }
    }
}

/// Parts that are joined stand one after the other in order, with the separator
/// once between each two: it does not matter where the list is taken apart.
pub proof fn law_parts_are_joined_in_order(
    a: Seq<Seq<char>>,
    b: Seq<Seq<char>>,
    x: Seq<char>,
    sep: Seq<char>,
)
    ensures
        joined(seq![x], sep) == x,
        joined(Seq::empty(), sep).len() == 0,
        a.len() > 0 && b.len() > 0 ==> joined(a + b, sep) == joined(a, sep) + sep + joined(b, sep),
    decreases b.len(),
{
    if a.len() > 0 && b.len() == 1 {
        assert((a + b).drop_last() =~= a);
        assert((a + b).last() == b[0]);
    } else if a.len() > 0 && b.len() > 1 {
        let c = b.drop_last();
        law_parts_are_joined_in_order(a, c, x, sep);
        assert((a + b).drop_last() =~= a + c);
        assert((a + b).last() == b.last());
        assert(joined(a, sep) + sep + joined(c, sep) + sep + b.last() =~= joined(a, sep) + sep + (
        joined(c, sep) + sep + b.last()));
    }
}

/// The number that decimal digits stand for.
pub open spec fn number_of(digits: Seq<char>) -> int
    decreases digits.len(),
{
    if digits.len() == 0 {
        0
    } else {
        10 * number_of(digits.drop_last()) + (digits.last() as int - '0' as int)
    }
}

/// A number is written in digits that stand for it, without leading zeros.
pub proof fn law_decimals_read_back(n: nat)
    ensures
        number_of(decimal(n)) == n,
        decimal(n).len() > 0,
        forall|i: int| 0 <= i < decimal(n).len() ==> '0' <= #[trigger] decimal(n)[i] <= '9',
        decimal(n)[0] == '0' ==> n == 0,
        n == 0 ==> decimal(n).len() == 1,
    decreases n,
{
    reveal_with_fuel(number_of, 2);
    if n >= 10 {
        law_decimals_read_back(n / 10);
        let front = decimal(n / 10);
        assert(decimal(n).drop_last() =~= front);
        assert(decimal(n)[0] == front[0]);
        assert forall|i: int| 0 <= i < decimal(n).len() implies '0' <= #[trigger] decimal(n)[i]
            <= '9' by {
            if i < front.len() {
                assert(front[i] == decimal(n)[i]);
            }
        }
    } else {
        assert(decimal(n).drop_last().len() == 0);
    }
}

/// A text that is laid out in a field is all there, with nothing but spaces
/// beside it, and the field is as wide as was asked for unless the text is wider.
pub proof fn law_layout_adds_only_spaces(s: Seq<char>, width: nat)
    ensures
        padded(s, width).len() == (if s.len() > width {
            s.len()
        } else {
            width
        }),
        padded_left(s, width).len() == padded(s, width).len(),
        padded(s, width).take(s.len() as int) == s,
        padded_left(s, width).skip(padded_left(s, width).len() - s.len()) == s,
        forall|i: int| s.len() <= i < padded(s, width).len() ==> #[trigger] padded(s, width)[i] == ' ',
        forall|i: int|
            0 <= i < padded_left(s, width).len() - s.len() ==> #[trigger] padded_left(s, width)[i]
                == ' ',
{
    assert(padded(s, width).take(s.len() as int) =~= s);
    assert(padded_left(s, width).skip(padded_left(s, width).len() - s.len()) =~= s);
}

/// Lowercase changes the letters `A` to `Z` of ASCII, each to its counterpart,
/// and nothing else.
pub proof fn law_lowercase_of_ascii(s: Seq<char>, i: int)
    requires
        ascii(s),
        0 <= i < s.len(),
    ensures
        lower_of(s).len() == s.len(),
        'A' <= s[i] <= 'Z' ==> lower_of(s)[i] as int - 'a' as int == s[i] as int - 'A' as int,
        !('A' <= s[i] <= 'Z') ==> lower_of(s)[i] == s[i],
{
}

/// A separator and a part without one add that part to the pieces, and change
/// none of the others.
pub proof fn law_one_more_part(s: Seq<char>, part: Seq<char>, sep: char)
    requires
        !part.contains(sep),
    ensures
        split_on(s + seq![sep] + part, sep) == split_on(s, sep).push(part),
{
    let head = s + seq![sep];
    assert(head.drop_last() =~= s);
    lemma_split_more(head, part, sep);
    assert(Seq::<char>::empty() + part =~= part);
    assert(split_on(head, sep).drop_last() =~= split_on(s, sep));
}

/// Blanks in front are passed over up to the first character that is none.
pub proof fn law_leading_blanks_are_passed_over(before: Seq<char>, c: char, rest: Seq<char>)
    requires
        blank(before),
        !whitespace(c),
    ensures
        trim_start(before + seq![c] + rest) == seq![c] + rest,
        trim_start(before).len() == 0,
{
    let s = seq![c] + rest;
    assert(before + seq![c] + rest =~= before + s);
    lemma_trim_start_prefix(before, s);
    lemma_trim_start_prefix(before, Seq::empty());
    assert(before + Seq::<char>::empty() =~= before);
}

/// What is looked for is found where it first stands, and not at all if it
/// stands nowhere.
pub proof fn law_first_occurrence_is_found(s: Seq<char>, needle: Seq<char>, from: int, at: int)
    requires
        0 <= from <= at,
        at + needle.len() <= s.len(),
        s.subrange(at, at + needle.len()) == needle,
        forall|j: int| from <= j < at ==> #[trigger] s.subrange(j, j + needle.len()) != needle,
    ensures
        find_from(s, needle, from) == Some(at),
{
    lemma_find_is_first(s, needle, from);
    assert(s.subrange(at, at + needle.len()) == needle);
    if let Some(i) = find_from(s, needle, from) {
        if i < at {
            assert(s.subrange(i, i + needle.len()) != needle);
        }
    }
}

/// Whether `part` stands somewhere in `s`.
pub open spec fn holds(s: Seq<char>, part: Seq<char>) -> bool {
    exists|i: int|
        0 <= i && i + part.len() <= s.len() && #[trigger] s.subrange(i, i + part.len()) == part
}

/// What stands between two texts stands in the whole.
pub proof fn lemma_holds(before: Seq<char>, part: Seq<char>, after: Seq<char>)
    ensures
        holds(before + part + after, part),
        holds(before + part, part),
{
    let n = before.len() as int;
    assert((before + part + after).subrange(n, n + part.len()) =~= part);
    assert((before + part).subrange(n, n + part.len()) =~= part);
}

} // verus!
