//! What happens to a transcript before it is delivered: the user's
//! substitutions, in order, and then cosmetic changes.

use vstd::prelude::*;
use crate::config::{Config, PostProcConfig, Replacement, regex_error};
use crate::text;

verus! {

// ---------------------------------------------------------------- substitutions

/// `s` with every occurrence of `from` replaced by `to`, from left to right.
/// There is nothing to look for when `from` is empty.
pub open spec fn replaced(s: Seq<char>, from: Seq<char>, to: Seq<char>) -> Seq<char>
    decreases s.len(),
{
    if from.len() == 0 || from.len() > s.len() {
        s
    } else if s.take(from.len() as int) == from {
        to + replaced(s.skip(from.len() as int), from, to)
    } else {
        seq![s[0]] + replaced(s.skip(1), from, to)
    }
}

/// `text` with every occurrence of `from` replaced by `to`.
pub fn replace_literal(text: &str, from: &str, to: &str) -> (r: String)
    ensures
        r@ == replaced(text@, from@, to@),
{
    let chars = text::chars_of(text);
    let needle = text::chars_of(from);
    if needle.len() == 0 {
        return text.to_owned();
    }
    let mut r = String::new();
    let mut i: usize = 0;
    assert(chars@.skip(0) =~= text@);
    assert(r@ + replaced(text@, from@, to@) =~= replaced(text@, from@, to@));
    while i < chars.len()
        invariant
            i <= chars@.len(),
            chars@ == text@,
            needle@ == from@,
            from@.len() > 0,
            replaced(text@, from@, to@) == r@ + replaced(chars@.skip(i as int), from@, to@),
        decreases chars@.len() - i,
    {
        let ghost rest = chars@.skip(i as int);
        let ghost before = r@;
        if needle.len() <= chars.len() - i && text::occurs_at(&chars, &needle, i) {
            assert(rest.take(from@.len() as int) =~= chars@.subrange(i as int, i + from@.len()));
            assert(rest.skip(from@.len() as int) =~= chars@.skip(i + from@.len()));
            r.append(to);
            assert(before + (to@ + replaced(rest.skip(from@.len() as int), from@, to@)) =~= r@
                + replaced(rest.skip(from@.len() as int), from@, to@));
            i += needle.len();
        } else {
            assert(from@.len() <= rest.len() ==> rest.take(from@.len() as int)
                =~= chars@.subrange(i as int, i + from@.len()));
            proof {
                lemma_step(rest, from@, to@);
            }
            assert(rest.skip(1) =~= chars@.skip(i + 1));
            r.push(chars[i]);
            assert(before + (seq![rest[0]] + replaced(rest.skip(1), from@, to@)) =~= r@ + replaced(
                rest.skip(1),
                from@,
                to@,
            ));
            i += 1;
        }
    }
    assert(chars@.skip(i as int) =~= Seq::<char>::empty());
    assert(r@ + Seq::<char>::empty() =~= r@);
    r
}

/// Where nothing is replaced at the beginning, one character is kept.
proof fn lemma_step(s: Seq<char>, from: Seq<char>, to: Seq<char>)
    requires
        s.len() > 0,
        from.len() > 0,
        from.len() <= s.len() ==> s.take(from.len() as int) != from,
    ensures
        replaced(s, from, to) == seq![s[0]] + replaced(s.skip(1), from, to),
{
    if from.len() > s.len() {
        assert(seq![s[0]] + s.skip(1) =~= s);
    }
}

/// What a pattern makes of a text, each match replaced by `to`, in which `$`
/// names what a group matched; nothing if the pattern does not compile.
pub uninterp spec fn regex_replaced(
    pattern: Seq<char>,
    text: Seq<char>,
    to: Seq<char>,
) -> Option<Seq<char>>;

/// `regex::Regex::replace_all`: names its result, and claims that there is one
/// exactly for the patterns that [`regex_error`] has nothing against.
#[verifier::external_body]
fn replace_pattern(pattern: &str, text: &str, to: &str) -> (r: Option<String>)
    ensures
        text::opt_view(r) == regex_replaced(pattern@, text@, to@),
        r is Some <==> regex_error(pattern@) is None,
{
    match regex::Regex::new(pattern) {
        Ok(compiled) => Some(compiled.replace_all(text, to).into_owned()),
        Err(_) => None,
    }
}

/// What a substitution makes of a text, given what its pattern makes of it.
pub open spec fn substituted(r: Replacement, s: Seq<char>, by_pattern: Option<Seq<char>>) -> Seq<
    char,
> {
    match (r.from, r.pattern) {
        (Some(from), _) => replaced(s, from@, r.to@),
        (None, Some(_)) => match by_pattern {
            Some(t) => t,
            None => s,
        },
        (None, None) => s,
    }
}

/// What a substitution's pattern makes of a text, if it has one.
pub open spec fn pattern_result(r: Replacement, s: Seq<char>) -> Option<Seq<char>> {
    match r.pattern {
        Some(p) => regex_replaced(p@, s, r.to@),
        None => None,
    }
}

impl Replacement {
    /// What this makes of a text, given what its pattern makes of it. A
    /// pattern that does not compile changes nothing.
    pub fn apply_with(&self, text: &str, by_pattern: Option<String>) -> (r: String)
        ensures
            r@ == substituted(*self, text@, text::opt_view(by_pattern)),
    {
        match (&self.from, by_pattern) {
            (Some(from), _) => replace_literal(text, from.as_str(), self.to.as_str()),
            (None, Some(t)) => match &self.pattern {
                Some(_) => t,
                None => text.to_owned(),
            },
            (None, None) => text.to_owned(),
        }
    }

    /// What this makes of a text.
    pub fn apply(&self, text: &str) -> (r: String)
        ensures
            r@ == substituted(*self, text@, pattern_result(*self, text@)),
    {
        let by_pattern = match &self.pattern {
            Some(p) => replace_pattern(p.as_str(), text, self.to.as_str()),
            None => None,
        };
        self.apply_with(text, by_pattern)
    }
}

/// What the first `n` substitutions make of a text, in order.
pub open spec fn after_replacements(list: Seq<Replacement>, n: int, s: Seq<char>) -> Seq<char>
    decreases n,
{
    if n <= 0 {
        s
    } else {
        let before = after_replacements(list, n - 1, s);
        substituted(list[n - 1], before, pattern_result(list[n - 1], before))
    }
}

// ---------------------------------------------------------------- capitals

/// Whether a character is alphabetic, by the Unicode rules of the standard
/// library.
pub uninterp spec fn alphabetic(c: char) -> bool;

/// `char::is_alphabetic`: names its result, and claims only that it depends on
/// the character alone.
#[verifier::external_body]
fn is_alphabetic(c: char) -> (r: bool)
    ensures
        r == alphabetic(c),
{
    c.is_alphabetic()
}

/// The uppercase form of a character, by the Unicode rules of the standard
/// library.
pub uninterp spec fn uppercase(c: char) -> Seq<char>;

/// `char::to_uppercase`: names its result, which is one character or more.
#[verifier::external_body]
fn to_uppercase(c: char) -> (r: String)
    ensures
        r@ == uppercase(c),
        r@.len() >= 1,
{
    c.to_uppercase().to_string()
}

/// The first position at or after `from` with an alphabetic character.
pub open spec fn first_letter(s: Seq<char>, from: int) -> Option<int>
    decreases s.len() - from,
{
    if from < 0 || from >= s.len() {
        None
    } else if alphabetic(s[from]) {
        Some(from)
    } else {
        first_letter(s, from + 1)
    }
}

/// `s` with the character at `at` replaced by `upper`.
pub open spec fn with_at(s: Seq<char>, at: int, upper: Seq<char>) -> Seq<char> {
    s.take(at) + upper + s.skip(at + 1)
}

/// `s` with its first alphabetic character in uppercase.
pub open spec fn capitalized(s: Seq<char>) -> Seq<char> {
    match first_letter(s, 0) {
        Some(i) => with_at(s, i, uppercase(s[i])),
        None => s,
    }
}

/// `chars` with the one at `at` replaced by `upper`.
pub fn put_at(chars: &Vec<char>, at: usize, upper: &str) -> (r: String)
    requires
        at < chars@.len(),
    ensures
        r@ == with_at(chars@, at as int, upper@),
{
    let len: usize = chars.len();
    let mut r = text::string_of(chars, 0, at);
    r.append(upper);
    r.append(text::string_of(chars, at + 1, len).as_str());
    assert(chars@.subrange(0, at as int) =~= chars@.take(at as int));
    assert(chars@.subrange(at + 1, chars@.len() as int) =~= chars@.skip(at + 1));
    r
}

/// `text` with its first alphabetic character in uppercase.
pub fn capitalize(text: &str) -> (r: String)
    ensures
        r@ == capitalized(text@),
{
    let chars = text::chars_of(text);
    let mut i: usize = 0;
    while i < chars.len()
        invariant
            i <= chars@.len(),
            chars@ == text@,
            first_letter(text@, 0) == first_letter(text@, i as int),
        decreases chars@.len() - i,
    {
        if is_alphabetic(chars[i]) {
            return put_at(&chars, i, to_uppercase(chars[i]).as_str());
        }
        i += 1;
    }
    text.to_owned()
}

// ---------------------------------------------------------------- all of it

impl PostProcConfig {
    /// What the cosmetic changes make of a text.
    pub open spec fn finished(self, s: Seq<char>) -> Seq<char> {
        let cased = if self.capitalize_first {
            capitalized(s)
        } else {
            s
        };
        if self.trailing_space {
            cased.push(' ')
        } else {
            cased
        }
    }

    /// What the cosmetic changes make of a text.
    pub fn finish(&self, text: &str) -> (r: String)
        ensures
            r@ == self.finished(text@),
    {
        let mut r = if self.capitalize_first {
            capitalize(text)
        } else {
            text.to_owned()
        };
        if self.trailing_space {
            r.push(' ');
        }
        r
    }
}

/// What a configuration's substitutions make of a text.
pub open spec fn substituted_by(config: Config, s: Seq<char>) -> Seq<char> {
    after_replacements(config.replacements@, config.replacements@.len() as int, s)
}

/// What a configuration's substitutions make of a text, applied in order.
pub fn substitute(config: &Config, text: &str) -> (r: String)
    ensures
        r@ == substituted_by(*config, text@),
{
    let mut current = text.to_owned();
    let mut i: usize = 0;
    while i < config.replacements.len()
        invariant
            i <= config.replacements@.len(),
            current@ == after_replacements(config.replacements@, i as int, text@),
        decreases config.replacements@.len() - i,
    {
        current = config.replacements[i].apply(current.as_str());
        i += 1;
    }
    current
}

/// What a configuration makes of a transcript.
pub open spec fn polished(config: Config, s: Seq<char>) -> Seq<char> {
    config.postproc.finished(substituted_by(config, s))
}

// ---------------------------------------------------------------- laws

/// Without substitutions and cosmetic changes a transcript is delivered as it
/// was heard.
pub proof fn law_nothing_set_changes_nothing(config: Config, s: Seq<char>)
    requires
        config.replacements@.len() == 0,
        !config.postproc.capitalize_first,
        !config.postproc.trailing_space,
    ensures
        polished(config, s) == s,
{
}

/// With a trailing space, consecutive dictations do not run together.
pub proof fn law_dictations_are_kept_apart(config: Config, s: Seq<char>)
    requires
        config.postproc.trailing_space,
    ensures
        polished(config, s).len() > 0,
        polished(config, s).last() == ' ',
{
}

/// Capitalizing touches the first alphabetic character and nothing else: what
/// stands before it and behind it is kept.
pub proof fn law_capitalizing_touches_one_character(s: Seq<char>)
    ensures
        match first_letter(s, 0) {
            Some(i) => {
                let c = capitalized(s);
                &&& 0 <= i < s.len()
                &&& alphabetic(s[i])
                &&& forall|j: int| 0 <= j < i ==> !alphabetic(#[trigger] s[j])
                &&& c == s.take(i) + uppercase(s[i]) + s.skip(i + 1)
            },
            None => {
                &&& forall|j: int| 0 <= j < s.len() ==> !alphabetic(#[trigger] s[j])
                &&& capitalized(s) == s
            },
        },
{
    lemma_first_letter(s, 0);
}

proof fn lemma_first_letter(s: Seq<char>, from: int)
    requires
        0 <= from,
    ensures
        match first_letter(s, from) {
            Some(i) => from <= i < s.len() && alphabetic(s[i]) && forall|j: int|
                from <= j < i ==> !alphabetic(#[trigger] s[j]),
            None => forall|j: int| from <= j < s.len() ==> !alphabetic(#[trigger] s[j]),
        },
    decreases s.len() - from,
{
    if from < s.len() && !alphabetic(s[from]) {
        lemma_first_letter(s, from + 1);
    }
}

/// A text in which `from` does not occur is left alone.
pub proof fn law_no_occurrence_no_change(s: Seq<char>, from: Seq<char>, to: Seq<char>)
    requires
        text::find_from(s, from, 0) is None,
    ensures
        replaced(s, from, to) == s,
{
    text::lemma_find_is_first(s, from, 0);
    lemma_unchanged(s, from, to);
}

proof fn lemma_unchanged(s: Seq<char>, from: Seq<char>, to: Seq<char>)
    requires
        forall|j: int|
            0 <= j <= s.len() - from.len() ==> #[trigger] s.subrange(j, j + from.len()) != from,
    ensures
        replaced(s, from, to) == s,
    decreases s.len(),
{
    if from.len() > 0 && from.len() <= s.len() {
        assert(s.subrange(0, from.len() as int) =~= s.take(from.len() as int));
        assert(s.subrange(0, 0int + from.len()) != from);
        let t = s.skip(1);
        assert forall|j: int| 0 <= j <= t.len() - from.len() implies #[trigger] t.subrange(
            j,
            j + from.len(),
        ) != from by {
            assert(t.subrange(j, j + from.len()) =~= s.subrange(j + 1, j + 1 + from.len()));
        }
        lemma_unchanged(t, from, to);
        assert(seq![s[0]] + t =~= s);
    }
}

/// The first place where `from` stands is replaced by `to`, and the rest of the
/// text is treated alike; what stands before it is kept.
pub proof fn law_each_occurrence_is_replaced(
    before: Seq<char>,
    after: Seq<char>,
    from: Seq<char>,
    to: Seq<char>,
)
    requires
        from.len() > 0,
        forall|j: int|
            0 <= j < before.len() ==> #[trigger] (before + from + after).subrange(
                j,
                j + from.len(),
            ) != from,
    ensures
        replaced(before + from + after, from, to) == before + to + replaced(after, from, to),
    decreases before.len(),
{
    let s = before + from + after;
    if before.len() == 0 {
        assert(s.take(from.len() as int) =~= from);
        assert(s.skip(from.len() as int) =~= after);
        assert(before + to =~= to);
    } else {
        assert(s.subrange(0, 0int + from.len()) =~= s.take(from.len() as int));
        assert(s.subrange(0, 0int + from.len()) != from);
        let rest = before.skip(1);
        assert(s.skip(1) =~= rest + from + after);
        assert forall|j: int| 0 <= j < rest.len() implies #[trigger] (rest + from
            + after).subrange(j, j + from.len()) != from by {
            assert((rest + from + after).subrange(j, j + from.len()) =~= s.subrange(
                j + 1,
                j + 1 + from.len(),
            ));
        }
        law_each_occurrence_is_replaced(rest, after, from, to);
        assert(seq![s[0]] + (rest + to + replaced(after, from, to)) =~= before + to + replaced(
            after,
            from,
            to,
        ));
    }
}

/// There is nothing to replace an empty `from` with.
pub proof fn law_empty_from_changes_nothing(s: Seq<char>, to: Seq<char>)
    ensures
        replaced(s, Seq::empty(), to) == s,
{
}

/// A literal goes before a pattern, a pattern that does not compile changes
/// nothing, and neither does a replacement without both.
pub proof fn law_what_a_replacement_does(r: Replacement, s: Seq<char>, result: Seq<char>)
    ensures
        r.from is Some ==> substituted(r, s, Some(result)) == replaced(s, r.from->0@, r.to@)
            && substituted(r, s, None) == replaced(s, r.from->0@, r.to@),
        r.from is None && r.pattern is Some ==> substituted(r, s, Some(result)) == result
            && substituted(r, s, None) == s,
        r.from is None && r.pattern is None ==> substituted(r, s, Some(result)) == s,
        r.pattern is Some ==> pattern_result(r, s) == regex_replaced(r.pattern->0@, s, r.to@),
{
}

/// Replacements run one after the other, each on what the ones before it left.
pub proof fn law_replacements_run_in_order(a: Seq<Replacement>, b: Seq<Replacement>, s: Seq<char>)
    ensures
        after_replacements(a + b, (a + b).len() as int, s) == after_replacements(
            b,
            b.len() as int,
            after_replacements(a, a.len() as int, s),
        ),
        forall|r: Replacement|
            after_replacements(seq![r], 1, s) == #[trigger] substituted(
                r,
                s,
                pattern_result(r, s),
            ),
        after_replacements(Seq::empty(), 0, s) == s,
{
    reveal_with_fuel(after_replacements, 2);
    lemma_more_replacements(a, b, b.len() as int, s);
}

proof fn lemma_more_replacements(a: Seq<Replacement>, b: Seq<Replacement>, n: int, s: Seq<char>)
    requires
        0 <= n <= b.len(),
    ensures
        after_replacements(a + b, a.len() + n, s) == after_replacements(
            b,
            n,
            after_replacements(a, a.len() as int, s),
        ),
    decreases n,
{
    if n > 0 {
        lemma_more_replacements(a, b, n - 1, s);
        assert((a + b)[a.len() + n - 1] == b[n - 1]);
    } else {
        lemma_own_replacements(a, b, a.len() as int, s);
    }
}

proof fn lemma_own_replacements(a: Seq<Replacement>, b: Seq<Replacement>, n: int, s: Seq<char>)
    requires
        0 <= n <= a.len(),
    ensures
        after_replacements(a + b, n, s) == after_replacements(a, n, s),
    decreases n,
{
    if n > 0 {
        lemma_own_replacements(a, b, n - 1, s);
    }
}

/// Each cosmetic touch is made exactly if it is asked for: the space is put
/// behind what there would be without it, and only then, and letters change
/// only where capitals are wanted.
pub proof fn law_cosmetics_as_asked(config: PostProcConfig, s: Seq<char>)
    ensures
        !config.capitalize_first ==> config.finished(s).take(s.len() as int) == s,
        config.capitalize_first ==> config.finished(s).take(capitalized(s).len() as int)
            == capitalized(s),
        config.finished(s).len() == (if config.capitalize_first {
            capitalized(s).len()
        } else {
            s.len()
        }) + (if config.trailing_space {
            1nat
        } else {
            0nat
        }),
        config.trailing_space ==> config.finished(s).last() == ' ',
{
    let cased = if config.capitalize_first {
        capitalized(s)
    } else {
        s
    };
    assert(cased.push(' ').take(cased.len() as int) =~= cased);
    assert(cased.take(cased.len() as int) =~= cased);
}

/// The touches come after the replacements: polishing is to replace only and
/// then to touch up only.
pub proof fn law_cosmetics_come_last(
    both: Config,
    replacing: Config,
    touching: Config,
    s: Seq<char>,
)
    requires
        replacing.replacements@ == both.replacements@,
        !replacing.postproc.capitalize_first,
        !replacing.postproc.trailing_space,
        touching.replacements@.len() == 0,
        touching.postproc.capitalize_first == both.postproc.capitalize_first,
        touching.postproc.trailing_space == both.postproc.trailing_space,
    ensures
        polished(both, s) == polished(touching, polished(replacing, s)),
        polished(replacing, s) == after_replacements(
            both.replacements@,
            both.replacements@.len() as int,
            s,
        ),
{
}

} // verus!
