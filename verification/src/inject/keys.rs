//! Paste chords like `ctrl+shift+v`, and the wtype arguments that press them.

use vstd::prelude::*;
use crate::text;
use crate::text::views;

verus! {

/// The wtype name of the modifier that `name` stands for, if it is one.
pub open spec fn modifier(name: Seq<char>) -> Option<Seq<char>> {
    if name == "ctrl"@ || name == "control"@ {
        Some("ctrl"@)
    } else if name == "shift"@ {
        Some("shift"@)
    } else if name == "alt"@ {
        Some("alt"@)
    } else if name == "altgr"@ {
        Some("altgr"@)
    } else if name == "super"@ || name == "logo"@ || name == "win"@ || name == "meta"@ {
        Some("logo"@)
    } else {
        None
    }
}

fn modifier_name(name: &str) -> (r: Option<&'static str>)
    ensures
        match r {
            Some(m) => modifier(name@) == Some(m@),
            None => modifier(name@) is None,
        },
{
    if text::same(name, "ctrl") || text::same(name, "control") {
        Some("ctrl")
    } else if text::same(name, "shift") {
        Some("shift")
    } else if text::same(name, "alt") {
        Some("alt")
    } else if text::same(name, "altgr") {
        Some("altgr")
    } else if text::same(name, "super") || text::same(name, "logo") || text::same(name, "win")
        || text::same(name, "meta") {
        Some("logo")
    } else {
        None
    }
}

/// Why a chord was rejected; each carries the chord as it was written.
#[derive(Debug, Clone, PartialEq, Eq)]
pub enum ChordError {
    EmptyComponent { spec: String },
    TwoKeys { spec: String },
    NoKey { spec: String },
}

impl ChordError {
    /// The error in words.
    pub open spec fn text(self) -> Seq<char> {
        match self {
            ChordError::EmptyComponent { spec } => "empty component in key chord `"@ + spec@ + "`"@,
            ChordError::TwoKeys { spec } => "key chord `"@ + spec@
                + "` names more than one non-modifier key"@,
            ChordError::NoKey { spec } => "key chord `"@ + spec@ + "` has no non-modifier key"@,
        }
    }

    /// The error in words.
    pub fn message(&self) -> (r: String)
        ensures
            r@ == self.text(),
    {
        match self {
            ChordError::EmptyComponent { spec } => {
                let mut m = "empty component in key chord `".to_owned();
                m.append(spec.as_str());
                m.append("`");
                m
            },
            ChordError::TwoKeys { spec } => {
                let mut m = "key chord `".to_owned();
                m.append(spec.as_str());
                m.append("` names more than one non-modifier key");
                m
            },
            ChordError::NoKey { spec } => {
                let mut m = "key chord `".to_owned();
                m.append(spec.as_str());
                m.append("` has no non-modifier key");
                m
            },
        }
    }
}

/// One component of a chord: what was written, and its lowercase form.
#[derive(Debug, Clone, PartialEq, Eq)]
pub struct Part {
    pub text: String,
    pub lower: String,
}

/// The written and lowercase forms of some components.
pub open spec fn part_views(parts: Seq<Part>) -> Seq<(Seq<char>, Seq<char>)> {
    parts.map_values(|p: Part| (p.text@, p.lower@))
}

/// What some components, read left to right, amount to.
pub ghost enum Reading {
    /// No fault so far; the wtype modifier names in order, and the key if
    /// there was one.
    Keys { modifiers: Seq<Seq<char>>, key: Option<Seq<char>> },
    /// A component was empty.
    Empty,
    /// A second non-modifier key came up.
    TwoKeys,
}

/// Reads components left to right; the first fault decides.
pub open spec fn reading(parts: Seq<(Seq<char>, Seq<char>)>) -> Reading
    decreases parts.len(),
{
    if parts.len() == 0 {
        Reading::Keys { modifiers: Seq::empty(), key: None }
    } else {
        match reading(parts.drop_last()) {
            Reading::Keys { modifiers, key } => {
                let (written, lower) = parts.last();
                if written.len() == 0 {
                    Reading::Empty
                } else {
                    match modifier(lower) {
                        Some(name) => Reading::Keys { modifiers: modifiers.push(name), key },
                        None => if key is Some {
                            Reading::TwoKeys
                        } else {
                            // Single letters are lowercased; named keys such as
                            // `Return` or `Home` keep their case for libxkbcommon.
                            Reading::Keys {
                                modifiers,
                                key: Some(
                                    if written.len() == 1 {
                                        lower
                                    } else {
                                        written
                                    },
                                ),
                            }
                        },
                    }
                }
            },
            fault => fault,
        }
    }
}

/// The components of a chord as they are written: the pieces between `+`
/// signs, trimmed.
pub open spec fn pieces(spec: Seq<char>) -> Seq<Seq<char>> {
    text::split_on(spec, '+').map_values(|piece: Seq<char>| text::trimmed(piece))
}

/// The components of a chord, each with its lowercase form.
pub open spec fn components(spec: Seq<char>) -> Seq<(Seq<char>, Seq<char>)> {
    pieces(spec).map_values(|piece: Seq<char>| (piece, text::lower_of(piece)))
}

/// Whether `r` is what a chord amounts to, given the reading of its components.
pub open spec fn is_parse_of(r: Result<Chord, ChordError>, spec: Seq<char>, read: Reading) -> bool {
    match read {
        Reading::Empty => r matches Err(ChordError::EmptyComponent { spec: s }) && s@ == spec,
        Reading::TwoKeys => r matches Err(ChordError::TwoKeys { spec: s }) && s@ == spec,
        Reading::Keys { modifiers, key: None } => r matches Err(ChordError::NoKey { spec: s }) && s@
            == spec,
        Reading::Keys { modifiers, key: Some(key) } => r matches Ok(c) && views(c.modifiers@)
            == modifiers && c.key@ == key,
    }
}

/// `flag` before each of `names`.
pub open spec fn flagged(flag: Seq<char>, names: Seq<Seq<char>>) -> Seq<Seq<char>> {
    Seq::new(
        2 * names.len(),
        |i: int|
            if i % 2 == 0 {
                flag
            } else {
                names[i / 2]
            },
    )
}

/// The arguments that press `modifiers` in order, tap `key`, and release the
/// modifiers in reverse order.
pub open spec fn chord_args(modifiers: Seq<Seq<char>>, key: Seq<char>) -> Seq<Seq<char>> {
    flagged("-M"@, modifiers) + seq!["-k"@, key] + flagged("-m"@, modifiers.reverse())
}

/// A parsed key combination.
#[derive(Debug, Clone, PartialEq, Eq)]
pub struct Chord {
    /// wtype modifier names, in the order given.
    pub modifiers: Vec<String>,
    /// The non-modifier key, as libxkbcommon names it.
    pub key: String,
}

impl Chord {
    /// Parse `ctrl+v`, `ctrl+shift+v`, `super+alt+Return`, …
    pub fn parse(spec: &str) -> (r: Result<Self, ChordError>)
        ensures
            is_parse_of(r, spec@, reading(components(spec@))),
    {
        let pieces = text::split(spec, '+');
        let mut parts: Vec<Part> = Vec::new();
        let mut i: usize = 0;
        while i < pieces.len()
            invariant
                i <= pieces@.len(),
                views(pieces@) == text::split_on(spec@, '+'),
                part_views(parts@) =~= components(spec@).take(i as int),
            decreases pieces@.len() - i,
        {
            let text = text::trim(pieces[i].as_str());
            let lower = text::to_lowercase(text.as_str());
            assert(views(pieces@)[i as int] == pieces@[i as int]@);
            let ghost before = parts@;
            parts.push(Part { text, lower });
            assert(part_views(parts@) =~= part_views(before).push((text@, lower@)));
            i += 1;
        }
        assert(pieces@.len() == views(pieces@).len());
        assert(part_views(parts@) =~= components(spec@));
        Self::parse_parts(spec, &parts)
    }

    /// Assembles a chord from its components; `spec` is quoted in errors.
    pub fn parse_parts(spec: &str, parts: &Vec<Part>) -> (r: Result<Self, ChordError>)
        ensures
            is_parse_of(r, spec@, reading(part_views(parts@))),
    {
        let mut modifiers: Vec<String> = Vec::new();
        let mut key: Option<String> = None;
        let ghost all = part_views(parts@);
        let mut i: usize = 0;
        assert(all.take(0) =~= Seq::<(Seq<char>, Seq<char>)>::empty());
        assert(views(modifiers@) =~= Seq::<Seq<char>>::empty());
        while i < parts.len()
            invariant
                i <= parts@.len(),
                all == part_views(parts@),
                reading(all.take(i as int)) == (Reading::Keys {
                    modifiers: views(modifiers@),
                    key: text::opt_view(key),
                }),
            decreases parts@.len() - i,
        {
            let part = &parts[i];
            assert(all.take(i + 1).drop_last() =~= all.take(i as int));
            assert(all.take(i + 1).last() == (part.text@, part.lower@));
            if part.text.as_str().is_empty() {
                proof {
                    lemma_fault_decides(all, i + 1);
                }
                return Err(ChordError::EmptyComponent { spec: spec.to_owned() });
            }
            match modifier_name(part.lower.as_str()) {
                Some(name) => {
                    let ghost before = modifiers@;
                    modifiers.push(name.to_owned());
                    assert(views(modifiers@) =~= views(before).push(name@));
                },
                None => {
                    if key.is_some() {
                        proof {
                            lemma_fault_decides(all, i + 1);
                        }
                        return Err(ChordError::TwoKeys { spec: spec.to_owned() });
                    }
                    key = Some(
                        if part.text.as_str().unicode_len() == 1 {
                            part.lower.clone()
                        } else {
                            part.text.clone()
                        },
                    );
                },
            }
            i += 1;
        }
        assert(all.take(i as int) =~= all);
        match key {
            Some(key) => Ok(Chord { modifiers, key }),
            None => Err(ChordError::NoKey { spec: spec.to_owned() }),
        }
    }

    /// The wtype argument vector that presses and releases this chord.
    ///
    /// Modifiers are released in reverse order, which is what a real keyboard
    /// does and what applications watching for key-up expect.
    pub fn to_wtype_args(&self) -> (args: Vec<String>)
        ensures
            views(args@) == chord_args(views(self.modifiers@), self.key@),
    {
        let ghost names = views(self.modifiers@);
        let mut args: Vec<String> = Vec::new();
        let mut i: usize = 0;
        while i < self.modifiers.len()
            invariant
                i <= self.modifiers@.len(),
                names == views(self.modifiers@),
                views(args@) =~= flagged("-M"@, names.take(i as int)),
            decreases self.modifiers@.len() - i,
        {
            let ghost before = args@;
            args.push("-M".to_owned());
            args.push(self.modifiers[i].clone());
            assert(views(args@) =~= views(before).push("-M"@).push(names[i as int]));
            i += 1;
        }
        assert(names.take(i as int) =~= names);
        let ghost before = args@;
        args.push("-k".to_owned());
        args.push(self.key.clone());
        assert(views(args@) =~= views(before) + seq!["-k"@, self.key@]);
        let ghost pressed = views(args@);
        let ghost back = names.reverse();
        let mut left: usize = self.modifiers.len();
        assert(views(args@) =~= pressed + flagged("-m"@, back.take(0)));
        while left > 0
            invariant
                left <= self.modifiers@.len(),
                names == views(self.modifiers@),
                back == names.reverse(),
                views(args@) =~= pressed + flagged("-m"@, back.take(names.len() - left)),
            decreases left,
        {
            let ghost before = args@;
            args.push("-m".to_owned());
            args.push(self.modifiers[left - 1].clone());
            assert(views(args@) =~= views(before).push("-m"@).push(names[left - 1]));
            assert(back[names.len() - left] == names[left - 1]);
            left -= 1;
        }
        assert(back.take(names.len() as int) =~= back);
        args
    }
}

/// Once the first `n` components hold a fault, the rest cannot undo it.
proof fn lemma_fault_decides(parts: Seq<(Seq<char>, Seq<char>)>, n: int)
    requires
        0 <= n <= parts.len(),
        !(reading(parts.take(n)) is Keys),
    ensures
        reading(parts) == reading(parts.take(n)),
    decreases parts.len() - n,
{
    if n < parts.len() {
        assert(parts.take(n + 1).drop_last() =~= parts.take(n));
        lemma_fault_decides(parts, n + 1);
    } else {
        assert(parts.take(n) =~= parts);
    }
}

/// Whether the `k`-th pair of arguments from the left presses the modifier that
/// the `k`-th pair from the right releases.
pub open spec fn pressed_and_released(args: Seq<Seq<char>>, modifier: Seq<char>, k: int) -> bool {
    &&& args[2 * k] == "-M"@
    &&& args[2 * k + 1] == modifier
    &&& args[args.len() - 2 - 2 * k] == "-m"@
    &&& args[args.len() - 1 - 2 * k] == modifier
}

/// Every modifier that is pressed is released, in reverse order, and the key is
/// struck in between.
pub proof fn law_every_press_is_released(modifiers: Seq<Seq<char>>, key: Seq<char>)
    ensures
        chord_args(modifiers, key).len() == 4 * modifiers.len() + 2,
        forall|k: int|
            0 <= k < modifiers.len() ==> #[trigger] pressed_and_released(
                chord_args(modifiers, key),
                modifiers[k],
                k,
            ),
        chord_args(modifiers, key)[2 * modifiers.len() as int] == "-k"@,
        chord_args(modifiers, key)[2 * modifiers.len() as int + 1] == key,
{
    assert forall|k: int| 0 <= k < modifiers.len() implies #[trigger] pressed_and_released(
        chord_args(modifiers, key),
        modifiers[k],
        k,
    ) by {
        lemma_press_and_release(modifiers, key, k);
    }
}

proof fn lemma_flagged(flag: Seq<char>, names: Seq<Seq<char>>, k: int)
    requires
        0 <= k < names.len(),
    ensures
        flagged(flag, names).len() == 2 * names.len(),
        flagged(flag, names)[2 * k] == flag,
        flagged(flag, names)[2 * k + 1] == names[k],
{
    assert((2 * k) % 2 == 0 && (2 * k + 1) % 2 == 1 && (2 * k + 1) / 2 == k);
}

proof fn lemma_press_and_release(modifiers: Seq<Seq<char>>, key: Seq<char>, k: int)
    requires
        0 <= k < modifiers.len(),
    ensures
        pressed_and_released(chord_args(modifiers, key), modifiers[k], k),
{
    let n = modifiers.len() as int;
    let back = modifiers.reverse();
    let pressed = flagged("-M"@, modifiers) + seq!["-k"@, key];
    let released = flagged("-m"@, back);
    lemma_flagged("-M"@, modifiers, k);
    lemma_flagged("-m"@, back, n - 1 - k);
    assert(back[n - 1 - k] == modifiers[k]);
    assert(chord_args(modifiers, key) == pressed + released);
    assert((pressed + released)[2 * k] == flagged("-M"@, modifiers)[2 * k]);
    assert((pressed + released)[2 * k + 1] == flagged("-M"@, modifiers)[2 * k + 1]);
    assert((pressed + released)[2 * n + 2 + 2 * (n - 1 - k)] == released[2 * (n - 1 - k)]);
    assert((pressed + released)[2 * n + 2 + 2 * (n - 1 - k) + 1] == released[2 * (n - 1 - k) + 1]);
}

/// Components that were spelled otherwise: each is the same, or it still names
/// the same modifier.
pub open spec fn respelled(
    a: Seq<(Seq<char>, Seq<char>)>,
    b: Seq<(Seq<char>, Seq<char>)>,
) -> bool {
    &&& a.len() == b.len()
    &&& forall|i: int|
        0 <= i < a.len() ==> {
            ||| #[trigger] a[i] == b[i]
            ||| a[i].0.len() > 0 && b[i].0.len() > 0 && modifier(a[i].1) is Some && modifier(
                a[i].1,
            ) == modifier(b[i].1)
        }
}

/// It does not matter how modifiers are spelled: in another case, which has the
/// same lowercase form, or by another of their names.
pub proof fn law_respelled_parts_give_the_same_chord(
    c: Chord,
    spec: Seq<char>,
    parts: Seq<(Seq<char>, Seq<char>)>,
    other: Seq<char>,
    other_parts: Seq<(Seq<char>, Seq<char>)>,
)
    requires
        respelled(parts, other_parts),
    ensures
        is_parse_of(Ok(c), spec, reading(parts)) ==> is_parse_of(
            Ok(c),
            other,
            reading(other_parts),
        ),
{
    lemma_respelled(parts, other_parts);
}

proof fn lemma_respelled(a: Seq<(Seq<char>, Seq<char>)>, b: Seq<(Seq<char>, Seq<char>)>)
    requires
        respelled(a, b),
    ensures
        reading(a) == reading(b),
    decreases a.len(),
{
    if a.len() > 0 {
        let front = a.drop_last();
        let other = b.drop_last();
        assert forall|i: int| 0 <= i < front.len() implies {
            ||| #[trigger] front[i] == other[i]
            ||| front[i].0.len() > 0 && other[i].0.len() > 0 && modifier(front[i].1) is Some
                && modifier(front[i].1) == modifier(other[i].1)
        } by {
            assert(a[i] == front[i] && b[i] == other[i]);
        }
        lemma_respelled(front, other);
        assert(a[a.len() - 1] == a.last() && b[b.len() - 1] == b.last());
    } else {
        assert(a =~= b);
    }
}

/// A chord with whitespace put before and behind each piece.
pub open spec fn spaced(
    spec: Seq<char>,
    before: Seq<Seq<char>>,
    after: Seq<Seq<char>>,
) -> Seq<char> {
    text::joined(
        Seq::new(
            text::split_on(spec, '+').len(),
            |i: int| before[i] + text::split_on(spec, '+')[i] + after[i],
        ),
        seq!['+'],
    )
}

/// Spaces around the parts of a chord do not matter: it has the same
/// components.
pub proof fn law_spaces_do_not_matter(
    spec: Seq<char>,
    before: Seq<Seq<char>>,
    after: Seq<Seq<char>>,
)
    requires
        before.len() == text::split_on(spec, '+').len(),
        after.len() == text::split_on(spec, '+').len(),
        forall|i: int| 0 <= i < before.len() ==> text::blank(#[trigger] before[i]),
        forall|i: int| 0 <= i < after.len() ==> text::blank(#[trigger] after[i]),
    ensures
        pieces(spaced(spec, before, after)) == pieces(spec),
        components(spaced(spec, before, after)) == components(spec),
{
    let plain = text::split_on(spec, '+');
    let padded = Seq::new(plain.len(), |i: int| before[i] + plain[i] + after[i]);
    text::lemma_split_nonempty(spec, '+');
    text::lemma_pieces_are_free(spec, '+');
    assert forall|i: int| 0 <= i < padded.len() implies !(#[trigger] padded[i]).contains('+') by {
        let p = padded[i];
        assert(!plain[i].contains('+'));
        assert(text::blank(before[i]) && text::blank(after[i]));
        assert forall|j: int| 0 <= j < p.len() implies p[j] != '+' by {
            let b = before[i].len();
            let n = plain[i].len();
            if j < b {
                assert(p[j] == before[i][j]);
            } else if j < b + n {
                assert(p[j] == plain[i][j - b]);
            } else {
                assert(p[j] == after[i][j - b - n]);
            }
        }
    }
    assert(spaced(spec, before, after) == text::joined(padded, seq!['+'])) by {
        assert(padded =~= Seq::new(
            text::split_on(spec, '+').len(),
            |i: int| before[i] + text::split_on(spec, '+')[i] + after[i],
        ));
    }
    text::lemma_split_undoes_join(padded, '+');
    assert forall|i: int| 0 <= i < plain.len() implies text::trimmed(#[trigger] padded[i])
        == text::trimmed(plain[i]) by {
        text::lemma_trimmed_padding(before[i], plain[i], after[i]);
    }
    assert(pieces(spaced(spec, before, after)) =~= pieces(spec));
}

/// The canonical spelling of a chord: its modifiers and its key, with `+`
/// between them.
pub open spec fn spelling(c: Chord) -> Seq<char> {
    text::joined(views(c.modifiers@).push(c.key@), seq!['+'])
}

/// Written components, each with its lowercase form.
pub open spec fn with_lowers(written: Seq<Seq<char>>, lowers: Seq<Seq<char>>) -> Seq<
    (Seq<char>, Seq<char>),
> {
    Seq::new(written.len(), |i: int| (written[i], lowers[i]))
}

/// The canonical spelling of a chord gives that chord again. `lowers` are the
/// lowercase forms of its modifiers, which are in lowercase already, and of its
/// key, which is no modifier and, if it is a single character, in lowercase too.
pub proof fn law_canonical_parts_give_the_same_chord(
    c: Chord,
    spec: Seq<char>,
    parts: Seq<(Seq<char>, Seq<char>)>,
    lowers: Seq<Seq<char>>,
)
    requires
        is_parse_of(Ok(c), spec, reading(parts)),
        c.key@.len() > 0,
        !c.key@.contains('+'),
        text::trimmed(c.key@) == c.key@,
        lowers.len() == c.modifiers@.len() + 1,
        forall|i: int| 0 <= i < c.modifiers@.len() ==> #[trigger] lowers[i] == c.modifiers@[i]@,
        modifier(lowers.last()) is None,
        c.key@.len() == 1 ==> lowers.last() == c.key@,
    ensures
        pieces(spelling(c)) == views(c.modifiers@).push(c.key@),
        is_parse_of(Ok(c), spelling(c), reading(with_lowers(pieces(spelling(c)), lowers))),
{
    let names = views(c.modifiers@);
    let written = names.push(c.key@);
    lemma_read_modifiers(parts);
    assert(reading(parts) == (Reading::Keys { modifiers: names, key: Some(c.key@) }));
    assert forall|i: int| 0 <= i < written.len() implies !(#[trigger] written[i]).contains('+')
        && text::trimmed(written[i]) == written[i] by {
        if i < names.len() {
            assert(modifier(names[i]) == Some(names[i]));
            lemma_modifier_names(names[i]);
        }
    }
    text::lemma_split_undoes_join(written, '+');
    assert(pieces(spelling(c)) =~= written);
    let again = with_lowers(written, lowers);
    let front = again.drop_last();
    assert forall|i: int| 0 <= i < front.len() implies #[trigger] front[i] == (names[i], names[i]) by {
        assert(lowers[i] == c.modifiers@[i]@);
    }
    assert forall|i: int| 0 <= i < names.len() implies (#[trigger] names[i]).len() > 0 by {
        assert(modifier(names[i]) == Some(names[i]));
        lemma_modifier_names(names[i]);
    }
    lemma_reading_of_modifiers(front, names);
    assert(again.last() == (c.key@, lowers.last()));
}

/// Whether a chord is spelled otherwise than another: each component is the
/// same, or it names the same modifier in another ASCII case.
pub open spec fn other_case(spec: Seq<char>, other: Seq<char>) -> bool {
    &&& pieces(spec).len() == pieces(other).len()
    &&& forall|i: int|
        0 <= i < pieces(spec).len() ==> {
            ||| #[trigger] pieces(spec)[i] == pieces(other)[i]
            ||| text::ascii(pieces(spec)[i]) && text::ascii(pieces(other)[i])
                && text::ascii_lowered(pieces(spec)[i]) == text::ascii_lowered(pieces(other)[i])
                && modifier(text::ascii_lowered(pieces(spec)[i])) is Some
        }
}

/// A chord whose modifiers are written in another ASCII case, with whatever
/// spaces around its parts, parses to the same chord.
pub proof fn law_case_and_spaces_do_not_matter(c: Chord, spec: Seq<char>, other: Seq<char>)
    requires
        other_case(spec, other),
    ensures
        is_parse_of(Ok(c), spec, reading(components(spec))) ==> is_parse_of(
            Ok(c),
            other,
            reading(components(other)),
        ),
{
    let a = components(spec);
    let b = components(other);
    assert forall|i: int| 0 <= i < a.len() implies {
        ||| #[trigger] a[i] == b[i]
        ||| a[i].0.len() > 0 && b[i].0.len() > 0 && modifier(a[i].1) is Some && modifier(a[i].1)
            == modifier(b[i].1)
    } by {
        let p = pieces(spec)[i];
        let q = pieces(other)[i];
        if p != q {
            lemma_modifiers_are_words(text::ascii_lowered(p));
            assert(text::ascii_lowered(p).len() == p.len());
            assert(text::ascii_lowered(q).len() == q.len());
        }
    }
    lemma_respelled(a, b);
}

/// The canonical spelling of a chord parses to that chord again. A key that is
/// a single character has to be ASCII, since what lowercase makes of other
/// characters is not known.
pub proof fn law_canonical_spelling_parses_to_the_same_chord(c: Chord, spec: Seq<char>)
    requires
        is_parse_of(Ok(c), spec, reading(components(spec))),
        forall|i: int|
            0 <= i < pieces(spec).len() ==> (#[trigger] pieces(spec)[i]).len() == 1 ==> text::ascii(
                pieces(spec)[i],
            ),
    ensures
        is_parse_of(Ok(c), spelling(c), reading(components(spelling(c)))),
{
    let parts = components(spec);
    let names = views(c.modifiers@);
    let key = c.key@;
    lemma_read_key(parts);
    let k = choose|k: int|
        0 <= k < parts.len() && #[trigger] is_key(parts[k], key);
    let p = pieces(spec)[k];
    assert(parts[k] == (p, text::lower_of(p)));
    let plain = text::split_on(spec, '+')[k];
    assert(p == text::trimmed(plain));
    text::lemma_trimmed_is_a_run(plain);
    text::lemma_pieces_are_free(spec, '+');
    assert(!plain.contains('+'));
    assert(!p.contains('+'));
    if p.len() == 1 {
        assert(text::ascii(p));
        lemma_lowered_character(p);
        assert(p[0] == p.last());
        assert(p.contains(p[0]));
    }
    lemma_read_modifiers(parts);
    assert forall|i: int| 0 <= i < names.len() implies text::lower_of(#[trigger] names[i])
        == names[i] by {
        assert(modifier(names[i]) == Some(names[i]));
        lemma_modifier_names(names[i]);
    }
    let lowers = names.push(text::lower_of(key));
    assert forall|i: int| 0 <= i < c.modifiers@.len() implies #[trigger] lowers[i]
        == c.modifiers@[i]@ by {
        assert(lowers[i] == names[i]);
    }
    law_canonical_parts_give_the_same_chord(c, spec, parts, lowers);
    assert(with_lowers(pieces(spelling(c)), lowers) =~= components(spelling(c))) by {
        let written = pieces(spelling(c));
        assert forall|i: int| 0 <= i < written.len() implies lowers[i] == text::lower_of(
            #[trigger] written[i],
        ) by {
            if i < names.len() {
                assert(written[i] == names[i]);
            }
        }
    }
}

/// Whether a component gives this key.
spec fn is_key(part: (Seq<char>, Seq<char>), key: Seq<char>) -> bool {
    &&& part.0.len() > 0
    &&& modifier(part.1) is None
    &&& key == if part.0.len() == 1 {
        part.1
    } else {
        part.0
    }
}

/// The key that is read comes from one of the components.
proof fn lemma_read_key(parts: Seq<(Seq<char>, Seq<char>)>)
    ensures
        reading(parts) matches Reading::Keys { modifiers, key: Some(key) } ==> exists|k: int|
            0 <= k < parts.len() && #[trigger] is_key(parts[k], key),
    decreases parts.len(),
{
    if parts.len() > 0 {
        let front = parts.drop_last();
        lemma_read_key(front);
        if let Reading::Keys { modifiers, key: Some(key) } = reading(parts) {
            if let Reading::Keys { modifiers: m, key: Some(earlier) } = reading(front) {
                let k = choose|k: int|
                    0 <= k < front.len() && #[trigger] is_key(front[k], earlier);
                assert(is_key(parts[k], key));
            } else {
                assert(is_key(parts[parts.len() - 1], key));
            }
        }
    }
}

/// What a single ASCII character is in lowercase.
proof fn lemma_lowered_character(p: Seq<char>)
    requires
        p.len() == 1,
        text::ascii(p),
        !p.contains('+'),
        !text::whitespace(p[0]),
    ensures
        ({
            let l = text::ascii_lowered(p);
            &&& l.len() == 1
            &&& text::ascii(l)
            &&& text::ascii_lowered(l) == l
            &&& !l.contains('+')
            &&& text::trimmed(l) == l
        }),
{
    let l = text::ascii_lowered(p);
    assert(p.contains(p[0]));
    assert(l[0] == text::ascii_lower(p[0]));
    if 'A' <= p[0] <= 'Z' {
        assert('a' <= l[0] <= 'z');
    }
    assert(text::ascii_lower(l[0]) == l[0]);
    assert(text::ascii_lowered(l) =~= l);
    assert(!text::whitespace(l[0]));
    assert(l.last() == l[0]);
}

/// The names of modifiers are not empty.
proof fn lemma_modifiers_are_words(name: Seq<char>)
    requires
        modifier(name) is Some,
    ensures
        name.len() > 0,
{
    reveal_strlit("ctrl");
    reveal_strlit("control");
    reveal_strlit("shift");
    reveal_strlit("alt");
    reveal_strlit("altgr");
    reveal_strlit("super");
    reveal_strlit("logo");
    reveal_strlit("win");
    reveal_strlit("meta");
}

/// Every modifier that is read goes by the name that wtype has for it.
proof fn lemma_read_modifiers(parts: Seq<(Seq<char>, Seq<char>)>)
    ensures
        reading(parts) matches Reading::Keys { modifiers, key } ==> forall|i: int|
            0 <= i < modifiers.len() ==> modifier(#[trigger] modifiers[i]) == Some(modifiers[i]),
    decreases parts.len(),
{
    if parts.len() > 0 {
        lemma_read_modifiers(parts.drop_last());
        if let Some(name) = modifier(parts.last().1) {
            reveal_strlit("ctrl");
            reveal_strlit("control");
            reveal_strlit("shift");
            reveal_strlit("alt");
            reveal_strlit("altgr");
            reveal_strlit("super");
            reveal_strlit("logo");
            reveal_strlit("win");
            reveal_strlit("meta");
            assert("shift"@.len() == 5 && "ctrl"@.len() == 4 && "alt"@.len() == 3);
            assert("altgr"@[0] == 'a' && "shift"@[0] == 's' && "super"@[1] == 'u' && "logo"@[0]
                == 'l' && "ctrl"@[0] == 'c');
            assert(modifier(name) == Some(name));
        }
    }
}

/// The names of modifiers are words of letters.
proof fn lemma_modifier_names(name: Seq<char>)
    requires
        modifier(name) == Some(name),
    ensures
        name.len() > 0,
        !name.contains('+'),
        text::trimmed(name) == name,
        text::lower_of(name) == name,
{
    reveal_strlit("ctrl");
    reveal_strlit("shift");
    reveal_strlit("alt");
    reveal_strlit("altgr");
    reveal_strlit("logo");
    assert(name == "ctrl"@ || name == "shift"@ || name == "alt"@ || name == "altgr"@ || name
        == "logo"@);
    assert(name.len() > 0);
    assert(!text::whitespace(name[0]) && !text::whitespace(name.last()));
    assert(text::ascii(name));
    assert(text::ascii_lowered(name) =~= name);
}

/// Names of modifiers are read one by one.
proof fn lemma_reading_of_modifiers(parts: Seq<(Seq<char>, Seq<char>)>, names: Seq<Seq<char>>)
    requires
        parts.len() == names.len(),
        forall|i: int| 0 <= i < parts.len() ==> #[trigger] parts[i] == (names[i], names[i]),
        forall|i: int|
            0 <= i < names.len() ==> modifier(#[trigger] names[i]) == Some(names[i]),
        forall|i: int| 0 <= i < names.len() ==> (#[trigger] names[i]).len() > 0,
    ensures
        reading(parts) == (Reading::Keys { modifiers: names, key: None }),
    decreases parts.len(),
{
    if parts.len() > 0 {
        let front = parts.drop_last();
        let fewer = names.drop_last();
        assert(forall|i: int| 0 <= i < front.len() ==> #[trigger] front[i] == parts[i]);
        lemma_reading_of_modifiers(front, fewer);
        assert(parts[parts.len() - 1] == (names.last(), names.last()));
        assert(names[names.len() - 1] == names.last());
        assert(fewer.push(names.last()) =~= names);
    } else {
        assert(names =~= Seq::<Seq<char>>::empty());
    }
}

/// A chord is accepted exactly when no component is empty and exactly one
/// component is not a modifier; it then has one modifier for each other
/// component.
pub proof fn law_accepted_chords(parts: Seq<(Seq<char>, Seq<char>)>)
    ensures
        (reading(parts) matches Reading::Keys { modifiers, key } && key is Some) <==> {
            &&& forall|i: int| 0 <= i < parts.len() ==> (#[trigger] parts[i]).0.len() > 0
            &&& parts.filter(|p: (Seq<char>, Seq<char>)| modifier(p.1) is None).len() == 1
        },
        reading(parts) matches Reading::Keys { modifiers, key } ==> modifiers.len() + (if key is Some {
            1int
        } else {
            0int
        }) == parts.len(),
{
    lemma_reading(parts);
}

proof fn lemma_reading(parts: Seq<(Seq<char>, Seq<char>)>)
    ensures
        ({
            let plain = |p: (Seq<char>, Seq<char>)| modifier(p.1) is None;
            let full = forall|i: int| 0 <= i < parts.len() ==> (#[trigger] parts[i]).0.len() > 0;
            match reading(parts) {
                Reading::Keys { modifiers, key } => {
                    &&& full
                    &&& parts.filter(plain).len() == (if key is Some {
                        1int
                    } else {
                        0int
                    })
                    &&& modifiers.len() + parts.filter(plain).len() == parts.len()
                },
                Reading::Empty => !full,
                Reading::TwoKeys => parts.filter(plain).len() >= 2,
            }
        }),
    decreases parts.len(),
{
    let plain = |p: (Seq<char>, Seq<char>)| modifier(p.1) is None;
    reveal(Seq::filter);
    if parts.len() > 0 {
        let front = parts.drop_last();
        lemma_reading(front);
        assert(parts.filter(plain) == if plain(parts.last()) {
            front.filter(plain).push(parts.last())
        } else {
            front.filter(plain)
        });
        assert(forall|i: int| 0 <= i < front.len() ==> #[trigger] parts[i] == front[i]);
        match reading(front) {
            Reading::Empty => {
                let i = choose|i: int| 0 <= i < front.len() && (#[trigger] front[i]).0.len() == 0;
                assert(parts[i].0.len() == 0);
            },
            Reading::TwoKeys => {},
            Reading::Keys { modifiers, key } => {
                assert forall|i: int| 0 <= i < parts.len() && parts.last().0.len() > 0 implies (
                #[trigger] parts[i]).0.len() > 0 by {
                    if i < front.len() {
                        assert(front[i].0.len() > 0);
                    }
                }
                assert(parts[parts.len() - 1] == parts.last());
            },
        }
    }
}

/// The names that modifiers go by, and what wtype calls each: itself, but for
/// `control` and the other names of the logo key.
pub proof fn law_modifier_names(name: Seq<char>)
    ensures
        modifier(name) is Some <==> name == "ctrl"@ || name == "control"@ || name == "shift"@
            || name == "alt"@ || name == "altgr"@ || name == "super"@ || name == "logo"@ || name
            == "win"@ || name == "meta"@,
        modifier(name) matches Some(m) ==> {
            ||| m == name && name != "control"@ && name != "super"@ && name != "win"@ && name
                != "meta"@
            ||| m == "ctrl"@ && name == "control"@
            ||| m == "logo"@ && (name == "super"@ || name == "win"@ || name == "meta"@)
        },
{
    reveal_strlit("ctrl");
    reveal_strlit("control");
    reveal_strlit("shift");
    reveal_strlit("alt");
    reveal_strlit("altgr");
    reveal_strlit("super");
    reveal_strlit("logo");
    reveal_strlit("win");
    reveal_strlit("meta");
    assert("ctrl"@.len() == 4 && "control"@.len() == 7 && "shift"@.len() == 5 && "alt"@.len() == 3
        && "altgr"@.len() == 5 && "super"@.len() == 5 && "logo"@.len() == 4 && "win"@.len() == 3
        && "meta"@.len() == 4);
    assert("ctrl"@[0] == 'c' && "logo"@[0] == 'l' && "meta"@[0] == 'm');
    assert("alt"@[0] == 'a' && "win"@[0] == 'w');
    assert("shift"@[1] == 'h' && "altgr"@[1] == 'l' && "super"@[1] == 'u');
}

/// An accepted chord has the modifiers that are written, in the order in which
/// they are written, and the one other part as its key: a single letter in
/// lowercase, a named key as it is written.
pub proof fn law_parts_become_the_chord(parts: Seq<(Seq<char>, Seq<char>)>)
    ensures
        reading(parts) matches Reading::Keys { modifiers, key } ==> {
            let held = parts.filter(|p: (Seq<char>, Seq<char>)| modifier(p.1) is Some);
            let plain = parts.filter(|p: (Seq<char>, Seq<char>)| modifier(p.1) is None);
            &&& modifiers == held.map_values(|p: (Seq<char>, Seq<char>)| modifier(p.1)->0)
            &&& key is Some ==> plain.len() == 1 && (plain[0].0.len() == 1 ==> key->0
                == plain[0].1) && (plain[0].0.len() != 1 ==> key->0 == plain[0].0)
            &&& key is None ==> plain.len() == 0
        },
    decreases parts.len(),
{
    reveal(Seq::filter);
    let is_held = |p: (Seq<char>, Seq<char>)| modifier(p.1) is Some;
    let is_plain = |p: (Seq<char>, Seq<char>)| modifier(p.1) is None;
    let name = |p: (Seq<char>, Seq<char>)| modifier(p.1)->0;
    if parts.len() == 0 {
        assert(parts.filter(is_held).map_values(name) =~= Seq::<Seq<char>>::empty());
    } else {
        let front = parts.drop_last();
        law_parts_become_the_chord(front);
        assert(parts.filter(is_held) == if is_held(parts.last()) {
            front.filter(is_held).push(parts.last())
        } else {
            front.filter(is_held)
        });
        assert(parts.filter(is_plain) == if is_plain(parts.last()) {
            front.filter(is_plain).push(parts.last())
        } else {
            front.filter(is_plain)
        });
        assert(front.filter(is_held).push(parts.last()).map_values(name) =~= front.filter(
            is_held,
        ).map_values(name).push(name(parts.last())));
        assert(reading(parts) matches Reading::Keys { modifiers, key } ==> modifiers
            =~= parts.filter(is_held).map_values(name));
    }
}

/// The first fault decides: what follows it does not change what is reported.
pub proof fn law_first_fault_decides(
    a: Seq<(Seq<char>, Seq<char>)>,
    b: Seq<(Seq<char>, Seq<char>)>,
)
    ensures
        !(reading(a) is Keys) ==> reading(a + b) == reading(a),
        reading(a) is Keys && b.len() > 0 && b[0].0.len() == 0 ==> reading(a + b) is Empty,
        (reading(a) matches Reading::Keys { modifiers, key } && key is Some) && b.len() > 0
            && b[0].0.len() > 0 && modifier(b[0].1) is None ==> reading(a + b) is TwoKeys,
    decreases b.len(),
{
    if b.len() == 0 {
        assert(a + b =~= a);
    } else {
        assert((a + b).drop_last() =~= a + b.drop_last());
        assert((a + b).last() == b.last());
        law_first_fault_decides(a, b.drop_last());
        if b.len() == 1 {
            assert(a + b.drop_last() =~= a);
        } else {
            assert(b.drop_last()[0] == b[0]);
        }
    }
}

/// What a parse answers: a chord exactly if there is one key, with the modifiers
/// and the key that were read; and otherwise what is wrong, with the text that
/// was parsed.
pub proof fn law_what_a_parse_answers(r: Result<Chord, ChordError>, spec: Seq<char>, read: Reading)
    requires
        is_parse_of(r, spec, read),
    ensures
        r is Ok <==> (read matches Reading::Keys { modifiers, key } && key is Some),
        (r matches Err(e) && e is EmptyComponent) <==> read is Empty,
        (r matches Err(e) && e is TwoKeys) <==> read is TwoKeys,
        (r matches Err(e) && e is NoKey) <==> (read matches Reading::Keys { modifiers, key }
            && key is None),
        r matches Ok(c) ==> (read matches Reading::Keys { modifiers, key } && views(c.modifiers@)
            == modifiers && key == Some(c.key@)),
        r matches Err(e) ==> match e {
            ChordError::EmptyComponent { spec: s } => s@ == spec,
            ChordError::TwoKeys { spec: s } => s@ == spec,
            ChordError::NoKey { spec: s } => s@ == spec,
        },
{
}

/// The components are what stands between the plus signs, without the blanks
/// round it, as it is written and in lowercase.
pub proof fn law_components_stand_between_plus_signs(spec: Seq<char>, i: int)
    requires
        0 <= i < text::split_on(spec, '+').len(),
    ensures
        components(spec).len() == text::split_on(spec, '+').len(),
        components(spec)[i].0 == text::trimmed(text::split_on(spec, '+')[i]),
        components(spec)[i].1 == text::lower_of(text::trimmed(text::split_on(spec, '+')[i])),
{
}

/// An error repeats the chord that it is about.
pub proof fn law_chord_errors_name_the_chord(e: ChordError)
    ensures
        e matches ChordError::EmptyComponent { spec } ==> text::has_prefix(
            e.text(),
            "empty component in key chord `"@ + spec@,
        ),
        e matches ChordError::TwoKeys { spec } ==> text::has_prefix(
            e.text(),
            "key chord `"@ + spec@,
        ),
        e matches ChordError::NoKey { spec } ==> text::has_prefix(
            e.text(),
            "key chord `"@ + spec@,
        ),
{
    let t = e.text();
    match e {
        ChordError::EmptyComponent { spec } => {
            let p = "empty component in key chord `"@ + spec@;
            assert(t.take(p.len() as int) =~= p);
        },
        ChordError::TwoKeys { spec } => {
            let p = "key chord `"@ + spec@;
            assert(t.take(p.len() as int) =~= p);
        },
        ChordError::NoKey { spec } => {
            let p = "key chord `"@ + spec@;
            assert(t.take(p.len() as int) =~= p);
        },
    }
}

} // verus!
