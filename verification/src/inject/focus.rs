//! Which window is focused, and whether text may still go there.
//!
//! Injection sends keystrokes to whatever is focused *at the moment it runs*,
//! not to whatever was focused when the user started dictating. So the daemon
//! records focus at record-start, checks it again before injecting, and
//! downgrades to clipboard-only when they differ.

use vstd::prelude::*;
use crate::text;

verus! {

/// Identity of the focused window.
#[derive(Debug, Clone, PartialEq, Eq)]
pub enum Focus {
    /// A specific window, identified by a compositor-stable handle.
    Window { id: String, app: String },
    /// Nothing is focused.
    Nothing,
    /// This compositor does not tell us.
    Unknown,
}

/// A focused window as plain values.
pub ghost enum FocusView {
    Window { id: Seq<char>, app: Seq<char> },
    Nothing,
    Unknown,
}

impl View for Focus {
    type V = FocusView;

    open spec fn view(&self) -> FocusView {
        match *self {
            Focus::Window { id, app } => FocusView::Window { id: id@, app: app@ },
            Focus::Nothing => FocusView::Nothing,
            Focus::Unknown => FocusView::Unknown,
        }
    }
}

impl FocusView {
    /// Whether text meant for `self` may go to `other`: they are the same
    /// window, or neither is one, or one of them is unknown.
    pub open spec fn same_target(self, other: FocusView) -> bool {
        match (self, other) {
            (FocusView::Window { id: a, .. }, FocusView::Window { id: b, .. }) => a == b,
            (FocusView::Unknown, _) => true,
            (_, FocusView::Unknown) => true,
            (FocusView::Nothing, FocusView::Nothing) => true,
            _ => false,
        }
    }
}

impl Focus {
    /// Whether injecting now is safe given the focus recorded at record-start.
    ///
    /// `Unknown` on either side means we cannot tell, and we allow it:
    /// otherwise nothing could be typed on compositors without IPC.
    pub fn is_same_target(&self, other: &Focus) -> (r: bool)
        ensures
            r == self@.same_target(other@),
    {
        match (self, other) {
            (Focus::Window { id: a, .. }, Focus::Window { id: b, .. }) => text::same(
                a.as_str(),
                b.as_str(),
            ),
            (Focus::Unknown, _) => true,
            (_, Focus::Unknown) => true,
            (Focus::Nothing, Focus::Nothing) => true,
            _ => false,
        }
    }

    /// The application that owns the focused window.
    pub fn app(&self) -> (r: Option<&str>)
        ensures
            match self@ {
                FocusView::Window { id, app } => r matches Some(a) && a@ == app,
                _ => r is None,
            },
    {
        match self {
            Focus::Window { app, .. } => Some(app.as_str()),
            _ => None,
        }
    }

    /// A copy of this value.
    pub fn copied(&self) -> (r: Focus)
        ensures
            r@ == self@,
    {
        match self {
            Focus::Window { id, app } => Focus::Window { id: id.clone(), app: app.clone() },
            Focus::Nothing => Focus::Nothing,
            Focus::Unknown => Focus::Unknown,
        }
    }
}

/// A window is its own target, and so is every other focus.
pub proof fn law_same_target_reflexive(a: FocusView)
    ensures
        a.same_target(a),
{
}

/// It does not matter which of two focuses came first.
pub proof fn law_same_target_symmetric(a: FocusView, b: FocusView)
    ensures
        a.same_target(b) == b.same_target(a),
{
}

/// An unknown focus never blocks injection.
pub proof fn law_unknown_never_blocks(a: FocusView)
    ensures
        a.same_target(FocusView::Unknown),
        FocusView::Unknown.same_target(a),
{
}

/// A known window is a safe target only for itself: neither another window nor
/// an empty desktop is.
pub proof fn law_known_window_is_guarded(id: Seq<char>, app: Seq<char>, other: FocusView)
    ensures
        (FocusView::Window { id, app }).same_target(other) <==> other is Unknown || (
        other matches FocusView::Window { id: other_id, .. } && other_id == id),
{
}

// ---------------------------------------------------------------- hyprctl

/// The string that starts at the beginning of `s`, just behind its opening
/// quote: a backslash makes the next character literal, and the first plain
/// quote ends it. None without an end.
pub open spec fn quoted_rest(s: Seq<char>) -> Option<Seq<char>>
    decreases s.len(),
{
    if s.len() == 0 {
        None
    } else if s[0] == '"' {
        Some(Seq::empty())
    } else if s[0] == '\\' {
        if s.len() == 1 {
            None
        } else {
            match quoted_rest(s.skip(2)) {
                Some(rest) => Some(seq![s[1]] + rest),
                None => None,
            }
        }
    } else {
        match quoted_rest(s.skip(1)) {
            Some(rest) => Some(seq![s[0]] + rest),
            None => None,
        }
    }
}

/// How many characters the string that starts at the beginning of `s` takes,
/// with its closing quote. None without an end.
pub open spec fn quoted_len(s: Seq<char>) -> Option<int>
    decreases s.len(),
{
    if s.len() == 0 {
        None
    } else if s[0] == '"' {
        Some(1int)
    } else if s[0] == '\\' {
        if s.len() == 1 {
            None
        } else {
            match quoted_len(s.skip(2)) {
                Some(n) => Some(n + 2),
                None => None,
            }
        }
    } else {
        match quoted_len(s.skip(1)) {
            Some(n) => Some(n + 1),
            None => None,
        }
    }
}

/// A string ends within the text, and has a value exactly if it ends.
pub proof fn lemma_quoted_len(s: Seq<char>)
    ensures
        quoted_len(s) is Some <==> quoted_rest(s) is Some,
        quoted_len(s) matches Some(n) ==> 0 < n <= s.len(),
    decreases s.len(),
{
    if s.len() > 0 && s[0] != '"' {
        if s[0] != '\\' {
            lemma_quoted_len(s.skip(1));
        } else if s.len() > 1 {
            lemma_quoted_len(s.skip(2));
        }
    }
}

/// The string that stands in quotes at the beginning of `s`, behind any
/// whitespace.
pub open spec fn string_value(s: Seq<char>) -> Option<Seq<char>> {
    let value = text::trim_start(s);
    if value.len() == 0 || value[0] != '"' {
        None
    } else {
        quoted_rest(value.skip(1))
    }
}

/// The string value of `"key"` in flat JSON: what stands in quotes behind the
/// first colon that follows the first occurrence of the quoted key.
pub open spec fn string_field(json: Seq<char>, key: Seq<char>) -> Option<Seq<char>> {
    let needle = "\""@ + key + "\""@;
    match text::find_from(json, needle, 0) {
        None => None,
        Some(at) => match text::find_from(json, seq![':'], at + needle.len()) {
            None => None,
            Some(colon) => string_value(json.skip(colon + 1)),
        },
    }
}

/// Whether a colon comes next, behind any whitespace: what stood before it is
/// a key then.
pub open spec fn colon_next(s: Seq<char>) -> bool {
    let rest = text::trim_start(s);
    rest.len() > 0 && rest[0] == ':'
}

/// The string value of `key` in the object of depth one, where `s` is what is
/// left of a JSON text and `depth` says how many brackets are open there.
/// Strings are passed over as a whole, and what is nested deeper does not
/// count.
pub open spec fn field_from(s: Seq<char>, depth: nat, key: Seq<char>) -> Option<Seq<char>>
    decreases s.len(),
{
    if s.len() == 0 {
        None
    } else if s[0] == '"' {
        proof {
            lemma_quoted_len(s.skip(1));
        }
        match quoted_len(s.skip(1)) {
            None => None,
            Some(n) => {
                let rest = s.skip(1 + n);
                if depth == 1 && colon_next(rest) && quoted_rest(s.skip(1)) == Some(key) {
                    string_value(text::trim_start(rest).skip(1))
                } else {
                    field_from(rest, depth, key)
                }
            },
        }
    } else if s[0] == '{' || s[0] == '[' {
        field_from(s.skip(1), depth + 1, key)
    } else if s[0] == '}' || s[0] == ']' {
        field_from(
            s.skip(1),
            if depth == 0 {
                0
            } else {
                (depth - 1) as nat
            },
            key,
        )
    } else {
        field_from(s.skip(1), depth, key)
    }
}

/// The string value of `key` in a JSON object itself, not in what is nested in
/// it.
pub open spec fn own_field(json: Seq<char>, key: Seq<char>) -> Option<Seq<char>> {
    field_from(json, 0, key)
}

/// The string value of `key` in what a compositor printed: in the object itself
/// where it is one, and otherwise wherever it stands first.
pub open spec fn printed_field(body: Seq<char>, key: Seq<char>) -> Option<Seq<char>> {
    if body.len() > 0 && body[0] == '{' {
        own_field(body, key)
    } else {
        string_field(body, key)
    }
}

/// The focus that `hyprctl activewindow -j` output describes.
pub open spec fn hyprland_focus(json: Seq<char>) -> FocusView {
    let body = text::trimmed(json);
    if body.len() == 0 || body == "{}"@ {
        FocusView::Nothing
    } else {
        match printed_field(body, "address"@) {
            None => FocusView::Unknown,
            Some(id) => if id.len() == 0 {
                FocusView::Nothing
            } else {
                FocusView::Window {
                    id,
                    app: match printed_field(body, "class"@) {
                        Some(app) => app,
                        None => Seq::empty(),
                    },
                }
            },
        }
    }
}

/// Extract address and class from `hyprctl activewindow -j` output.
///
/// The `address` field is a stable per-window handle, which is what focus is
/// compared on: class and title both change while a window stays the same.
pub fn parse_hyprland_activewindow(json: &str) -> (r: Focus)
    ensures
        r@ == hyprland_focus(json@),
{
    let body = text::trim(json);
    // Hyprland prints `{}` when nothing is focused.
    if body.as_str().is_empty() || text::same(body.as_str(), "{}") {
        return Focus::Nothing;
    }
    match read_field(body.as_str(), "address") {
        None => Focus::Unknown,
        Some(id) => {
            if id.as_str().is_empty() {
                return Focus::Nothing;
            }
            let app = match read_field(body.as_str(), "class") {
                Some(app) => app,
                None => String::new(),
            };
            assert(app@.len() == 0 ==> app@ =~= Seq::<char>::empty());
            Focus::Window { id, app }
        },
    }
}

/// What the compositor says of the focus.
///
/// `output` is what `hyprctl activewindow -j` printed, when it ran and
/// succeeded; only Hyprland has it.
pub fn current(on_hyprland: bool, output: Option<&str>) -> (r: Focus)
    ensures
        match output {
            Some(json) if on_hyprland => r@ == hyprland_focus(json@),
            _ => r@ is Unknown,
        },
{
    match output {
        Some(json) if on_hyprland => parse_hyprland_activewindow(json),
        _ => Focus::Unknown,
    }
}

/// Pull `"key": "value"` out of what a compositor printed.
fn read_field(body: &str, key: &str) -> (r: Option<String>)
    ensures
        text::opt_view(r) == printed_field(body@, key@),
{
    proof {
        reveal_strlit("{");
    }
    if text::starts_with(body, "{") {
        assert(body@.take(1)[0] == body@[0]);
        top_level_field(body, key)
    } else {
        assert(body@.len() > 0 && body@[0] == '{' ==> body@.take(1) =~= "{"@);
        json_string_field(body, key)
    }
}

/// Pull `"key": "value"` out of a JSON object. A key of the same name in a
/// nested object is not confused with it.
pub fn top_level_field(json: &str, key: &str) -> (r: Option<String>)
    ensures
        text::opt_view(r) == own_field(json@, key@),
{
    let chars = text::chars_of(json);
    let mut depth: usize = 0;
    let mut i: usize = 0;
    assert(chars@.skip(0) =~= chars@);
    while i < chars.len()
        invariant
            depth <= i <= chars@.len(),
            own_field(json@, key@) == field_from(chars@.skip(i as int), depth as nat, key@),
        decreases chars@.len() - i,
    {
        let ghost here = chars@.skip(i as int);
        let c = chars[i];
        assert(here.skip(1) =~= chars@.skip(i + 1));
        if c == '"' {
            let (text, next): (String, usize) = match read_quoted(&chars, i + 1) {
                Some(found) => found,
                None => return None,
            };
            assert(here.skip(1 + (next - (i + 1))) =~= chars@.skip(next as int));
            let colon: usize = text::skip_space(&chars, next);
            if depth == 1 && colon < chars.len() && chars[colon] == ':' && text::same(
                text.as_str(),
                key,
            ) {
                assert(chars@.skip(colon as int).skip(1) =~= chars@.skip(colon + 1));
                return value_at(&chars, colon + 1);
            }
            i = next;
        } else if c == '{' || c == '[' {
            depth += 1;
            i += 1;
        } else if c == '}' || c == ']' {
            if depth > 0 {
                depth -= 1;
            }
            i += 1;
        } else {
            i += 1;
        }
    }
    None
}

/// Pull `"key": "value"` out of flat JSON.
pub fn json_string_field(json: &str, key: &str) -> (r: Option<String>)
    ensures
        text::opt_view(r) == string_field(json@, key@),
{
    let chars = text::chars_of(json);
    let len: usize = chars.len();
    let mut quoted_key = "\"".to_owned();
    quoted_key.append(key);
    quoted_key.append("\"");
    let needle = text::chars_of(quoted_key.as_str());
    let at: usize = match text::find(&chars, &needle, 0) {
        Some(at) => at,
        None => return None,
    };
    assert(at + needle.len() <= len);
    let mut colon_only: Vec<char> = Vec::new();
    colon_only.push(':');
    assert(colon_only@ =~= seq![':']);
    match text::find(&chars, &colon_only, at + needle.len()) {
        Some(colon) => value_at(&chars, colon + 1),
        None => None,
    }
}

/// The string that stands in quotes at `from`, behind any whitespace.
fn value_at(chars: &Vec<char>, from: usize) -> (r: Option<String>)
    requires
        from <= chars@.len(),
    ensures
        text::opt_view(r) == string_value(chars@.skip(from as int)),
{
    let open: usize = text::skip_space(chars, from);
    if open == chars.len() || chars[open] != '"' {
        return None;
    }
    assert(chars@.skip(open as int).skip(1) =~= chars@.skip(open + 1));
    match read_quoted(chars, open + 1) {
        Some((text, _)) => Some(text),
        None => None,
    }
}

/// The string whose first character stands at `from`, and where its closing
/// quote ends.
fn read_quoted(chars: &Vec<char>, from: usize) -> (r: Option<(String, usize)>)
    requires
        from <= chars@.len(),
    ensures
        match r {
            Some((text, next)) => {
                &&& quoted_rest(chars@.skip(from as int)) == Some(text@)
                &&& quoted_len(chars@.skip(from as int)) == Some(next - from)
                &&& from < next <= chars@.len()
            },
            None => {
                &&& quoted_rest(chars@.skip(from as int)) is None
                &&& quoted_len(chars@.skip(from as int)) is None
            },
        },
{
    let mut value = String::new();
    let mut i: usize = from;
    let ghost whole = quoted_rest(chars@.skip(from as int));
    let ghost len = quoted_len(chars@.skip(from as int));
    while i < chars.len()
        invariant
            from <= i <= chars@.len(),
            whole == quoted_rest(chars@.skip(from as int)),
            len == quoted_len(chars@.skip(from as int)),
            match quoted_rest(chars@.skip(i as int)) {
                Some(rest) => whole == Some(value@ + rest),
                None => whole is None,
            },
            match quoted_len(chars@.skip(i as int)) {
                Some(n) => len == Some(i - from + n),
                None => len is None,
            },
        decreases chars@.len() - i,
    {
        let ghost here = chars@.skip(i as int);
        if chars[i] == '"' {
            assert(value@ + Seq::<char>::empty() =~= value@);
            return Some((value, i + 1));
        } else if chars[i] == '\\' {
            if i + 1 == chars.len() {
                return None;
            }
            assert(here.skip(2) =~= chars@.skip(i + 2));
            proof {
                if let Some(rest) = quoted_rest(here.skip(2)) {
                    assert(value@ + (seq![here[1]] + rest) =~= value@.push(here[1]) + rest);
                }
            }
            value.push(chars[i + 1]);
            i += 2;
        } else {
            assert(here.skip(1) =~= chars@.skip(i + 1));
            proof {
                if let Some(rest) = quoted_rest(here.skip(1)) {
                    assert(value@ + (seq![here[0]] + rest) =~= value@.push(here[0]) + rest);
                }
            }
            value.push(chars[i]);
            i += 1;
        }
    }
    None
}

/// A window is identified by its address: where an object has that field, and
/// it is not empty, the focus is the window with that handle, whatever else the
/// object holds. Its application is what the object's class says, if it has
/// one.
pub proof fn law_windows_are_known_by_their_address(json: Seq<char>, address: Seq<char>)
    requires
        text::trimmed(json).len() > 0,
        text::trimmed(json)[0] == '{',
        own_field(text::trimmed(json), "address"@) == Some(address),
        address.len() > 0,
    ensures
        hyprland_focus(json) is Window,
        hyprland_focus(json)->id == address,
        own_field(text::trimmed(json), "class"@) matches Some(class) ==> hyprland_focus(json)->app
            == class,
        own_field(text::trimmed(json), "class"@) is None ==> hyprland_focus(json)->app.len() == 0,
{
    reveal_strlit("{}");
    let body = text::trimmed(json);
    if body == "{}"@ {
        reveal_with_fuel(field_from, 4);
        assert(body.skip(1).skip(1).len() == 0);
    }
}

/// Two windows with different addresses are never the same target, and a window
/// stays the same target while its other fields change.
pub proof fn law_addresses_tell_windows_apart(
    a: Seq<char>,
    b: Seq<char>,
    first: Seq<char>,
    second: Seq<char>,
)
    requires
        text::trimmed(a).len() > 0,
        text::trimmed(a)[0] == '{',
        text::trimmed(b).len() > 0,
        text::trimmed(b)[0] == '{',
        own_field(text::trimmed(a), "address"@) == Some(first),
        own_field(text::trimmed(b), "address"@) == Some(second),
        first.len() > 0,
        second.len() > 0,
    ensures
        hyprland_focus(a).same_target(hyprland_focus(b)) <==> first == second,
{
    law_windows_are_known_by_their_address(a, first);
    law_windows_are_known_by_their_address(b, second);
}

/// Without an address an object names no window: nothing is focused where the
/// address is empty or the object is, and otherwise it is not known what is.
pub proof fn law_no_address_no_window(json: Seq<char>)
    requires
        text::trimmed(json).len() > 0,
        text::trimmed(json)[0] == '{',
    ensures
        text::trimmed(json) == "{}"@ ==> hyprland_focus(json) is Nothing,
        own_field(text::trimmed(json), "address"@) == Some(Seq::<char>::empty()) ==> hyprland_focus(
            json,
        ) is Nothing,
        own_field(text::trimmed(json), "address"@) is None && text::trimmed(json) != "{}"@
            ==> hyprland_focus(json) is Unknown,
{
}

/// A string as it is written between quotes: quotes and backslashes have a
/// backslash in front.
pub open spec fn protected(s: Seq<char>) -> Seq<char>
    decreases s.len(),
{
    if s.len() == 0 {
        Seq::empty()
    } else if s[0] == '"' || s[0] == '\\' {
        seq!['\\', s[0]] + protected(s.skip(1))
    } else {
        seq![s[0]] + protected(s.skip(1))
    }
}

/// A string with its quotes.
pub open spec fn in_quotes(s: Seq<char>) -> Seq<char> {
    seq!['"'] + protected(s) + seq!['"']
}

/// A quoted string is read back whole, whatever it holds and whatever follows
/// it; one without an end is not read at all.
pub proof fn law_quoted_strings_are_read_back(s: Seq<char>, rest: Seq<char>)
    ensures
        quoted_rest(protected(s) + seq!['"'] + rest) == Some(s),
        quoted_len(protected(s) + seq!['"'] + rest) == Some(protected(s).len() as int + 1),
        quoted_rest(protected(s)) is None,
        quoted_len(protected(s)) is None,
    decreases s.len(),
{
    let all = protected(s) + seq!['"'] + rest;
    if s.len() == 0 {
        assert(all[0] == '"');
    } else {
        law_quoted_strings_are_read_back(s.skip(1), rest);
        let tail = protected(s.skip(1)) + seq!['"'] + rest;
        if s[0] == '"' || s[0] == '\\' {
            assert(all[0] == '\\' && all[1] == s[0]);
            assert(all.skip(2) =~= tail);
            assert(protected(s).skip(2) =~= protected(s.skip(1)));
        } else {
            assert(all[0] == s[0]);
            assert(all.skip(1) =~= tail);
            assert(protected(s).skip(1) =~= protected(s.skip(1)));
        }
        assert(seq![s[0]] + s.skip(1) =~= s);
    }
}

/// A value is the string that comes next, blanks aside; if something else comes
/// next there is none.
pub proof fn law_values_are_strings(gap: Seq<char>, value: Seq<char>, rest: Seq<char>, other: char)
    requires
        text::blank(gap),
        !text::whitespace(other),
        other != '"',
    ensures
        string_value(gap + in_quotes(value) + rest) == Some(value),
        string_value(gap + seq![other] + rest) is None,
        string_value(gap) is None,
{
    let tail = protected(value) + seq!['"'] + rest;
    text::law_leading_blanks_are_passed_over(gap, '"', tail);
    assert(gap + seq!['"'] + tail =~= gap + in_quotes(value) + rest);
    assert((seq!['"'] + tail).skip(1) =~= tail);
    law_quoted_strings_are_read_back(value, rest);
    text::law_leading_blanks_are_passed_over(gap, other, rest);
}

/// Outside strings only brackets count: they lead in and out of what is nested.
pub proof fn law_brackets_nest(c: char, s: Seq<char>, depth: nat, key: Seq<char>)
    ensures
        c != '"' && c != '{' && c != '[' && c != '}' && c != ']' ==> field_from(
            seq![c] + s,
            depth,
            key,
        ) == field_from(s, depth, key),
        c == '{' || c == '[' ==> field_from(seq![c] + s, depth, key) == field_from(
            s,
            depth + 1,
            key,
        ),
        (c == '}' || c == ']') && depth > 0 ==> field_from(seq![c] + s, depth, key) == field_from(
            s,
            (depth - 1) as nat,
            key,
        ),
        field_from(Seq::empty(), depth, key) is None,
{
    assert((seq![c] + s).skip(1) =~= s);
}

/// A field is found where its key stands in the object itself and a colon
/// follows; a string that is another key, or no key, or the key of something
/// nested is passed over, whatever it holds.
pub proof fn law_keys_of_the_object_itself(
    name: Seq<char>,
    gap: Seq<char>,
    other: char,
    rest: Seq<char>,
    depth: nat,
    key: Seq<char>,
)
    requires
        text::blank(gap),
        !text::whitespace(other),
        other != ':',
    ensures
        field_from(in_quotes(key) + gap + seq![':'] + rest, 1, key) == string_value(rest),
        name != key ==> field_from(in_quotes(name) + rest, depth, key) == field_from(
            rest,
            depth,
            key,
        ),
        depth != 1 ==> field_from(in_quotes(name) + rest, depth, key) == field_from(
            rest,
            depth,
            key,
        ),
        field_from(in_quotes(name) + gap + seq![other] + rest, depth, key) == field_from(
            gap + seq![other] + rest,
            depth,
            key,
        ),
        field_from(seq!['"'] + protected(name), depth, key) is None,
{
    // the key itself
    let after_key = gap + seq![':'] + rest;
    let s = in_quotes(key) + after_key;
    assert(in_quotes(key) + gap + seq![':'] + rest =~= s);
    lemma_string_ahead(key, after_key);
    text::law_only_gaps_are_whitespace(':');
    text::law_leading_blanks_are_passed_over(gap, ':', rest);
    assert((seq![':'] + rest).skip(1) =~= rest);
    // another string, or one in another place
    lemma_string_ahead(name, rest);
    // a string that is no key
    let plain = gap + seq![other] + rest;
    assert(in_quotes(name) + gap + seq![other] + rest =~= in_quotes(name) + plain);
    lemma_string_ahead(name, plain);
    text::law_leading_blanks_are_passed_over(gap, other, rest);
    // a string without an end
    law_quoted_strings_are_read_back(name, rest);
    assert((seq!['"'] + protected(name)).skip(1) =~= protected(name));
}

/// What is seen of a string ahead, and what comes behind it.
proof fn lemma_string_ahead(name: Seq<char>, rest: Seq<char>)
    ensures
        (in_quotes(name) + rest).len() > 0,
        (in_quotes(name) + rest)[0] == '"',
        quoted_rest((in_quotes(name) + rest).skip(1)) == Some(name),
        quoted_len((in_quotes(name) + rest).skip(1)) == Some(protected(name).len() as int + 1),
        (in_quotes(name) + rest).skip(1 + (protected(name).len() as int + 1)) == rest,
{
    let s = in_quotes(name) + rest;
    law_quoted_strings_are_read_back(name, rest);
    assert(s.skip(1) =~= protected(name) + seq!['"'] + rest);
    assert(s.skip(1 + (protected(name).len() as int + 1)) =~= rest);
}

/// The first field of an object is read.
pub proof fn law_first_field(value: Seq<char>, rest: Seq<char>, key: Seq<char>)
    ensures
        own_field(seq!['{'] + in_quotes(key) + seq![':'] + in_quotes(value) + rest, key) == Some(
            value,
        ),
{
    let none = Seq::<char>::empty();
    text::law_only_gaps_are_whitespace(',');
    let found = in_quotes(value) + rest;
    let inner = in_quotes(key) + none + seq![':'] + found;
    assert(seq!['{'] + in_quotes(key) + seq![':'] + in_quotes(value) + rest =~= seq!['{'] + inner);
    assert(own_field(seq!['{'] + inner, key) == field_from(inner, 1, key)) by {
        law_brackets_nest('{', inner, 0, key);
    }
    assert(field_from(inner, 1, key) == string_value(found)) by {
        law_keys_of_the_object_itself(value, none, ',', found, 1, key);
    }
    assert(string_value(found) == Some(value)) by {
        law_values_are_strings(none, value, rest, ',');
        assert(none + in_quotes(value) + rest =~= found);
    }
}

/// A field of another name is passed over, also where its value is the name
/// that is looked for.
pub proof fn law_other_fields_are_passed_over(
    name: Seq<char>,
    value: Seq<char>,
    rest: Seq<char>,
    key: Seq<char>,
)
    requires
        name != key,
    ensures
        field_from(
            in_quotes(name) + seq![':'] + in_quotes(value) + seq![','] + rest,
            1,
            key,
        ) == field_from(rest, 1, key),
{
    let none = Seq::<char>::empty();
    text::law_only_gaps_are_whitespace(',');
    let comma = seq![','] + rest;
    let behind = in_quotes(value) + comma;
    let colon = seq![':'] + behind;
    assert(in_quotes(name) + seq![':'] + in_quotes(value) + seq![','] + rest =~= in_quotes(name)
        + colon);
    assert(field_from(in_quotes(name) + colon, 1, key) == field_from(colon, 1, key)) by {
        law_keys_of_the_object_itself(name, none, ',', colon, 1, key);
    }
    assert(field_from(colon, 1, key) == field_from(behind, 1, key)) by {
        law_brackets_nest(':', behind, 1, key);
    }
    assert(field_from(behind, 1, key) == field_from(comma, 1, key)) by {
        law_keys_of_the_object_itself(value, none, ',', rest, 1, key);
        assert(in_quotes(value) + none + seq![','] + rest =~= behind);
        assert(none + seq![','] + rest =~= comma);
    }
    law_brackets_nest(',', rest, 1, key);
}

/// What is nested in an object is passed over, also where it has a field of the
/// name that is looked for.
pub proof fn law_nested_fields_are_passed_over(
    name: Seq<char>,
    value: Seq<char>,
    rest: Seq<char>,
    key: Seq<char>,
)
    ensures
        field_from(
            seq!['{'] + in_quotes(name) + seq![':'] + in_quotes(value) + seq!['}'] + rest,
            1,
            key,
        ) == field_from(rest, 1, key),
{
    let none = Seq::<char>::empty();
    text::law_only_gaps_are_whitespace(',');
    let end = seq!['}'] + rest;
    let behind = in_quotes(value) + end;
    let colon = seq![':'] + behind;
    let inner = in_quotes(name) + colon;
    assert(seq!['{'] + in_quotes(name) + seq![':'] + in_quotes(value) + seq!['}'] + rest
        =~= seq!['{'] + inner);
    assert(field_from(seq!['{'] + inner, 1, key) == field_from(inner, 2, key)) by {
        law_brackets_nest('{', inner, 1, key);
    }
    assert(field_from(inner, 2, key) == field_from(colon, 2, key)) by {
        law_keys_of_the_object_itself(name, none, ',', colon, 2, key);
    }
    assert(field_from(colon, 2, key) == field_from(behind, 2, key)) by {
        law_brackets_nest(':', behind, 2, key);
    }
    assert(field_from(behind, 2, key) == field_from(end, 2, key)) by {
        law_keys_of_the_object_itself(value, none, ',', end, 2, key);
    }
    law_brackets_nest('}', rest, 2, key);
}

/// In anything but an object, a field is the string behind the first colon that
/// follows the first place where its name stands in quotes.
pub proof fn law_fields_outside_objects(
    before: Seq<char>,
    key: Seq<char>,
    gap: Seq<char>,
    rest: Seq<char>,
)
    requires
        forall|i: int| 0 <= i < gap.len() ==> gap[i] != ':',
        forall|j: int|
            0 <= j < before.len() ==> #[trigger] (before + (seq!['"'] + key + seq!['"']) + gap
                + seq![':'] + rest).subrange(j, j + (key.len() + 2)) != seq!['"'] + key + seq!['"'],
    ensures
        string_field(before + (seq!['"'] + key + seq!['"']) + gap + seq![':'] + rest, key)
            == string_value(rest),
        before.len() > 0 && before[0] != '{' ==> printed_field(
            before + (seq!['"'] + key + seq!['"']) + gap + seq![':'] + rest,
            key,
        ) == string_value(rest),
{
    reveal_strlit("\"");
    let needle = "\""@ + key + "\""@;
    let quoted = seq!['"'] + key + seq!['"'];
    assert(needle =~= quoted);
    let s = before + quoted + gap + seq![':'] + rest;
    let at = before.len() as int;
    assert(s.subrange(at, at + needle.len()) =~= needle);
    assert forall|j: int| 0 <= j < at implies #[trigger] s.subrange(j, j + needle.len())
        != needle by {
        assert(j + needle.len() == j + (key.len() + 2));
        assert(s.subrange(j, j + (key.len() + 2)) != quoted);
    }
    text::law_first_occurrence_is_found(s, needle, 0, at);
    let colon = at + needle.len() + gap.len();
    assert(s.subrange(colon, colon + 1) =~= seq![':']);
    assert forall|j: int| at + needle.len() <= j < colon implies #[trigger] s.subrange(
        j,
        j + seq![':'].len(),
    ) != seq![':'] by {
        assert(s.subrange(j, j + 1)[0] == gap[j - at - needle.len()]);
    }
    text::law_first_occurrence_is_found(s, seq![':'], at + needle.len(), colon);
    assert(s.skip(colon + 1) =~= rest);
}

/// An object's fields are its own: it is not searched for them in any other way.
pub proof fn law_objects_are_read_as_objects(body: Seq<char>, key: Seq<char>)
    requires
        body.len() > 0,
        body[0] == '{',
    ensures
        printed_field(body, key) == field_from(body.skip(1), 1, key),
{
}

/// Where nothing is printed nothing is focused, and the blanks round what is
/// printed do not matter.
pub proof fn law_blanks_round_the_answer(before: Seq<char>, json: Seq<char>, after: Seq<char>)
    requires
        text::blank(before),
        text::blank(after),
    ensures
        hyprland_focus(before + json + after) == hyprland_focus(json),
        hyprland_focus(Seq::empty()) is Nothing,
{
    text::lemma_trimmed_padding(before, json, after);
    assert(text::trimmed(Seq::<char>::empty()).len() == 0) by {
        reveal_with_fuel(text::trim_start, 2);
        reveal_with_fuel(text::trim_end, 2);
    }
}

/// Nothing in focus is the same target as nothing, and as no window.
pub proof fn law_empty_desktop_is_guarded(id: Seq<char>, app: Seq<char>)
    ensures
        FocusView::Nothing.same_target(FocusView::Nothing),
        !FocusView::Nothing.same_target(FocusView::Window { id, app }),
{
}

} // verus!
