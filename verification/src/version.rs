use crate::text::{
    append_chars, chars_of, chars_views, copy_range, decimal_digits, ends_with, free_of,
    has_suffix, is_digit, join_with, lemma_decimal_digits_value, lemma_split_append,
    lemma_split_free, lemma_split_joins, parse_u32, render_u64, split_chars, split_on, string_of,
    u32_text_value, without_suffix,
};
use std::cmp::Ordering;
use vstd::prelude::*;

verus! {

/// A game release number: major, minor and patch, ordered lexicographically.
/// The all-zero value stands for "no version".
#[derive(Clone, Copy, Debug, PartialEq, Eq, Structural)]
pub struct GameVersion {
    pub major: u32,
    pub minor: u32,
    pub patch: u32,
}

/// The all-zero version, which stands for "none found".
pub open spec fn zero_version() -> GameVersion {
    GameVersion { major: 0, minor: 0, patch: 0 }
}

/// The next patch of the same minor line.
pub open spec fn next_patch(v: GameVersion) -> GameVersion {
    GameVersion { major: v.major, minor: v.minor, patch: (v.patch + 1) as u32 }
}

/// The first patch of the next minor line.
pub open spec fn next_minor(v: GameVersion) -> GameVersion {
    GameVersion { major: v.major, minor: (v.minor + 1) as u32, patch: 0 }
}

/// The first release of the next major line.
pub open spec fn next_major(v: GameVersion) -> GameVersion {
    GameVersion { major: (v.major + 1) as u32, minor: 0, patch: 0 }
}

/// The version that three number texts denote, if each is a `u32`.
pub open spec fn version_of_parts(a: Seq<char>, b: Seq<char>, c: Seq<char>) -> Option<GameVersion> {
    match (u32_text_value(a), u32_text_value(b), u32_text_value(c)) {
        (Some(major), Some(minor), Some(patch)) => Some(GameVersion { major, minor, patch }),
        _ => None,
    }
}

/// The version that a text denotes: after one trailing `.txt` is dropped, the
/// text must split at its dots into exactly three pieces, each a `u32`.
pub open spec fn parse_spec(text: Seq<char>) -> Option<GameVersion> {
    let parts = split_on(without_suffix(text, ".txt"@), '.');
    if parts.len() == 3 {
        version_of_parts(parts[0], parts[1], parts[2])
    } else {
        None
    }
}

/// The text of a version: its three numbers in base ten, with dots between them.
pub open spec fn format_spec(v: GameVersion) -> Seq<char> {
    decimal_digits(v.major as nat) + seq!['.'] + decimal_digits(v.minor as nat) + seq!['.']
        + decimal_digits(v.patch as nat)
}

impl GameVersion {
    /// Whether `self` comes strictly before `other` in the order by major, then minor, then patch.
    pub open spec fn precedes(self, other: GameVersion) -> bool {
        self.major < other.major || (self.major == other.major && (self.minor < other.minor || (
        self.minor == other.minor && self.patch < other.patch)))
    }

    /// How `self` stands to `other` in the order by major, then minor, then patch.
    pub open spec fn order_to(self, other: GameVersion) -> Ordering {
        if self.precedes(other) {
            Ordering::Less
        } else if self == other {
            Ordering::Equal
        } else {
            Ordering::Greater
        }
    }

    /// Compares two versions by major, then minor, then patch.
    pub fn compare(&self, other: &GameVersion) -> (out: Ordering)
        ensures
            out == self.order_to(*other),
    {
        if self.major < other.major {
            Ordering::Less
        } else if self.major > other.major {
            Ordering::Greater
        } else if self.minor < other.minor {
            Ordering::Less
        } else if self.minor > other.minor {
            Ordering::Greater
        } else if self.patch < other.patch {
            Ordering::Less
        } else if self.patch > other.patch {
            Ordering::Greater
        } else {
            Ordering::Equal
        }
    }

    /// The all-zero version.
    pub fn zero() -> (out: GameVersion)
        ensures
            out == zero_version(),
    {
        GameVersion { major: 0, minor: 0, patch: 0 }
    }

    /// Reads a version from text such as `1.19.3` or `1.19.3.txt`.
    pub fn from_str(version: &str) -> (out: Option<Self>)
        ensures
            out == parse_spec(version@),
    {
        let chars = chars_of(version);
        let suffix = chars_of(".txt");
        let end: usize = if has_suffix(&chars, &suffix) {
            chars.len() - suffix.len()
        } else {
            chars.len()
        };
        let cleaned = copy_range(&chars, 0, end);
        assert(cleaned@ =~= without_suffix(version@, ".txt"@));
        let parts = split_chars(&cleaned, '.');
        if parts.len() != 3 {
            return None;
        }
        assert(chars_views(parts@)[0] == parts[0]@);
        assert(chars_views(parts@)[1] == parts[1]@);
        assert(chars_views(parts@)[2] == parts[2]@);
        let major = parse_u32(&parts[0]);
        let minor = parse_u32(&parts[1]);
        let patch = parse_u32(&parts[2]);
        match (major, minor, patch) {
            (Some(major), Some(minor), Some(patch)) => Some(GameVersion { major, minor, patch }),
            _ => None,
        }
    }

    /// Renders the version as `major.minor.patch`.
    pub fn to_string(&self) -> (out: String)
        ensures
            out@ == format_spec(*self),
    {
        let mut chars = render_u64(self.major as u64);
        chars.push('.');
        let minor = render_u64(self.minor as u64);
        append_chars(&mut chars, &minor);
        chars.push('.');
        let patch = render_u64(self.patch as u64);
        append_chars(&mut chars, &patch);
        assert(chars@ =~= format_spec(*self));
        string_of(&chars)
    }

    /// Moves to the next patch of the same minor line.
    pub fn increment_patch(&mut self)
        requires
            old(self).patch < u32::MAX,
        ensures
            *final(self) == next_patch(*old(self)),
    {
        self.patch += 1;
    }

    /// Moves to the first patch of the next minor line.
    pub fn increment_minor(&mut self)
        requires
            old(self).minor < u32::MAX,
        ensures
            *final(self) == next_minor(*old(self)),
    {
        self.patch = 0;
        self.minor += 1;
    }

    /// Moves to the first release of the next major line.
    pub fn increment_major(&mut self)
        requires
            old(self).major < u32::MAX,
        ensures
            *final(self) == next_major(*old(self)),
    {
        self.patch = 0;
        self.minor = 0;
        self.major += 1;
    }

    /// Whether the two versions agree in all three numbers.
    pub fn equals(&mut self, game_version: GameVersion) -> (out: bool)
        ensures
            out == (*old(self) == game_version),
            *final(self) == *old(self),
    {
        if self.major == game_version.major && self.minor == game_version.minor && self.patch
            == game_version.patch {
            return true;
        }
        return false;
    }

    /// Whether this is the all-zero version, which stands for "none".
    pub fn empty(&mut self) -> (out: bool)
        ensures
            out == (*old(self) == zero_version()),
            *final(self) == *old(self),
    {
        if self.major == 0 && self.minor == 0 && self.patch == 0 {
            return true;
        }
        return false;
    }
}

/// A number text holds no dot.
pub proof fn lemma_number_text_has_no_dot(s: Seq<char>)
    requires
        u32_text_value(s) is Some,
    ensures
        free_of(s, '.'),
{
    assert forall|i: int| 0 <= i < s.len() implies #[trigger] s[i] != '.' by {
        if s[0] == '+' {
            if i > 0 {
                assert(s.drop_first()[i - 1] == s[i]);
                assert(is_digit(s.drop_first()[i - 1]));
            }
        } else {
            assert(is_digit(s[i]));
        }
    }
}

/// A text made of three number texts with dots between them reads as the
/// version with those three numbers.
pub proof fn lemma_dotted_parts_parse(a: Seq<char>, b: Seq<char>, c: Seq<char>)
    requires
        version_of_parts(a, b, c) is Some,
    ensures
        split_on(a + seq!['.'] + b + seq!['.'] + c, '.') == seq![a, b, c],
        parse_spec(a + seq!['.'] + b + seq!['.'] + c) == version_of_parts(a, b, c),
{
    let text = a + seq!['.'] + b + seq!['.'] + c;
    lemma_number_text_has_no_dot(a);
    lemma_number_text_has_no_dot(b);
    lemma_number_text_has_no_dot(c);
    lemma_split_free(a, '.');
    lemma_split_append(a, b, '.');
    lemma_split_append(a + seq!['.'] + b, c, '.');
    assert(split_on(text, '.') =~= seq![a, b, c]);
    reveal_strlit(".txt");
    assert(!ends_with(text, ".txt"@)) by {
        if ends_with(text, ".txt"@) {
            assert(text.skip(text.len() - 4)[3] == 't');
            assert(text.last() == 't');
            if c.len() > 0 {
                assert(text.last() == c.last());
                if c[0] == '+' {
                    assert(c.drop_first().len() > 0);
                    assert(c.drop_first()[c.len() - 2] == c.last());
                    assert(is_digit(c.drop_first()[c.len() - 2]));
                } else {
                    assert(is_digit(c[c.len() - 1]));
                }
            }
        }
    }
}

/// Reading the text of a version gives that version back.
pub proof fn lemma_parse_format(v: GameVersion)
    ensures
        parse_spec(format_spec(v)) == Some(v),
{
    let a = decimal_digits(v.major as nat);
    let b = decimal_digits(v.minor as nat);
    let c = decimal_digits(v.patch as nat);
    lemma_decimal_digits_value(v.major as nat);
    lemma_decimal_digits_value(v.minor as nat);
    lemma_decimal_digits_value(v.patch as nat);
    assert(is_digit(a[0]) && is_digit(b[0]) && is_digit(c[0]));
    lemma_dotted_parts_parse(a, b, c);
}

/// Round trip: for every text that reads as a version, rendering that version
/// and reading the rendering gives the same version again.
pub proof fn lemma_parse_round_trip(text: Seq<char>)
    requires
        parse_spec(text) is Some,
    ensures
        parse_spec(format_spec(parse_spec(text)->0)) == parse_spec(text),
{
    lemma_parse_format(parse_spec(text)->0);
}

/// Whether `text` is three `u32` number texts with a dot after the first and after the second.
pub open spec fn is_dotted_triple(text: Seq<char>) -> bool {
    exists|a: Seq<char>, b: Seq<char>, c: Seq<char>|
        #[trigger] version_of_parts(a, b, c) is Some && text == a + seq!['.'] + b + seq!['.'] + c
}

/// A text reads as a version exactly when, after one trailing `.txt` is
/// dropped, it decomposes into three number texts separated by dots; every
/// other text is refused.
pub proof fn lemma_parse_accepts_only_triples(text: Seq<char>)
    ensures
        parse_spec(text) is Some <==> is_dotted_triple(without_suffix(text, ".txt"@)),
{
    let cleaned = without_suffix(text, ".txt"@);
    let parts = split_on(cleaned, '.');
    if parse_spec(text) is Some {
        lemma_split_joins(cleaned, '.');
        let two = parts.drop_last();
        let one = two.drop_last();
        assert(one.len() == 1 && one[0] == parts[0]);
        assert(join_with(one, '.') == parts[0]);
        assert(two.len() == 2 && two.last() == parts[1]);
        assert(join_with(two, '.') == join_with(one, '.') + seq!['.'] + two.last());
        assert(cleaned == parts[0] + seq!['.'] + parts[1] + seq!['.'] + parts[2]);
        assert(version_of_parts(parts[0], parts[1], parts[2]) is Some);
    }
    if is_dotted_triple(cleaned) {
        let (a, b, c) = choose|a: Seq<char>, b: Seq<char>, c: Seq<char>|
            #[trigger] version_of_parts(a, b, c) is Some && cleaned == a + seq!['.'] + b + seq![
                '.',
            ] + c;
        lemma_dotted_parts_parse(a, b, c);
    }
}

/// The order of versions is a strict total order: no version precedes
/// itself, of two different versions exactly one precedes the other, and
/// what precedes a version precedes all that it precedes.
pub proof fn lemma_order_is_total(a: GameVersion, b: GameVersion, c: GameVersion)
    ensures
        !a.precedes(a),
        a != b ==> (a.precedes(b) != b.precedes(a)),
        a == b ==> !a.precedes(b),
        a.precedes(b) && b.precedes(c) ==> a.precedes(c),
{
}

} // verus!
