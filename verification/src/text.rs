use vstd::prelude::*;

verus! {

/// `String::push` appends one character at the end of the string.
pub assume_specification[ String::push ](s: &mut String, c: char)
    ensures
        final(s)@ == old(s)@.push(c),
;

/// The characters of `s`, in order.
pub fn chars_of(s: &str) -> (out: Vec<char>)
    ensures
        out@ == s@,
{
    let mut out: Vec<char> = Vec::new();
    for c in it: s.chars()
        invariant
            it.seq() == s@,
            out@ == s@.take(it.index()),
    {
        out.push(c);
    }
    assert(s@.take(s@.len() as int) == s@);
    out
}

/// The string made of `chars[from..to]`.
pub fn string_of_range(chars: &Vec<char>, from: usize, to: usize) -> (out: String)
    requires
        from <= to <= chars.len(),
    ensures
        out@ == chars@.subrange(from as int, to as int),
{
    let mut out = String::new();
    let mut i: usize = from;
    while i < to
        invariant
            from <= i <= to <= chars.len(),
            out@ == chars@.subrange(from as int, i as int),
        decreases to - i,
    {
        out.push(chars[i]);
        i += 1;
        assert(chars@.subrange(from as int, i as int) == chars@.subrange(from as int, i - 1).push(
            chars@[i - 1],
        ));
    }
    out
}

/// The string made of all of `chars`.
pub fn string_of(chars: &Vec<char>) -> (out: String)
    ensures
        out@ == chars@,
{
    let out = string_of_range(chars, 0, chars.len());
    assert(chars@.subrange(0, chars@.len() as int) == chars@);
    out
}

/// Whether `c` is one of the ten ASCII decimal digits.
pub open spec fn is_digit(c: char) -> bool {
    '0' <= c <= '9'
}

/// The number that a digit stands for; zero for any other character.
pub open spec fn digit_value(c: char) -> nat {
    if is_digit(c) {
        (c as nat - '0' as nat) as nat
    } else {
        0
    }
}

/// The character that renders a number below ten.
pub open spec fn digit_char(d: nat) -> char
    recommends
        d < 10,
{
    (d + '0' as nat) as char
}

/// Whether every character of `s` is a decimal digit.
pub open spec fn all_digits(s: Seq<char>) -> bool {
    forall|i: int| 0 <= i < s.len() ==> is_digit(#[trigger] s[i])
}

/// The number that a run of digits denotes in base ten, most significant digit first.
pub open spec fn decimal_value(s: Seq<char>) -> nat
    decreases s.len(),
{
    if s.len() == 0 {
        0
    } else {
        decimal_value(s.drop_last()) * 10 + digit_value(s.last())
    }
}

/// The shortest base-ten rendering of `n`.
pub open spec fn decimal_digits(n: nat) -> Seq<char>
    decreases n,
{
    if n < 10 {
        seq![digit_char(n)]
    } else {
        decimal_digits(n / 10).push(digit_char(n % 10))
    }
}

/// Rendering a number and reading it back gives the number; the rendering
/// is a non-empty run of digits.
pub proof fn lemma_decimal_digits_value(n: nat)
    ensures
        decimal_digits(n).len() > 0,
        all_digits(decimal_digits(n)),
        decimal_value(decimal_digits(n)) == n,
    decreases n,
{
    if n < 10 {
        let s = decimal_digits(n);
        assert(s.drop_last() =~= Seq::<char>::empty());
        assert(decimal_value(s.drop_last()) == 0);
    } else {
        lemma_decimal_digits_value(n / 10);
        let p = decimal_digits(n / 10);
        let s = decimal_digits(n);
        assert(s.drop_last() =~= p);
        assert(s.last() == digit_char(n % 10));
    }
}

/// Reading a longer run of digits never gives less than reading a prefix of it.
pub proof fn lemma_decimal_value_prefix(s: Seq<char>, k: int)
    requires
        0 <= k <= s.len(),
    ensures
        decimal_value(s.take(k)) <= decimal_value(s),
    decreases s.len() - k,
{
    if k == s.len() {
        assert(s.take(k) =~= s);
    } else {
        lemma_decimal_value_prefix(s, k + 1);
        assert(s.take(k + 1).drop_last() =~= s.take(k));
    }
}

/// Reads `chars[from..to]` as an unsigned base-ten number no greater than `limit`.
pub fn parse_digits(chars: &Vec<char>, from: usize, to: usize, limit: u64) -> (out: Option<u64>)
    requires
        from <= to <= chars.len(),
    ensures
        out == digits_value_within(chars@.subrange(from as int, to as int), limit as nat),
{
    let ghost run = chars@.subrange(from as int, to as int);
    if from == to {
        return None;
    }
    let mut acc: u64 = 0;
    let mut i: usize = from;
    while i < to
        invariant
            from <= i <= to <= chars.len(),
            run == chars@.subrange(from as int, to as int),
            all_digits(run.take(i - from)),
            acc == decimal_value(run.take(i - from)),
            acc <= limit,
        decreases to - i,
    {
        let c = chars[i];
        assert(run[i - from] == c);
        if !(c >= '0' && c <= '9') {
            return None;
        }
        let d: u64 = (c as u32 - '0' as u32) as u64;
        let next: u128 = acc as u128 * 10 + d as u128;
        proof {
            let longer = run.take(i - from + 1);
            assert(longer.drop_last() =~= run.take(i - from));
            assert(longer.last() == c);
            assert(decimal_value(longer) == next);
            assert forall|j: int| 0 <= j < longer.len() implies is_digit(#[trigger] longer[j]) by {
                if j < i - from {
                    assert(run.take(i - from)[j] == longer[j]);
                }
            }
            lemma_decimal_value_prefix(run, i - from + 1);
        }
        if next > limit as u128 {
            return None;
        }
        acc = next as u64;
        i += 1;
    }
    assert(run.take(to - from) =~= run);
    Some(acc)
}

/// What a run of characters denotes as a number within `limit`: it must be a
/// non-empty run of digits whose value does not exceed the limit.
pub open spec fn digits_value_within(s: Seq<char>, limit: nat) -> Option<u64> {
    if s.len() > 0 && all_digits(s) && decimal_value(s) <= limit && limit <= u64::MAX {
        Some(decimal_value(s) as u64)
    } else {
        None
    }
}

/// Renders `n` in base ten.
pub fn render_u64(n: u64) -> (out: Vec<char>)
    ensures
        out@ == decimal_digits(n as nat),
    decreases n,
{
    if n < 10 {
        let mut out: Vec<char> = Vec::new();
        out.push(((n as u8) + 48u8) as char);
        assert(out@ =~= seq![digit_char(n as nat)]);
        out
    } else {
        let mut out = render_u64(n / 10);
        out.push((((n % 10) as u8) + 48u8) as char);
        out
    }
}

/// The views of a list of character vectors.
pub open spec fn chars_views(v: Seq<Vec<char>>) -> Seq<Seq<char>> {
    Seq::new(v.len(), |i: int| v[i]@)
}

/// The views of a list of strings.
pub open spec fn string_views(v: Seq<String>) -> Seq<Seq<char>> {
    Seq::new(v.len(), |i: int| v[i]@)
}

/// The pieces of `s` between occurrences of `sep`, in order. A text without
/// the separator is its own single piece; `n` separators give `n + 1` pieces,
/// some of which may be empty.
pub open spec fn split_on(s: Seq<char>, sep: char) -> Seq<Seq<char>>
    decreases s.len(),
{
    if s.len() == 0 {
        seq![Seq::<char>::empty()]
    } else {
        let before = split_on(s.drop_last(), sep);
        if s.last() == sep {
            before.push(Seq::<char>::empty())
        } else {
            before.drop_last().push(before.last().push(s.last()))
        }
    }
}

/// A split always has at least one piece.
pub proof fn lemma_split_nonempty(s: Seq<char>, sep: char)
    ensures
        split_on(s, sep).len() >= 1,
    decreases s.len(),
{
    if s.len() > 0 {
        lemma_split_nonempty(s.drop_last(), sep);
    }
}

/// Whether `c` occurs nowhere in `s`.
pub open spec fn free_of(s: Seq<char>, c: char) -> bool {
    forall|i: int| 0 <= i < s.len() ==> #[trigger] s[i] != c
}

/// A text without the separator splits into itself alone.
pub proof fn lemma_split_free(s: Seq<char>, sep: char)
    requires
        free_of(s, sep),
    ensures
        split_on(s, sep) == seq![s],
    decreases s.len(),
{
    if s.len() == 0 {
        assert(s =~= Seq::<char>::empty());
    } else {
        lemma_split_free(s.drop_last(), sep);
        let before = split_on(s.drop_last(), sep);
        assert(before.drop_last().push(before.last().push(s.last())) =~= seq![
            s.drop_last().push(s.last()),
        ]);
        assert(s.drop_last().push(s.last()) =~= s);
    }
}

/// Splitting `a`, a separator and a separator-free `b` gives the pieces of `a` and then `b`.
pub proof fn lemma_split_append(a: Seq<char>, b: Seq<char>, sep: char)
    requires
        free_of(b, sep),
    ensures
        split_on(a + seq![sep] + b, sep) == split_on(a, sep).push(b),
    decreases b.len(),
{
    let whole = a + seq![sep] + b;
    if b.len() == 0 {
        assert(whole.drop_last() =~= a);
        assert(b =~= Seq::<char>::empty());
    } else {
        lemma_split_append(a, b.drop_last(), sep);
        assert(whole.drop_last() =~= a + seq![sep] + b.drop_last());
        assert(whole.last() == b.last());
        let before = split_on(whole.drop_last(), sep);
        assert(before.last() == b.drop_last());
        assert(before.drop_last() =~= split_on(a, sep));
        assert(b.drop_last().push(b.last()) =~= b);
    }
}

/// Every piece of a split is free of the separator, and joining the pieces
/// with the separator gives the text back.
pub proof fn lemma_split_joins(s: Seq<char>, sep: char)
    ensures
        forall|k: int|
            0 <= k < split_on(s, sep).len() ==> free_of(#[trigger] split_on(s, sep)[k], sep),
        join_with(split_on(s, sep), sep) == s,
    decreases s.len(),
{
    lemma_split_nonempty(s, sep);
    if s.len() == 0 {
        let parts = split_on(s, sep);
        assert(parts.drop_last() =~= Seq::<Seq<char>>::empty());
        assert(join_with(parts, sep) =~= s);
    } else {
        let rest = s.drop_last();
        lemma_split_joins(rest, sep);
        lemma_split_nonempty(rest, sep);
        let before = split_on(rest, sep);
        let parts = split_on(s, sep);
        if s.last() == sep {
            assert(parts.drop_last() =~= before);
            assert(join_with(parts, sep) =~= rest.push(sep));
            assert(rest.push(s.last()) =~= s);
        } else {
            assert(parts.drop_last() =~= before.drop_last());
            assert(parts.last() == before.last().push(s.last()));
            if before.len() == 1 {
                assert(before.drop_last() =~= Seq::<Seq<char>>::empty());
                assert(join_with(before, sep) == before.last());
                assert(join_with(parts, sep) == parts.last());
            } else {
                assert(join_with(before, sep) == join_with(before.drop_last(), sep) + seq![sep]
                    + before.last());
                assert(join_with(parts, sep) =~= join_with(before, sep).push(s.last()));
            }
            assert(rest.push(s.last()) =~= s);
            assert forall|k: int| 0 <= k < parts.len() implies free_of(
                #[trigger] parts[k],
                sep,
            ) by {
                if k < parts.len() - 1 {
                    assert(parts[k] == before[k]);
                } else {
                    assert(free_of(before[k], sep));
                }
            }
        }
    }
}

/// The pieces put together again, with one separator between neighbours.
pub open spec fn join_with(parts: Seq<Seq<char>>, sep: char) -> Seq<char>
    decreases parts.len(),
{
    if parts.len() == 0 {
        Seq::<char>::empty()
    } else if parts.len() == 1 {
        parts[0]
    } else {
        join_with(parts.drop_last(), sep) + seq![sep] + parts.last()
    }
}

/// Splits `s` at every occurrence of `sep`.
pub fn split_chars(s: &Vec<char>, sep: char) -> (out: Vec<Vec<char>>)
    ensures
        chars_views(out@) == split_on(s@, sep),
{
    let mut out: Vec<Vec<char>> = Vec::new();
    let mut piece: Vec<char> = Vec::new();
    let mut i: usize = 0;
    while i < s.len()
        invariant
            i <= s.len(),
            chars_views(out@).push(piece@) == split_on(s@.take(i as int), sep),
        decreases s.len() - i,
    {
        let ghost before = split_on(s@.take(i as int), sep);
        let ghost old_out = chars_views(out@);
        let ghost old_piece = piece@;
        let c = s[i];
        proof {
            assert(s@.take(i + 1).drop_last() =~= s@.take(i as int));
            assert(s@.take(i + 1).last() == c);
            assert(before.drop_last() =~= old_out);
            assert(before.last() == old_piece);
        }
        if c == sep {
            out.push(piece);
            piece = Vec::new();
            assert(chars_views(out@) =~= old_out.push(old_piece));
            assert(piece@ =~= Seq::<char>::empty());
        } else {
            piece.push(c);
        }
        i += 1;
    }
    assert(s@.take(s@.len() as int) =~= s@);
    let ghost old_out = chars_views(out@);
    let ghost last_piece = piece@;
    out.push(piece);
    assert(chars_views(out@) =~= old_out.push(last_piece));
    out
}

/// Whether `s` begins with `prefix`.
pub open spec fn starts_with(s: Seq<char>, prefix: Seq<char>) -> bool {
    prefix.len() <= s.len() && s.take(prefix.len() as int) == prefix
}

/// Whether `s` ends with `suffix`.
pub open spec fn ends_with(s: Seq<char>, suffix: Seq<char>) -> bool {
    suffix.len() <= s.len() && s.skip(s.len() - suffix.len()) == suffix
}

/// Whether `needle` occurs in `s` as a run of neighbouring characters.
pub open spec fn contains_run(s: Seq<char>, needle: Seq<char>) -> bool {
    exists|i: int| occurs_at(s, needle, i)
}

/// Whether `needle` occurs in `s` starting at index `i`.
pub open spec fn occurs_at(s: Seq<char>, needle: Seq<char>, i: int) -> bool {
    0 <= i && i + needle.len() <= s.len() && s.subrange(i, i + needle.len()) == needle
}

/// Tests whether `needle` stands in `s` at index `at`.
pub fn matches_at(s: &Vec<char>, needle: &Vec<char>, at: usize) -> (out: bool)
    ensures
        out == occurs_at(s@, needle@, at as int),
{
    if at > s.len() || needle.len() > s.len() - at {
        return false;
    }
    let mut j: usize = 0;
    while j < needle.len()
        invariant
            j <= needle.len(),
            at + needle.len() <= s.len(),
            s@.subrange(at as int, at + j) == needle@.take(j as int),
        decreases needle.len() - j,
    {
        if s[at + j] != needle[j] {
            assert(s@.subrange(at as int, at + needle.len())[j as int] != needle@[j as int]);
            return false;
        }
        j += 1;
        assert(s@.subrange(at as int, at + j) =~= s@.subrange(at as int, at + j - 1).push(
            s@[at + j - 1],
        ));
        assert(needle@.take(j as int) =~= needle@.take(j - 1).push(needle@[j - 1]));
    }
    assert(needle@.take(needle@.len() as int) =~= needle@);
    true
}

/// Tests whether `s` begins with `prefix`.
pub fn has_prefix(s: &Vec<char>, prefix: &Vec<char>) -> (out: bool)
    ensures
        out == starts_with(s@, prefix@),
{
    let out = matches_at(s, prefix, 0);
    assert(prefix.len() <= s.len() ==> s@.take(prefix@.len() as int) =~= s@.subrange(
        0,
        0 + prefix@.len() as int,
    ));
    out
}

/// Tests whether `s` ends with `suffix`.
pub fn has_suffix(s: &Vec<char>, suffix: &Vec<char>) -> (out: bool)
    ensures
        out == ends_with(s@, suffix@),
{
    if suffix.len() > s.len() {
        return false;
    }
    let at = s.len() - suffix.len();
    let out = matches_at(s, suffix, at);
    assert(s@.skip(s@.len() - suffix@.len()) =~= s@.subrange(at as int, at + suffix@.len()));
    out
}

/// Tests whether `needle` occurs anywhere in `s`.
pub fn has_run(s: &Vec<char>, needle: &Vec<char>) -> (out: bool)
    ensures
        out == contains_run(s@, needle@),
{
    if needle.len() > s.len() {
        return false;
    }
    let last = s.len() - needle.len();
    let mut i: usize = 0;
    while i < last
        invariant
            i <= last,
            last == s.len() - needle.len(),
            forall|k: int| 0 <= k < i ==> !occurs_at(s@, needle@, k),
        decreases last - i,
    {
        if matches_at(s, needle, i) {
            return true;
        }
        i += 1;
    }
    matches_at(s, needle, last)
}

/// A copy of `chars[from..to]`.
pub fn copy_range(chars: &Vec<char>, from: usize, to: usize) -> (out: Vec<char>)
    requires
        from <= to <= chars.len(),
    ensures
        out@ == chars@.subrange(from as int, to as int),
{
    let mut out: Vec<char> = Vec::new();
    let mut i: usize = from;
    while i < to
        invariant
            from <= i <= to <= chars.len(),
            out@ == chars@.subrange(from as int, i as int),
        decreases to - i,
    {
        out.push(chars[i]);
        i += 1;
        assert(chars@.subrange(from as int, i as int) =~= chars@.subrange(from as int, i - 1).push(
            chars@[i - 1],
        ));
    }
    out
}

/// Appends the characters of `more` to `out`.
pub fn append_chars(out: &mut Vec<char>, more: &Vec<char>)
    ensures
        final(out)@ == old(out)@ + more@,
{
    let mut i: usize = 0;
    while i < more.len()
        invariant
            i <= more.len(),
            out@ == old(out)@ + more@.take(i as int),
        decreases more.len() - i,
    {
        out.push(more[i]);
        i += 1;
        assert(more@.take(i as int) =~= more@.take(i - 1).push(more@[i - 1]));
        assert(out@ =~= old(out)@ + more@.take(i as int));
    }
    assert(more@.take(more@.len() as int) =~= more@);
}

/// What `s` denotes as an unsigned number within `limit`: an optional `+`,
/// then a non-empty run of digits whose value does not exceed the limit.
pub open spec fn unsigned_text_value(s: Seq<char>, limit: nat) -> Option<u64> {
    if s.len() > 0 && s[0] == '+' {
        digits_value_within(s.drop_first(), limit)
    } else {
        digits_value_within(s, limit)
    }
}

/// What `s` denotes as a `u32`, if anything.
pub open spec fn u32_text_value(s: Seq<char>) -> Option<u32> {
    match unsigned_text_value(s, u32::MAX as nat) {
        Some(v) => Some(v as u32),
        None => None,
    }
}

/// What `s` denotes as an `i64`, if anything: an optional sign, then a
/// non-empty run of digits, the whole within the range of the type.
pub open spec fn i64_text_value(s: Seq<char>) -> Option<i64> {
    if s.len() > 0 && s[0] == '-' {
        match digits_value_within(s.drop_first(), 0x8000_0000_0000_0000) {
            Some(m) => Some((-(m as int)) as i64),
            None => None,
        }
    } else {
        match unsigned_text_value(s, i64::MAX as nat) {
            Some(m) => Some(m as i64),
            None => None,
        }
    }
}

/// The base-ten rendering of an integer: a `-` for a negative one, then its magnitude.
pub open spec fn integer_text(n: int) -> Seq<char> {
    if n < 0 {
        seq!['-'] + decimal_digits((-n) as nat)
    } else {
        decimal_digits(n as nat)
    }
}

/// Reads the whole of `chars` as a `u32`.
pub fn parse_u32(chars: &Vec<char>) -> (out: Option<u32>)
    ensures
        out == u32_text_value(chars@),
{
    let from: usize = if chars.len() > 0 && chars[0] == '+' {
        1
    } else {
        0
    };
    assert(chars@.subrange(from as int, chars@.len() as int) =~= if from == 1 {
        chars@.drop_first()
    } else {
        chars@
    });
    match parse_digits(chars, from, chars.len(), 0xffff_ffff) {
        Some(v) => Some(v as u32),
        None => None,
    }
}

/// Reads the whole of `chars` as an `i64`.
pub fn parse_i64(chars: &Vec<char>) -> (out: Option<i64>)
    ensures
        out == i64_text_value(chars@),
{
    if chars.len() > 0 && chars[0] == '-' {
        assert(chars@.subrange(1, chars@.len() as int) =~= chars@.drop_first());
        match parse_digits(chars, 1, chars.len(), 0x8000_0000_0000_0000) {
            Some(m) => {
                if m == 0x8000_0000_0000_0000 {
                    Some(i64::MIN)
                } else {
                    Some(-(m as i64))
                }
            },
            None => None,
        }
    } else {
        let from: usize = if chars.len() > 0 && chars[0] == '+' {
            1
        } else {
            0
        };
        assert(chars@.subrange(from as int, chars@.len() as int) =~= if from == 1 {
            chars@.drop_first()
        } else {
            chars@
        });
        match parse_digits(chars, from, chars.len(), 0x7fff_ffff_ffff_ffff) {
            Some(m) => Some(m as i64),
            None => None,
        }
    }
}

/// Renders `n` in base ten.
pub fn render_i64(n: i64) -> (out: Vec<char>)
    ensures
        out@ == integer_text(n as int),
{
    if n < 0 {
        let magnitude: u64 = ((-(n + 1)) as u64) + 1;
        let mut out: Vec<char> = Vec::new();
        out.push('-');
        let digits = render_u64(magnitude);
        append_chars(&mut out, &digits);
        assert(out@ =~= seq!['-'] + digits@);
        out
    } else {
        render_u64(n as u64)
    }
}

/// Whether `c` has the Unicode property White_Space: the controls from tab
/// to carriage return, the space, next line, the no-break spaces, the
/// Ogham space mark, the spaces of fixed width, the line and paragraph
/// separators, the medium mathematical space and the ideographic space.
pub open spec fn is_whitespace_char(c: char) -> bool {
    let n = c as u32;
    ||| 0x09 <= n <= 0x0D
    ||| n == 0x20
    ||| n == 0x85
    ||| n == 0xA0
    ||| n == 0x1680
    ||| 0x2000 <= n <= 0x200A
    ||| n == 0x2028
    ||| n == 0x2029
    ||| n == 0x202F
    ||| n == 0x205F
    ||| n == 0x3000
}

/// Tests whether `c` has the Unicode property White_Space.
pub fn is_whitespace(c: char) -> (out: bool)
    ensures
        out == is_whitespace_char(c),
{
    let n: u32 = c as u32;
    (0x09 <= n && n <= 0x0D) || n == 0x20 || n == 0x85 || n == 0xA0 || n == 0x1680 || (0x2000 <= n
        && n <= 0x200A) || n == 0x2028 || n == 0x2029 || n == 0x202F || n == 0x205F || n == 0x3000
}

/// The lowercase of a text by the Unicode rules that `str::to_lowercase` follows.
pub uninterp spec fn lowercase_text(s: Seq<char>) -> Seq<char>;

/// `str::to_lowercase` returns the lowercase equivalent of the text as a
/// new string; the contract gives that string its name.
pub assume_specification[ str::to_lowercase ](s: &str) -> (out: String)
    ensures
        out@ == lowercase_text(s@),
;

/// `s` without the whitespace at its beginning.
pub open spec fn trim_start_spec(s: Seq<char>) -> Seq<char>
    decreases s.len(),
{
    if s.len() > 0 && is_whitespace_char(s[0]) {
        trim_start_spec(s.drop_first())
    } else {
        s
    }
}

/// `s` without the whitespace at its end.
pub open spec fn trim_end_spec(s: Seq<char>) -> Seq<char>
    decreases s.len(),
{
    if s.len() > 0 && is_whitespace_char(s.last()) {
        trim_end_spec(s.drop_last())
    } else {
        s
    }
}

/// `s` without the whitespace at its beginning and at its end.
pub open spec fn trim_spec(s: Seq<char>) -> Seq<char> {
    trim_end_spec(trim_start_spec(s))
}

/// `s` without the run of `c` at its beginning.
pub open spec fn strip_char_start(s: Seq<char>, c: char) -> Seq<char>
    decreases s.len(),
{
    if s.len() > 0 && s[0] == c {
        strip_char_start(s.drop_first(), c)
    } else {
        s
    }
}

/// `s` without the run of `c` at its end.
pub open spec fn strip_char_end(s: Seq<char>, c: char) -> Seq<char>
    decreases s.len(),
{
    if s.len() > 0 && s.last() == c {
        strip_char_end(s.drop_last(), c)
    } else {
        s
    }
}

/// `s` without the runs of `c` at its beginning and at its end.
pub open spec fn strip_char(s: Seq<char>, c: char) -> Seq<char> {
    strip_char_end(strip_char_start(s, c), c)
}

/// Where `chars[from..to]` begins once its leading whitespace is left out.
pub fn skip_whitespace(chars: &Vec<char>, from: usize, to: usize) -> (out: usize)
    requires
        from <= to <= chars.len(),
    ensures
        from <= out <= to,
        chars@.subrange(out as int, to as int) == trim_start_spec(
            chars@.subrange(from as int, to as int),
        ),
{
    let mut i: usize = from;
    while i < to && is_whitespace(chars[i])
        invariant
            from <= i <= to <= chars.len(),
            trim_start_spec(chars@.subrange(i as int, to as int)) == trim_start_spec(
                chars@.subrange(from as int, to as int),
            ),
        decreases to - i,
    {
        assert(chars@.subrange(i as int, to as int).drop_first() =~= chars@.subrange(
            i + 1,
            to as int,
        ));
        i += 1;
    }
    i
}

/// Where `chars[from..to]` ends once its trailing whitespace is left out.
pub fn drop_whitespace(chars: &Vec<char>, from: usize, to: usize) -> (out: usize)
    requires
        from <= to <= chars.len(),
    ensures
        from <= out <= to,
        chars@.subrange(from as int, out as int) == trim_end_spec(
            chars@.subrange(from as int, to as int),
        ),
{
    let mut i: usize = to;
    while i > from && is_whitespace(chars[i - 1])
        invariant
            from <= i <= to <= chars.len(),
            trim_end_spec(chars@.subrange(from as int, i as int)) == trim_end_spec(
                chars@.subrange(from as int, to as int),
            ),
        decreases i - from,
    {
        assert(chars@.subrange(from as int, i as int).drop_last() =~= chars@.subrange(
            from as int,
            i - 1,
        ));
        i -= 1;
    }
    i
}

/// Where `chars[from..to]` begins once the run of `c` at its beginning is left out.
pub fn skip_char(chars: &Vec<char>, from: usize, to: usize, c: char) -> (out: usize)
    requires
        from <= to <= chars.len(),
    ensures
        from <= out <= to,
        chars@.subrange(out as int, to as int) == strip_char_start(
            chars@.subrange(from as int, to as int),
            c,
        ),
{
    let mut i: usize = from;
    while i < to && chars[i] == c
        invariant
            from <= i <= to <= chars.len(),
            strip_char_start(chars@.subrange(i as int, to as int), c) == strip_char_start(
                chars@.subrange(from as int, to as int),
                c,
            ),
        decreases to - i,
    {
        assert(chars@.subrange(i as int, to as int).drop_first() =~= chars@.subrange(
            i + 1,
            to as int,
        ));
        i += 1;
    }
    i
}

/// Where `chars[from..to]` ends once the run of `c` at its end is left out.
pub fn drop_char(chars: &Vec<char>, from: usize, to: usize, c: char) -> (out: usize)
    requires
        from <= to <= chars.len(),
    ensures
        from <= out <= to,
        chars@.subrange(from as int, out as int) == strip_char_end(
            chars@.subrange(from as int, to as int),
            c,
        ),
{
    let mut i: usize = to;
    while i > from && chars[i - 1] == c
        invariant
            from <= i <= to <= chars.len(),
            strip_char_end(chars@.subrange(from as int, i as int), c) == strip_char_end(
                chars@.subrange(from as int, to as int),
                c,
            ),
        decreases i - from,
    {
        assert(chars@.subrange(from as int, i as int).drop_last() =~= chars@.subrange(
            from as int,
            i - 1,
        ));
        i -= 1;
    }
    i
}

/// `chars` without the whitespace at its beginning and at its end.
pub fn trim_chars(chars: &Vec<char>) -> (out: Vec<char>)
    ensures
        out@ == trim_spec(chars@),
{
    assert(chars@.subrange(0, chars@.len() as int) =~= chars@);
    let from = skip_whitespace(chars, 0, chars.len());
    let to = drop_whitespace(chars, from, chars.len());
    copy_range(chars, from, to)
}

/// `chars` without the runs of `c` at its beginning and at its end.
pub fn strip_chars(chars: &Vec<char>, c: char) -> (out: Vec<char>)
    ensures
        out@ == strip_char(chars@, c),
{
    assert(chars@.subrange(0, chars@.len() as int) =~= chars@);
    let from = skip_char(chars, 0, chars.len(), c);
    let to = drop_char(chars, from, chars.len(), c);
    copy_range(chars, from, to)
}

/// `line` without one carriage return at its end, if it has one.
pub open spec fn without_carriage_return(line: Seq<char>) -> Seq<char> {
    if line.len() > 0 && line.last() == '\r' {
        line.drop_last()
    } else {
        line
    }
}

/// The lines of a text. A line ends at a line feed, and a carriage return
/// just before that line feed is left out with it. What follows the last
/// line feed is a line of its own unless it is empty.
pub open spec fn lines_spec(s: Seq<char>) -> Seq<Seq<char>> {
    let pieces = split_on(s, '\n');
    let count = if pieces.last().len() == 0 {
        pieces.len() - 1
    } else {
        pieces.len() as int
    };
    Seq::new(
        count as nat,
        |i: int|
            if i < pieces.len() - 1 {
                without_carriage_return(pieces[i])
            } else {
                pieces[i]
            },
    )
}

/// Splits a text into its lines.
pub fn lines_of(s: &Vec<char>) -> (out: Vec<Vec<char>>)
    ensures
        chars_views(out@) == lines_spec(s@),
{
    let pieces = split_chars(s, '\n');
    proof {
        lemma_split_nonempty(s@, '\n');
    }
    let ghost all = chars_views(pieces@);
    let count: usize = if pieces[pieces.len() - 1].len() == 0 {
        pieces.len() - 1
    } else {
        pieces.len()
    };
    assert(all.last() == pieces@[pieces@.len() - 1]@);
    let mut out: Vec<Vec<char>> = Vec::new();
    let mut i: usize = 0;
    while i < count
        invariant
            i <= count <= pieces.len(),
            all == chars_views(pieces@),
            chars_views(out@) == Seq::new(
                i as nat,
                |k: int|
                    if k < all.len() - 1 {
                        without_carriage_return(all[k])
                    } else {
                        all[k]
                    },
            ),
        decreases count - i,
    {
        let ghost before = chars_views(out@);
        let piece = &pieces[i];
        assert(all[i as int] == piece@);
        let end: usize = if i < pieces.len() - 1 && piece.len() > 0 && piece[piece.len() - 1]
            == '\r' {
            piece.len() - 1
        } else {
            piece.len()
        };
        let line = copy_range(piece, 0, end);
        let ghost expected = if i < all.len() - 1 {
            without_carriage_return(all[i as int])
        } else {
            all[i as int]
        };
        assert(line@ =~= expected);
        out.push(line);
        assert(chars_views(out@) =~= before.push(expected));
        i += 1;
        assert(chars_views(out@) =~= Seq::new(
            i as nat,
            |k: int|
                if k < all.len() - 1 {
                    without_carriage_return(all[k])
                } else {
                    all[k]
                },
        ));
    }
    assert(chars_views(out@) =~= lines_spec(s@));
    out
}

/// Where `c` stands last in `s`, if it stands there at all.
pub open spec fn last_index_of(s: Seq<char>, c: char) -> Option<int>
    decreases s.len(),
{
    if s.len() == 0 {
        None
    } else if s.last() == c {
        Some(s.len() - 1)
    } else {
        last_index_of(s.drop_last(), c)
    }
}

/// The last place of `c` is a place of `c` after which `c` does not stand
/// again; there is none exactly when `c` stands nowhere.
pub proof fn lemma_last_index_of(s: Seq<char>, c: char)
    ensures
        match last_index_of(s, c) {
            Some(i) => 0 <= i < s.len() && s[i] == c && free_of(s.skip(i + 1), c),
            None => free_of(s, c),
        },
    decreases s.len(),
{
    if s.len() > 0 && s.last() != c {
        lemma_last_index_of(s.drop_last(), c);
        match last_index_of(s, c) {
            Some(i) => {
                let tail = s.skip(i + 1);
                let shorter = s.drop_last().skip(i + 1);
                assert forall|k: int| 0 <= k < tail.len() implies #[trigger] tail[k] != c by {
                    if k < shorter.len() {
                        assert(shorter[k] == tail[k]);
                    }
                }
            },
            None => {
                assert forall|k: int| 0 <= k < s.len() implies #[trigger] s[k] != c by {
                    if k < s.len() - 1 {
                        assert(s.drop_last()[k] == s[k]);
                    }
                }
            },
        }
    }
}

/// Finds the last place of `c` in `chars[..to]`.
pub fn rfind_char(chars: &Vec<char>, to: usize, c: char) -> (out: Option<usize>)
    requires
        to <= chars.len(),
    ensures
        match out {
            Some(i) => last_index_of(chars@.take(to as int), c) == Some(i as int) && i < to,
            None => last_index_of(chars@.take(to as int), c) is None,
        },
{
    let mut i: usize = to;
    while i > 0
        invariant
            i <= to <= chars.len(),
            last_index_of(chars@.take(to as int), c) == last_index_of(chars@.take(i as int), c),
        decreases i,
    {
        assert(chars@.take(i as int).drop_last() =~= chars@.take(i - 1));
        if chars[i - 1] == c {
            return Some(i - 1);
        }
        i -= 1;
    }
    None
}

/// `text` without one trailing `suffix`, if it has one.
pub open spec fn without_suffix(text: Seq<char>, suffix: Seq<char>) -> Seq<char> {
    if ends_with(text, suffix) {
        text.take(text.len() - suffix.len())
    } else {
        text
    }
}

/// The view of an optional string.
pub open spec fn optional_text(s: Option<String>) -> Option<Seq<char>> {
    match s {
        Some(s) => Some(s@),
        None => None,
    }
}

/// The view of an optional string slice.
pub open spec fn optional_slice(s: Option<&str>) -> Option<Seq<char>> {
    match s {
        Some(s) => Some(s@),
        None => None,
    }
}

/// The extension of a file name: what follows its last dot. A name without
/// a dot has none, nor has one whose only dot is its first character, nor `..`.
pub open spec fn extension_spec(name: Seq<char>) -> Option<Seq<char>> {
    if name == ".."@ {
        None
    } else {
        match last_index_of(name, '.') {
            Some(i) => if i == 0 {
                None
            } else {
                Some(name.skip(i + 1))
            },
            None => None,
        }
    }
}

/// The extension of a file name.
pub fn extension_of(name: &Vec<char>) -> (out: Option<Vec<char>>)
    ensures
        match out {
            Some(e) => extension_spec(name@) == Some(e@),
            None => extension_spec(name@) is None,
        },
{
    proof {
        reveal_strlit("..");
    }
    assert(name@.take(name@.len() as int) =~= name@);
    if name.len() == 2 && name[0] == '.' && name[1] == '.' {
        assert(name@ =~= ".."@);
        return None;
    }
    match rfind_char(name, name.len(), '.') {
        Some(i) => {
            if i == 0 {
                None
            } else {
                let e = copy_range(name, i + 1, name.len());
                assert(e@ =~= name@.skip(i + 1));
                Some(e)
            }
        },
        None => None,
    }
}

} // verus!
