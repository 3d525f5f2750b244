//! Character sequences: white space, trimming and separator-delimited fields.
//!
//! The record grammar is stated over `Seq<char>`, the view of `str` and
//! `String`. The executable functions here work on a `Vec<char>` holding
//! the characters of a line, and on index ranges into it.

use vstd::prelude::*;

verus! {

/// Whether `c` has the Unicode property `White_Space`.
pub open spec fn white_space(c: char) -> bool {
    let u = c as u32;
    ||| 0x09 <= u <= 0x0D
    ||| u == 0x20
    ||| u == 0x85
    ||| u == 0xA0
    ||| u == 0x1680
    ||| 0x2000 <= u <= 0x200A
    ||| u == 0x2028
    ||| u == 0x2029
    ||| u == 0x202F
    ||| u == 0x205F
    ||| u == 0x3000
}

/// Whether every character of `s` is white space; the empty sequence is blank.
pub open spec fn blank(s: Seq<char>) -> bool {
    forall|i: int| 0 <= i < s.len() ==> white_space(#[trigger] s[i])
}

/// `s` without its leading white space.
pub open spec fn trimmed_start(s: Seq<char>) -> Seq<char>
    decreases s.len(),
{
    if s.len() > 0 && white_space(s.first()) {
        trimmed_start(s.drop_first())
    } else {
        s
    }
}

/// `s` without its trailing white space.
pub open spec fn trimmed_end(s: Seq<char>) -> Seq<char>
    decreases s.len(),
{
    if s.len() > 0 && white_space(s.last()) {
        trimmed_end(s.drop_last())
    } else {
        s
    }
}

/// `s` without its leading and trailing white space.
pub open spec fn trimmed(s: Seq<char>) -> Seq<char> {
    trimmed_end(trimmed_start(s))
}

/// The index of the first `sep` in `s`, or `s.len()` where `s` holds none.
pub open spec fn position(s: Seq<char>, sep: char) -> int
    decreases s.len(),
{
    if s.len() == 0 || s.first() == sep {
        0
    } else {
        1 + position(s.drop_first(), sep)
    }
}

/// The field that `s` begins with: what stands before the first `sep`, or
/// all of `s` where it holds no `sep`.
pub open spec fn field(s: Seq<char>, sep: char) -> Seq<char> {
    s.take(position(s, sep))
}

/// What follows the first field of `s` and the separator that ends it;
/// `None` where `s` holds no `sep`.
pub open spec fn after_field(s: Seq<char>, sep: char) -> Option<Seq<char>> {
    if position(s, sep) < s.len() {
        Some(s.skip(position(s, sep) + 1))
    } else {
        None
    }
}

/// All the fields of `s`, in order: what stands before, between and after
/// its separators. A sequence without a separator is one field.
pub open spec fn fields(s: Seq<char>, sep: char) -> Seq<Seq<char>>
    decreases s.len(),
{
    match after_field(s, sep) {
        Some(rest) => {
            proof {
                lemma_position(s, sep);
            }
            seq![field(s, sep)] + fields(rest, sep)
        },
        None => seq![s],
    }
}

/// The parts in order with a separator between each two; empty where
/// there is no part.
pub open spec fn joined(parts: Seq<Seq<char>>, sep: char) -> Seq<char>
    decreases parts.len(),
{
    if parts.len() == 0 {
        Seq::empty()
    } else if parts.len() == 1 {
        parts.first()
    } else {
        parts.first() + seq![sep] + joined(parts.drop_first(), sep)
    }
}

/// `position` lies within `s`, nothing before it is a separator, and where
/// it is an index of `s` it holds one.
pub proof fn lemma_position(s: Seq<char>, sep: char)
    ensures
        0 <= position(s, sep) <= s.len(),
        forall|j: int| 0 <= j < position(s, sep) ==> s[j] != sep,
        position(s, sep) < s.len() ==> s[position(s, sep)] == sep,
    decreases s.len(),
{
    if s.len() == 0 || s.first() == sep {
    } else {
        let rest = s.drop_first();
        lemma_position(rest, sep);
        assert forall|j: int| 0 <= j < position(s, sep) implies s[j] != sep by {
            if j > 0 {
                assert(s[j] == rest[j - 1]);
            }
        }
        if position(s, sep) < s.len() {
            assert(s[position(s, sep)] == rest[position(rest, sep)]);
        }
    }
}

/// An index of which the three facts of `lemma_position` hold is the position.
pub proof fn lemma_position_is(s: Seq<char>, sep: char, i: int)
    requires
        0 <= i <= s.len(),
        forall|j: int| 0 <= j < i ==> s[j] != sep,
        i < s.len() ==> s[i] == sep,
    ensures
        position(s, sep) == i,
{
    lemma_position(s, sep);
    let p = position(s, sep);
    if p < i {
        assert(s[p] != sep);
    } else if i < p {
        assert(s[i] == sep);
    }
}

/// A sequence without the separator is a single field with nothing after it.
pub proof fn lemma_field_without_sep(s: Seq<char>, sep: char)
    requires
        !s.contains(sep),
    ensures
        field(s, sep) == s,
        after_field(s, sep) is None,
{
    lemma_position(s, sep);
    if position(s, sep) < s.len() {
        assert(s.contains(s[position(s, sep)]));
    }
    assert(s.take(s.len() as int) =~= s);
}

/// In `a + [sep] + b` with no separator in `a`, the first field is `a` and
/// `b` is what follows it.
pub proof fn lemma_field_of_joined(a: Seq<char>, sep: char, b: Seq<char>)
    requires
        !a.contains(sep),
    ensures
        field(a + seq![sep] + b, sep) == a,
        after_field(a + seq![sep] + b, sep) == Some(b),
{
    let s = a + seq![sep] + b;
    assert forall|j: int| 0 <= j < a.len() implies s[j] != sep by {
        assert(s[j] == a[j]);
        assert(a.contains(a[j]));
    }
    assert(s[a.len() as int] == sep);
    lemma_position_is(s, sep, a.len() as int);
    assert(s.take(a.len() as int) =~= a);
    assert(s.skip(a.len() as int + 1) =~= b);
}

/// A sequence has at least one field. Its first field is `field`, and the
/// fields after that are those of `after_field`.
pub proof fn lemma_fields(s: Seq<char>, sep: char)
    ensures
        fields(s, sep).len() >= 1,
        fields(s, sep).first() == field(s, sep),
        match after_field(s, sep) {
            Some(rest) => fields(s, sep).drop_first() == fields(rest, sep),
            None => fields(s, sep).len() == 1,
        },
{
    lemma_position(s, sep);
    match after_field(s, sep) {
        Some(rest) => {
            assert(fields(s, sep).drop_first() =~= fields(rest, sep));
        },
        None => {
            assert(s.take(s.len() as int) =~= s);
        },
    }
}

/// Joining the fields of a sequence gives the sequence back.
pub proof fn lemma_joined_fields(s: Seq<char>, sep: char)
    ensures
        joined(fields(s, sep), sep) == s,
    decreases s.len(),
{
    lemma_position(s, sep);
    lemma_fields(s, sep);
    match after_field(s, sep) {
        Some(rest) => {
            lemma_joined_fields(rest, sep);
            lemma_fields(rest, sep);
            assert(field(s, sep) + seq![sep] + rest =~= s);
        },
        None => {},
    }
}

/// Trimming leaves no white space at either end.
pub proof fn lemma_trimmed_ends(s: Seq<char>)
    ensures
        trimmed(s).len() > 0 ==> !white_space(trimmed(s).first()) && !white_space(
            trimmed(s).last(),
        ),
        trimmed(s).len() <= s.len(),
{
    lemma_trimmed_start(s);
    lemma_trimmed_end(trimmed_start(s));
    let t = trimmed_start(s);
    let k = (t.len() - trimmed(s).len()) as int;
    if trimmed(s).len() > 0 {
        assert(trimmed(s) == t.take(trimmed(s).len() as int));
        assert(trimmed(s).first() == t.first());
    }
}

/// `trimmed_start` drops a blank prefix and stops at the first character
/// that is not white space.
pub proof fn lemma_trimmed_start(s: Seq<char>)
    ensures
        trimmed_start(s).len() <= s.len(),
        trimmed_start(s) == s.skip(s.len() - trimmed_start(s).len()),
        blank(s.take(s.len() - trimmed_start(s).len())),
        trimmed_start(s).len() > 0 ==> !white_space(trimmed_start(s).first()),
    decreases s.len(),
{
    if s.len() > 0 && white_space(s.first()) {
        let rest = s.drop_first();
        lemma_trimmed_start(rest);
        let k = s.len() - trimmed_start(s).len();
        assert(rest.skip(k - 1) =~= s.skip(k));
        assert forall|i: int| 0 <= i < k implies white_space(#[trigger] s.take(k)[i]) by {
            if i > 0 {
                assert(s.take(k)[i] == rest.take(k - 1)[i - 1]);
            }
        }
    } else {
        assert(s.skip(0) =~= s);
    }
}

/// `trimmed_end` drops a blank suffix and stops at the last character that
/// is not white space.
pub proof fn lemma_trimmed_end(s: Seq<char>)
    ensures
        trimmed_end(s).len() <= s.len(),
        trimmed_end(s) == s.take(trimmed_end(s).len() as int),
        blank(s.skip(trimmed_end(s).len() as int)),
        trimmed_end(s).len() > 0 ==> !white_space(trimmed_end(s).last()),
    decreases s.len(),
{
    if s.len() > 0 && white_space(s.last()) {
        let rest = s.drop_last();
        lemma_trimmed_end(rest);
        let n = trimmed_end(s).len() as int;
        assert(rest.take(n) =~= s.take(n));
        assert forall|i: int| 0 <= i < s.len() - n implies white_space(
            #[trigger] s.skip(n)[i],
        ) by {
            if i < s.len() - n - 1 {
                assert(s.skip(n)[i] == rest.skip(n)[i]);
            }
        }
    } else {
        assert(s.take(s.len() as int) =~= s);
    }
}

/// A sequence with no white space at either end is its own trimming.
pub proof fn lemma_trimmed_fixed(s: Seq<char>)
    requires
        s.len() > 0 ==> !white_space(s.first()) && !white_space(s.last()),
    ensures
        trimmed(s) == s,
{
}

/// A sequence is blank exactly when nothing is left of it after trimming.
pub proof fn lemma_blank_trimmed(s: Seq<char>)
    ensures
        blank(s) <==> trimmed(s).len() == 0,
{
    lemma_trimmed_start(s);
    lemma_trimmed_end(trimmed_start(s));
    let t = trimmed_start(s);
    let k = s.len() - t.len();
    if blank(s) {
        if t.len() > 0 {
            assert(t.first() == s[k]);
        }
    }
    if trimmed(s).len() == 0 {
        assert forall|i: int| 0 <= i < s.len() implies white_space(#[trigger] s[i]) by {
            if i < k {
                assert(s[i] == s.take(k)[i]);
            } else {
                assert(s[i] == t.skip(0)[i - k]);
            }
        }
    }
}

/// Whether `c` is white space.
pub fn is_white_space(c: char) -> (r: bool)
    ensures
        r == white_space(c),
{
    let u: u32 = c as u32;
    (0x09 <= u && u <= 0x0D) || u == 0x20 || u == 0x85 || u == 0xA0 || u == 0x1680 || (0x2000 <= u
        && u <= 0x200A) || u == 0x2028 || u == 0x2029 || u == 0x202F || u == 0x205F || u == 0x3000
}

/// The characters of `s`, in order.
pub fn to_chars(s: &str) -> (chars: Vec<char>)
    ensures
        chars@ == s@,
{
    let mut chars: Vec<char> = Vec::new();
    for c in it: s.chars()
        invariant
            chars@ == it.seq().take(it.index() as int),
    {
        chars.push(c);
    }
    chars
}

/// Whether `a` and `b` hold the same characters.
pub fn same_text(a: &str, b: &str) -> (r: bool)
    ensures
        r == (a@ == b@),
{
    let x = to_chars(a);
    let y = to_chars(b);
    if x.len() != y.len() {
        return false;
    }
    let mut i: usize = 0;
    while i < x.len()
        invariant
            i <= x.len() == y.len(),
            x@ == a@,
            y@ == b@,
            forall|j: int| 0 <= j < i ==> x@[j] == y@[j],
        decreases x.len() - i,
    {
        if x[i] != y[i] {
            return false;
        }
        i = i + 1;
    }
    assert(x@ =~= y@);
    true
}

/// Where the field that starts at `from` ends: the index of the first `sep`
/// at or after `from`, or `chars.len()` where none follows.
pub fn field_end(chars: &Vec<char>, from: usize, sep: char) -> (end: usize)
    requires
        from <= chars.len(),
    ensures
        from <= end <= chars.len(),
        end < chars.len() ==> chars@[end as int] == sep,
        end == from + position(chars@.skip(from as int), sep),
        chars@.subrange(from as int, end as int) == field(chars@.skip(from as int), sep),
        after_field(chars@.skip(from as int), sep) == if end < chars.len() {
            Some(chars@.skip(end + 1))
        } else {
            None
        },
{
    let mut end: usize = from;
    while end < chars.len() && chars[end] != sep
        invariant
            from <= end <= chars.len(),
            forall|j: int| from <= j < end ==> chars@[j] != sep,
        decreases chars.len() - end,
    {
        end = end + 1;
    }
    proof {
        let rest = chars@.skip(from as int);
        lemma_position_is(rest, sep, end - from);
        assert(rest.take(end - from) =~= chars@.subrange(from as int, end as int));
        if end < chars.len() {
            assert(rest.skip(end - from + 1) =~= chars@.skip(end + 1));
        }
    }
    end
}

/// Whether the characters in `from..to` are all white space.
pub fn is_blank(chars: &Vec<char>, from: usize, to: usize) -> (r: bool)
    requires
        from <= to <= chars.len(),
    ensures
        r == blank(chars@.subrange(from as int, to as int)),
{
    let ghost part = chars@.subrange(from as int, to as int);
    let mut i: usize = from;
    while i < to
        invariant
            from <= i <= to <= chars.len(),
            part == chars@.subrange(from as int, to as int),
            forall|j: int| 0 <= j < i - from ==> white_space(#[trigger] part[j]),
        decreases to - i,
    {
        if !is_white_space(chars[i]) {
            assert(part[i - from] == chars@[i as int]);
            return false;
        }
        i = i + 1;
    }
    true
}

/// The range left of `from..to` once the white space at both ends is gone.
pub fn trim_range(chars: &Vec<char>, from: usize, to: usize) -> (r: (usize, usize))
    requires
        from <= to <= chars.len(),
    ensures
        from <= r.0 <= r.1 <= to,
        chars@.subrange(r.0 as int, r.1 as int) == trimmed(
            chars@.subrange(from as int, to as int),
        ),
{
    let mut a: usize = from;
    while a < to && is_white_space(chars[a])
        invariant
            from <= a <= to <= chars.len(),
            trimmed_start(chars@.subrange(from as int, to as int)) == trimmed_start(
                chars@.subrange(a as int, to as int),
            ),
        decreases to - a,
    {
        assert(chars@.subrange(a as int, to as int).drop_first() =~= chars@.subrange(
            a + 1,
            to as int,
        ));
        a = a + 1;
    }
    let mut b: usize = to;
    while a < b && is_white_space(chars[b - 1])
        invariant
            a <= b <= to <= chars.len(),
            trimmed_end(chars@.subrange(a as int, to as int)) == trimmed_end(
                chars@.subrange(a as int, b as int),
            ),
        decreases b - a,
    {
        assert(chars@.subrange(a as int, b as int).drop_last() =~= chars@.subrange(
            a as int,
            b - 1,
        ));
        b = b - 1;
    }
    (a, b)
}

} // verus!
