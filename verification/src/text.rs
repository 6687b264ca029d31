//! Text as sequences of characters: trimming, ASCII case, searching,
//! splitting and joining.

use vstd::prelude::*;

verus! {

/// `String::push` appends the given character to the end of the string.
pub assume_specification[ String::push ](s: &mut String, c: char)
    ensures
        final(s)@ == old(s)@.push(c),
;

/// The characters with the Unicode property `White_Space`.
pub open spec fn is_white_space_char(c: char) -> bool {
    let u = c as u32;
    ||| 0x09 <= u <= 0x0d
    ||| u == 0x20
    ||| u == 0x85
    ||| u == 0xa0
    ||| u == 0x1680
    ||| 0x2000 <= u <= 0x200a
    ||| u == 0x2028
    ||| u == 0x2029
    ||| u == 0x202f
    ||| u == 0x205f
    ||| u == 0x3000
}

/// The class of characters that a trim takes away.
pub enum Strip {
    /// Unicode white space.
    White,
    /// One given character.
    Only(char),
}

/// Whether the class holds the character.
pub open spec fn strips(what: Strip, c: char) -> bool {
    match what {
        Strip::White => is_white_space_char(c),
        Strip::Only(only) => c == only,
    }
}

/// `s` without its longest prefix of characters of the class.
pub open spec fn strip_front(s: Seq<char>, what: Strip) -> Seq<char>
    decreases s.len(),
{
    if s.len() > 0 && strips(what, s[0]) {
        strip_front(s.drop_first(), what)
    } else {
        s
    }
}

/// `s` without its longest suffix of characters of the class.
pub open spec fn strip_back(s: Seq<char>, what: Strip) -> Seq<char>
    decreases s.len(),
{
    if s.len() > 0 && strips(what, s.last()) {
        strip_back(s.drop_last(), what)
    } else {
        s
    }
}

/// `s` without the characters of the class at either end.
pub open spec fn strip_both(s: Seq<char>, what: Strip) -> Seq<char> {
    strip_back(strip_front(s, what), what)
}

/// `s` without white space at either end.
pub open spec fn trimmed(s: Seq<char>) -> Seq<char> {
    strip_both(s, Strip::White)
}

/// A character with `A` to `Z` mapped to `a` to `z`.
pub open spec fn lower_char(c: char) -> char {
    if 'A' <= c <= 'Z' {
        (c as u32 + 32) as char
    } else {
        c
    }
}

/// A character with `a` to `z` mapped to `A` to `Z`.
pub open spec fn upper_char(c: char) -> char {
    if 'a' <= c <= 'z' {
        (c as u32 - 32) as char
    } else {
        c
    }
}

/// `s` in ASCII lower case.
pub open spec fn lower(s: Seq<char>) -> Seq<char> {
    s.map_values(|c: char| lower_char(c))
}

/// `s` in ASCII upper case.
pub open spec fn upper(s: Seq<char>) -> Seq<char> {
    s.map_values(|c: char| upper_char(c))
}

/// Whether `needle` stands in `s` at position `i`.
pub open spec fn occurs_at(s: Seq<char>, needle: Seq<char>, i: int) -> bool {
    &&& 0 <= i
    &&& i + needle.len() <= s.len()
    &&& s.subrange(i, i + needle.len()) == needle
}

/// Whether `needle` stands somewhere in `s`.
pub open spec fn has_text(s: Seq<char>, needle: Seq<char>) -> bool {
    exists|i: int| occurs_at(s, needle, i)
}

/// Whether `s` begins with `prefix`.
pub open spec fn has_prefix(s: Seq<char>, prefix: Seq<char>) -> bool {
    occurs_at(s, prefix, 0)
}

/// The parts of `s` between the occurrences of `sep`: always one more than
/// there are separators.
pub open spec fn split(s: Seq<char>, sep: char) -> Seq<Seq<char>>
    decreases s.len(),
{
    if s.len() == 0 {
        seq![Seq::<char>::empty()]
    } else {
        let parts = split(s.drop_last(), sep);
        if s.last() == sep {
            parts.push(Seq::<char>::empty())
        } else {
            parts.drop_last().push(parts.last().push(s.last()))
        }
    }
}

/// The parts one after the other, with `sep` between neighbours.
pub open spec fn join(parts: Seq<Seq<char>>, sep: char) -> Seq<char>
    decreases parts.len(),
{
    if parts.len() == 0 {
        Seq::<char>::empty()
    } else if parts.len() == 1 {
        parts[0]
    } else {
        join(parts.drop_last(), sep).push(sep) + parts.last()
    }
}

/// `s` with every `from` replaced by `to`.
pub open spec fn replaced(s: Seq<char>, from: char, to: char) -> Seq<char> {
    s.map_values(|c: char| if c == from { to } else { c })
}

/// The views of a vector of strings.
pub open spec fn views(v: Seq<String>) -> Seq<Seq<char>> {
    v.map_values(|s: String| s@)
}

/// The view of an optional string.
pub open spec fn opt_view(o: Option<String>) -> Option<Seq<char>> {
    match o {
        Some(s) => Some(s@),
        None => None,
    }
}

/// The characters of a string, in order.
pub fn to_chars(s: &str) -> (r: Vec<char>)
    ensures
        r@ == s@,
{
    let mut out: Vec<char> = Vec::new();
    for c in it: s.chars()
        invariant
            out@ == it.seq().take(it.index() as int),
            it.seq() == s@,
    {
        out.push(c);
        assert(it.seq().take(it.index() as int).push(c) =~= it.seq().take(it.index() + 1));
    }
    assert(s@.take(s@.len() as int) =~= s@);
    out
}

/// The string made of the characters from `from` up to `to`.
pub fn from_chars(chars: &[char], from: usize, to: usize) -> (r: String)
    requires
        from <= to <= chars@.len(),
    ensures
        r@ == chars@.subrange(from as int, to as int),
{
    let mut out: String = String::new();
    let mut i: usize = from;
    while i < to
        invariant
            from <= i <= to <= chars@.len(),
            out@ == chars@.subrange(from as int, i as int),
        decreases to - i,
    {
        out.push(chars[i]);
        assert(chars@.subrange(from as int, i as int).push(chars@[i as int]) =~= chars@.subrange(
            from as int,
            i + 1,
        ));
        i += 1;
    }
    out
}

/// Whether two texts are the same, character by character.
pub fn same_text(a: &str, b: &str) -> (r: bool)
    ensures
        r == (a@ == b@),
{
    let left: Vec<char> = to_chars(a);
    let right: Vec<char> = to_chars(b);
    if left.len() != right.len() {
        return false;
    }
    let mut i: usize = 0;
    while i < left.len()
        invariant
            left@ == a@,
            right@ == b@,
            left@.len() == right@.len(),
            i <= left@.len(),
            forall|j: int| 0 <= j < i ==> left@[j] == right@[j],
        decreases left.len() - i,
    {
        if left[i] != right[i] {
            return false;
        }
        i += 1;
    }
    assert(left@ =~= right@);
    true
}

/// Whether the class holds the character.
fn strips_char(what: &Strip, c: char) -> (r: bool)
    ensures
        r == strips(*what, c),
{
    match what {
        Strip::White => {
            let u: u32 = c as u32;
            (0x09 <= u && u <= 0x0d) || u == 0x20 || u == 0x85 || u == 0xa0 || u == 0x1680
                || (0x2000 <= u && u <= 0x200a) || u == 0x2028 || u == 0x2029 || u == 0x202f
                || u == 0x205f || u == 0x3000
        },
        Strip::Only(only) => c == *only,
    }
}

/// The text without the characters of the class at its end.
pub fn trim_end_of(s: &str, what: &Strip) -> (r: String)
    ensures
        r@ == strip_back(s@, *what),
{
    let chars: Vec<char> = to_chars(s);
    let mut end: usize = chars.len();
    assert(chars@.take(end as int) =~= chars@);
    while end > 0 && strips_char(what, chars[end - 1])
        invariant
            end <= chars@.len(),
            strip_back(chars@, *what) == strip_back(chars@.take(end as int), *what),
        decreases end,
    {
        assert(chars@.take(end as int).drop_last() =~= chars@.take(end - 1));
        end -= 1;
    }
    assert(chars@.take(end as int) =~= chars@.subrange(0, end as int));
    from_chars(chars.as_slice(), 0, end)
}

/// The text without the characters of the class at either end.
pub fn trim_of(s: &str, what: &Strip) -> (r: String)
    ensures
        r@ == strip_both(s@, *what),
{
    let chars: Vec<char> = to_chars(s);
    let mut start: usize = 0;
    assert(chars@.skip(0) =~= chars@);
    while start < chars.len() && strips_char(what, chars[start])
        invariant
            start <= chars@.len(),
            strip_front(chars@, *what) == strip_front(chars@.skip(start as int), *what),
        decreases chars.len() - start,
    {
        assert(chars@.skip(start as int).drop_first() =~= chars@.skip(start + 1));
        start += 1;
    }
    assert(chars@.skip(start as int) =~= chars@.subrange(start as int, chars@.len() as int));
    let rest: String = from_chars(chars.as_slice(), start, chars.len());
    trim_end_of(rest.as_str(), what)
}

/// The text without white space at either end.
pub fn trim(s: &str) -> (r: String)
    ensures
        r@ == trimmed(s@),
{
    trim_of(s, &Strip::White)
}

/// The text in ASCII lower case.
pub fn to_lower(s: &str) -> (r: String)
    ensures
        r@ == lower(s@),
{
    let chars: Vec<char> = to_chars(s);
    let mut out: String = String::new();
    let mut i: usize = 0;
    while i < chars.len()
        invariant
            i <= chars@.len(),
            out@ == lower(chars@.take(i as int)),
        decreases chars.len() - i,
    {
        let c: char = chars[i];
        let mapped: char = if 'A' <= c && c <= 'Z' {
            (c as u8 + 32) as char
        } else {
            c
        };
        out.push(mapped);
        assert(out@ =~= lower(chars@.take(i + 1)));
        i += 1;
    }
    assert(chars@.take(i as int) =~= chars@);
    out
}

/// The text in ASCII upper case.
pub fn to_upper(s: &str) -> (r: String)
    ensures
        r@ == upper(s@),
{
    let chars: Vec<char> = to_chars(s);
    let mut out: String = String::new();
    let mut i: usize = 0;
    while i < chars.len()
        invariant
            i <= chars@.len(),
            out@ == upper(chars@.take(i as int)),
        decreases chars.len() - i,
    {
        let c: char = chars[i];
        let mapped: char = if 'a' <= c && c <= 'z' {
            (c as u8 - 32) as char
        } else {
            c
        };
        out.push(mapped);
        assert(out@ =~= upper(chars@.take(i + 1)));
        i += 1;
    }
    assert(chars@.take(i as int) =~= chars@);
    out
}

/// Whether two texts are the same up to ASCII case.
pub fn same_text_any_case(a: &str, b: &str) -> (r: bool)
    ensures
        r == (lower(a@) == lower(b@)),
{
    let left: String = to_lower(a);
    let right: String = to_lower(b);
    same_text(left.as_str(), right.as_str())
}

/// The text with every `from` replaced by `to`.
pub fn replace_char(s: &str, from: char, to: char) -> (r: String)
    ensures
        r@ == replaced(s@, from, to),
{
    let chars: Vec<char> = to_chars(s);
    let mut out: String = String::new();
    let mut i: usize = 0;
    while i < chars.len()
        invariant
            i <= chars@.len(),
            out@ == replaced(chars@.take(i as int), from, to),
        decreases chars.len() - i,
    {
        let c: char = chars[i];
        if c == from {
            out.push(to);
        } else {
            out.push(c);
        }
        assert(out@ =~= replaced(chars@.take(i + 1), from, to));
        i += 1;
    }
    assert(chars@.take(i as int) =~= chars@);
    out
}

/// Whether `needle` stands in `chars` at position `at`.
fn occurs(chars: &Vec<char>, needle: &Vec<char>, at: usize) -> (r: bool)
    requires
        at + needle@.len() <= chars@.len(),
    ensures
        r == occurs_at(chars@, needle@, at as int),
{
    let ghost window = chars@.subrange(at as int, at + needle@.len());
    let total: usize = chars.len();
    let mut i: usize = 0;
    while i < needle.len()
        invariant
            at + needle@.len() <= total == chars@.len(),
            i <= needle@.len(),
            window == chars@.subrange(at as int, at + needle@.len()),
            forall|j: int| 0 <= j < i ==> window[j] == needle@[j],
        decreases needle.len() - i,
    {
        if chars[at + i] != needle[i] {
            assert(window[i as int] != needle@[i as int]);
            return false;
        }
        i += 1;
    }
    assert(window =~= needle@);
    true
}

/// The first position at which `needle` stands in `s`.
pub fn find(s: &str, needle: &str) -> (r: Option<usize>)
    ensures
        match r {
            Some(i) => {
                &&& occurs_at(s@, needle@, i as int)
                &&& i + needle@.len() <= usize::MAX
                &&& forall|j: int| 0 <= j < i ==> !occurs_at(s@, needle@, j)
            },
            None => !has_text(s@, needle@),
        },
{
    let chars: Vec<char> = to_chars(s);
    let wanted: Vec<char> = to_chars(needle);
    if wanted.len() > chars.len() {
        return None;
    }
    let total: usize = chars.len();
    let last: usize = total - wanted.len();
    let mut i: usize = 0;
    loop
        invariant
            chars@ == s@,
            wanted@ == needle@,
            total == chars@.len(),
            last == total - wanted@.len(),
            i <= last,
            forall|j: int| 0 <= j < i ==> !occurs_at(s@, needle@, j),
        decreases last - i,
    {
        if occurs(&chars, &wanted, i) {
            return Some(i);
        }
        if i == last {
            return None;
        }
        i += 1;
    }
}

/// Whether `needle` stands somewhere in `s`.
pub fn contains(s: &str, needle: &str) -> (r: bool)
    ensures
        r == has_text(s@, needle@),
{
    find(s, needle).is_some()
}

/// Whether `s` begins with `prefix`.
pub fn starts_with(s: &str, prefix: &str) -> (r: bool)
    ensures
        r == has_prefix(s@, prefix@),
{
    let chars: Vec<char> = to_chars(s);
    let wanted: Vec<char> = to_chars(prefix);
    wanted.len() <= chars.len() && occurs(&chars, &wanted, 0)
}

/// The part of `s` from the `from`-th character to its end.
pub fn skip_chars(s: &str, from: usize) -> (r: String)
    requires
        from <= s@.len(),
    ensures
        r@ == s@.skip(from as int),
{
    let chars: Vec<char> = to_chars(s);
    assert(s@.skip(from as int) =~= s@.subrange(from as int, s@.len() as int));
    from_chars(chars.as_slice(), from, chars.len())
}

/// At most the first `count` characters of `s`.
pub fn take_chars(s: &str, count: usize) -> (r: String)
    ensures
        r@ == s@.take(if count < s@.len() { count as int } else { s@.len() as int }),
{
    let chars: Vec<char> = to_chars(s);
    let end: usize = if count < chars.len() { count } else { chars.len() };
    assert(s@.take(end as int) =~= s@.subrange(0, end as int));
    from_chars(chars.as_slice(), 0, end)
}

/// The parts of a text between the occurrences of a separator.
pub fn split_text(s: &str, sep: char) -> (r: Vec<String>)
    ensures
        views(r@) == split(s@, sep),
{
    let chars: Vec<char> = to_chars(s);
    let mut done: Vec<String> = Vec::new();
    let mut part: String = String::new();
    let mut i: usize = 0;
    assert(views(done@).push(part@) =~= split(chars@.take(0), sep));
    while i < chars.len()
        invariant
            i <= chars@.len(),
            views(done@).push(part@) == split(chars@.take(i as int), sep),
        decreases chars.len() - i,
    {
        let c: char = chars[i];
        let ghost before = views(done@).push(part@);
        assert(before.drop_last() =~= views(done@));
        assert(chars@.take(i + 1).drop_last() =~= chars@.take(i as int));
        if c == sep {
            done.push(part);
            part = String::new();
            assert(views(done@) =~= before);
        } else {
            part.push(c);
        }
        i += 1;
    }
    assert(chars@.take(i as int) =~= chars@);
    let ghost all = views(done@).push(part@);
    done.push(part);
    assert(views(done@) =~= all);
    done
}

/// The parts one after the other, with a separator between neighbours.
pub fn join_texts(parts: &Vec<String>, sep: char) -> (r: String)
    ensures
        r@ == join(views(parts@), sep),
{
    let mut out: String = String::new();
    let mut i: usize = 0;
    while i < parts.len()
        invariant
            i <= parts@.len(),
            out@ == join(views(parts@).take(i as int), sep),
        decreases parts.len() - i,
    {
        if i > 0 {
            out.push(sep);
        }
        out.append(parts[i].as_str());
        let ghost now = views(parts@).take(i + 1);
        assert(now.drop_last() =~= views(parts@).take(i as int));
        if i == 0 {
            assert(out@ =~= now[0]);
        }
        i += 1;
    }
    assert(views(parts@).take(i as int) =~= views(parts@));
    out
}

/// What trimming leaves is a stretch of the text whose ends are not of the
/// class.
pub proof fn lemma_strip_both(s: Seq<char>, what: Strip)
    ensures
        exists|i: int, j: int|
            0 <= i <= j <= s.len() && strip_both(s, what) == #[trigger] s.subrange(i, j),
        strip_both(s, what).len() > 0 ==> !strips(what, strip_both(s, what)[0]) && !strips(
            what,
            strip_both(s, what).last(),
        ),
{
    lemma_strip_front(s, what);
    let front = strip_front(s, what);
    lemma_strip_back(front, what);
    let i = s.len() - front.len();
    let back = strip_back(front, what);
    assert(back =~= s.subrange(i, i + back.len()));
}

proof fn lemma_strip_front(s: Seq<char>, what: Strip)
    ensures
        strip_front(s, what).len() <= s.len(),
        strip_front(s, what) == s.skip(s.len() - strip_front(s, what).len()),
        strip_front(s, what).len() > 0 ==> !strips(what, strip_front(s, what)[0]),
    decreases s.len(),
{
    if s.len() > 0 && strips(what, s[0]) {
        lemma_strip_front(s.drop_first(), what);
        assert(strip_front(s, what) =~= s.skip(s.len() - strip_front(s, what).len()));
    } else {
        assert(s =~= s.skip(0));
    }
}

/// Stripping the end leaves a prefix that does not end in the class.
pub proof fn lemma_strip_back(s: Seq<char>, what: Strip)
    ensures
        strip_back(s, what).len() <= s.len(),
        strip_back(s, what) == s.take(strip_back(s, what).len() as int),
        strip_back(s, what).len() > 0 ==> !strips(what, strip_back(s, what).last()),
    decreases s.len(),
{
    if s.len() > 0 && strips(what, s.last()) {
        lemma_strip_back(s.drop_last(), what);
        assert(strip_back(s, what) =~= s.take(strip_back(s, what).len() as int));
    } else {
        assert(s =~= s.take(s.len() as int));
    }
}

/// Text whose ends are not of the class is left as it is.
pub proof fn lemma_strip_nothing(s: Seq<char>, what: Strip)
    requires
        s.len() > 0 ==> !strips(what, s[0]) && !strips(what, s.last()),
    ensures
        strip_both(s, what) == s,
{
}

/// Trimming a trimmed text changes nothing.
pub proof fn lemma_trim_twice(s: Seq<char>)
    ensures
        trimmed(trimmed(s)) == trimmed(s),
{
    lemma_strip_both(s, Strip::White);
    lemma_strip_nothing(trimmed(s), Strip::White);
}

/// Lower case is stable.
pub proof fn lemma_lower_twice(s: Seq<char>)
    ensures
        lower(lower(s)) == lower(s),
{
    assert(lower(lower(s)) =~= lower(s));
}

/// Splitting two texts with a separator between them gives the parts of the
/// one and then of the other.
pub proof fn lemma_split_concat(a: Seq<char>, b: Seq<char>, sep: char)
    ensures
        split(a.push(sep) + b, sep) == split(a, sep) + split(b, sep),
    decreases b.len(),
{
    let whole = a.push(sep) + b;
    if b.len() == 0 {
        assert(whole =~= a.push(sep));
        assert(whole.drop_last() =~= a);
        assert(split(whole, sep) =~= split(a, sep) + split(b, sep));
    } else {
        lemma_split_concat(a, b.drop_last(), sep);
        lemma_split_parts(b.drop_last(), sep);
        assert(whole.drop_last() =~= a.push(sep) + b.drop_last());
        assert(split(whole, sep) =~= split(a, sep) + split(b, sep));
    }
}

/// A text without the separator is its own only part.
pub proof fn lemma_split_single(s: Seq<char>, sep: char)
    requires
        !s.contains(sep),
    ensures
        split(s, sep) == seq![s],
    decreases s.len(),
{
    if s.len() > 0 {
        assert forall|c: char| s.drop_last().contains(c) implies s.contains(c) by {
            let i = choose|i: int| 0 <= i < s.drop_last().len() && s.drop_last()[i] == c;
            assert(s[i] == c);
        }
        assert(s.contains(s[s.len() - 1]));
        lemma_split_single(s.drop_last(), sep);
        assert(s.drop_last().push(s.last()) =~= s);
        assert(split(s, sep) =~= seq![s]);
    } else {
        assert(s =~= Seq::<char>::empty());
    }
}

/// The parts of a text hold no separator, and no characters but its own.
pub proof fn lemma_split_parts(s: Seq<char>, sep: char)
    ensures
        split(s, sep).len() > 0,
        forall|i: int, j: int|
            0 <= i < split(s, sep).len() && 0 <= j < split(s, sep)[i].len() ==> s.contains(
                #[trigger] split(s, sep)[i][j],
            ) && split(s, sep)[i][j] != sep,
    decreases s.len(),
{
    if s.len() > 0 {
        let before = split(s.drop_last(), sep);
        lemma_split_parts(s.drop_last(), sep);
        assert(s.contains(s[s.len() - 1]));
        let after = split(s, sep);
        assert forall|i: int, j: int|
            0 <= i < after.len() && 0 <= j < after[i].len() implies s.contains(
            #[trigger] after[i][j],
        ) && after[i][j] != sep by {
            if i < before.len() && j < before[i].len() {
                let c = before[i][j];
                assert(after[i][j] == c);
                assert(s.drop_last().contains(c));
                let k = choose|k: int| 0 <= k < s.drop_last().len() && s.drop_last()[k] == c;
                assert(s[k] == c);
            }
        }
    }
}

/// Parts without the separator are got back from their join.
pub proof fn lemma_split_join(parts: Seq<Seq<char>>, sep: char)
    requires
        parts.len() > 0,
        forall|i: int| 0 <= i < parts.len() ==> !(#[trigger] parts[i]).contains(sep),
    ensures
        split(join(parts, sep), sep) == parts,
    decreases parts.len(),
{
    lemma_split_single(parts.last(), sep);
    if parts.len() == 1 {
        assert(seq![parts[0]] =~= parts);
    } else {
        lemma_split_join(parts.drop_last(), sep);
        lemma_split_concat(join(parts.drop_last(), sep), parts.last(), sep);
        assert(parts.drop_last() + seq![parts.last()] =~= parts);
    }
}

/// Trimming takes white space off either end and nothing else.
pub proof fn law_trimming_takes_only_white_space(s: Seq<char>) -> (ends: (Seq<char>, Seq<char>))
    ensures
        s == ends.0 + trimmed(s) + ends.1,
        all_white(ends.0),
        all_white(ends.1),
        trimmed(s).len() > 0 ==> !is_white_space_char(trimmed(s)[0]) && !is_white_space_char(
            trimmed(s).last(),
        ),
{
    let front = strip_front(s, Strip::White);
    lemma_strip_both(s, Strip::White);
    let before = lemma_white_front(s);
    let after = lemma_white_back(front);
    assert(s =~= before + trimmed(s) + after);
    (before, after)
}

/// Whether a text holds nothing but white space.
pub open spec fn all_white(s: Seq<char>) -> bool {
    forall|i: int| 0 <= i < s.len() ==> is_white_space_char(#[trigger] s[i])
}

proof fn lemma_white_front(s: Seq<char>) -> (before: Seq<char>)
    ensures
        s == before + strip_front(s, Strip::White),
        all_white(before),
    decreases s.len(),
{
    if s.len() > 0 && is_white_space_char(s[0]) {
        let rest = lemma_white_front(s.drop_first());
        let before = seq![s[0]] + rest;
        assert(s =~= seq![s[0]] + s.drop_first());
        assert(s =~= before + strip_front(s, Strip::White));
        before
    } else {
        assert(s =~= Seq::<char>::empty() + s);
        Seq::empty()
    }
}

proof fn lemma_white_back(s: Seq<char>) -> (after: Seq<char>)
    ensures
        s == strip_back(s, Strip::White) + after,
        all_white(after),
    decreases s.len(),
{
    if s.len() > 0 && is_white_space_char(s.last()) {
        let rest = lemma_white_back(s.drop_last());
        let after = rest.push(s.last());
        assert(s =~= s.drop_last().push(s.last()));
        assert(s =~= strip_back(s, Strip::White) + after);
        after
    } else {
        assert(s =~= s + Seq::<char>::empty());
        Seq::empty()
    }
}

/// Among the ASCII characters the space, the tabs, the line and page breaks are
/// white space; beyond them only the spaces and breaks of Unicode are.
pub proof fn law_what_white_space_is(c: char)
    ensures
        c as u32 <= 0x7f ==> (is_white_space_char(c) <==> seq![
            ' ',
            '\t',
            '\n',
            '\u{b}',
            '\u{c}',
            '\r',
        ].contains(c)),
        c as u32 > 0x7f ==> (is_white_space_char(c) <==> seq![
            '\u{85}',
            '\u{a0}',
            '\u{1680}',
            '\u{2000}',
            '\u{2001}',
            '\u{2002}',
            '\u{2003}',
            '\u{2004}',
            '\u{2005}',
            '\u{2006}',
            '\u{2007}',
            '\u{2008}',
            '\u{2009}',
            '\u{200a}',
            '\u{2028}',
            '\u{2029}',
            '\u{202f}',
            '\u{205f}',
            '\u{3000}',
        ].contains(c)),
{
    let low = seq![' ', '\t', '\n', '\u{b}', '\u{c}', '\r'];
    assert(low[0] == ' ' && low[1] == '\t' && low[2] == '\n' && low[3] == '\u{b}' && low[4]
        == '\u{c}' && low[5] == '\r');
    let high = seq![
        '\u{85}',
        '\u{a0}',
        '\u{1680}',
        '\u{2000}',
        '\u{2001}',
        '\u{2002}',
        '\u{2003}',
        '\u{2004}',
        '\u{2005}',
        '\u{2006}',
        '\u{2007}',
        '\u{2008}',
        '\u{2009}',
        '\u{200a}',
        '\u{2028}',
        '\u{2029}',
        '\u{202f}',
        '\u{205f}',
        '\u{3000}',
    ];
    assert(high[0] == '\u{85}' && high[1] == '\u{a0}' && high[2] == '\u{1680}' && high[3]
        == '\u{2000}' && high[4] == '\u{2001}' && high[5] == '\u{2002}' && high[6] == '\u{2003}'
        && high[7] == '\u{2004}' && high[8] == '\u{2005}' && high[9] == '\u{2006}' && high[10]
        == '\u{2007}' && high[11] == '\u{2008}' && high[12] == '\u{2009}' && high[13]
        == '\u{200a}' && high[14] == '\u{2028}' && high[15] == '\u{2029}' && high[16]
        == '\u{202f}' && high[17] == '\u{205f}' && high[18] == '\u{3000}');
}

/// The two cases are each other's, letter by letter, and nothing but the
/// letters of ASCII has a case.
pub proof fn law_letters_have_two_cases(c: char)
    ensures
        'A' <= c <= 'Z' ==> 'a' <= lower_char(c) <= 'z' && upper_char(lower_char(c)) == c,
        'a' <= c <= 'z' ==> 'A' <= upper_char(c) <= 'Z' && lower_char(upper_char(c)) == c,
        !('A' <= c <= 'Z') ==> lower_char(c) == c,
        !('a' <= c <= 'z') ==> upper_char(c) == c,
        lower_char('A') == 'a',
        upper_char('a') == 'A',
{
}

/// A text is found wherever it stands, and never in a shorter one.
pub proof fn law_texts_are_found(front: Seq<char>, needle: Seq<char>, back: Seq<char>)
    ensures
        has_text(front + needle + back, needle),
        has_prefix(needle + back, needle),
        front.len() < needle.len() ==> !has_text(front, needle) && !has_prefix(front, needle),
{
    let s = front + needle + back;
    let i = front.len() as int;
    assert(s.subrange(i, i + needle.len()) =~= needle);
    assert(occurs_at(s, needle, i));
    assert((needle + back).subrange(0, needle.len() as int) =~= needle);
}

/// The parts of a text, put together again, are the text.
pub proof fn law_parts_make_up_the_text(s: Seq<char>, sep: char)
    ensures
        join(split(s, sep), sep) == s,
    decreases s.len(),
{
    let parts = split(s, sep);
    if s.len() == 0 {
        assert(parts[0] =~= s);
    } else {
        let front = s.drop_last();
        let before = split(front, sep);
        law_parts_make_up_the_text(front, sep);
        lemma_split_parts(front, sep);
        assert(front.push(s.last()) =~= s);
        if s.last() == sep {
            assert(parts.drop_last() =~= before);
            assert(join(parts, sep) =~= front.push(sep));
        } else {
            assert(parts.drop_last() =~= before.drop_last());
            if before.len() == 1 {
                assert(join(parts, sep) =~= front.push(s.last()));
            } else {
                assert(join(parts, sep) =~= join(before, sep).push(s.last()));
            }
        }
    }
}

/// Changing the case, or one character for another, keeps every other
/// character in its place.
pub proof fn law_changes_keep_the_places(s: Seq<char>, from: char, to: char, i: int)
    requires
        0 <= i < s.len(),
    ensures
        lower(s).len() == s.len(),
        lower(s)[i] == lower_char(s[i]),
        upper(s).len() == s.len(),
        upper(s)[i] == upper_char(s[i]),
        replaced(s, from, to).len() == s.len(),
        s[i] == from ==> replaced(s, from, to)[i] == to,
        s[i] != from ==> replaced(s, from, to)[i] == s[i],
{
}

/// A text has another exactly if it can be cut so that the other is the piece
/// between, and begins with it exactly if that is its first piece.
pub proof fn law_found_texts_stand_there(s: Seq<char>, needle: Seq<char>)
    ensures
        has_text(s, needle) <==> exists|i: int|
            0 <= i <= s.len() - needle.len() && #[trigger] s.skip(i).take(needle.len() as int)
                == needle,
        has_prefix(s, needle) <==> needle.len() <= s.len() && s.take(needle.len() as int) == needle,
{
    let n = needle.len() as int;
    if has_text(s, needle) {
        let i = choose|i: int| occurs_at(s, needle, i);
        assert(s.skip(i).take(n) =~= s.subrange(i, i + n));
    }
    if exists|i: int| 0 <= i <= s.len() - n && #[trigger] s.skip(i).take(n) == needle {
        let i = choose|i: int| 0 <= i <= s.len() - n && #[trigger] s.skip(i).take(n) == needle;
        assert(s.skip(i).take(n) =~= s.subrange(i, i + n));
        assert(occurs_at(s, needle, i));
    }
    if n <= s.len() {
        assert(s.take(n) =~= s.subrange(0, n));
    }
}

} // verus!
