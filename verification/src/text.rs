use vstd::prelude::*;

verus! {

broadcast use vstd::string::group_string_axioms;

// ---------------------------------------------------------------------------------------------
// Searching in character sequences
// ---------------------------------------------------------------------------------------------

/// `p` starts `s`.
pub open spec fn has_prefix(s: Seq<char>, p: Seq<char>) -> bool {
    p.len() <= s.len() && s.subrange(0, p.len() as int) == p
}

/// `s` with `p` taken off its front, when `p` starts `s` (`str::strip_prefix`).
pub open spec fn strip_prefix(s: Seq<char>, p: Seq<char>) -> Option<Seq<char>> {
    if has_prefix(s, p) {
        Some(s.subrange(p.len() as int, s.len() as int))
    } else {
        None
    }
}

/// `p` stands in `s` at index `i`.
pub open spec fn occurs_at(s: Seq<char>, p: Seq<char>, i: int) -> bool {
    0 <= i && i + p.len() <= s.len() && s.subrange(i, i + p.len()) == p
}

/// `i` is where `p` first stands in `s`.
pub open spec fn first_at(s: Seq<char>, p: Seq<char>, i: int) -> bool {
    &&& occurs_at(s, p, i)
    &&& forall|j: int| 0 <= j < i ==> !occurs_at(s, p, j)
}

/// `p` stands somewhere in `s` (`str::contains`).
pub open spec fn contains(s: Seq<char>, p: Seq<char>) -> bool {
    exists|i: int| occurs_at(s, p, i)
}

/// The index of the first occurrence of `p` in `s` (`str::find`).
pub open spec fn find(s: Seq<char>, p: Seq<char>) -> Option<int> {
    if exists|i: int| first_at(s, p, i) {
        Some(choose|i: int| first_at(s, p, i))
    } else {
        None
    }
}

/// What stands before and after the first occurrence of `p` in `s` (`str::split_once`).
pub open spec fn split_once(s: Seq<char>, p: Seq<char>) -> Option<(Seq<char>, Seq<char>)> {
    match find(s, p) {
        Some(i) => Some((s.subrange(0, i), s.subrange(i + p.len(), s.len() as int))),
        None => None,
    }
}

/// The pieces of `s` between the occurrences of `p`, left to right (`str::split` with a non-empty pattern
/// that cannot overlap itself).
pub open spec fn split_all(s: Seq<char>, p: Seq<char>) -> Seq<Seq<char>>
    decreases s.len(),
{
    if p.len() == 0 {
        seq![s]
    } else {
        match find(s, p) {
            Some(i) => if 0 <= i && i + p.len() <= s.len() {
                seq![s.subrange(0, i)] + split_all(s.subrange(i + p.len(), s.len() as int), p)
            } else {
                seq![s]
            },
            None => seq![s],
        }
    }
}

/// A text made of a word without `sep`, `sep` and the rest splits at that `sep` into the two.
pub proof fn lemma_split_at_first(word: Seq<char>, sep: char, rest: Seq<char>)
    requires
        forall|i: int| 0 <= i < word.len() ==> word[i] != sep,
    ensures
        split_once(word + seq![sep] + rest, seq![sep]) == Some((word, rest)),
{
    let message = word + seq![sep] + rest;
    let p = seq![sep];
    let n = word.len() as int;
    assert(message.subrange(n, n + 1) =~= p);
    assert forall|j: int| 0 <= j < n implies !occurs_at(message, p, j) by {
        if occurs_at(message, p, j) {
            assert(message.subrange(j, j + 1)[0] == message[j]);
        }
    }
    assert(first_at(message, p, n));
    lemma_find_is_first(message, p, n);
    assert(message.subrange(0, n) =~= word);
    assert(message.subrange(n + 1, message.len() as int) =~= rest);
}

/// The first occurrence is the only index that is a first occurrence.
pub proof fn lemma_find_is_first(s: Seq<char>, p: Seq<char>, i: int)
    requires
        first_at(s, p, i),
    ensures
        find(s, p) == Some(i),
{
    let c = choose|k: int| first_at(s, p, k);
    assert(first_at(s, p, c));
    if c < i {
        assert(!occurs_at(s, p, c));
    }
    if i < c {
        assert(!occurs_at(s, p, i));
    }
}

/// An occurrence means there is a first one.
pub proof fn lemma_occurrence_has_first(s: Seq<char>, p: Seq<char>, i: int)
    requires
        occurs_at(s, p, i),
    ensures
        exists|k: int| first_at(s, p, k),
    decreases i,
{
    if exists|j: int| 0 <= j < i && occurs_at(s, p, j) {
        let j = choose|j: int| 0 <= j < i && occurs_at(s, p, j);
        lemma_occurrence_has_first(s, p, j);
    } else {
        assert(first_at(s, p, i));
    }
}

/// `find` is `None` exactly when `p` does not occur.
pub proof fn lemma_find_none(s: Seq<char>, p: Seq<char>)
    ensures
        find(s, p) is None <==> !contains(s, p),
{
    if contains(s, p) {
        let i = choose|i: int| occurs_at(s, p, i);
        lemma_occurrence_has_first(s, p, i);
    }
}

/// Occurrences in a suffix are the occurrences in the whole, shifted.
pub proof fn lemma_occurs_in_suffix(s: Seq<char>, p: Seq<char>, start: int, k: int)
    requires
        0 <= start <= s.len(),
    ensures
        occurs_at(s.subrange(start, s.len() as int), p, k) <==> (0 <= k && occurs_at(s, p, start + k)),
{
    let t = s.subrange(start, s.len() as int);
    if 0 <= k && k + p.len() <= t.len() {
        assert(t.subrange(k, k + p.len()) =~= s.subrange(start + k, start + k + p.len()));
    }
}

/// Whether `p` stands in `s` at index `i`.
pub fn occurs_at_exec(s: &Vec<char>, p: &Vec<char>, i: usize) -> (res: bool)
    ensures
        res == occurs_at(s@, p@, i as int),
{
    if i > s.len() || p.len() > s.len() - i {
        return false;
    }
    let mut k: usize = 0;
    while k < p.len()
        invariant
            i + p.len() <= s.len(),
            k <= p.len(),
            forall|m: int| 0 <= m < k ==> s@[i + m] == p@[m],
        decreases p.len() - k,
    {
        if s[i + k] != p[k] {
            assert(s@.subrange(i as int, i + p.len())[k as int] != p@[k as int]);
            return false;
        }
        k = k + 1;
    }
    assert(s@.subrange(i as int, i + p.len()) =~= p@);
    true
}

/// The first index at or after `from` where `p` stands in `s`.
pub fn find_from(s: &Vec<char>, p: &Vec<char>, from: usize) -> (res: Option<usize>)
    ensures
        match res {
            Some(i) => from <= i && occurs_at(s@, p@, i as int) && forall|j: int|
                from <= j < i ==> !occurs_at(s@, p@, j),
            None => forall|j: int| from <= j ==> !occurs_at(s@, p@, j),
        },
{
    if from > s.len() {
        return None;
    }
    let mut i = from;
    loop
        invariant
            from <= i <= s.len(),
            forall|j: int| from <= j < i ==> !occurs_at(s@, p@, j),
        decreases s.len() - i,
    {
        if occurs_at_exec(s, p, i) {
            return Some(i);
        }
        if i >= s.len() {
            return None;
        }
        i = i + 1;
    }
}

/// The first occurrence of `p` in `s` (`str::find`).
pub fn find_exec(s: &Vec<char>, p: &Vec<char>) -> (res: Option<usize>)
    ensures
        match res {
            Some(i) => find(s@, p@) == Some(i as int) && first_at(s@, p@, i as int),
            None => find(s@, p@) is None,
        },
{
    let res = find_from(s, p, 0);
    proof {
        match res {
            Some(i) => lemma_find_is_first(s@, p@, i as int),
            None => lemma_find_none(s@, p@),
        }
    }
    res
}

/// Whether `p` stands anywhere in `s` (`str::contains`).
pub fn contains_exec(s: &Vec<char>, p: &Vec<char>) -> (res: bool)
    ensures
        res == contains(s@, p@),
{
    let found = find_exec(s, p);
    proof {
        lemma_find_none(s@, p@);
    }
    found.is_some()
}

/// Whether `p` starts `s`.
pub fn has_prefix_exec(s: &Vec<char>, p: &Vec<char>) -> (res: bool)
    ensures
        res == has_prefix(s@, p@),
{
    let res = occurs_at_exec(s, p, 0);
    proof {
        if has_prefix(s@, p@) {
            assert(occurs_at(s@, p@, 0));
        }
    }
    res
}

// ---------------------------------------------------------------------------------------------
// Pieces of character sequences
// ---------------------------------------------------------------------------------------------

/// `String::push`: appends one character.
#[verifier::external_body]
pub(crate) fn push_char(text: &mut String, c: char)
    ensures
        final(text)@ == old(text)@.push(c),
{
    text.push(c);
}

/// The characters of `s`, in order.
pub fn chars_of(s: &str) -> (chars: Vec<char>)
    ensures
        chars@ == s@,
{
    let mut chars: Vec<char> = Vec::new();
    for c in iter: s.chars()
        invariant
            chars@ == iter.seq().take(iter.index() as int),
    {
        chars.push(c);
    }
    chars
}

/// The characters `from..to` of `s`.
pub fn sub_chars(s: &Vec<char>, from: usize, to: usize) -> (piece: Vec<char>)
    requires
        from <= to <= s.len(),
    ensures
        piece@ == s@.subrange(from as int, to as int),
{
    let mut piece: Vec<char> = Vec::new();
    let mut i = from;
    while i < to
        invariant
            from <= i <= to <= s.len(),
            piece@ == s@.subrange(from as int, i as int),
        decreases to - i,
    {
        piece.push(s[i]);
        i = i + 1;
        assert(piece@ =~= s@.subrange(from as int, i as int));
    }
    piece
}

/// A `String` holding the characters `from..to` of `s`.
pub fn string_of(s: &Vec<char>, from: usize, to: usize) -> (text: String)
    requires
        from <= to <= s.len(),
    ensures
        text@ == s@.subrange(from as int, to as int),
{
    let mut text = String::new();
    let mut i = from;
    while i < to
        invariant
            from <= i <= to <= s.len(),
            text@ == s@.subrange(from as int, i as int),
        decreases to - i,
    {
        push_char(&mut text, s[i]);
        i = i + 1;
        assert(text@ =~= s@.subrange(from as int, i as int));
    }
    text
}

/// A `String` holding all of `s`.
pub fn string_from(s: &Vec<char>) -> (text: String)
    ensures
        text@ == s@,
{
    let text = string_of(s, 0, s.len());
    assert(s@.subrange(0, s@.len() as int) =~= s@);
    text
}

/// `s` with `p` taken off its front, when `p` starts `s`.
pub fn strip_prefix_exec(s: &Vec<char>, p: &Vec<char>) -> (res: Option<Vec<char>>)
    ensures
        match res {
            Some(rest) => strip_prefix(s@, p@) == Some(rest@),
            None => strip_prefix(s@, p@) is None,
        },
{
    if has_prefix_exec(s, p) {
        Some(sub_chars(s, p.len(), s.len()))
    } else {
        None
    }
}

/// What stands before and after the first occurrence of `p` in `s`.
pub fn split_once_exec(s: &Vec<char>, p: &Vec<char>) -> (res: Option<(Vec<char>, Vec<char>)>)
    ensures
        match res {
            Some((a, b)) => split_once(s@, p@) == Some((a@, b@)),
            None => split_once(s@, p@) is None,
        },
{
    match find_exec(s, p) {
        Some(i) => {
            assert(occurs_at(s@, p@, i as int));
            let n = s.len();
            let after = i + p.len();
            Some((sub_chars(s, 0, i), sub_chars(s, after, n)))
        },
        None => None,
    }
}

/// The character sequences held by `parts`.
pub open spec fn views(parts: Seq<Vec<char>>) -> Seq<Seq<char>> {
    parts.map_values(|v: Vec<char>| v@)
}

/// The pieces of `s` between the occurrences of `p` (`str::split`).
pub fn split_all_exec(s: &Vec<char>, p: &Vec<char>) -> (parts: Vec<Vec<char>>)
    requires
        p.len() > 0,
    ensures
        views(parts@) == split_all(s@, p@),
{
    let mut parts: Vec<Vec<char>> = Vec::new();
    let mut start: usize = 0;
    assert(s@.subrange(0, s@.len() as int) =~= s@);
    assert(views(parts@) =~= Seq::<Seq<char>>::empty());
    assert(Seq::<Seq<char>>::empty() + split_all(s@, p@) =~= split_all(s@, p@));
    loop
        invariant
            p.len() > 0,
            start <= s.len(),
            split_all(s@, p@) == views(parts@) + split_all(s@.subrange(start as int, s@.len() as int), p@),
        decreases s.len() - start,
    {
        let ghost rest = s@.subrange(start as int, s@.len() as int);
        match find_from(s, p, start) {
            Some(i) => {
                proof {
                    lemma_occurs_in_suffix(s@, p@, start as int, i - start);
                    assert forall|j: int| 0 <= j < i - start implies !occurs_at(rest, p@, j) by {
                        lemma_occurs_in_suffix(s@, p@, start as int, j);
                    }
                    lemma_find_is_first(rest, p@, i - start);
                    assert(rest.subrange(0, i - start) =~= s@.subrange(start as int, i as int));
                    assert(rest.subrange(i - start + p.len(), rest.len() as int) =~= s@.subrange(
                        i + p.len(),
                        s@.len() as int,
                    ));
                }
                let ghost before = views(parts@);
                let piece = sub_chars(s, start, i);
                let ghost piece_view = piece@;
                parts.push(piece);
                start = i + p.len();
                proof {
                    assert(views(parts@) =~= before.push(piece_view));
                    let tail = split_all(s@.subrange(start as int, s@.len() as int), p@);
                    assert(before + (seq![piece_view] + tail) =~= before.push(piece_view) + tail);
                }
            },
            None => {
                proof {
                    assert forall|j: int| #![trigger occurs_at(rest, p@, j)] true implies !occurs_at(rest, p@, j) by {
                        lemma_occurs_in_suffix(s@, p@, start as int, j);
                    }
                    lemma_find_none(rest, p@);
                }
                let ghost before = views(parts@);
                let piece = sub_chars(s, start, s.len());
                let ghost piece_view = piece@;
                parts.push(piece);
                assert(views(parts@) =~= before.push(piece_view));
                assert(before + seq![piece_view] =~= before.push(piece_view));
                return parts;
            },
        }
    }
}

// ---------------------------------------------------------------------------------------------
// White space
// ---------------------------------------------------------------------------------------------

/// The characters of the Unicode property White_Space, which is what `char::is_whitespace` and
/// `str::trim` go by.
pub open spec fn is_white_space(c: char) -> bool {
    ||| ('\u{9}' <= c && c <= '\u{d}')
    ||| c == ' '
    ||| c == '\u{85}'
    ||| c == '\u{a0}'
    ||| c == '\u{1680}'
    ||| ('\u{2000}' <= c && c <= '\u{200a}')
    ||| c == '\u{2028}'
    ||| c == '\u{2029}'
    ||| c == '\u{202f}'
    ||| c == '\u{205f}'
    ||| c == '\u{3000}'
}

/// Whether `c` is white space (`char::is_whitespace`).
pub fn is_white_space_exec(c: char) -> (res: bool)
    ensures
        res == is_white_space(c),
{
    ('\u{9}' <= c && c <= '\u{d}') || c == ' ' || c == '\u{85}' || c == '\u{a0}' || c == '\u{1680}' || (
    '\u{2000}' <= c && c <= '\u{200a}') || c == '\u{2028}' || c == '\u{2029}' || c == '\u{202f}' || c
        == '\u{205f}' || c == '\u{3000}'
}

/// `s` without its leading white space (`str::trim_start`).
pub open spec fn trim_start(s: Seq<char>) -> Seq<char>
    decreases s.len(),
{
    if s.len() > 0 && is_white_space(s[0]) {
        trim_start(s.drop_first())
    } else {
        s
    }
}

/// `s` without its trailing white space (`str::trim_end`).
pub open spec fn trim_end(s: Seq<char>) -> Seq<char>
    decreases s.len(),
{
    if s.len() > 0 && is_white_space(s.last()) {
        trim_end(s.drop_last())
    } else {
        s
    }
}

/// `s` without leading and trailing white space (`str::trim`).
pub open spec fn trim(s: Seq<char>) -> Seq<char> {
    trim_end(trim_start(s))
}

proof fn lemma_trim_start(s: Seq<char>, a: int)
    requires
        0 <= a <= s.len(),
        forall|i: int| 0 <= i < a ==> is_white_space(s[i]),
        a == s.len() || !is_white_space(s[a]),
    ensures
        trim_start(s) == s.subrange(a, s.len() as int),
    decreases a,
{
    if a == 0 {
        assert(s.subrange(0, s.len() as int) =~= s);
    } else {
        let t = s.drop_first();
        assert forall|i: int| 0 <= i < a - 1 implies is_white_space(t[i]) by {
            assert(t[i] == s[i + 1]);
        }
        if a - 1 < t.len() {
            assert(t[a - 1] == s[a]);
        }
        lemma_trim_start(t, a - 1);
        assert(t.subrange(a - 1, t.len() as int) =~= s.subrange(a, s.len() as int));
    }
}

proof fn lemma_trim_end(s: Seq<char>, b: int)
    requires
        0 <= b <= s.len(),
        forall|i: int| b <= i < s.len() ==> is_white_space(s[i]),
        b == 0 || !is_white_space(s[b - 1]),
    ensures
        trim_end(s) == s.subrange(0, b),
    decreases s.len() - b,
{
    if b == s.len() {
        assert(s.subrange(0, s.len() as int) =~= s);
    } else {
        let t = s.drop_last();
        assert forall|i: int| b <= i < t.len() implies is_white_space(t[i]) by {
            assert(t[i] == s[i]);
        }
        if b > 0 {
            assert(t[b - 1] == s[b - 1]);
        }
        lemma_trim_end(t, b);
        assert(t.subrange(0, b) =~= s.subrange(0, b));
    }
}

/// `s` without leading and trailing white space.
pub fn trim_exec(s: &Vec<char>) -> (res: Vec<char>)
    ensures
        res@ == trim(s@),
{
    let n = s.len();
    let mut a: usize = 0;
    while a < n && is_white_space_exec(s[a])
        invariant
            n == s.len(),
            a <= n,
            forall|i: int| 0 <= i < a ==> is_white_space(s@[i]),
        decreases n - a,
    {
        a = a + 1;
    }
    let mut b: usize = n;
    while b > a && is_white_space_exec(s[b - 1])
        invariant
            n == s.len(),
            a <= b <= n,
            forall|i: int| b <= i < n ==> is_white_space(s@[i]),
        decreases b,
    {
        b = b - 1;
    }
    proof {
        lemma_trim_start(s@, a as int);
        let t = s@.subrange(a as int, n as int);
        assert forall|i: int| b - a <= i < t.len() implies is_white_space(t[i]) by {
            assert(t[i] == s@[a + i]);
        }
        if b > a {
            assert(t[b - a - 1] == s@[b - 1]);
        }
        lemma_trim_end(t, b - a);
        assert(t.subrange(0, b - a) =~= s@.subrange(a as int, b as int));
    }
    sub_chars(s, a, b)
}

// ---------------------------------------------------------------------------------------------
// Numbers
// ---------------------------------------------------------------------------------------------

/// An ASCII digit.
pub open spec fn is_digit(c: char) -> bool {
    '0' <= c && c <= '9'
}

/// Every character of `s` is an ASCII digit.
pub open spec fn all_digits(s: Seq<char>) -> bool {
    forall|i: int| 0 <= i < s.len() ==> is_digit(#[trigger] s[i])
}

/// The number the decimal digits `s` write.
pub open spec fn digits_value(s: Seq<char>) -> nat
    decreases s.len(),
{
    if s.len() == 0 {
        0
    } else {
        digits_value(s.drop_last()) * 10 + ((s.last() as u32 - '0' as u32) as nat)
    }
}

/// The integer that `s` writes in the form the integer types' `FromStr` accepts: an optional sign
/// (`-` only where `signed`) and at least one decimal digit. The range of the type is checked apart.
pub open spec fn integer_text(s: Seq<char>, signed: bool) -> Option<int> {
    if s.len() > 0 && s[0] == '+' {
        let d = s.drop_first();
        if d.len() > 0 && all_digits(d) {
            Some(digits_value(d) as int)
        } else {
            None
        }
    } else if signed && s.len() > 0 && s[0] == '-' {
        let d = s.drop_first();
        if d.len() > 0 && all_digits(d) {
            Some(-(digits_value(d) as int))
        } else {
            None
        }
    } else if s.len() > 0 && all_digits(s) {
        Some(digits_value(s) as int)
    } else {
        None
    }
}

/// What `s.parse::<bool>()` gives: exactly "true" or "false".
pub open spec fn bool_text(s: Seq<char>) -> Option<bool> {
    if s == "true"@ {
        Some(true)
    } else if s == "false"@ {
        Some(false)
    } else {
        None
    }
}

/// What `s.parse::<u64>()` gives.
pub open spec fn u64_text(s: Seq<char>) -> Option<u64> {
    match integer_text(s, false) {
        Some(v) => if 0 <= v <= u64::MAX {
            Some(v as u64)
        } else {
            None
        },
        None => None,
    }
}

/// What `s.parse::<i64>()` gives.
pub open spec fn i64_text(s: Seq<char>) -> Option<i64> {
    match integer_text(s, true) {
        Some(v) => if i64::MIN <= v <= i64::MAX {
            Some(v as i64)
        } else {
            None
        },
        None => None,
    }
}

/// What `s.parse::<i32>()` gives.
pub open spec fn i32_text(s: Seq<char>) -> Option<i32> {
    match integer_text(s, true) {
        Some(v) => if i32::MIN <= v <= i32::MAX {
            Some(v as i32)
        } else {
            None
        },
        None => None,
    }
}

/// Above every value of the integer types parsed here.
pub open spec fn parse_cap() -> nat {
    0x1_0000_0000_0000_0000
}

/// The value of the digits `s[from..]`, capped at `parse_cap()`, or `None` when one is not a digit.
fn capped_digits(s: &Vec<char>, from: usize) -> (res: Option<u128>)
    requires
        from <= s.len(),
    ensures
        match res {
            Some(v) => all_digits(s@.subrange(from as int, s@.len() as int)) && v as nat == if digits_value(
                s@.subrange(from as int, s@.len() as int),
            ) < parse_cap() {
                digits_value(s@.subrange(from as int, s@.len() as int))
            } else {
                parse_cap()
            },
            None => !all_digits(s@.subrange(from as int, s@.len() as int)),
        },
{
    let n = s.len();
    let mut acc: u128 = 0;
    let mut i = from;
    assert(s@.subrange(from as int, from as int) =~= Seq::<char>::empty());
    while i < n
        invariant
            n == s.len(),
            from <= i <= n,
            all_digits(s@.subrange(from as int, i as int)),
            acc <= 0x1_0000_0000_0000_0000,
            acc as nat == if digits_value(s@.subrange(from as int, i as int)) < parse_cap() {
                digits_value(s@.subrange(from as int, i as int))
            } else {
                parse_cap()
            },
        decreases n - i,
    {
        let c = s[i];
        let ghost before = s@.subrange(from as int, i as int);
        let ghost after = s@.subrange(from as int, i + 1);
        if !('0' <= c && c <= '9') {
            assert(after[i - from] == c);
            assert(!all_digits(s@.subrange(from as int, s@.len() as int))) by {
                assert(s@.subrange(from as int, s@.len() as int)[i - from] == c);
            }
            return None;
        }
        let d = (c as u32 - '0' as u32) as u128;
        assert(after.drop_last() =~= before);
        assert(after.last() == c);
        assert(digits_value(after) == digits_value(before) * 10 + d);
        if acc >= 0x1_0000_0000_0000_0000 {
            acc = 0x1_0000_0000_0000_0000;
        } else {
            let next = acc * 10 + d;
            acc = if next >= 0x1_0000_0000_0000_0000 {
                0x1_0000_0000_0000_0000
            } else {
                next
            };
        }
        i = i + 1;
        assert forall|k: int| 0 <= k < after.len() implies is_digit(#[trigger] after[k]) by {
            if k < before.len() {
                assert(after[k] == before[k]);
            }
        }
    }
    Some(acc)
}

/// What `s.parse::<bool>()` gives.
pub fn parse_bool(s: &Vec<char>) -> (res: Option<bool>)
    ensures
        res == bool_text(s@),
{
    let t = chars_of("true");
    let f = chars_of("false");
    proof {
        reveal_strlit("true");
        reveal_strlit("false");
    }
    if s.len() == 4 && has_prefix_exec(s, &t) {
        assert(s@ =~= s@.subrange(0, 4));
        Some(true)
    } else if s.len() == 5 && has_prefix_exec(s, &f) {
        assert(s@ =~= s@.subrange(0, 5));
        Some(false)
    } else {
        proof {
            if s@ == "true"@ {
                assert(s@.subrange(0, 4) =~= s@);
            }
            if s@ == "false"@ {
                assert(s@.subrange(0, 5) =~= s@);
            }
        }
        None
    }
}

/// The sign and the first digit position of an integer text, and whether the sign is negative.
fn integer_parts(s: &Vec<char>, signed: bool) -> (res: Option<(bool, u128)>)
    ensures
        match res {
            Some((negative, capped)) => match integer_text(s@, signed) {
                Some(v) => (negative ==> v <= 0) && (!negative ==> v >= 0) && capped as nat == if abs_int(v)
                    < parse_cap() {
                    abs_int(v) as nat
                } else {
                    parse_cap()
                },
                None => false,
            },
            None => integer_text(s@, signed) is None,
        },
{
    if s.len() == 0 {
        return None;
    }
    let (negative, from) = if s[0] == '+' {
        (false, 1)
    } else if signed && s[0] == '-' {
        (true, 1)
    } else {
        (false, 0)
    };
    if from >= s.len() {
        return None;
    }
    let digits = capped_digits(s, from);
    proof {
        if from == 1 {
            assert(s@.subrange(1, s@.len() as int) =~= s@.drop_first());
        } else {
            assert(s@.subrange(0, s@.len() as int) =~= s@);
            if s@.len() > 0 && all_digits(s@) {
                assert(is_digit(s@[0]));
            }
        }
    }
    match digits {
        Some(capped) => Some((negative, capped)),
        None => None,
    }
}

/// The absolute value of an integer.
pub open spec fn abs_int(v: int) -> int {
    if v < 0 {
        -v
    } else {
        v
    }
}

/// What `s.parse::<u64>()` gives.
pub fn parse_u64(s: &Vec<char>) -> (res: Option<u64>)
    ensures
        res == u64_text(s@),
{
    match integer_parts(s, false) {
        Some((_negative, capped)) => {
            if capped <= 0xffff_ffff_ffff_ffff {
                Some(capped as u64)
            } else {
                None
            }
        },
        None => None,
    }
}

/// What `s.parse::<i64>()` gives.
pub fn parse_i64(s: &Vec<char>) -> (res: Option<i64>)
    ensures
        res == i64_text(s@),
{
    match integer_parts(s, true) {
        Some((negative, capped)) => {
            if negative {
                if capped <= 0x8000_0000_0000_0000 {
                    Some((0 - (capped as i128)) as i64)
                } else {
                    None
                }
            } else if capped <= 0x7fff_ffff_ffff_ffff {
                Some(capped as i64)
            } else {
                None
            }
        },
        None => None,
    }
}

/// What `s.parse::<i32>()` gives.
pub fn parse_i32(s: &Vec<char>) -> (res: Option<i32>)
    ensures
        res == i32_text(s@),
{
    match integer_parts(s, true) {
        Some((negative, capped)) => {
            if negative {
                if capped <= 0x8000_0000 {
                    Some((0 - (capped as i128)) as i32)
                } else {
                    None
                }
            } else if capped <= 0x7fff_ffff {
                Some(capped as i32)
            } else {
                None
            }
        },
        None => None,
    }
}

// ---------------------------------------------------------------------------------------------
// Writing numbers
// ---------------------------------------------------------------------------------------------

/// The digit character of `d < 10`.
pub open spec fn digit_char(d: nat) -> char {
    (d + '0' as nat) as char
}

/// The decimal digits of `n`, without leading zeros (how `{}` writes an unsigned integer).
pub open spec fn decimal(n: nat) -> Seq<char>
    decreases n,
{
    if n < 10 {
        seq![digit_char(n)]
    } else {
        decimal(n / 10).push(digit_char(n % 10))
    }
}

/// The decimal digits of `n` are digits, never empty, and write `n`.
proof fn lemma_decimal_digits(n: nat)
    ensures
        decimal(n).len() > 0,
        all_digits(decimal(n)),
        digits_value(decimal(n)) == n,
    decreases n,
{
    if n < 10 {
        let d = decimal(n);
        assert(d.drop_last() =~= Seq::<char>::empty());
        assert(digit_char(n) as u32 == n + 48);
        assert('0' as u32 == 48);
        assert(d.last() == digit_char(n));
        assert(digits_value(d.drop_last()) == 0);
        assert(digits_value(d) == digits_value(d.drop_last()) * 10 + ((d.last() as u32 - '0' as u32) as nat));
    } else {
        lemma_decimal_digits(n / 10);
        let d = decimal(n);
        assert(d.drop_last() =~= decimal(n / 10));
        assert(digit_char(n % 10) as u32 == n % 10 + 48);
        assert((n / 10) * 10 + n % 10 == n) by (nonlinear_arith);
        assert('0' as u32 == 48);
        assert(d.last() == digit_char(n % 10));
        assert(digits_value(d) == digits_value(d.drop_last()) * 10 + ((d.last() as u32 - '0' as u32) as nat));
        assert forall|i: int| 0 <= i < d.len() implies is_digit(#[trigger] d[i]) by {
            if i < d.len() - 1 {
                assert(d[i] == decimal(n / 10)[i]);
            }
        }
    }
}

/// Reading back the decimal text of a number gives the number: `n.to_string().parse::<u64>()` is
/// `Ok(n)` for every `n`, zero included.
pub proof fn lemma_decimal_parses(n: u64)
    ensures
        u64_text(decimal(n as nat)) == Some(n),
{
    lemma_decimal_digits(n as nat);
    let d = decimal(n as nat);
    assert(is_digit(d[0]));
}

/// The decimal text of a number is all digits and reads back as the number.
pub proof fn lemma_decimal_parses_nat(n: nat)
    ensures
        decimal(n).len() > 0,
        all_digits(decimal(n)),
        digits_value(decimal(n)) == n,
{
    lemma_decimal_digits(n);
}

/// Reading back the decimal text of a number that is not negative gives the number:
/// `n.to_string().parse::<i32>()` is `Ok(n)`.
pub proof fn lemma_decimal_parses_i32(n: i32)
    requires
        n >= 0,
    ensures
        i32_text(decimal(n as nat)) == Some(n),
{
    lemma_decimal_digits(n as nat);
    let d = decimal(n as nat);
    assert(is_digit(d[0]));
}

/// `decimal(n)` with zeros in front up to `width` characters (how `{:0width$}` writes it).
pub open spec fn zero_padded(n: nat, width: nat) -> Seq<char> {
    if decimal(n).len() < width {
        Seq::new((width - decimal(n).len()) as nat, |i: int| '0') + decimal(n)
    } else {
        decimal(n)
    }
}

/// Zeros in front do not change the number digits write.
proof fn lemma_leading_zeros(zeros: Seq<char>, d: Seq<char>)
    requires
        forall|i: int| 0 <= i < zeros.len() ==> zeros[i] == '0',
    ensures
        digits_value(zeros + d) == digits_value(d),
    decreases zeros.len() + d.len(),
{
    if d.len() == 0 {
        assert(zeros + d =~= zeros);
        if zeros.len() > 0 {
            lemma_leading_zeros(zeros.drop_last(), d);
            assert(zeros.drop_last() + d =~= zeros.drop_last());
            assert('0' as u32 == 48);
        }
    } else {
        assert((zeros + d).drop_last() =~= zeros + d.drop_last());
        assert((zeros + d).last() == d.last());
        lemma_leading_zeros(zeros, d.drop_last());
    }
}

/// How many digits a number below ten thousand has.
proof fn lemma_decimal_len(n: nat)
    ensures
        decimal(n).len() >= 1,
        n < 10 ==> decimal(n).len() == 1,
        10 <= n < 100 ==> decimal(n).len() == 2,
        100 <= n < 1000 ==> decimal(n).len() == 3,
        1000 <= n < 10000 ==> decimal(n).len() == 4,
        n >= 10 ==> decimal(n).len() >= 2,
    decreases n,
{
    if n >= 10 {
        lemma_decimal_len(n / 10);
    }
}

/// A number written with zeros in front up to `width` characters: at least `width` characters
/// long, exactly `width` when the number has no more digits, all digits, and it reads back as the
/// number.
pub proof fn lemma_zero_padded(n: nat, width: nat)
    ensures
        zero_padded(n, width).len() >= width,
        decimal(n).len() <= width ==> zero_padded(n, width).len() == width,
        all_digits(zero_padded(n, width)),
        digits_value(zero_padded(n, width)) == n,
        n < 10 ==> zero_padded(n, 2).len() == 2,
        n < 100 ==> zero_padded(n, 2).len() == 2,
        n < 1000 ==> zero_padded(n, 3).len() == 3,
        n < 10000 ==> zero_padded(n, 4).len() == 4,
{
    lemma_decimal_digits(n);
    lemma_decimal_len(n);
    if decimal(n).len() < width {
        let zeros = Seq::new((width - decimal(n).len()) as nat, |i: int| '0');
        lemma_leading_zeros(zeros, decimal(n));
        assert forall|i: int| 0 <= i < zero_padded(n, width).len() implies is_digit(#[trigger] zero_padded(n, width)[i]) by {
            if i >= zeros.len() {
                assert(zero_padded(n, width)[i] == decimal(n)[i - zeros.len()]);
            }
        }
    }
}

/// Appends the decimal digits of `n`.
pub fn push_decimal(out: &mut String, n: u64)
    ensures
        final(out)@ == old(out)@ + decimal(n as nat),
    decreases n,
{
    if n >= 10 {
        push_decimal(out, n / 10);
    }
    let d = (n % 10) as u32;
    let c = char_of_digit(d);
    push_char(out, c);
    proof {
        if n >= 10 {
            assert(old(out)@ + decimal((n / 10) as nat) + seq![c] =~= old(out)@ + decimal(n as nat));
        } else {
            assert(old(out)@ + seq![c] =~= old(out)@ + decimal(n as nat));
        }
    }
}

fn char_of_digit(d: u32) -> (c: char)
    requires
        d < 10,
    ensures
        c == digit_char(d as nat),
{
    let c = match d {
        0 => '0',
        1 => '1',
        2 => '2',
        3 => '3',
        4 => '4',
        5 => '5',
        6 => '6',
        7 => '7',
        8 => '8',
        _ => '9',
    };
    c
}

/// Appends `n` with zeros in front up to `width` characters.
pub fn push_zero_padded(out: &mut String, n: u64, width: usize)
    ensures
        final(out)@ == old(out)@ + zero_padded(n as nat, width as nat),
{
    let mut digits = String::new();
    push_decimal(&mut digits, n);
    let len = digits.as_str().unicode_len();
    assert(digits@ == decimal(n as nat));
    let mut k: usize = len;
    while k < width
        invariant
            len == decimal(n as nat).len(),
            len <= k,
            k <= width || k == len,
            out@ == old(out)@ + Seq::new((k - len) as nat, |i: int| '0'),
        decreases width - k,
    {
        push_char(out, '0');
        k = k + 1;
        assert(Seq::new((k - 1 - len) as nat, |i: int| '0').push('0') =~= Seq::new((k - len) as nat, |i: int| '0'));
    }
    let ghost zeros = out@;
    out.append(digits.as_str());
    assert(Seq::new((0) as nat, |i: int| '0') =~= Seq::<char>::empty());
    assert(out@ =~= old(out)@ + zero_padded(n as nat, width as nat));
}

// ---------------------------------------------------------------------------------------------
// Comparing, measuring and prefixes of `str`
// ---------------------------------------------------------------------------------------------

/// The number of bytes of the UTF-8 encoding of `s` (what `str::len` counts).
pub open spec fn byte_len(s: Seq<char>) -> nat {
    vstd::utf8::encode_utf8(s).len()
}

/// Whether `a` and `b` hold the same characters.
pub fn eq_chars(a: &Vec<char>, b: &Vec<char>) -> (res: bool)
    ensures
        res == (a@ == b@),
{
    if a.len() != b.len() {
        return false;
    }
    let res = has_prefix_exec(a, b);
    proof {
        if res {
            assert(a@.subrange(0, b@.len() as int) =~= a@);
        }
        if a@ == b@ {
            assert(a@.subrange(0, b@.len() as int) =~= a@);
        }
    }
    res
}

/// The number of bytes `s` takes in UTF-8.
pub fn byte_len_exec(s: &Vec<char>) -> (n: usize)
    ensures
        n == byte_len(s@),
{
    let text = string_from(s);
    text.as_str().as_bytes().len()
}

/// `s` without `p` in front, when `p` starts `s`; `n` is the number of characters of `s`. Only the
/// first characters of `s` are looked at before the answer is known.
pub fn str_strip_prefix<'a>(s: &'a str, n: usize, p: &Vec<char>) -> (res: Option<&'a str>)
    requires
        n == s@.len(),
    ensures
        match res {
            Some(rest) => strip_prefix(s@, p@) == Some(rest@),
            None => strip_prefix(s@, p@) is None,
        },
{
    if p.len() > n {
        return None;
    }
    let mut i: usize = 0;
    while i < p.len()
        invariant
            p.len() <= n == s@.len(),
            i <= p.len(),
            forall|k: int| 0 <= k < i ==> s@[k] == p@[k],
        decreases p.len() - i,
    {
        if s.get_char(i) != p[i] {
            assert(s@.subrange(0, p@.len() as int)[i as int] != p@[i as int]);
            return None;
        }
        i = i + 1;
    }
    assert(s@.subrange(0, p@.len() as int) =~= p@);
    Some(s.substring_char(p.len(), n))
}

} // verus!
