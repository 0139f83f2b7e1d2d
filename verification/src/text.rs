//! Reading and building text, one character at a time.

use vstd::prelude::*;

verus! {

/// `String::push` appends one character at the end.
pub assume_specification[ String::push ](s: &mut String, c: char)
    ensures
        final(s)@ == old(s)@.push(c),
;

/// The characters of `s`, in order.
pub fn chars_of(s: &str) -> (v: Vec<char>)
    ensures
        v@ == s@,
{
    let mut v: Vec<char> = Vec::new();
    for c in it: s.chars()
        invariant
            it.seq() == s@,
            v@ == s@.take(it.index() as int),
    {
        v.push(c);
    }
    v
}

/// The text made of the characters `v[from..to]`.
pub fn string_between(v: &[char], from: usize, to: usize) -> (s: String)
    requires
        from <= to <= v@.len(),
    ensures
        s@ == v@.subrange(from as int, to as int),
{
    let mut s = String::new();
    let mut i: usize = from;
    while i < to
        invariant
            from <= i <= to <= v@.len(),
            s@ == v@.subrange(from as int, i as int),
        decreases to - i,
    {
        s.push(v[i]);
        i += 1;
    }
    s
}

/// Whether two texts are the same.
pub fn same_text(a: &str, b: &str) -> (r: bool)
    ensures
        r == (a@ == b@),
{
    let x = a.to_owned();
    let y = b.to_owned();
    x == y
}

/// `a` followed by `b`.
pub fn concat_text(a: &str, b: &str) -> (r: String)
    ensures
        r@ == a@ + b@,
{
    let mut r = a.to_owned();
    let tail = chars_of(b);
    let mut i: usize = 0;
    while i < tail.len()
        invariant
            tail@ == b@,
            i <= tail@.len(),
            r@ == a@ + b@.take(i as int),
        decreases tail@.len() - i,
    {
        r.push(tail[i]);
        i += 1;
        assert(r@ =~= a@ + b@.take(i as int));
    }
    assert(b@.take(i as int) =~= b@);
    r
}

/// `s` with every `from` turned into `to`.
pub open spec fn replaced(s: Seq<char>, from: char, to: char) -> Seq<char> {
    Seq::new(
        s.len(),
        |i: int|
            if s[i] == from {
                to
            } else {
                s[i]
            },
    )
}

pub fn replace_char(s: &str, from: char, to: char) -> (r: String)
    ensures
        r@ == replaced(s@, from, to),
{
    let v = chars_of(s);
    let mut r = String::new();
    let mut i: usize = 0;
    while i < v.len()
        invariant
            v@ == s@,
            i <= v@.len(),
            r@ == replaced(s@, from, to).take(i as int),
        decreases v@.len() - i,
    {
        if v[i] == from {
            r.push(to);
        } else {
            r.push(v[i]);
        }
        i += 1;
        assert(r@ =~= replaced(s@, from, to).take(i as int));
    }
    assert(r@ =~= replaced(s@, from, to));
    r
}

/// Whether a text has no characters.
pub fn is_empty_text(s: &str) -> (r: bool)
    ensures
        r == (s@.len() == 0),
{
    chars_of(s).len() == 0
}

/// Whether `s` is one of the texts in `list`.
pub fn is_one_of(s: &str, list: &[String]) -> (r: bool)
    ensures
        r == exists|i: int| 0 <= i < list@.len() && (#[trigger] list@[i])@ == s@,
{
    let mut i: usize = 0;
    while i < list.len()
        invariant
            i <= list@.len(),
            forall|j: int| 0 <= j < i ==> (#[trigger] list@[j])@ != s@,
        decreases list@.len() - i,
    {
        if same_text(list[i].as_str(), s) {
            assert(list@[i as int]@ == s@);
            return true;
        }
        i += 1;
    }
    false
}

/// The texts in a list, each by its characters.
pub open spec fn texts(list: Seq<String>) -> Seq<Seq<char>> {
    Seq::new(list.len(), |i: int| list[i]@)
}

/// The characters in a text that may be absent.
pub open spec fn text_view(t: Option<String>) -> Option<Seq<char>> {
    match t {
        Some(s) => Some(s@),
        None => None,
    }
}

/// A copy of a text that may be absent.
pub fn copy_text(t: &Option<String>) -> (r: Option<String>)
    ensures
        r == *t,
{
    match t {
        Some(s) => Some(s.clone()),
        None => None,
    }
}

// ---------------------------------------------------------------------------
// Letter case

pub open spec fn lower(c: char) -> char {
    if 'A' <= c && c <= 'Z' {
        ((c as u8) + 32) as char
    } else {
        c
    }
}

pub open spec fn lowered(s: Seq<char>) -> Seq<char> {
    Seq::new(s.len(), |i: int| lower(s[i]))
}

/// ASCII lower case of one character; others stay as they are.
pub fn lower_char(c: char) -> (r: char)
    ensures
        r == lower(c),
{
    if 'A' <= c && c <= 'Z' {
        (c as u8 + 32) as char
    } else {
        c
    }
}

/// ASCII lower case of a text.
pub fn lower_text(s: &str) -> (r: String)
    ensures
        r@ == lowered(s@),
{
    let v = chars_of(s);
    let mut r = String::new();
    let mut i: usize = 0;
    while i < v.len()
        invariant
            v@ == s@,
            i <= v@.len(),
            r@ == lowered(s@.take(i as int)),
        decreases v@.len() - i,
    {
        r.push(lower_char(v[i]));
        i += 1;
        assert(r@ =~= lowered(s@.take(i as int)));
    }
    assert(s@.take(v@.len() as int) =~= s@);
    r
}

pub open spec fn is_ascii_alphanumeric(c: char) -> bool {
    ('0' <= c && c <= '9') || ('a' <= c && c <= 'z') || ('A' <= c && c <= 'Z')
}

// ---------------------------------------------------------------------------
// White space

/// The characters with Unicode's White_Space property.
pub open spec fn is_space(c: char) -> bool {
    let n = c as u32;
    ||| 0x9 <= n <= 0xd
    ||| n == 0x20
    ||| n == 0x85
    ||| n == 0xa0
    ||| n == 0x1680
    ||| 0x2000 <= n <= 0x200a
    ||| n == 0x2028
    ||| n == 0x2029
    ||| n == 0x202f
    ||| n == 0x205f
    ||| n == 0x3000
}

pub fn is_white_space(c: char) -> (r: bool)
    ensures
        r == is_space(c),
{
    let n: u32 = c as u32;
    (0x9 <= n && n <= 0xd) || n == 0x20 || n == 0x85 || n == 0xa0 || n == 0x1680 || (0x2000 <= n && n
        <= 0x200a) || n == 0x2028 || n == 0x2029 || n == 0x202f || n == 0x205f || n == 0x3000
}

/// `s` without the white space it starts with.
pub open spec fn trim_start(s: Seq<char>) -> Seq<char>
    decreases s.len(),
{
    if s.len() > 0 && is_space(s[0]) {
        trim_start(s.drop_first())
    } else {
        s
    }
}

/// `s` without the white space it ends with.
pub open spec fn trim_end(s: Seq<char>) -> Seq<char>
    decreases s.len(),
{
    if s.len() > 0 && is_space(s.last()) {
        trim_end(s.drop_last())
    } else {
        s
    }
}

pub open spec fn trimmed(s: Seq<char>) -> Seq<char> {
    trim_end(trim_start(s))
}

/// `s` without the white space around it.
pub fn trim_text(s: &str) -> (r: String)
    ensures
        r@ == trimmed(s@),
{
    let v = chars_of(s);
    let mut from: usize = 0;
    assert(v@.skip(0) =~= v@);
    while from < v.len() && is_white_space(v[from])
        invariant
            from <= v@.len(),
            trim_start(v@.skip(from as int)) == trim_start(v@),
        decreases v@.len() - from,
    {
        assert(v@.skip(from as int).drop_first() =~= v@.skip(from + 1));
        from += 1;
    }
    assert(trim_start(v@) == v@.skip(from as int));
    let mut to: usize = v.len();
    assert(v@.subrange(from as int, to as int) =~= v@.skip(from as int));
    while to > from && is_white_space(v[to - 1])
        invariant
            from <= to <= v@.len(),
            trim_end(v@.subrange(from as int, to as int)) == trim_end(v@.skip(from as int)),
        decreases to - from,
    {
        assert(v@.subrange(from as int, to as int).drop_last() =~= v@.subrange(
            from as int,
            to - 1,
        ));
        to -= 1;
    }
    string_between(v.as_slice(), from, to)
}

// ---------------------------------------------------------------------------
// Taking text apart

/// The index of the first `c` in `s`, or the length of `s` where there is none.
pub open spec fn first_at(s: Seq<char>, c: char) -> int
    decreases s.len(),
{
    if s.len() == 0 || s[0] == c {
        0
    } else {
        1 + first_at(s.drop_first(), c)
    }
}

pub proof fn lemma_first_at(s: Seq<char>, c: char)
    ensures
        0 <= first_at(s, c) <= s.len(),
        first_at(s, c) < s.len() ==> s[first_at(s, c)] == c,
        forall|j: int| 0 <= j < first_at(s, c) ==> s[j] != c,
        first_at(s, c) < s.len() <==> s.contains(c),
    decreases s.len(),
{
    if s.len() > 0 && s[0] != c {
        let rest = s.drop_first();
        lemma_first_at(rest, c);
        assert forall|j: int| 0 <= j < first_at(s, c) implies s[j] != c by {
            if j > 0 {
                assert(rest[j - 1] == s[j]);
            }
        }
        if s.contains(c) {
            let j = choose|j: int| 0 <= j < s.len() && s[j] == c;
            assert(rest[j - 1] == c);
        }
        if rest.contains(c) {
            let j = choose|j: int| 0 <= j < rest.len() && rest[j] == c;
            assert(s[j + 1] == c);
        }
    }
}

/// `first_at` is the only index with its properties.
pub proof fn lemma_first_at_unique(s: Seq<char>, c: char, i: int)
    requires
        0 <= i <= s.len(),
        i < s.len() ==> s[i] == c,
        forall|j: int| 0 <= j < i ==> s[j] != c,
    ensures
        first_at(s, c) == i,
{
    lemma_first_at(s, c);
}

/// The index of the first `c` in `v`, or its length where there is none.
pub fn find_char(v: &[char], c: char) -> (i: usize)
    ensures
        i as int == first_at(v@, c),
        i <= v@.len(),
{
    let mut i: usize = 0;
    while i < v.len() && v[i] != c
        invariant
            i <= v@.len(),
            forall|j: int| 0 <= j < i ==> v@[j] != c,
        decreases v@.len() - i,
    {
        i += 1;
    }
    proof {
        lemma_first_at_unique(v@, c, i as int);
    }
    i
}

/// What stands before and after the first `c`, where there is one.
pub open spec fn split_once(s: Seq<char>, c: char) -> Option<(Seq<char>, Seq<char>)> {
    let i = first_at(s, c);
    if i < s.len() {
        Some((s.take(i), s.skip(i + 1)))
    } else {
        None
    }
}

pub fn split_text_once(s: &str, c: char) -> (r: Option<(String, String)>)
    ensures
        match r {
            Some((a, b)) => split_once(s@, c) == Some((a@, b@)),
            None => split_once(s@, c) is None,
        },
{
    let v = chars_of(s);
    let i: usize = find_char(v.as_slice(), c);
    if i < v.len() {
        let a = string_between(v.as_slice(), 0, i);
        let b = string_between(v.as_slice(), i + 1, v.len());
        assert(a@ =~= s@.take(i as int));
        assert(b@ =~= s@.skip(i + 1));
        Some((a, b))
    } else {
        None
    }
}

/// The pieces of `s` between the occurrences of `c`: always one more than there are.
pub open spec fn pieces(s: Seq<char>, c: char) -> Seq<Seq<char>>
    decreases s.len(),
    via pieces_decreases
{
    let i = first_at(s, c);
    if i < s.len() {
        seq![s.take(i)] + pieces(s.skip(i + 1), c)
    } else {
        seq![s]
    }
}

#[via_fn]
proof fn pieces_decreases(s: Seq<char>, c: char) {
    lemma_first_at(s, c);
}

/// The pieces of `s` between the occurrences of `c`.
pub fn split_text(s: &str, c: char) -> (r: Vec<String>)
    ensures
        texts(r@) == pieces(s@, c),
{
    let v = chars_of(s);
    let mut r: Vec<String> = Vec::new();
    let mut from: usize = 0;
    assert(v@.skip(0) =~= v@);
    assert(texts(r@) =~= Seq::<Seq<char>>::empty());
    loop
        invariant
            v@ == s@,
            from <= v@.len(),
            texts(r@) + pieces(v@.skip(from as int), c) =~= pieces(s@, c),
        decreases v@.len() - from,
    {
        let mut i: usize = from;
        while i < v.len() && v[i] != c
            invariant
                from <= i <= v@.len(),
                forall|j: int| from <= j < i ==> v@[j] != c,
            decreases v@.len() - i,
        {
            i += 1;
        }
        let ghost rest = v@.skip(from as int);
        proof {
            lemma_first_at_unique(rest, c, i - from);
        }
        let ghost before = texts(r@);
        let piece = string_between(v.as_slice(), from, i);
        assert(piece@ =~= rest.take(i - from));
        r.push(piece);
        assert(texts(r@) =~= before.push(piece@));
        if i < v.len() {
            assert(v@.skip(i + 1) =~= rest.skip(i - from + 1));
            assert(before.push(piece@) + pieces(v@.skip(i + 1), c) =~= before + pieces(rest, c));
            from = i + 1;
        } else {
            assert(rest.take(i - from) =~= rest);
            assert(before.push(piece@) =~= before + pieces(rest, c));
            return r;
        }
    }
}

pub open spec fn starts_with(s: Seq<char>, p: Seq<char>) -> bool {
    p.len() <= s.len() && s.take(p.len() as int) == p
}

/// What follows the prefix `p` in `s`, where `s` starts with it.
pub open spec fn after_prefix(s: Seq<char>, p: Seq<char>) -> Option<Seq<char>> {
    if starts_with(s, p) {
        Some(s.skip(p.len() as int))
    } else {
        None
    }
}

pub fn strip_text_prefix(s: &str, p: &str) -> (r: Option<String>)
    ensures
        text_view(r) == after_prefix(s@, p@),
{
    let v = chars_of(s);
    let q = chars_of(p);
    if q.len() > v.len() {
        return None;
    }
    let mut i: usize = 0;
    while i < q.len()
        invariant
            v@ == s@,
            q@ == p@,
            i <= q@.len() <= v@.len(),
            forall|j: int| 0 <= j < i ==> v@[j] == q@[j],
        decreases q@.len() - i,
    {
        if v[i] != q[i] {
            assert(s@.take(p@.len() as int)[i as int] != p@[i as int]);
            return None;
        }
        i += 1;
    }
    assert(s@.take(p@.len() as int) =~= p@);
    let rest = string_between(v.as_slice(), q.len(), v.len());
    assert(rest@ =~= s@.skip(p@.len() as int));
    Some(rest)
}

/// What comes before the first separator is the first piece.
pub proof fn lemma_pieces_of_joined(a: Seq<char>, c: char, rest: Seq<char>)
    requires
        !a.contains(c),
    ensures
        pieces(a + seq![c] + rest, c) == seq![a] + pieces(rest, c),
        split_once(a + seq![c] + rest, c) == Some((a, rest)),
{
    let s = a + seq![c] + rest;
    lemma_first_at_unique(s, c, a.len() as int);
    assert(s.take(a.len() as int) =~= a);
    assert(s.skip(a.len() as int + 1) =~= rest);
}

/// A text without the separator is one piece.
pub proof fn lemma_one_piece(s: Seq<char>, c: char)
    requires
        !s.contains(c),
    ensures
        pieces(s, c) == seq![s],
{
    lemma_first_at_unique(s, c, s.len() as int);
}

/// Pieces are made of characters of the text, and have none of the separators in them.
pub proof fn lemma_pieces_are_parts(s: Seq<char>, c: char)
    ensures
        forall|i: int, j: int|
            0 <= i < pieces(s, c).len() && 0 <= j < pieces(s, c)[i].len() ==> {
                &&& #[trigger] pieces(s, c)[i][j] != c
                &&& s.contains(pieces(s, c)[i][j])
            },
    decreases s.len(),
{
    let at = first_at(s, c);
    lemma_first_at(s, c);
    let p = pieces(s, c);
    if at < s.len() {
        let rest = s.skip(at + 1);
        lemma_pieces_are_parts(rest, c);
        assert forall|i: int, j: int| 0 <= i < p.len() && 0 <= j < p[i].len() implies {
            &&& #[trigger] p[i][j] != c
            &&& s.contains(p[i][j])
        } by {
            if i == 0 {
                assert(p[i][j] == s[j]);
            } else {
                assert(p[i] == pieces(rest, c)[i - 1]);
                let x = pieces(rest, c)[i - 1][j];
                assert(rest.contains(x));
                let k = choose|k: int| 0 <= k < rest.len() && rest[k] == x;
                assert(s[at + 1 + k] == x);
            }
        }
    } else {
        assert forall|i: int, j: int| 0 <= i < p.len() && 0 <= j < p[i].len() implies {
            &&& #[trigger] p[i][j] != c
            &&& s.contains(p[i][j])
        } by {
            assert(p[i][j] == s[j]);
        }
    }
}

/// The lines of `s`: separated by a line feed, with a carriage return before it taken off, and
/// without an empty line after the last line feed.
pub open spec fn lines(s: Seq<char>) -> Seq<Seq<char>> {
    let p = pieces(s, '\n');
    let ended = Seq::new(
        (p.len() - 1) as nat,
        |i: int|
            if p[i].len() > 0 && p[i].last() == '\r' {
                p[i].drop_last()
            } else {
                p[i]
            },
    );
    if p.last().len() == 0 {
        ended
    } else {
        ended.push(p.last())
    }
}

pub proof fn lemma_pieces_nonempty(s: Seq<char>, c: char)
    ensures
        pieces(s, c).len() >= 1,
{
    lemma_first_at(s, c);
}

pub fn split_lines(s: &str) -> (r: Vec<String>)
    ensures
        texts(r@) == lines(s@),
{
    let p = split_text(s, '\n');
    proof {
        lemma_pieces_nonempty(s@, '\n');
        assert(p@.len() == texts(p@).len());
    }
    let mut r: Vec<String> = Vec::new();
    let mut i: usize = 0;
    while i < p.len() - 1
        invariant
            texts(p@) == pieces(s@, '\n'),
            i < p@.len(),
            r@.len() == i,
            forall|j: int|
                0 <= j < i ==> (#[trigger] r@[j])@ == (if p@[j]@.len() > 0 && p@[j]@.last() == '\r' {
                    p@[j]@.drop_last()
                } else {
                    p@[j]@
                }),
        decreases p@.len() - i,
    {
        let v = chars_of(p[i].as_str());
        if v.len() > 0 && v[v.len() - 1] == '\r' {
            let line = string_between(v.as_slice(), 0, v.len() - 1);
            assert(line@ =~= v@.drop_last());
            r.push(line);
        } else {
            r.push(p[i].clone());
        }
        i += 1;
    }
    assert(forall|j: int| 0 <= j < p@.len() ==> texts(p@)[j] == (#[trigger] p@[j])@);
    if !p[i].as_str().is_empty() {
        r.push(p[i].clone());
    }
    assert(texts(r@) =~= lines(s@));
    r
}

// ---------------------------------------------------------------------------
// Numbers

pub open spec fn is_digit(c: char) -> bool {
    '0' <= c && c <= '9'
}

pub open spec fn digit_value(c: char) -> nat {
    (c as u32 - 48) as nat
}

pub open spec fn all_digits(s: Seq<char>) -> bool {
    forall|i: int| 0 <= i < s.len() ==> is_digit(#[trigger] s[i])
}

/// The number that a row of decimal digits stands for.
pub open spec fn digits_value(s: Seq<char>) -> nat
    decreases s.len(),
{
    if s.len() == 0 {
        0
    } else {
        digits_value(s.drop_last()) * 10 + digit_value(s.last())
    }
}

/// The number written as decimal digits in `s`, at least one, where it is at most `max`.
pub open spec fn digits_number(s: Seq<char>, max: nat) -> Option<nat> {
    if s.len() > 0 && all_digits(s) && digits_value(s) <= max {
        Some(digits_value(s))
    } else {
        None
    }
}

/// The unsigned number that `s` is: decimal digits, with a plus sign before them or not.
pub open spec fn unsigned_number(s: Seq<char>, max: nat) -> Option<nat> {
    if s.len() > 0 && s[0] == '+' {
        digits_number(s.drop_first(), max)
    } else {
        digits_number(s, max)
    }
}

proof fn lemma_digits_value_take(s: Seq<char>, i: int)
    requires
        0 <= i < s.len(),
    ensures
        digits_value(s.take(i + 1)) == digits_value(s.take(i)) * 10 + digit_value(s[i]),
{
    assert(s.take(i + 1).drop_last() =~= s.take(i));
}

proof fn lemma_digits_value_monotone(s: Seq<char>, i: int)
    requires
        0 <= i <= s.len(),
    ensures
        digits_value(s.take(i)) <= digits_value(s),
    decreases s.len() - i,
{
    if i < s.len() {
        lemma_digits_value_take(s, i);
        lemma_digits_value_monotone(s, i + 1);
    } else {
        assert(s.take(i) =~= s);
    }
}

fn read_digits(v: &[char], from: usize, max: u64) -> (r: Option<u64>)
    requires
        from <= v@.len(),
    ensures
        match r {
            Some(n) => digits_number(v@.skip(from as int), max as nat) == Some(n as nat),
            None => digits_number(v@.skip(from as int), max as nat) is None,
        },
{
    let ghost s = v@.skip(from as int);
    if from == v.len() {
        return None;
    }
    let mut n: u64 = 0;
    let mut i: usize = from;
    while i < v.len()
        invariant
            from <= i <= v@.len(),
            s == v@.skip(from as int),
            all_digits(s.take(i - from)),
            n as nat == digits_value(s.take(i - from)),
            n <= max,
        decreases v@.len() - i,
    {
        let c: char = v[i];
        assert(s[i - from] == c);
        if c < '0' || c > '9' {
            return None;
        }
        let d: u64 = (c as u32 - 48) as u64;
        proof {
            lemma_digits_value_take(s, i - from);
            lemma_digits_value_monotone(s, i - from + 1);
        }
        if d > max || n > (max - d) / 10 {
            return None;
        }
        n = n * 10 + d;
        i += 1;
        assert(s.take(i - from) =~= s.take(i - from - 1).push(c));
    }
    assert(s.take(i - from) =~= s);
    Some(n)
}

/// The unsigned number in `s`, where it is one of at most `max`.
pub fn parse_unsigned(s: &str, max: u64) -> (r: Option<u64>)
    ensures
        match r {
            Some(n) => unsigned_number(s@, max as nat) == Some(n as nat) && n <= max,
            None => unsigned_number(s@, max as nat) is None,
        },
{
    let v = chars_of(s);
    assert(v@.skip(0) =~= s@);
    if v.len() > 0 && v[0] == '+' {
        assert(v@.skip(1) =~= s@.drop_first());
        read_digits(v.as_slice(), 1, max)
    } else {
        read_digits(v.as_slice(), 0, max)
    }
}

/// The signed number that `s` is, from `min` to `max`: decimal digits with one sign before them or
/// none.
pub open spec fn signed_number(s: Seq<char>, min: int, max: int) -> Option<int> {
    if s.len() > 0 && s[0] == '-' {
        match digits_number(s.drop_first(), (-min) as nat) {
            Some(n) => Some(-n),
            None => None,
        }
    } else {
        match unsigned_number(s, max as nat) {
            Some(n) => Some(n as int),
            None => None,
        }
    }
}

/// The signed number in `s`, where it fits in an `isize`.
pub fn parse_signed(s: &str) -> (r: Option<isize>)
    ensures
        match r {
            Some(n) => signed_number(s@, isize::MIN as int, isize::MAX as int) == Some(n as int),
            None => signed_number(s@, isize::MIN as int, isize::MAX as int) is None,
        },
{
    let v = chars_of(s);
    if v.len() > 0 && v[0] == '-' {
        assert(v@.skip(1) =~= s@.drop_first());
        let limit: u64 = isize::MAX as u64 + 1;
        match read_digits(v.as_slice(), 1, limit) {
            Some(n) => {
                if n == limit {
                    Some(isize::MIN)
                } else {
                    Some(-(n as isize))
                }
            },
            None => None,
        }
    } else {
        match parse_unsigned(s, isize::MAX as u64) {
            Some(n) => Some(n as isize),
            None => None,
        }
    }
}

pub open spec fn digit_char(n: nat) -> char {
    (48 + n) as char
}

/// The decimal digits of `n`, without leading zeros.
pub open spec fn decimal(n: nat) -> Seq<char>
    decreases n,
{
    if n < 10 {
        seq![digit_char(n)]
    } else {
        decimal(n / 10).push(digit_char(n % 10))
    }
}

/// The decimal digits of `n`.
pub fn decimal_text(n: u64) -> (s: String)
    ensures
        s@ == decimal(n as nat),
    decreases n,
{
    if n < 10 {
        let mut s = String::new();
        s.push((48 + n as u8) as char);
        assert(s@ =~= seq![digit_char(n as nat)]);
        s
    } else {
        let mut s = decimal_text(n / 10);
        s.push((48 + (n % 10) as u8) as char);
        s
    }
}

/// The number in decimal, with a minus before it where it is negative.
pub open spec fn signed_decimal(n: int) -> Seq<char> {
    if n < 0 {
        "-"@ + decimal((-n) as nat)
    } else {
        decimal(n as nat)
    }
}

pub fn signed_text(n: i32) -> (s: String)
    ensures
        s@ == signed_decimal(n as int),
{
    if n < 0 {
        concat_text("-", decimal_text((-(n as i64)) as u64).as_str())
    } else {
        decimal_text(n as u64)
    }
}

/// Reading the decimal digits of a number gives the number back.
pub proof fn law_decimal_round_trip(n: nat, max: nat)
    requires
        n <= max,
    ensures
        unsigned_number(decimal(n), max) == Some(n),
{
    lemma_decimal_digits(n);
}

pub proof fn lemma_decimal_digits(n: nat)
    ensures
        decimal(n).len() > 0,
        all_digits(decimal(n)),
        digits_value(decimal(n)) == n,
    decreases n,
{
    reveal_with_fuel(digits_value, 2);
    if n < 10 {
        assert(decimal(n).drop_last() =~= Seq::<char>::empty());
    } else {
        lemma_decimal_digits(n / 10);
        assert(decimal(n).drop_last() =~= decimal(n / 10));
    }
}

/// `parts` one after the other with `sep` between them.
pub open spec fn joined(parts: Seq<Seq<char>>, sep: Seq<char>) -> Seq<char>
    decreases parts.len(),
{
    if parts.len() == 0 {
        Seq::empty()
    } else if parts.len() == 1 {
        parts[0]
    } else {
        joined(parts.drop_last(), sep) + sep + parts.last()
    }
}

pub fn join_texts(parts: &[String], sep: &str) -> (s: String)
    ensures
        s@ == joined(texts(parts@), sep@),
{
    let mut s = String::new();
    let mut i: usize = 0;
    while i < parts.len()
        invariant
            i <= parts@.len(),
            s@ == joined(texts(parts@.take(i as int)), sep@),
        decreases parts@.len() - i,
    {
        let ghost t = texts(parts@.take(i + 1));
        assert(t.drop_last() =~= texts(parts@.take(i as int)));
        assert(t.last() == parts@[i as int]@);
        if i > 0 {
            s.append(sep);
        }
        s.append(parts[i].as_str());
        i += 1;
        assert(s@ =~= joined(t, sep@));
    }
    assert(parts@.take(parts@.len() as int) =~= parts@);
    s
}

// ---------------------------------------------------------------------------
// Laws

/// What follows a prefix is what makes up the text together with it; a text that has no such rest
/// does not start with the prefix.
pub proof fn law_prefixes(s: Seq<char>, p: Seq<char>, rest: Seq<char>)
    ensures
        after_prefix(p + rest, p) == Some(rest),
        after_prefix(s, p) matches Some(value) ==> s == p + value,
        after_prefix(s, p) is None ==> s != p + rest,
        starts_with(s, p) <==> after_prefix(s, p) is Some,
{
    assert((p + rest).take(p.len() as int) =~= p);
    assert((p + rest).skip(p.len() as int) =~= rest);
    if starts_with(s, p) {
        assert(s =~= p + s.skip(p.len() as int));
    }
}

proof fn lemma_joined_first(a: Seq<char>, rest: Seq<Seq<char>>, sep: Seq<char>)
    requires
        rest.len() > 0,
    ensures
        joined(seq![a] + rest, sep) == a + sep + joined(rest, sep),
    decreases rest.len(),
{
    let all = seq![a] + rest;
    if rest.len() > 1 {
        lemma_joined_first(a, rest.drop_last(), sep);
        assert(all.drop_last() =~= seq![a] + rest.drop_last());
        assert(joined(all, sep) =~= a + sep + joined(rest, sep));
    } else {
        assert(all.drop_last() =~= seq![a]);
        assert(joined(seq![a], sep) == a);
        assert(joined(rest, sep) == rest[0]);
        assert(all.last() == rest[0]);
        assert(joined(all, sep) =~= a + sep + joined(rest, sep));
    }
}

/// A text is its pieces with the separator between them again, and no piece has the separator in it.
pub proof fn law_pieces_make_up_the_text(s: Seq<char>, c: char)
    ensures
        joined(pieces(s, c), seq![c]) == s,
        forall|i: int| 0 <= i < pieces(s, c).len() ==> !(#[trigger] pieces(s, c)[i]).contains(c),
    decreases s.len(),
{
    lemma_first_at(s, c);
    lemma_pieces_are_parts(s, c);
    assert forall|i: int| 0 <= i < pieces(s, c).len() implies !(#[trigger] pieces(s, c)[i]).contains(
        c,
    ) by {
        if pieces(s, c)[i].contains(c) {
            let j = choose|j: int| 0 <= j < pieces(s, c)[i].len() && pieces(s, c)[i][j] == c;
            assert(pieces(s, c)[i][j] != c);
        }
    }
    let i = first_at(s, c);
    if i < s.len() {
        let rest = s.skip(i + 1);
        law_pieces_make_up_the_text(rest, c);
        lemma_pieces_nonempty(rest, c);
        lemma_joined_first(s.take(i), pieces(rest, c), seq![c]);
        assert(s =~= s.take(i) + seq![c] + rest);
    }
}

/// Trimming cuts off white space alone, at both ends, and leaves none there.
pub proof fn law_trimming(s: Seq<char>) -> (ends: (int, int))
    ensures
        0 <= ends.0 <= ends.1 <= s.len(),
        trimmed(s) == s.subrange(ends.0, ends.1),
        forall|i: int| 0 <= i < ends.0 || ends.1 <= i < s.len() ==> is_space(#[trigger] s[i]),
        trimmed(s).len() > 0 ==> !is_space(trimmed(s)[0]) && !is_space(trimmed(s).last()),
{
    let from = lemma_trim_start(s);
    let front = s.skip(from);
    let len = lemma_trim_end(front);
    assert(trimmed(s) =~= s.subrange(from, from + len));
    assert forall|i: int| 0 <= i < from || from + len <= i < s.len() implies is_space(
        #[trigger] s[i],
    ) by {
        if i >= from {
            assert(front[i - from] == s[i]);
        }
    }
    if len > 0 {
        assert(trimmed(s)[0] == front[0]);
        assert(front[0] == s[from]);
    }
    (from, from + len)
}

proof fn lemma_trim_start(s: Seq<char>) -> (from: int)
    ensures
        0 <= from <= s.len(),
        trim_start(s) == s.skip(from),
        forall|i: int| 0 <= i < from ==> is_space(#[trigger] s[i]),
        from < s.len() ==> !is_space(s[from]),
    decreases s.len(),
{
    if s.len() > 0 && is_space(s[0]) {
        let rest = s.drop_first();
        let from = lemma_trim_start(rest);
        assert(s.skip(from + 1) =~= rest.skip(from));
        assert forall|i: int| 0 <= i < from + 1 implies is_space(#[trigger] s[i]) by {
            if i > 0 {
                assert(rest[i - 1] == s[i]);
            }
        }
        from + 1
    } else {
        assert(s.skip(0) =~= s);
        0
    }
}

proof fn lemma_trim_end(s: Seq<char>) -> (len: int)
    ensures
        0 <= len <= s.len(),
        trim_end(s) == s.take(len),
        forall|i: int| len <= i < s.len() ==> is_space(#[trigger] s[i]),
        len > 0 ==> !is_space(s[len - 1]),
    decreases s.len(),
{
    if s.len() > 0 && is_space(s.last()) {
        let rest = s.drop_last();
        let len = lemma_trim_end(rest);
        assert(s.take(len) =~= rest.take(len));
        assert forall|i: int| len <= i < s.len() implies is_space(#[trigger] s[i]) by {
            if i < rest.len() {
                assert(rest[i] == s[i]);
            }
        }
        len
    } else {
        assert(s.take(s.len() as int) =~= s);
        s.len() as int
    }
}

/// Lower case changes the capital letters A to Z alone, each to its small letter, and twice is once.
/// Replacing changes the one character alone.
pub proof fn law_letters(s: Seq<char>, from: char, to: char, i: int)
    requires
        0 <= i < s.len(),
    ensures
        lowered(s).len() == s.len(),
        'A' <= s[i] && s[i] <= 'Z' ==> lowered(s)[i] as u32 == s[i] as u32 + 32,
        !('A' <= s[i] && s[i] <= 'Z') ==> lowered(s)[i] == s[i],
        replaced(s, from, to).len() == s.len(),
        s[i] == from ==> replaced(s, from, to)[i] == to,
        s[i] != from ==> replaced(s, from, to)[i] == s[i],
{
}

/// Reading a signed number that was written gives the number back.
pub proof fn law_signed_round_trip(n: int, min: int, max: int)
    requires
        min <= n <= max,
        min <= 0 <= max,
    ensures
        signed_number(signed_decimal(n), min, max) == Some(n),
{
    if n < 0 {
        reveal_strlit("-");
        lemma_decimal_digits((-n) as nat);
        let s = signed_decimal(n);
        assert(s[0] == '-');
        assert(s.drop_first() =~= decimal((-n) as nat));
    } else {
        lemma_decimal_digits(n as nat);
        law_decimal_round_trip(n as nat, max as nat);
        assert(is_digit(decimal(n as nat)[0]));
    }
}

/// Each digit counts ten times what the next one does.
pub proof fn law_digits_count_by_tens(s: Seq<char>, c: char)
    requires
        is_digit(c),
    ensures
        digits_value(s.push(c)) == digits_value(s) * 10 + (c as u32 - '0' as u32),
        digits_value(Seq::empty()) == 0,
{
    assert(s.push(c).drop_last() =~= s);
}

/// A text is cut at the first separator: what stands before and behind make it up again, and a text
/// without the separator is not cut.
pub proof fn law_cutting_once(a: Seq<char>, c: char, b: Seq<char>)
    requires
        !a.contains(c),
    ensures
        split_once(a + seq![c] + b, c) == Some((a, b)),
        split_once(a, c) is None,
{
    lemma_pieces_of_joined(a, c, b);
    lemma_first_at_unique(a, c, a.len() as int);
}

/// Texts are joined with the separator between every two of them.
pub proof fn law_joining(parts: Seq<Seq<char>>, part: Seq<char>, sep: Seq<char>)
    ensures
        joined(Seq::empty(), sep).len() == 0,
        joined(seq![part], sep) == part,
        parts.len() > 0 ==> joined(parts.push(part), sep) == joined(parts, sep) + sep + part,
{
    assert(parts.push(part).drop_last() =~= parts);
}

/// Lines end in a line feed, or in a carriage return and a line feed, which do not belong to them; the
/// last one may end with the text.
pub proof fn law_lines_of_a_text(line: Seq<char>, rest: Seq<char>)
    requires
        !line.contains('\n'),
        !line.contains('\r'),
    ensures
        lines(line + seq!['\n'] + rest) == seq![line] + lines(rest),
        lines(line + seq!['\r'] + seq!['\n'] + rest) == seq![line] + lines(rest),
        line.len() > 0 ==> lines(line) == seq![line],
        lines(Seq::empty()).len() == 0,
{
    let c = '\n';
    lemma_pieces_of_joined(line, c, rest);
    let other = line + seq!['\r'];
    assert(!other.contains(c)) by {
        if other.contains(c) {
            let i = choose|i: int| 0 <= i < other.len() && other[i] == c;
            assert(line[i] == c);
        }
    }
    lemma_pieces_of_joined(other, c, rest);
    lemma_pieces_nonempty(rest, c);
    if line.len() > 0 {
        assert(line.last() != '\r') by {
            assert(line.contains(line[line.len() - 1]));
        }
    }
    assert(lines(line + seq![c] + rest) =~= seq![line] + lines(rest));
    assert(other.drop_last() =~= line);
    assert(other.last() == '\r');
    assert(lines(other + seq![c] + rest) =~= seq![line] + lines(rest));
    lemma_one_piece(line, c);
    assert(line.len() > 0 ==> lines(line) =~= seq![line]);
    lemma_one_piece(Seq::empty(), c);
}

/// A text that is there is seen by its characters, and one that is not there is not; a list of texts is
/// seen text by text.
pub proof fn law_texts_are_seen_by_their_characters(s: String, list: Seq<String>, i: int)
    requires
        0 <= i < list.len(),
    ensures
        text_view(Some(s)) == Some(s@),
        text_view(None) is None,
        texts(list).len() == list.len(),
        texts(list)[i] == list[i]@,
{
}

} // verus!
