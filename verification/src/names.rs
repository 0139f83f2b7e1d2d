//! Names of the files that a run of matches writes.

use vstd::prelude::*;
use crate::text;
use crate::text::{chars_of, concat_text, decimal_text, lower_char, string_between};

verus! {

// ---------------------------------------------------------------------------
// Safe names

/// A letter or digit in lower case; a dash in place of anything else.
pub open spec fn safe_char(c: char) -> char {
    if text::is_ascii_alphanumeric(c) {
        text::lower(c)
    } else {
        '-'
    }
}

/// `s` in safe characters, each run of dashes as one.
pub open spec fn dashed(s: Seq<char>) -> Seq<char>
    decreases s.len(),
{
    if s.len() == 0 {
        Seq::empty()
    } else {
        let before = dashed(s.drop_last());
        let c = safe_char(s.last());
        if c == '-' && before.len() > 0 && before.last() == '-' {
            before
        } else {
            before.push(c)
        }
    }
}

/// `s` without a dash at either end, where no two dashes stand side by side.
pub open spec fn undashed(s: Seq<char>) -> Seq<char> {
    let from = if s.len() > 0 && s[0] == '-' {
        1int
    } else {
        0int
    };
    let to = if s.len() > from && s.last() == '-' {
        s.len() - 1
    } else {
        s.len() as int
    };
    s.subrange(from, to)
}

/// A name in lower-case letters, digits and single dashes between them.
pub open spec fn safe(s: Seq<char>) -> Seq<char> {
    undashed(dashed(s))
}

/// Whether a name is safe: letters and digits in lower case, and dashes, each between two others.
pub open spec fn is_safe(s: Seq<char>) -> bool {
    &&& forall|i: int| 0 <= i < s.len() ==> is_safe_char(#[trigger] s[i])
    &&& forall|i: int| 0 <= i < s.len() - 1 && s[i] == '-' ==> #[trigger] s[i + 1] != '-'
    &&& s.len() > 0 ==> s[0] != '-' && s.last() != '-'
}

pub open spec fn is_safe_char(c: char) -> bool {
    c == '-' || ('0' <= c && c <= '9') || ('a' <= c && c <= 'z')
}

pub open spec fn no_double_dash(s: Seq<char>) -> bool {
    forall|i: int| 0 <= i < s.len() - 1 && s[i] == '-' ==> #[trigger] s[i + 1] != '-'
}

proof fn lemma_dashed(s: Seq<char>)
    ensures
        forall|i: int| 0 <= i < dashed(s).len() ==> is_safe_char(#[trigger] dashed(s)[i]),
        no_double_dash(dashed(s)),
    decreases s.len(),
{
    if s.len() > 0 {
        lemma_dashed(s.drop_last());
    }
}

proof fn lemma_dashed_of_safe(s: Seq<char>)
    requires
        forall|i: int| 0 <= i < s.len() ==> is_safe_char(#[trigger] s[i]),
        no_double_dash(s),
    ensures
        dashed(s) == s,
    decreases s.len(),
{
    if s.len() > 0 {
        let short = s.drop_last();
        assert forall|i: int| 0 <= i < short.len() - 1 && short[i] == '-' implies #[trigger] short[i
            + 1] != '-' by {
            assert(s[i + 1] != '-');
        }
        lemma_dashed_of_safe(short);
        assert(is_safe_char(s[s.len() - 1]));
        if short.len() > 0 && short.last() == '-' {
            assert(s[short.len() - 1] == '-');
            assert(s[(short.len() - 1) + 1] != '-');
        }
        assert(short.push(s.last()) =~= s);
    } else {
        assert(dashed(s) =~= s);
    }
}

/// A safe name is safe, and making it safe again changes nothing.
pub proof fn law_safe_names(s: Seq<char>)
    ensures
        is_safe(safe(s)),
        safe(safe(s)) == safe(s),
{
    lemma_dashed(s);
    let d = dashed(s);
    let r = safe(s);
    let from = if d.len() > 0 && d[0] == '-' {
        1int
    } else {
        0int
    };
    assert forall|i: int| 0 <= i < r.len() implies is_safe_char(#[trigger] r[i]) by {
        assert(r[i] == d[i + from]);
    }
    assert forall|i: int| 0 <= i < r.len() - 1 && r[i] == '-' implies #[trigger] r[i + 1] != '-' by {
        assert(r[i] == d[i + from]);
        assert(r[i + 1] == d[(i + from) + 1]);
    }
    if r.len() > 0 {
        if from == 1 {
            assert(d[0int + 1] != '-');
        }
        if d.last() == '-' {
            assert(r.last() == d[d.len() - 2]);
            if d[d.len() - 2] == '-' {
                assert(d[(d.len() - 2) + 1] != '-');
            }
        }
    }
    lemma_dashed_of_safe(r);
    assert(undashed(r) =~= r);
}

/// The name in safe characters.
pub fn safe_name(value: &str) -> (r: String)
    ensures
        r@ == safe(value@),
{
    let v = chars_of(value);
    let mut out: Vec<char> = Vec::new();
    let mut i: usize = 0;
    while i < v.len()
        invariant
            v@ == value@,
            i <= v@.len(),
            out@ == dashed(v@.take(i as int)),
        decreases v@.len() - i,
    {
        proof {
            assert(v@.take(i + 1).drop_last() == v@.take(i as int));
            assert(v@.take(i + 1).last() == v@[i as int]);
        }
        let c = v[i];
        let safe_c = if ('0' <= c && c <= '9') || ('a' <= c && c <= 'z') || ('A' <= c && c <= 'Z') {
            lower_char(c)
        } else {
            '-'
        };
        if !(safe_c == '-' && out.len() > 0 && out[out.len() - 1] == '-') {
            out.push(safe_c);
        }
        i += 1;
    }
    assert(v@.take(i as int) == v@);
    let from: usize = if out.len() > 0 && out[0] == '-' {
        1
    } else {
        0
    };
    let to: usize = if out.len() > from && out[out.len() - 1] == '-' {
        out.len() - 1
    } else {
        out.len()
    };
    string_between(out.as_slice(), from, to)
}

/// Where a replay is recorded that no path was given for.
pub open spec fn default_path(
    blue: Seq<char>,
    yellow: Seq<char>,
    div: char,
    seed: u64,
    timestamp: u64,
) -> Seq<char> {
    "recordings/"@ + safe(blue) + "_vs_"@ + safe(yellow) + "_div"@ + seq![text::lower(div)]
        + "_seed"@ + text::decimal(seed as nat) + "_"@ + text::decimal(timestamp as nat)
        + ".shreplay"@
}

/// Where a replay is recorded that no path was given for: named by both sides' labels, the
/// division, the seed and the time in seconds.
pub fn default_replay_path(blue: &str, yellow: &str, div: char, seed: u64, timestamp: u64) -> (r:
    String)
    ensures
        r@ == default_path(blue@, yellow@, div, seed, timestamp),
{
    let head = concat_text("recordings/", safe_name(blue).as_str());
    let head = concat_text(head.as_str(), "_vs_");
    let head = concat_text(head.as_str(), safe_name(yellow).as_str());
    let mut head = concat_text(head.as_str(), "_div");
    let ghost before = head@;
    head.push(lower_char(div));
    assert(head@ =~= before + seq![text::lower(div)]);
    let head = concat_text(head.as_str(), "_seed");
    let head = concat_text(head.as_str(), decimal_text(seed).as_str());
    let head = concat_text(head.as_str(), "_");
    let head = concat_text(head.as_str(), decimal_text(timestamp).as_str());
    concat_text(head.as_str(), ".shreplay")
}

// ---------------------------------------------------------------------------
// Numbered names

/// `s` with every occurrence of `from` replaced by `to`, from left to right.
pub open spec fn substituted(s: Seq<char>, from: Seq<char>, to: Seq<char>) -> Seq<char>
    decreases s.len(),
{
    if s.len() == 0 || from.len() == 0 {
        s
    } else if text::starts_with(s, from) {
        to + substituted(s.skip(from.len() as int), from, to)
    } else {
        seq![s[0]] + substituted(s.skip(1), from, to)
    }
}

pub(crate) fn matches_at(v: &Vec<char>, at: usize, p: &Vec<char>) -> (r: bool)
    requires
        at <= v@.len(),
    ensures
        r == text::starts_with(v@.skip(at as int), p@),
{
    let n: usize = v.len();
    if n - at < p.len() {
        return false;
    }
    let mut i: usize = 0;
    while i < p.len()
        invariant
            n as nat == v@.len(),
            at <= v@.len(),
            p@.len() <= v@.len() - at,
            i <= p@.len(),
            forall|j: int| 0 <= j < i ==> v@[at + j] == p@[j],
        decreases p@.len() - i,
    {
        if v[at + i] != p[i] {
            assert(v@.skip(at as int).take(p@.len() as int)[i as int] != p@[i as int]);
            return false;
        }
        i += 1;
    }
    assert(v@.skip(at as int).take(p@.len() as int) =~= p@);
    true
}

/// `s` with every occurrence of `from` replaced by `to`, from left to right.
pub fn substitute(s: &str, from: &str, to: &str) -> (r: String)
    requires
        from@.len() > 0,
    ensures
        r@ == substituted(s@, from@, to@),
{
    let v = chars_of(s);
    let p = chars_of(from);
    let mut r = String::new();
    let mut i: usize = 0;
    assert(v@.skip(0) =~= v@);
    assert(r@ + substituted(v@, from@, to@) =~= substituted(v@, from@, to@));
    while i < v.len()
        invariant
            v@ == s@,
            p@ == from@,
            from@.len() > 0,
            i <= v@.len(),
            r@ + substituted(v@.skip(i as int), from@, to@) == substituted(v@, from@, to@),
        decreases v@.len() - i,
    {
        let ghost before = r@;
        let ghost rest = v@.skip(i as int);
        if matches_at(&v, i, &p) {
            assert(rest.skip(from@.len() as int) =~= v@.skip(i + from@.len()));
            r.append(to);
            i += p.len();
            assert(before + (to@ + substituted(v@.skip(i as int), from@, to@)) =~= r@
                + substituted(v@.skip(i as int), from@, to@));
        } else {
            assert(rest.skip(1) =~= v@.skip(i + 1));
            r.push(v[i]);
            i += 1;
            assert(before + (seq![rest[0]] + substituted(v@.skip(i as int), from@, to@)) =~= r@
                + substituted(v@.skip(i as int), from@, to@));
        }
    }
    assert(v@.skip(i as int) =~= Seq::<char>::empty());
    assert(r@ + Seq::<char>::empty() =~= r@);
    r
}

/// The log of match `index` of several: `_<index>` before each `.log`.
pub open spec fn numbered_log(base: Seq<char>, index: nat) -> Seq<char> {
    substituted(base, ".log"@, "_"@ + text::decimal(index) + ".log"@)
}

pub fn log_path(base: &str, index: usize) -> (r: String)
    ensures
        r@ == numbered_log(base@, index as nat),
{
    proof {
        reveal_strlit(".log");
    }
    let number = decimal_text(index as u64);
    let tail = concat_text(concat_text("_", number.as_str()).as_str(), ".log");
    substitute(base, ".log", tail.as_str())
}

/// The name of file `index` of several, of a name that has this stem and this extension.
pub open spec fn numbered_name(stem: Option<Seq<char>>, extension: Option<Seq<char>>, index: nat) -> Seq<
    char,
> {
    let head = (match stem {
        Some(s) => s,
        None => "replay"@,
    }) + "_"@ + text::decimal(index);
    match extension {
        Some(e) => head + "."@ + e,
        None => head,
    }
}

pub fn suffixed_name(stem: &Option<String>, extension: &Option<String>, index: usize) -> (r: String)
    ensures
        r@ == numbered_name(text::text_view(*stem), text::text_view(*extension), index as nat),
{
    let head = match stem {
        Some(s) => concat_text(s.as_str(), "_"),
        None => concat_text("replay", "_"),
    };
    let number = decimal_text(index as u64);
    let head = concat_text(head.as_str(), number.as_str());
    match extension {
        Some(e) => concat_text(concat_text(head.as_str(), ".").as_str(), e.as_str()),
        None => head,
    }
}

/// A file name on every platform: something without a separator or a drive, and not one of the
/// two names that stand for directories.
pub open spec fn is_plain_name(s: Seq<char>) -> bool {
    &&& s.len() > 0
    &&& forall|i: int|
        0 <= i < s.len() ==> #[trigger] s[i] != '/' && s[i] != '\\' && s[i] != ':'
    &&& s != seq!['.']
    &&& s != seq!['.', '.']
}

/// Where the last dot of `s` stands; -1 where there is none.
pub open spec fn last_dot(s: Seq<char>) -> int
    decreases s.len(),
{
    if s.len() == 0 {
        -1
    } else if s.last() == '.' {
        s.len() - 1
    } else {
        last_dot(s.drop_last())
    }
}

/// A name up to its last dot; all of it where it has no dot, or only one at its start.
pub open spec fn stem_of(s: Seq<char>) -> Seq<char> {
    if last_dot(s) > 0 {
        s.take(last_dot(s))
    } else {
        s
    }
}

/// What follows a name's last dot, where there is one that is not at its start.
pub open spec fn extension_of(s: Seq<char>) -> Option<Seq<char>> {
    if last_dot(s) > 0 {
        Some(s.skip(last_dot(s) + 1))
    } else {
        None
    }
}

/// The pieces that count: without empty ones, and without the current directory unless the path
/// begins with it.
pub open spec fn kept(pieces: Seq<Seq<char>>) -> Seq<Seq<char>>
    decreases pieces.len(),
{
    if pieces.len() == 0 {
        Seq::empty()
    } else {
        let before = kept(pieces.drop_last());
        let last = pieces.last();
        if last.len() == 0 || last == seq!['.'] && pieces.len() > 1 {
            before
        } else {
            before.push(last)
        }
    }
}

/// The steps that a path takes, behind the root if it starts there.
pub open spec fn steps(path: Seq<char>) -> Seq<Seq<char>> {
    kept(text::pieces(path, '/'))
}

pub open spec fn is_rooted(path: Seq<char>) -> bool {
    path.len() > 0 && path[0] == '/'
}

/// A path that means the same on every platform: without a backslash or a colon, and without a
/// second slash at its start. The current directory by itself is left out.
pub open spec fn is_portable(path: Seq<char>) -> bool {
    &&& forall|i: int| 0 <= i < path.len() ==> #[trigger] path[i] != '\\' && path[i] != ':'
    &&& !(path.len() >= 2 && path[0] == '/' && path[1] == '/')
    &&& steps(path) != seq![seq!['.']]
}

/// The last name in a path: its last step, where that is not the parent directory.
pub open spec fn last_name(path: Seq<char>) -> Option<Seq<char>> {
    let s = steps(path);
    if s.len() == 0 || s.last() == seq!['.', '.'] {
        None
    } else {
        Some(s.last())
    }
}

pub open spec fn stem_in(path: Seq<char>) -> Option<Seq<char>> {
    match last_name(path) {
        Some(name) => Some(stem_of(name)),
        None => None,
    }
}

pub open spec fn extension_in(path: Seq<char>) -> Option<Seq<char>> {
    match last_name(path) {
        Some(name) => extension_of(name),
        None => None,
    }
}

/// A path that ends in its last name and has no piece that does not count, but for the root.
pub open spec fn is_plain_path(path: Seq<char>) -> bool {
    let pieces = text::pieces(path, '/');
    &&& is_portable(path)
    &&& last_name(path) is Some
    &&& forall|i: int|
        0 < i < pieces.len() ==> (#[trigger] pieces[i]).len() > 0 && pieces[i] != seq!['.']
}

/// Whether the first `k` characters of a path lead to where its last name is; all of the path, where
/// it has none.
pub open spec fn leads_to_name(path: Seq<char>, k: int) -> bool {
    &&& 0 <= k <= path.len()
    &&& is_rooted(path.take(k)) == is_rooted(path)
    &&& if last_name(path) is Some {
        steps(path.take(k)) == steps(path).drop_last()
    } else {
        k == path.len()
    }
}

/// Whether `r` is `name` in the directory `directory`: behind it, and behind a separator where it
/// does not end in one.
pub open spec fn is_joined(directory: Seq<char>, name: Seq<char>, r: Seq<char>) -> bool {
    if directory.len() == 0 || directory.last() == '/' {
        r == directory + name
    } else {
        r == directory + "/"@ + name || r == directory + "\\"@ + name
    }
}

/// Whether `r` is `path` with `name` for its last name.
pub open spec fn is_renamed(path: Seq<char>, name: Seq<char>, r: Seq<char>) -> bool {
    exists|k: int| #[trigger] leads_to_name(path, k) && is_joined(path.take(k), name, r)
}

/// Whether `r` is `path` letter for letter, but with `name` in place of what follows its last slash,
/// and either separator there.
pub open spec fn is_renamed_in_place(path: Seq<char>, name: Seq<char>, r: Seq<char>) -> bool {
    let pieces = text::pieces(path, '/');
    let directories = path.take(path.len() - pieces.last().len() - 1);
    if pieces.len() == 1 {
        r == name
    } else {
        r == directories + "/"@ + name || r == directories + "\\"@ + name
    }
}

/// `std::path::Path::file_stem`, as text. In a portable path it is the last name up to its last dot,
/// and there is none where the path has no last name. Repeated slashes, slashes at the end and the
/// current directory inside the path do not count. Of other paths nothing is claimed: the platform's
/// separators and prefixes decide.
#[verifier::external_body]
fn path_stem(path: &str) -> (r: Option<String>)
    ensures
        is_portable(path@) ==> text::text_view(r) == stem_in(path@),
{
    std::path::Path::new(path).file_stem().and_then(|stem| stem.to_str()).map(|s| s.to_owned())
}

/// `std::path::Path::extension`, as text. In a portable path it is what follows the last name's last
/// dot. Of other paths nothing is claimed: the platform's separators and prefixes decide.
#[verifier::external_body]
pub(crate) fn path_extension(path: &str) -> (r: Option<String>)
    ensures
        is_portable(path@) ==> text::text_view(r) == extension_in(path@),
{
    std::path::Path::new(path).extension().and_then(|ext| ext.to_str()).map(|s| s.to_owned())
}

/// `std::path::Path::with_file_name`, as text. A portable path is cut to its parent, which is a
/// beginning of it that takes all its steps but the last, and the name that is handed in is put
/// behind that; a path without a last name is not cut. How many of the pieces that do not count are
/// cut off with the name is not claimed; a plain path has none and keeps its directories letter for
/// letter. The separator before the name is the one that stands there or the platform's own. Of
/// other paths nothing is claimed: the platform's separators and prefixes decide.
#[verifier::external_body]
fn path_with_name(path: &str, name: &str) -> (r: String)
    ensures
        is_portable(path@) && is_plain_name(name@) ==> is_renamed(path@, name@, r@),
        is_plain_path(path@) && is_plain_name(name@) ==> is_renamed_in_place(path@, name@, r@),
{
    std::path::Path::new(path).with_file_name(name).display().to_string()
}

/// Whether `r` is the path of replay `index` of several that `path` stands for: with `_<index>` at
/// the end of its last name's stem.
pub open spec fn is_numbered(path: Seq<char>, index: nat, r: Seq<char>) -> bool {
    let name = numbered_name(stem_in(path), extension_in(path), index);
    &&& is_portable(path) ==> is_renamed(path, name, r)
    &&& is_plain_path(path) ==> is_renamed_in_place(path, name, r)
}

/// The path of replay `index` of several.
pub fn suffix_path(path: &str, index: usize) -> (r: String)
    ensures
        is_numbered(path@, index as nat, r@),
{
    let stem = path_stem(path);
    let extension = path_extension(path);
    let name = suffixed_name(&stem, &extension, index);
    proof {
        if is_portable(path@) {
            lemma_numbered_is_plain(path@, index as nat);
        }
    }
    path_with_name(path, name.as_str())
}

/// Each replay of several has a file of its own.
pub proof fn law_numbered_paths_differ(
    path: Seq<char>,
    i: nat,
    j: nat,
    a: Seq<char>,
    b: Seq<char>,
)
    requires
        is_portable(path),
        is_numbered(path, i, a),
        is_numbered(path, j, b),
        i != j,
    ensures
        a != b,
{
    let name_i = numbered_name(stem_in(path), extension_in(path), i);
    let name_j = numbered_name(stem_in(path), extension_in(path), j);
    lemma_numbered_is_plain(path, i);
    lemma_numbered_is_plain(path, j);
    lemma_ends_in_name(path, name_i, a);
    lemma_ends_in_name(path, name_j, b);
    if a == b {
        let at_i = a.len() - name_i.len();
        let at_j = a.len() - name_j.len();
        if at_i > at_j {
            assert(a[at_i - 1] == name_j[at_i - 1 - at_j]);
        }
        if at_j > at_i {
            assert(b[at_j - 1] == name_i[at_j - 1 - at_i]);
        }
        assert(name_i == name_j);
        lemma_numbered_names_differ(stem_in(path), extension_in(path), i, j);
    }
}

/// A renamed path ends in the name, behind a separator unless it is the name alone.
proof fn lemma_ends_in_name(path: Seq<char>, name: Seq<char>, r: Seq<char>)
    requires
        is_renamed(path, name, r),
    ensures
        r.len() >= name.len(),
        r.skip(r.len() - name.len()) == name,
        r.len() > name.len() ==> r[r.len() - name.len() - 1] == '/' || r[r.len() - name.len() - 1]
            == '\\',
{
    reveal_strlit("/");
    reveal_strlit("\\");
    let k = choose|k: int| #[trigger] leads_to_name(path, k) && is_joined(path.take(k), name, r);
    assert(r.skip(r.len() - name.len()) =~= name);
}

proof fn lemma_numbered_names_differ(
    stem: Option<Seq<char>>,
    extension: Option<Seq<char>>,
    i: nat,
    j: nat,
)
    requires
        i != j,
    ensures
        numbered_name(stem, extension, i) != numbered_name(stem, extension, j),
{
    let a = numbered_name(stem, extension, i);
    let b = numbered_name(stem, extension, j);
    let head = (match stem {
        Some(s) => s,
        None => "replay"@,
    }) + "_"@;
    let x = text::decimal(i);
    let y = text::decimal(j);
    let tail = match extension {
        Some(e) => "."@ + e,
        None => Seq::empty(),
    };
    assert(a =~= head + x + tail);
    assert(b =~= head + y + tail);
    if a == b {
        assert(x.len() == y.len());
        assert(a.subrange(head.len() as int, (head.len() + x.len()) as int) =~= x);
        assert(b.subrange(head.len() as int, (head.len() + y.len()) as int) =~= y);
        text::law_decimal_round_trip(i, i + j);
        text::law_decimal_round_trip(j, i + j);
    }
}

/// The steps of a path are pieces of it, and none is empty.
proof fn lemma_kept(pieces: Seq<Seq<char>>, i: int)
    requires
        0 <= i < kept(pieces).len(),
    ensures
        pieces.contains(kept(pieces)[i]),
        kept(pieces)[i].len() > 0,
        kept(pieces)[i] == seq!['.'] ==> i == 0 && pieces[0] == seq!['.'],
    decreases pieces.len(),
{
    let shorter = pieces.drop_last();
    let before = kept(shorter);
    if i < before.len() {
        lemma_kept(shorter, i);
        let k = choose|k: int| 0 <= k < shorter.len() && shorter[k] == before[i];
        assert(kept(pieces)[i] == before[i]);
        assert(pieces[k] == before[i]);
    } else {
        assert(kept(pieces)[i] == pieces.last());
        assert(pieces[pieces.len() - 1] == kept(pieces)[i]);
        if pieces.len() == 1 {
            assert(before.len() == 0);
        }
    }
}

/// The last name of a portable path is a plain name.
proof fn lemma_last_name_is_plain(path: Seq<char>)
    requires
        is_portable(path),
        last_name(path) is Some,
    ensures
        is_plain_name(last_name(path)->0),
{
    let pieces = text::pieces(path, '/');
    let s = steps(path);
    let last = s.len() - 1;
    lemma_kept(pieces, last);
    let k = choose|k: int| 0 <= k < pieces.len() && pieces[k] == s.last();
    text::lemma_pieces_are_parts(path, '/');
    let name = s.last();
    assert forall|i: int| 0 <= i < name.len() implies #[trigger] name[i] != '/' && name[i] != '\\'
        && name[i] != ':' by {
        assert(pieces[k][i] != '/' && path.contains(pieces[k][i]));
        let at = choose|at: int| 0 <= at < path.len() && path[at] == pieces[k][i];
        assert(path[at] != '\\' && path[at] != ':');
    }
    if name == seq!['.'] {
        assert(s =~= seq![seq!['.']]);
    }
}

proof fn lemma_last_dot(s: Seq<char>)
    ensures
        -1 <= last_dot(s) < s.len(),
    decreases s.len(),
{
    if s.len() > 0 && s.last() != '.' {
        lemma_last_dot(s.drop_last());
    }
}

/// The numbered name of a portable path is a plain name.
proof fn lemma_numbered_is_plain(path: Seq<char>, index: nat)
    requires
        is_portable(path),
    ensures
        is_plain_name(numbered_name(stem_in(path), extension_in(path), index)),
{
    match last_name(path) {
        Some(name) => {
            lemma_last_name_is_plain(path);
            lemma_numbered_name_is_plain(name, index);
        },
        None => {
            reveal_strlit("replay");
            reveal_strlit("_");
            text::lemma_decimal_digits(index);
            let number = text::decimal(index);
            let r = numbered_name(None, None, index);
            assert forall|i: int| 0 <= i < r.len() implies #[trigger] r[i] != '/' && r[i] != '\\'
                && r[i] != ':' by {
                if i >= 7 {
                    assert(r[i] == number[i - 7]);
                }
            }
            assert(r.len() >= 7);
        },
    }
}

proof fn lemma_numbered_name_is_plain(s: Seq<char>, index: nat)
    requires
        is_plain_name(s),
    ensures
        is_plain_name(numbered_name(Some(stem_of(s)), extension_of(s), index)),
{
    reveal_strlit("_");
    reveal_strlit(".");
    lemma_last_dot(s);
    text::lemma_decimal_digits(index);
    let number = text::decimal(index);
    let stem = stem_of(s);
    let head = stem + "_"@ + number;
    let r = numbered_name(Some(stem), extension_of(s), index);
    assert(stem.len() > 0);
    assert forall|i: int| 0 <= i < head.len() implies #[trigger] head[i] != '/' && head[i] != '\\'
        && head[i] != ':' by {
        if i < stem.len() {
            assert(head[i] == s[i]);
        } else if i == stem.len() {
            assert(head[i] == '_');
        } else {
            assert(head[i] == number[i - stem.len() - 1]);
        }
    }
    assert forall|i: int| 0 <= i < r.len() implies #[trigger] r[i] != '/' && r[i] != '\\' && r[i]
        != ':' by {
        if i < head.len() {
            assert(r[i] == head[i]);
        } else if i == head.len() {
            assert(r[i] == '.');
        } else {
            assert(r[i] == s.skip(last_dot(s) + 1)[i - head.len() - 1]);
            assert(r[i] == s[last_dot(s) + 1 + i - head.len() - 1]);
        }
    }
    assert(r.len() >= 3);
}

// ---------------------------------------------------------------------------
// Laws

/// A name of letters and digits is safe in lower case; each run of other characters inside a name
/// becomes one dash.
pub proof fn law_safe_names_keep_letters(s: Seq<char>)
    requires
        forall|i: int| 0 <= i < s.len() ==> text::is_ascii_alphanumeric(#[trigger] s[i]),
    ensures
        safe(s) == text::lowered(s),
{
    lemma_dashed_of_letters(s);
    assert(undashed(text::lowered(s)) =~= text::lowered(s)) by {
        if s.len() > 0 {
            assert(text::is_ascii_alphanumeric(s[0]));
            assert(text::is_ascii_alphanumeric(s[s.len() - 1]));
        }
    }
}

proof fn lemma_dashed_of_letters(s: Seq<char>)
    requires
        forall|i: int| 0 <= i < s.len() ==> text::is_ascii_alphanumeric(#[trigger] s[i]),
    ensures
        dashed(s) == text::lowered(s),
    decreases s.len(),
{
    if s.len() > 0 {
        let short = s.drop_last();
        assert forall|i: int| 0 <= i < short.len() implies text::is_ascii_alphanumeric(
            #[trigger] short[i],
        ) by {
            assert(short[i] == s[i]);
        }
        lemma_dashed_of_letters(short);
        assert(text::is_ascii_alphanumeric(s[s.len() - 1]));
        assert(text::lowered(s) =~= text::lowered(short).push(text::lower(s.last())));
    } else {
        assert(dashed(s) =~= text::lowered(s));
    }
}

/// Letters, digits and what they become: a capital becomes small, what is neither becomes a dash.
pub proof fn law_safe_characters(c: char)
    ensures
        'a' <= c && c <= 'z' || '0' <= c && c <= '9' ==> safe_char(c) == c,
        'A' <= c && c <= 'Z' ==> safe_char(c) as u32 == c as u32 + 32,
        !('a' <= c && c <= 'z') && !('A' <= c && c <= 'Z') && !('0' <= c && c <= '9') ==> safe_char(
            c,
        ) == '-',
{
}

/// A run of other characters in the middle of a name becomes one dash.
pub proof fn law_runs_become_one_dash(a: Seq<char>, c: char, d: char)
    requires
        !text::is_ascii_alphanumeric(c),
        !text::is_ascii_alphanumeric(d),
    ensures
        dashed(a.push(c).push(d)) == dashed(a.push(c)),
        text::is_ascii_alphanumeric(a.last()) && a.len() > 0 ==> dashed(a.push(c)) == dashed(
            a,
        ).push('-'),
{
    assert(a.push(c).push(d).drop_last() =~= a.push(c));
    assert(a.push(c).drop_last() =~= a);
}

/// A replay that no path was given for is recorded among the recordings, under the names of both sides,
/// blue's first, the division in lower case, the seed and the time.
pub proof fn law_default_paths(blue: Seq<char>, yellow: Seq<char>, div: char, seed: u64, time: u64)
    ensures
        default_path(blue, yellow, div, seed, time) == "recordings/"@ + safe(blue) + "_vs_"@ + safe(
            yellow,
        ) + "_div"@ + seq![text::lower(div)] + "_seed"@ + text::decimal(seed as nat) + "_"@
            + text::decimal(time as nat) + ".shreplay"@,
        text::starts_with(default_path(blue, yellow, div, seed, time), "recordings/"@),
{
    let p = default_path(blue, yellow, div, seed, time);
    assert(p.take("recordings/"@.len() as int) =~= "recordings/"@);
}

/// Where the replaced text does not stand, nothing changes; where it stands first, the other stands in
/// its place and the rest is treated alike.
pub proof fn law_substituting(a: Seq<char>, from: Seq<char>, to: Seq<char>, rest: Seq<char>)
    requires
        from.len() > 0,
        !a.contains(from[0]),
    ensures
        substituted(a, from, to) == a,
        substituted(a + from + rest, from, to) == a + to + substituted(rest, from, to),
    decreases a.len(),
{
    let s = a + from + rest;
    if a.len() == 0 {
        assert(s.take(from.len() as int) =~= from);
        assert(s.skip(from.len() as int) =~= rest);
        assert(substituted(s, from, to) =~= a + to + substituted(rest, from, to));
    } else {
        let short = a.skip(1);
        assert(!short.contains(from[0])) by {
            if short.contains(from[0]) {
                let i = choose|i: int| 0 <= i < short.len() && short[i] == from[0];
                assert(a[i + 1] == from[0]);
            }
        }
        law_substituting(short, from, to, rest);
        assert(a.contains(a[0]));
        assert(!text::starts_with(a, from)) by {
            if text::starts_with(a, from) {
                assert(a.take(from.len() as int)[0] == a[0]);
            }
        }
        assert(!text::starts_with(s, from)) by {
            if text::starts_with(s, from) {
                assert(s.take(from.len() as int)[0] == a[0]);
            }
        }
        assert(seq![a[0]] + short =~= a);
        assert(s.skip(1) =~= short + from + rest);
        assert(substituted(s, from, to) =~= a + to + substituted(rest, from, to));
    }
}

/// The log of a match of several is the named log with the match's number before its extension.
pub proof fn law_numbered_logs(base: Seq<char>, index: nat)
    requires
        !base.contains('.'),
    ensures
        numbered_log(base + ".log"@, index) == base + "_"@ + text::decimal(index) + ".log"@,
        numbered_log(base, index) == base,
{
    reveal_strlit(".log");
    let to = "_"@ + text::decimal(index) + ".log"@;
    law_substituting(base, ".log"@, to, Seq::empty());
    assert(base + ".log"@ + Seq::<char>::empty() =~= base + ".log"@);
    assert(base + to + Seq::<char>::empty() =~= base + "_"@ + text::decimal(index) + ".log"@);
}

/// A name is its stem and its extension with a dot between; the dot is the last one, and one at the
/// start of the name does not count.
pub proof fn law_stems_and_extensions(stem: Seq<char>, extension: Seq<char>)
    requires
        stem.len() > 0,
        !extension.contains('.'),
    ensures
        stem_of(stem + seq!['.'] + extension) == stem,
        extension_of(stem + seq!['.'] + extension) == Some(extension),
        extension_of(extension) is None && stem_of(extension) == extension,
        extension_of(seq!['.'] + extension) is None,
{
    let s = stem + seq!['.'] + extension;
    lemma_last_dot_is(s, stem.len() as int);
    assert(s.take(stem.len() as int) =~= stem);
    assert(s.skip(stem.len() + 1int) =~= extension);
    lemma_last_dot_is(extension, -1);
    lemma_last_dot_is(seq!['.'] + extension, 0);
}

proof fn lemma_last_dot_is(s: Seq<char>, i: int)
    requires
        -1 <= i < s.len(),
        i >= 0 ==> s[i] == '.',
        forall|j: int| i < j < s.len() ==> s[j] != '.',
    ensures
        last_dot(s) == i,
    decreases s.len(),
{
    if s.len() > 0 && s.last() != '.' {
        lemma_last_dot_is(s.drop_last(), i);
    }
}

/// A file of several has the number behind its stem and keeps its extension; a path without a name
/// goes by `replay`.
pub proof fn law_numbered_names(stem: Seq<char>, extension: Seq<char>, index: nat)
    ensures
        numbered_name(Some(stem), Some(extension), index) == stem + "_"@ + text::decimal(index)
            + "."@ + extension,
        numbered_name(Some(stem), None, index) == stem + "_"@ + text::decimal(index),
        numbered_name(None, None, index) == "replay"@ + "_"@ + text::decimal(index),
{
}

/// The last name of a path without slashes is the path; behind a directory it is what follows the
/// slash.
pub proof fn law_last_names(directory: Seq<char>, name: Seq<char>)
    requires
        name.len() > 0,
        !name.contains('/'),
        name[0] != '.',
        directory.len() > 0,
        !directory.contains('/'),
    ensures
        last_name(name) == Some(name),
        last_name(directory + seq!['/'] + name) == Some(name),
{
    text::lemma_one_piece(name, '/');
    text::lemma_pieces_of_joined(directory, '/', name);
    reveal_with_fuel(kept, 3);
    let one = seq![name];
    assert(one.drop_last() =~= Seq::<Seq<char>>::empty());
    assert(kept(one) =~= one);
    let two = seq![directory] + seq![name];
    assert(two.drop_last() =~= seq![directory]);
    assert(kept(two) == kept(seq![directory]).push(name));
    assert(kept(two).last() == name);
}

} // verus!
