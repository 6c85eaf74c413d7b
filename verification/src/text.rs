//! Text as a sequence of characters.
//!
//! Every function here speaks of the characters of a string, `s@`. A position
//! is a position among the characters.

use vstd::prelude::*;
use vstd::utf8::{decode_utf8, encode_utf8, is_ascii_chars, valid_utf8};

verus! {

/// `String::push` of std appends one character.
pub assume_specification[ String::push ](s: &mut String, c: char)
    ensures
        final(s)@ == old(s)@.push(c),
;

/// The view of a text that may be missing.
pub open spec fn opt(s: Option<&str>) -> Option<Seq<char>> {
    match s {
        Some(t) => Some(t@),
        None => None,
    }
}

/// The view of an owned text that may be missing.
pub open spec fn opt_owned(s: Option<String>) -> Option<Seq<char>> {
    match s {
        Some(t) => Some(t@),
        None => None,
    }
}

/// The characters of `s`.
pub fn chars_of(s: &str) -> (r: Vec<char>)
    ensures
        r@ == s@,
{
    let mut r: Vec<char> = Vec::new();
    for c in it: s.chars()
        invariant
            r@ == s@.take(it.index() as int),
            it.seq() == s@,
    {
        r.push(c);
        assert(r@ =~= s@.take(it.index() as int + 1));
    }
    assert(r@ =~= s@);
    r
}

/// The text of `cs[from..to]`.
pub fn slice_text(cs: &Vec<char>, from: usize, to: usize) -> (r: String)
    requires
        from <= to <= cs@.len(),
    ensures
        r@ == cs@.subrange(from as int, to as int),
{
    let mut r = String::new();
    let mut i: usize = from;
    while i < to
        invariant
            from <= i <= to <= cs@.len(),
            r@ == cs@.subrange(from as int, i as int),
        decreases to - i,
    {
        r.push(cs[i]);
        i += 1;
        assert(r@ =~= cs@.subrange(from as int, i as int));
    }
    r
}

/// Two texts, one behind the other.
pub fn join2(a: &str, b: &str) -> (r: String)
    ensures
        r@ == a@ + b@,
{
    let mut r = a.to_string();
    r.append(b);
    r
}

/// Three texts, one behind the other.
pub fn join3(a: &str, b: &str, c: &str) -> (r: String)
    ensures
        r@ == a@ + b@ + c@,
{
    let mut r = a.to_string();
    r.append(b);
    r.append(c);
    r
}

/// Five texts, one behind the other.
pub fn join5(a: &str, b: &str, c: &str, d: &str, e: &str) -> (r: String)
    ensures
        r@ == a@ + b@ + c@ + d@ + e@,
{
    let mut r = a.to_string();
    r.append(b);
    r.append(c);
    r.append(d);
    r.append(e);
    r
}

/// The ASCII lower case of one character.
pub open spec fn lower_char(c: char) -> char {
    if 'A' <= c <= 'Z' {
        ((c as u8 + 32) as u8) as char
    } else {
        c
    }
}

/// The ASCII lower case of a text: only `A` to `Z` change.
pub open spec fn lower(s: Seq<char>) -> Seq<char> {
    s.map_values(|c: char| lower_char(c))
}

/// Equality up to the case of ASCII letters.
pub open spec fn same_ignoring_case(a: Seq<char>, b: Seq<char>) -> bool {
    lower(a) == lower(b)
}

pub fn to_lower_char(c: char) -> (r: char)
    ensures
        r == lower_char(c),
{
    if 'A' <= c && c <= 'Z' {
        ((c as u8) + 32) as char
    } else {
        c
    }
}

/// The ASCII lower case of `s`.
pub fn to_lower(s: &str) -> (r: String)
    ensures
        r@ == lower(s@),
{
    let mut r = String::new();
    for c in it: s.chars()
        invariant
            r@ == lower(s@.take(it.index() as int)),
            it.seq() == s@,
    {
        r.push(to_lower_char(c));
        assert(r@ =~= lower(s@.take(it.index() as int + 1)));
    }
    assert(s@.take(s@.len() as int) =~= s@);
    r
}

/// Whether `a` and `b` are the same text.
pub fn same(a: &str, b: &str) -> (r: bool)
    ensures
        r == (a@ == b@),
{
    let x = chars_of(a);
    let y = chars_of(b);
    if x.len() != y.len() {
        return false;
    }
    let mut i: usize = 0;
    while i < x.len()
        invariant
            i <= x.len() == y.len(),
            x@ == a@,
            y@ == b@,
            x@.take(i as int) == y@.take(i as int),
        decreases x.len() - i,
    {
        if x[i] != y[i] {
            assert(a@[i as int] != b@[i as int]);
            return false;
        }
        assert(x@.take(i + 1) =~= x@.take(i as int).push(x@[i as int]));
        assert(y@.take(i + 1) =~= y@.take(i as int).push(y@[i as int]));
        i += 1;
    }
    assert(x@.take(i as int) =~= x@);
    assert(y@.take(i as int) =~= y@);
    true
}

/// Whether `a` and `b` are the same text up to the case of ASCII letters.
pub fn eq_ignore_ascii_case(a: &str, b: &str) -> (r: bool)
    ensures
        r == same_ignoring_case(a@, b@),
{
    same(to_lower(a).as_str(), to_lower(b).as_str())
}

/// The bytes of `s` in UTF-8.
pub fn bytes_of(s: &str) -> (r: Vec<u8>)
    ensures
        r@ == encode_utf8(s@),
{
    let bytes = s.as_bytes();
    let mut r: Vec<u8> = Vec::new();
    let mut i: usize = 0;
    while i < bytes.len()
        invariant
            i <= bytes@.len(),
            r@ == bytes@.take(i as int),
        decreases bytes.len() - i,
    {
        r.push(bytes[i]);
        i += 1;
        assert(r@ =~= bytes@.take(i as int));
    }
    assert(bytes@.take(i as int) =~= bytes@);
    r
}

/// `std::str::from_utf8` reads bytes as a text where they are valid UTF-8.
#[verifier::external_body]
pub(crate) fn utf8_text(bytes: &[u8]) -> (r: Option<String>)
    ensures
        match r {
            Some(t) => valid_utf8(bytes@) && t@ == decode_utf8(bytes@),
            None => !valid_utf8(bytes@),
        },
{
    std::str::from_utf8(bytes).ok().map(str::to_string)
}

/// The lower case of a text by Unicode's rules.
pub uninterp spec fn unicode_lower(s: Seq<char>) -> Seq<char>;

/// `str::to_lowercase` of std. On ASCII texts it is the ASCII lower case;
/// elsewhere Unicode's tables decide.
#[verifier::external_body]
pub(crate) fn to_lowercase(s: &str) -> (r: String)
    ensures
        r@ == unicode_lower(s@),
        is_ascii_chars(s@) ==> r@ == lower(s@),
{
    s.to_lowercase()
}

/// The ASCII upper case of one character.
pub open spec fn upper_char(c: char) -> char {
    if 'a' <= c <= 'z' {
        ((c as u8 - 32) as u8) as char
    } else {
        c
    }
}

/// The ASCII upper case of a text: only `a` to `z` change.
pub open spec fn upper(s: Seq<char>) -> Seq<char> {
    s.map_values(|c: char| upper_char(c))
}

/// The upper case of a text by Unicode's rules.
pub uninterp spec fn unicode_upper(s: Seq<char>) -> Seq<char>;

/// `str::to_uppercase` of std. On ASCII texts it is the ASCII upper case;
/// elsewhere Unicode's tables decide.
#[verifier::external_body]
pub(crate) fn to_uppercase(s: &str) -> (r: String)
    ensures
        r@ == unicode_upper(s@),
        is_ascii_chars(s@) ==> r@ == upper(s@),
{
    s.to_uppercase()
}

/// The first position of `c` in `cs`.
pub fn find(cs: &Vec<char>, c: char) -> (r: Option<usize>)
    ensures
        match r {
            Some(i) => i < cs.len() && cs@.index_of_first(c) == Some(i as int),
            None => cs@.index_of_first(c) is None,
        },
{
    let mut i: usize = 0;
    while i < cs.len()
        invariant
            i <= cs@.len(),
            forall|j: int| 0 <= j < i ==> cs@[j] != c,
        decreases cs.len() - i,
    {
        if cs[i] == c {
            proof {
                cs@.index_of_first_ensures(c);
            }
            return Some(i);
        }
        i += 1;
    }
    proof {
        cs@.index_of_first_ensures(c);
    }
    None
}

/// The last position of `c` in `cs`.
pub fn rfind(cs: &Vec<char>, c: char) -> (r: Option<usize>)
    ensures
        match r {
            Some(i) => i < cs.len() && cs@.index_of_last(c) == Some(i as int),
            None => cs@.index_of_last(c) is None,
        },
{
    let mut i: usize = cs.len();
    while i > 0
        invariant
            i <= cs@.len(),
            forall|j: int| i <= j < cs@.len() ==> cs@[j] != c,
        decreases i,
    {
        i -= 1;
        if cs[i] == c {
            proof {
                cs@.index_of_last_ensures(c);
            }
            return Some(i);
        }
    }
    proof {
        cs@.index_of_last_ensures(c);
    }
    None
}

/// Whether the text of `p` stands in `cs` at position `at`.
pub open spec fn stands_at(s: Seq<char>, p: Seq<char>, at: int) -> bool {
    0 <= at && at + p.len() <= s.len() && s.subrange(at, at + p.len()) == p
}

/// Whether `p` stands somewhere in `s`.
pub open spec fn contains_text(s: Seq<char>, p: Seq<char>) -> bool {
    exists|at: int| stands_at(s, p, at)
}

pub fn is_at(s: &Vec<char>, p: &Vec<char>, at: usize) -> (r: bool)
    ensures
        r == stands_at(s@, p@, at as int),
{
    if at > s.len() || p.len() > s.len() - at {
        return false;
    }
    let mut i: usize = 0;
    while i < p.len()
        invariant
            at + p.len() <= s.len(),
            i <= p.len(),
            forall|j: int| 0 <= j < i ==> s@[at + j] == p@[j],
        decreases p.len() - i,
    {
        if s[at + i] != p[i] {
            assert(s@.subrange(at as int, at + p@.len())[i as int] != p@[i as int]);
            return false;
        }
        i += 1;
    }
    assert(s@.subrange(at as int, at + p@.len()) =~= p@);
    true
}

/// Whether `p` stands somewhere in `s`.
pub fn contains(s: &str, p: &str) -> (r: bool)
    ensures
        r == contains_text(s@, p@),
{
    let cs = chars_of(s);
    let ps = chars_of(p);
    if ps.len() > cs.len() {
        return false;
    }
    let mut at: usize = 0;
    while at <= cs.len() - ps.len()
        invariant
            cs@ == s@,
            ps@ == p@,
            ps@.len() <= cs@.len(),
            at <= cs@.len() - ps@.len() + 1,
            forall|j: int| 0 <= j < at ==> !stands_at(cs@, ps@, j),
        decreases cs.len() - at + 1,
    {
        if is_at(&cs, &ps, at) {
            return true;
        }
        if at == cs.len() - ps.len() {
            return false;
        }
        at += 1;
    }
    false
}

/// The views of some strings.
pub open spec fn views(v: Seq<String>) -> Seq<Seq<char>> {
    v.map_values(|s: String| s@)
}

/// The pieces of `s` between the characters that satisfy `sep`. There is one
/// piece more than there are such characters.
pub open spec fn split_by(s: Seq<char>, sep: spec_fn(char) -> bool) -> Seq<Seq<char>>
    decreases s.len(),
{
    if s.len() == 0 {
        seq![Seq::empty()]
    } else {
        let before = split_by(s.drop_last(), sep);
        if sep(s.last()) {
            before.push(Seq::empty())
        } else {
            before.drop_last().push(before.last().push(s.last()))
        }
    }
}

/// Whether a character is `c`.
pub open spec fn is_char(c: char) -> spec_fn(char) -> bool {
    |x: char| x == c
}

/// The pieces of `s` between the occurrences of `c`.
pub open spec fn split(s: Seq<char>, c: char) -> Seq<Seq<char>> {
    split_by(s, is_char(c))
}

/// The pieces of `s` between the occurrences of `c`.
pub fn split_on(s: &str, c: char) -> (r: Vec<String>)
    ensures
        views(r@) == split(s@, c),
        r@.len() > 0,
{
    let mut done: Vec<String> = Vec::new();
    let mut current = String::new();
    assert(views(done@).push(current@) =~= split(s@.take(0), c));
    for x in it: s.chars()
        invariant
            it.seq() == s@,
            views(done@).push(current@) == split(s@.take(it.index() as int), c),
    {
        let ghost k: int = it.index() as int;
        assert(s@.take(k + 1).drop_last() =~= s@.take(k));
        assert(s@.take(k + 1).last() == x);
        let ghost before = views(done@).push(current@);
        assert(before.drop_last() =~= views(done@));
        if x == c {
            done.push(current);
            current = String::new();
            assert(views(done@) =~= before);
            assert(current@ =~= Seq::<char>::empty());
        } else {
            current.push(x);
        }
    }
    assert(s@.take(s@.len() as int) =~= s@);
    let ghost before = done@;
    let ghost piece = current@;
    done.push(current);
    assert(views(done@) =~= views(before).push(piece));
    done
}

/// Unicode's `White_Space` property.
pub open spec fn is_space(c: char) -> bool {
    ||| '\u{9}' <= c <= '\u{d}'
    ||| c == '\u{20}'
    ||| c == '\u{85}'
    ||| c == '\u{a0}'
    ||| c == '\u{1680}'
    ||| '\u{2000}' <= c <= '\u{200a}'
    ||| c == '\u{2028}'
    ||| c == '\u{2029}'
    ||| c == '\u{202f}'
    ||| c == '\u{205f}'
    ||| c == '\u{3000}'
}

pub fn is_whitespace(c: char) -> (r: bool)
    ensures
        r == is_space(c),
{
    ('\u{9}' <= c && c <= '\u{d}') || c == '\u{20}' || c == '\u{85}' || c == '\u{a0}' || c
        == '\u{1680}' || ('\u{2000}' <= c && c <= '\u{200a}') || c == '\u{2028}' || c == '\u{2029}'
        || c == '\u{202f}' || c == '\u{205f}' || c == '\u{3000}'
}

/// `s` without the white space at its start.
pub open spec fn trim_start(s: Seq<char>) -> Seq<char>
    decreases s.len(),
{
    if s.len() > 0 && is_space(s[0]) {
        trim_start(s.skip(1))
    } else {
        s
    }
}

/// `s` without the white space at its end.
pub open spec fn trim_end(s: Seq<char>) -> Seq<char>
    decreases s.len(),
{
    if s.len() > 0 && is_space(s.last()) {
        trim_end(s.drop_last())
    } else {
        s
    }
}

/// `s` without the white space at its start and at its end.
pub open spec fn trim(s: Seq<char>) -> Seq<char> {
    trim_end(trim_start(s))
}

/// `s` without the white space around it.
pub fn trimmed(s: &str) -> (r: String)
    ensures
        r@ == trim(s@),
{
    let cs = chars_of(s);
    let mut from: usize = 0;
    assert(cs@.skip(0) =~= cs@);
    while from < cs.len() && is_whitespace(cs[from])
        invariant
            cs@ == s@,
            from <= cs@.len(),
            trim_start(cs@) == trim_start(cs@.skip(from as int)),
        decreases cs.len() - from,
    {
        assert(cs@.skip(from as int).skip(1) =~= cs@.skip(from + 1));
        from += 1;
    }
    let mut to: usize = cs.len();
    assert(cs@.skip(from as int) =~= cs@.subrange(from as int, to as int));
    while to > from && is_whitespace(cs[to - 1])
        invariant
            from <= to <= cs@.len(),
            trim(cs@) == trim_end(cs@.subrange(from as int, to as int)),
        decreases to,
    {
        assert(cs@.subrange(from as int, to as int).drop_last() =~= cs@.subrange(
            from as int,
            to - 1,
        ));
        to -= 1;
    }
    slice_text(&cs, from, to)
}

/// Whether a character is white space.
pub open spec fn any_space() -> spec_fn(char) -> bool {
    |c: char| is_space(c)
}

/// Whether a piece of a text is not empty.
pub open spec fn not_empty() -> spec_fn(Seq<char>) -> bool {
    |w: Seq<char>| w.len() > 0
}

/// The words of `s`: its longest runs without white space.
pub open spec fn words(s: Seq<char>) -> Seq<Seq<char>> {
    split_by(s, any_space()).filter(not_empty())
}

/// A line without the carriage return that ends it, if one does.
pub open spec fn strip_carriage_return(s: Seq<char>) -> Seq<char> {
    if s.len() > 0 && s.last() == '\r' {
        s.drop_last()
    } else {
        s
    }
}

/// The lines of `s`. A line ends with a line feed, alone or after a carriage
/// return; the last line needs no end.
pub open spec fn lines(s: Seq<char>) -> Seq<Seq<char>> {
    let pieces = split(s, '\n');
    let ended = pieces.drop_last().map_values(|l: Seq<char>| strip_carriage_return(l));
    if pieces.last().len() == 0 {
        ended
    } else {
        ended.push(pieces.last())
    }
}

/// The lines of `s`.
pub fn text_lines(s: &str) -> (r: Vec<String>)
    ensures
        views(r@) == lines(s@),
{
    let pieces = split_on(s, '\n');
    let ghost all = split(s@, '\n');
    let n: usize = pieces.len() - 1;
    let mut r: Vec<String> = Vec::new();
    let mut i: usize = 0;
    while i < n
        invariant
            i <= n,
            n + 1 == pieces@.len(),
            views(pieces@) == all,
            r@.len() == i,
            forall|j: int| 0 <= j < i ==> (#[trigger] r@[j])@ == strip_carriage_return(all[j]),
        decreases n - i,
    {
        let cs = chars_of(pieces[i].as_str());
        assert(cs@ == all[i as int]);
        if cs.len() > 0 && cs[cs.len() - 1] == '\r' {
            let line = slice_text(&cs, 0, cs.len() - 1);
            assert(line@ =~= cs@.drop_last());
            r.push(line);
        } else {
            let line = slice_text(&cs, 0, cs.len());
            assert(line@ =~= cs@);
            r.push(line);
        }
        i += 1;
    }
    let ghost ended = all.drop_last().map_values(|l: Seq<char>| strip_carriage_return(l));
    assert(views(r@) =~= ended);
    assert(pieces@[n as int]@ == all.last());
    if !pieces[n].as_str().is_empty() {
        let ghost before = r@;
        r.push(pieces[n].clone());
        assert(views(r@) =~= views(before).push(all.last()));
    }
    r
}

/// The words of `s`.
pub fn text_words(s: &str) -> (r: Vec<String>)
    ensures
        views(r@) == words(s@),
{
    let mut done: Vec<String> = Vec::new();
    let mut current = String::new();
    let ghost sep = any_space();
    let ghost keep = not_empty();
    reveal(Seq::filter);
    assert(split_by(s@.take(0), sep).drop_last() =~= Seq::empty());
    assert(views(done@) =~= Seq::empty());
    for x in it: s.chars()
        invariant
            it.seq() == s@,
            keep == (not_empty()),
            split_by(s@.take(it.index() as int), sep).len() > 0,
            sep == (any_space()),
            current@ == split_by(s@.take(it.index() as int), sep).last(),
            views(done@) == split_by(s@.take(it.index() as int), sep).drop_last().filter(keep),
    {
        let ghost k: int = it.index() as int;
        assert(s@.take(k + 1).drop_last() =~= s@.take(k));
        assert(s@.take(k + 1).last() == x);
        let ghost before = split_by(s@.take(k), sep);
        let ghost after = split_by(s@.take(k + 1), sep);
        reveal(Seq::filter);
        if is_whitespace(x) {
            assert(after.drop_last() =~= before);
            assert(before =~= before.drop_last().push(before.last()));
            if !current.as_str().is_empty() {
                let ghost words_before = done@;
                let ghost piece = current@;
                done.push(current);
                assert(views(done@) =~= views(words_before).push(piece));
            }
            current = String::new();
            assert(current@ =~= Seq::<char>::empty());
        } else {
            current.push(x);
            assert(after.drop_last() =~= before.drop_last());
        }
    }
    assert(s@.take(s@.len() as int) =~= s@);
    let ghost all = split_by(s@, sep);
    assert(all =~= all.drop_last().push(all.last()));
    reveal(Seq::filter);
    let ghost words_before = done@;
    let ghost piece = current@;
    if !current.as_str().is_empty() {
        done.push(current);
        assert(views(done@) =~= views(words_before).push(piece));
    }
    done
}

/// `s` cut at the first `c`: what stands before and behind it.
pub open spec fn cut_at_first(s: Seq<char>, c: char) -> Option<(Seq<char>, Seq<char>)> {
    match s.index_of_first(c) {
        Some(i) => Some((s.take(i), s.skip(i + 1))),
        None => None,
    }
}

/// `s` cut at the last `c`: what stands before and behind it.
pub open spec fn cut_at_last(s: Seq<char>, c: char) -> Option<(Seq<char>, Seq<char>)> {
    match s.index_of_last(c) {
        Some(i) => Some((s.take(i), s.skip(i + 1))),
        None => None,
    }
}

/// The views of two texts that may be missing.
pub open spec fn opt_pair(p: Option<(String, String)>) -> Option<(Seq<char>, Seq<char>)> {
    match p {
        Some((a, b)) => Some((a@, b@)),
        None => None,
    }
}

/// `s` cut at the first `c`.
pub fn split_once(s: &str, c: char) -> (r: Option<(String, String)>)
    ensures
        opt_pair(r) == cut_at_first(s@, c),
{
    let cs = chars_of(s);
    match find(&cs, c) {
        Some(i) => {
            let behind = slice_text(&cs, i + 1, cs.len());
            assert(behind@ =~= s@.skip(i + 1));
            Some((slice_text(&cs, 0, i), behind))
        },
        None => None,
    }
}

/// `s` cut at the last `c`.
pub fn rsplit_once(s: &str, c: char) -> (r: Option<(String, String)>)
    ensures
        opt_pair(r) == cut_at_last(s@, c),
{
    let cs = chars_of(s);
    match rfind(&cs, c) {
        Some(i) => {
            let behind = slice_text(&cs, i + 1, cs.len());
            assert(behind@ =~= s@.skip(i + 1));
            Some((slice_text(&cs, 0, i), behind))
        },
        None => None,
    }
}

/// Whether a text is made of decimal digits alone.
pub open spec fn all_digits(s: Seq<char>) -> bool {
    forall|i: int| 0 <= i < s.len() ==> '0' <= #[trigger] s[i] <= '9'
}

/// Whether `s` is made of decimal digits alone.
pub fn is_all_digits(s: &str) -> (r: bool)
    ensures
        r == all_digits(s@),
{
    let cs = chars_of(s);
    let mut i: usize = 0;
    while i < cs.len()
        invariant
            i <= cs@.len(),
            cs@ == s@,
            forall|j: int| 0 <= j < i ==> '0' <= #[trigger] s@[j] <= '9',
        decreases cs.len() - i,
    {
        if cs[i] < '0' || cs[i] > '9' {
            return false;
        }
        i += 1;
    }
    true
}

/// The decimal digit of `n`.
pub open spec fn digit(n: nat) -> char {
    (('0' as u8 + n) as u8) as char
}

/// `n` in decimal.
pub open spec fn decimal(n: nat) -> Seq<char>
    decreases n,
{
    if n < 10 {
        seq![digit(n)]
    } else {
        decimal(n / 10).push(digit(n % 10))
    }
}

/// `n` in decimal, with a minus sign where it is negative.
pub open spec fn decimal_int(n: int) -> Seq<char> {
    if n < 0 {
        seq!['-'] + decimal((-n) as nat)
    } else {
        decimal(n as nat)
    }
}

/// `n` in decimal.
pub fn to_decimal(n: u64) -> (r: String)
    ensures
        r@ == decimal(n as nat),
    decreases n,
{
    let last: u8 = 48 + (n % 10) as u8;
    let mut r = if n < 10 {
        String::new()
    } else {
        to_decimal(n / 10)
    };
    r.push(last as char);
    assert(r@ =~= decimal(n as nat));
    r
}

/// `n` in decimal, with a minus sign where it is negative.
pub fn to_decimal_int(n: i64) -> (r: String)
    ensures
        r@ == decimal_int(n as int),
{
    if n < 0 {
        let size: u64 = (-(n + 1)) as u64 + 1;
        let digits = to_decimal(size);
        let mut r = String::new();
        r.push('-');
        r.append(digits.as_str());
        assert(r@ =~= decimal_int(n as int));
        r
    } else {
        to_decimal(n as u64)
    }
}

// ---------------------------------------------------------------------------
// Laws
// ---------------------------------------------------------------------------

/// The pieces with `c` between each two of them.
pub open spec fn join(pieces: Seq<Seq<char>>, c: char) -> Seq<char>
    decreases pieces.len(),
{
    if pieces.len() == 0 {
        Seq::empty()
    } else if pieces.len() == 1 {
        pieces[0]
    } else {
        join(pieces.drop_last(), c).push(c) + pieces.last()
    }
}

/// Splitting loses nothing: the pieces joined again are the text, and no piece
/// holds the separator.
pub proof fn law_split_pieces_join_again(s: Seq<char>, c: char)
    ensures
        split(s, c).len() > 0,
        join(split(s, c), c) == s,
        forall|i: int| 0 <= i < split(s, c).len() ==> !(#[trigger] split(s, c)[i]).contains(c),
    decreases s.len(),
{
    let pieces = split(s, c);
    if s.len() == 0 {
        assert(pieces =~= seq![Seq::<char>::empty()]);
        assert(join(pieces, c) =~= s);
    } else {
        let front = s.drop_last();
        let before = split(front, c);
        law_split_pieces_join_again(front, c);
        assert(s =~= front.push(s.last()));
        if s.last() == c {
            assert(pieces == before.push(Seq::empty()));
            assert(pieces.drop_last() =~= before);
            assert(join(pieces, c) =~= join(before, c).push(c) + Seq::<char>::empty());
            assert(join(pieces, c) =~= s);
        } else {
            let last = before.last().push(s.last());
            assert(pieces == before.drop_last().push(last));
            assert(pieces.drop_last() =~= before.drop_last());
            assert(join(pieces, c) =~= s) by {
                if before.len() == 1 {
                    assert(join(pieces, c) == last);
                } else {
                    assert(join(pieces, c) == join(before.drop_last(), c).push(c) + last);
                }
            }
            assert forall|i: int| 0 <= i < pieces.len() implies !(#[trigger] pieces[i]).contains(
                c,
            ) by {
                if i < pieces.len() - 1 {
                    assert(pieces[i] == before[i]);
                } else {
                    assert(!before[before.len() - 1].contains(c));
                    assert forall|k: int| 0 <= k < last.len() implies last[k] != c by {
                        if k < last.len() - 1 {
                            assert(before.last()[k] == last[k]);
                            assert(before.last().contains(last[k]));
                        }
                    }
                }
            }
        }
    }
}

/// A trimmed text has no white space at its ends.
pub proof fn law_trimmed_ends_are_no_space(s: Seq<char>)
    ensures
        trim(s).len() > 0 ==> !is_space(trim(s)[0]) && !is_space(trim(s).last()),
{
    lemma_trim_start(s);
    lemma_trim_end(trim_start(s));
}

proof fn lemma_trim_start(s: Seq<char>)
    ensures
        trim_start(s).len() > 0 ==> !is_space(trim_start(s)[0]),
    decreases s.len(),
{
    if s.len() > 0 && is_space(s[0]) {
        lemma_trim_start(s.skip(1));
    }
}

proof fn lemma_trim_end(s: Seq<char>)
    ensures
        trim_end(s).len() > 0 ==> !is_space(trim_end(s).last()) && trim_end(s)[0] == s[0],
    decreases s.len(),
{
    if s.len() > 0 && is_space(s.last()) {
        lemma_trim_end(s.drop_last());
    }
}

/// The number that decimal digits stand for.
pub open spec fn number(digits: Seq<char>) -> nat
    decreases digits.len(),
{
    if digits.len() == 0 {
        0
    } else {
        number(digits.drop_last()) * 10 + (digits.last() as nat - '0' as nat) as nat
    }
}

/// The decimal form of a number stands for it, and is made of digits.
pub proof fn law_decimal_stands_for_the_number(n: nat)
    ensures
        number(decimal(n)) == n,
        all_digits(decimal(n)),
        decimal(n).len() > 0,
    decreases n,
{
    if n < 10 {
        assert(decimal(n).drop_last() =~= Seq::empty());
        assert(number(Seq::<char>::empty()) == 0);
    } else {
        law_decimal_stands_for_the_number(n / 10);
        assert(decimal(n).drop_last() =~= decimal(n / 10));
    }
}

/// Only the capitals `A` to `Z` change in lower case, each to its small letter,
/// and a second time nothing changes.
pub proof fn law_lower_case_changes_capitals_only(c: char)
    ensures
        'A' <= c <= 'Z' ==> lower_char(c) as int == c as int + 32 && 'a' <= lower_char(c) <= 'z',
        !('A' <= c <= 'Z') ==> lower_char(c) == c,
        lower_char(lower_char(c)) == lower_char(c),
{
}

/// Two texts are equal up to case exactly where they are as long and equal
/// letter by letter, up to case.
pub proof fn law_case_is_compared_letter_by_letter(a: Seq<char>, b: Seq<char>)
    ensures
        same_ignoring_case(a, b) <==> a.len() == b.len() && forall|i: int|
            0 <= i < a.len() ==> lower_char(#[trigger] a[i]) == lower_char(b[i]),
{
    if same_ignoring_case(a, b) {
        assert(lower(a).len() == a.len() && lower(b).len() == b.len());
        assert forall|i: int| 0 <= i < a.len() implies lower_char(#[trigger] a[i]) == lower_char(
            b[i],
        ) by {
            assert(lower(a)[i] == lower(b)[i]);
        }
    }
    if a.len() == b.len() && (forall|i: int|
        0 <= i < a.len() ==> lower_char(#[trigger] a[i]) == lower_char(b[i])) {
        assert(lower(a) =~= lower(b));
    }
}

proof fn lemma_split_by_separator(
    a: Seq<char>,
    x: char,
    b: Seq<char>,
    sep: spec_fn(char) -> bool,
)
    requires
        sep(x),
    ensures
        split_by(a + seq![x] + b, sep) == split_by(a, sep) + split_by(b, sep),
    decreases b.len(),
{
    lemma_some_piece(a, sep);
    lemma_some_piece(b, sep);
    let all = a + seq![x] + b;
    if b.len() == 0 {
        assert(all.drop_last() =~= a);
        assert(split_by(a, sep).push(Seq::empty()) =~= split_by(a, sep) + seq![Seq::empty()]);
    } else {
        let front = b.drop_last();
        lemma_split_by_separator(a, x, front, sep);
        lemma_some_piece(front, sep);
        assert(all.drop_last() =~= a + seq![x] + front);
        assert(all.last() == b.last());
        let left = split_by(a, sep);
        let right = split_by(front, sep);
        if sep(b.last()) {
            assert((left + right).push(Seq::empty()) =~= left + right.push(Seq::empty()));
        } else {
            assert((left + right).last() == right.last());
            let longer = right.last().push(b.last());
            assert((left + right).drop_last().push(longer) =~= left + right.drop_last().push(
                longer,
            ));
        }
    }
}

proof fn lemma_some_piece(s: Seq<char>, sep: spec_fn(char) -> bool)
    ensures
        split_by(s, sep).len() > 0,
    decreases s.len(),
{
    if s.len() > 0 {
        lemma_some_piece(s.drop_last(), sep);
    }
}

proof fn lemma_one_piece(s: Seq<char>, sep: spec_fn(char) -> bool)
    requires
        forall|i: int| 0 <= i < s.len() ==> !sep(#[trigger] s[i]),
    ensures
        split_by(s, sep) == seq![s],
    decreases s.len(),
{
    if s.len() > 0 {
        assert forall|i: int| 0 <= i < s.drop_last().len() implies !sep(
            #[trigger] s.drop_last()[i],
        ) by {
            assert(s.drop_last()[i] == s[i]);
        }
        lemma_one_piece(s.drop_last(), sep);
        assert(!sep(s[s.len() - 1]));
        assert(s.drop_last().push(s.last()) =~= s);
        assert(seq![s.drop_last()].drop_last().push(s) =~= seq![s]);
    } else {
        assert(s =~= Seq::empty());
        assert(split_by(s, sep) =~= seq![s]);
    }
}

/// A text falls into pieces at every separator, and only there.
pub proof fn law_texts_are_split_at_separators(a: Seq<char>, c: char, b: Seq<char>)
    ensures
        split(a + seq![c] + b, c) == split(a, c) + split(b, c),
        !a.contains(c) ==> split(a, c) == seq![a],
{
    lemma_split_by_separator(a, c, b, is_char(c));
    if !a.contains(c) {
        assert forall|i: int| 0 <= i < a.len() implies #[trigger] a[i] != c by {
            assert(a.contains(a[i]));
        }
        lemma_one_piece(a, is_char(c));
    }
}

/// A text is cut at the first separator, or at the last: what stands before it
/// and what stands behind it. Without one it is not cut.
pub proof fn law_texts_are_cut_at_one_separator(a: Seq<char>, c: char, b: Seq<char>)
    ensures
        !a.contains(c) ==> cut_at_first(a + seq![c] + b, c) == Some((a, b)),
        !b.contains(c) ==> cut_at_last(a + seq![c] + b, c) == Some((a, b)),
        !a.contains(c) ==> cut_at_first(a, c) is None && cut_at_last(a, c) is None,
{
    let all = a + seq![c] + b;
    let n = a.len() as int;
    assert(all[n] == c);
    assert(all.contains(c));
    all.index_of_first_ensures(c);
    all.index_of_last_ensures(c);
    a.index_of_first_ensures(c);
    a.index_of_last_ensures(c);
    assert(all.take(n) =~= a);
    assert(all.skip(n + 1) =~= b);
    if !a.contains(c) {
        let i = all.index_of_first(c)->0;
        if i < n {
            assert(a[i] == c);
        }
    }
    if !b.contains(c) {
        let i = all.index_of_last(c)->0;
        if i > n {
            assert(b[i - n - 1] == c);
        }
    }
}

/// Trimming takes white space off both ends and nothing else.
pub proof fn law_trimming_takes_only_space(s: Seq<char>)
    ensures
        exists|a: Seq<char>, b: Seq<char>|
            s == #[trigger] (a + trim(s) + b) && (forall|i: int|
                0 <= i < a.len() ==> is_space(#[trigger] a[i])) && (forall|i: int|
                0 <= i < b.len() ==> is_space(#[trigger] b[i])),
{
    let a = lemma_trim_start_takes(s);
    let b = lemma_trim_end_takes(trim_start(s));
    assert(s =~= a + trim(s) + b);
}

proof fn lemma_trim_start_takes(s: Seq<char>) -> (a: Seq<char>)
    ensures
        s == a + trim_start(s),
        forall|i: int| 0 <= i < a.len() ==> is_space(#[trigger] a[i]),
    decreases s.len(),
{
    if s.len() > 0 && is_space(s[0]) {
        let rest = lemma_trim_start_takes(s.skip(1));
        let a = seq![s[0]] + rest;
        assert(s =~= seq![s[0]] + s.skip(1));
        assert(s =~= a + trim_start(s));
        a
    } else {
        assert(s =~= Seq::<char>::empty() + s);
        Seq::empty()
    }
}

proof fn lemma_trim_end_takes(s: Seq<char>) -> (b: Seq<char>)
    ensures
        s == trim_end(s) + b,
        forall|i: int| 0 <= i < b.len() ==> is_space(#[trigger] b[i]),
    decreases s.len(),
{
    if s.len() > 0 && is_space(s.last()) {
        let rest = lemma_trim_end_takes(s.drop_last());
        let b = rest.push(s.last());
        assert(s =~= s.drop_last().push(s.last()));
        assert(s =~= trim_end(s) + b);
        b
    } else {
        assert(s =~= s + Seq::<char>::empty());
        Seq::empty()
    }
}

/// The first line of a text reaches up to the first line feed, a carriage
/// return before it left out; the others follow.
pub proof fn law_lines_end_at_line_feeds(a: Seq<char>, b: Seq<char>)
    requires
        !a.contains('\n'),
    ensures
        a.len() == 0 || a.last() != '\r' ==> lines(a + seq!['\n'] + b) == seq![a] + lines(b),
        lines(a + seq!['\r', '\n'] + b) == seq![a] + lines(b),
        a.len() > 0 ==> lines(a) == seq![a],
        lines(Seq::empty()).len() == 0,
{
    law_texts_are_split_at_separators(a, '\n', b);
    let sep = is_char('\n');
    lemma_some_piece(b, sep);
    let rest = split(b, '\n');
    lemma_lines_of_pieces(a, rest);
    let ended = a.push('\r');
    assert(!ended.contains('\n')) by {
        if ended.contains('\n') {
            let i = ended.index_of('\n');
            assert(a[i] == '\n');
        }
    }
    law_texts_are_split_at_separators(ended, '\n', b);
    lemma_lines_of_pieces(ended, rest);
    assert(a + seq!['\r', '\n'] + b =~= ended + seq!['\n'] + b);
    assert(ended.drop_last() =~= a);
    assert(seq![a].drop_last() =~= Seq::<Seq<char>>::empty());
    if a.len() > 0 {
        assert(lines(a) =~= seq![a]);
    }
    assert(split(Seq::empty(), '\n') =~= seq![Seq::<char>::empty()]);
    assert(lines(Seq::empty()) =~= Seq::empty());
}

proof fn lemma_lines_of_pieces(first: Seq<char>, rest: Seq<Seq<char>>)
    requires
        rest.len() > 0,
    ensures
        ({
            let pieces = seq![first] + rest;
            let ended = pieces.drop_last().map_values(|l: Seq<char>| strip_carriage_return(l));
            let behind = rest.drop_last().map_values(|l: Seq<char>| strip_carriage_return(l));
            &&& ended == seq![strip_carriage_return(first)] + behind
            &&& ended.push(pieces.last()) == seq![strip_carriage_return(first)] + behind.push(
                rest.last(),
            )
            &&& pieces.last() == rest.last()
        }),
{
    let pieces = seq![first] + rest;
    let ended = pieces.drop_last().map_values(|l: Seq<char>| strip_carriage_return(l));
    let behind = rest.drop_last().map_values(|l: Seq<char>| strip_carriage_return(l));
    assert(ended =~= seq![strip_carriage_return(first)] + behind);
    assert(ended.push(pieces.last()) =~= seq![strip_carriage_return(first)] + behind.push(
        rest.last(),
    ));
}

/// Words are what white space separates; there is none between two spaces.
pub proof fn law_words_stand_between_spaces(a: Seq<char>, space: char, b: Seq<char>)
    requires
        is_space(space),
    ensures
        words(a + seq![space] + b) == words(a) + words(b),
        (forall|i: int| 0 <= i < a.len() ==> !is_space(#[trigger] a[i])) ==> words(a)
            == if a.len() > 0 {
            seq![a]
        } else {
            Seq::empty()
        },
{
    let sep = any_space();
    let some = not_empty();
    lemma_split_by_separator(a, space, b, sep);
    Seq::filter_distributes_over_add(split_by(a, sep), split_by(b, sep), some);
    if forall|i: int| 0 <= i < a.len() ==> !is_space(#[trigger] a[i]) {
        lemma_one_piece(a, sep);
        reveal(Seq::filter);
        assert(seq![a].drop_last() =~= Seq::<Seq<char>>::empty());
        assert(Seq::<Seq<char>>::empty().filter(some) =~= Seq::empty());
        assert(words(a) =~= if a.len() > 0 {
            seq![a]
        } else {
            Seq::empty()
        });
    }
}

/// A negative number has a minus sign in front of its digits, and no other has.
pub proof fn law_negative_numbers_have_a_sign(n: nat)
    ensures
        n > 0 ==> decimal_int(-n) == seq!['-'] + decimal(n),
        decimal_int(n as int) == decimal(n),
{
}

/// A text holds another exactly where that stands between two parts of it.
pub proof fn law_texts_hold_their_parts(a: Seq<char>, p: Seq<char>, b: Seq<char>, s: Seq<char>)
    ensures
        contains_text(a + p + b, p),
        contains_text(s, p) ==> exists|x: Seq<char>, y: Seq<char>| s == #[trigger] (x + p + y),
{
    let all = a + p + b;
    let n = a.len() as int;
    assert(all.subrange(n, n + p.len()) =~= p);
    assert(stands_at(all, p, n));
    if contains_text(s, p) {
        let i = choose|i: int| stands_at(s, p, i);
        assert(s =~= s.take(i) + p + s.skip(i + p.len()));
    }
}

/// Space, tab, line feed and carriage return are white space; the visible ASCII
/// characters are not.
pub proof fn law_white_space_is_invisible(c: char)
    ensures
        c == ' ' || c == '\t' || c == '\n' || c == '\r' ==> is_space(c),
        '!' <= c <= '~' ==> !is_space(c),
{
}

} // verus!
