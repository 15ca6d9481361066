//! The character-level operations that the tunnel's text formats are made of.
//!
//! Texts are modelled as sequences of characters; every function here comes
//! with a spec function over such sequences.

use vstd::prelude::*;
use vstd::string::{StrSliceExecFns, StringExecFns};

verus! {

/// The characters with the Unicode property White_Space.
pub open spec fn white_space(c: char) -> bool {
    let u = c as u32;
    ||| 0x9 <= u <= 0xd
    ||| u == 0x20
    ||| u == 0x85
    ||| u == 0xa0
    ||| u == 0x1680
    ||| 0x2000 <= u <= 0x200a
    ||| u == 0x2028
    ||| u == 0x2029
    ||| u == 0x202f
    ||| u == 0x205f
    ||| u == 0x3000
}

/// Position of the first `c` in `s`, or the length of `s` where there is none.
pub open spec fn find(s: Seq<char>, c: char) -> int
    decreases s.len(),
{
    if s.len() == 0 || s[0] == c {
        0
    } else {
        1 + find(s.drop_first(), c)
    }
}

/// The part of `s` in front of its first `c`; all of `s` where there is none.
pub open spec fn before(s: Seq<char>, c: char) -> Seq<char> {
    s.take(find(s, c))
}

/// The part of `s` behind its first `c`.
pub open spec fn after(s: Seq<char>, c: char) -> Seq<char>
    recommends
        s.contains(c),
{
    s.skip(find(s, c) + 1)
}

/// `s` cut in two at its first `c`.
pub open spec fn cut(s: Seq<char>, c: char) -> Option<(Seq<char>, Seq<char>)> {
    if s.contains(c) {
        Some((before(s, c), after(s, c)))
    } else {
        None
    }
}

/// `s` cut at every `c`.
pub open spec fn pieces(s: Seq<char>, c: char) -> Seq<Seq<char>>
    decreases s.len(),
{
    if find(s, c) < 0 || find(s, c) >= s.len() {
        seq![s]
    } else {
        seq![before(s, c)] + pieces(after(s, c), c)
    }
}

/// `s` without one carriage return at its end.
pub open spec fn without_cr(s: Seq<char>) -> Seq<char> {
    if s.len() > 0 && s.last() == '\r' {
        s.drop_last()
    } else {
        s
    }
}

/// The lines of `s`: a line ends with a line feed, which may follow a
/// carriage return, and neither belongs to it. The last line may lack its end.
pub open spec fn text_lines(s: Seq<char>) -> Seq<Seq<char>>
    decreases s.len(),
{
    if s.len() == 0 {
        seq![]
    } else if find(s, '\n') < 0 || find(s, '\n') >= s.len() {
        seq![s]
    } else {
        seq![without_cr(before(s, '\n'))] + text_lines(after(s, '\n'))
    }
}

/// `s` without the white space at its start.
pub open spec fn trim_start(s: Seq<char>) -> Seq<char>
    decreases s.len(),
{
    if s.len() > 0 && white_space(s[0]) {
        trim_start(s.drop_first())
    } else {
        s
    }
}

/// `s` without the white space at its end.
pub open spec fn trim_end(s: Seq<char>) -> Seq<char>
    decreases s.len(),
{
    if s.len() > 0 && white_space(s.last()) {
        trim_end(s.drop_last())
    } else {
        s
    }
}

/// `s` without the white space at both ends.
pub open spec fn trimmed(s: Seq<char>) -> Seq<char> {
    trim_end(trim_start(s))
}

/// How many characters `s` has in front of its first white space.
pub open spec fn word_len(s: Seq<char>) -> int
    decreases s.len(),
{
    if s.len() == 0 || white_space(s[0]) {
        0
    } else {
        1 + word_len(s.drop_first())
    }
}

/// The first run of characters in `s` that are not white space.
pub open spec fn first_word(s: Seq<char>) -> Option<Seq<char>> {
    let t = trim_start(s);
    if t.len() == 0 {
        None
    } else {
        Some(t.take(word_len(t)))
    }
}

/// What follows `prefix` in `s`, where `s` starts with it.
pub open spec fn without_prefix(s: Seq<char>, prefix: Seq<char>) -> Option<Seq<char>> {
    if prefix.is_prefix_of(s) {
        Some(s.skip(prefix.len() as int))
    } else {
        None
    }
}

/// The decimal digit of value `d`.
pub open spec fn digit(d: int) -> char
    recommends
        0 <= d < 10,
{
    (('0' as u32) + d) as char
}

/// `n` in decimal, without leading zeros.
pub open spec fn decimal(n: int) -> Seq<char>
    decreases n,
{
    if n < 10 {
        seq![digit(n)]
    } else {
        decimal(n / 10).push(digit(n % 10))
    }
}

/// Whether `c` has the Unicode property White_Space.
pub fn is_white_space(c: char) -> (r: bool)
    ensures
        r == white_space(c),
{
    let u: u32 = c as u32;
    (0x9 <= u && u <= 0xd) || u == 0x20 || u == 0x85 || u == 0xa0 || u == 0x1680 || (0x2000 <= u
        && u <= 0x200a) || u == 0x2028 || u == 0x2029 || u == 0x202f || u == 0x205f || u == 0x3000
}

/// The characters of `s`.
fn chars_of(s: &str) -> (v: Vec<char>)
    ensures
        v@ == s@,
{
    let mut v: Vec<char> = Vec::new();
    for c in it: s.chars()
        invariant
            it.seq() == s@,
            v@ == s@.take(it.index() as int),
    {
        v.push(c);
    }
    assert(s@.take(s@.len() as int) =~= s@);
    v
}

proof fn lemma_find_at(s: Seq<char>, c: char, i: int)
    requires
        0 <= i <= s.len(),
        forall|j: int| 0 <= j < i ==> s[j] != c,
        i < s.len() ==> s[i] == c,
    ensures
        find(s, c) == i,
    decreases s.len(),
{
    if s.len() > 0 && s[0] != c {
        lemma_find_at(s.drop_first(), c, i - 1);
    }
}

/// `find` is the first position of the character, if there is one.
pub proof fn lemma_find(s: Seq<char>, c: char)
    ensures
        0 <= find(s, c) <= s.len(),
        forall|j: int| 0 <= j < find(s, c) ==> s[j] != c,
        find(s, c) < s.len() ==> s[find(s, c)] == c,
        find(s, c) < s.len() <==> s.contains(c),
    decreases s.len(),
{
    if s.len() > 0 && s[0] != c {
        let t = s.drop_first();
        lemma_find(t, c);
        assert forall|j: int| 0 <= j < find(s, c) implies s[j] != c by {
            if j > 0 {
                assert(s[j] == t[j - 1]);
            }
        }
    }
    if find(s, c) < s.len() {
        assert(s[find(s, c)] == c);
    } else {
        assert(!s.contains(c));
    }
}

/// Position of the first `c` in `s`, or the number of characters of `s`.
fn find_char(s: &str, c: char) -> (i: usize)
    ensures
        i == find(s@, c),
        i <= s@.len(),
{
    let cs = chars_of(s);
    let mut i: usize = 0;
    while i < cs.len()
        invariant
            cs@ == s@,
            i <= cs@.len(),
            forall|j: int| 0 <= j < i ==> s@[j] != c,
        decreases cs@.len() - i,
    {
        if cs[i] == c {
            proof {
                lemma_find_at(s@, c, i as int);
            }
            return i;
        }
        i += 1;
    }
    proof {
        lemma_find_at(s@, c, i as int);
    }
    i
}

/// Cuts `s` in two at its first `c`.
pub fn split_once(s: &str, c: char) -> (r: Option<(&str, &str)>)
    ensures
        r is Some <==> cut(s@, c) is Some,
        r matches Some(p) ==> cut(s@, c) == Some((p.0@, p.1@)),
{
    proof {
        lemma_find(s@, c);
    }
    let i = find_char(s, c);
    let n = s.unicode_len();
    if i < n {
        let head = s.substring_char(0, i);
        let tail = s.substring_char(i + 1, n);
        Some((head, tail))
    } else {
        None
    }
}

/// The views of a vector of string slices.
pub open spec fn slices_view(v: Seq<&str>) -> Seq<Seq<char>> {
    Seq::new(v.len(), |i: int| v[i]@)
}

/// The views of a vector of strings.
pub open spec fn strings_view(v: Seq<String>) -> Seq<Seq<char>> {
    Seq::new(v.len(), |i: int| v[i]@)
}

/// Cuts `s` at every `c`.
pub fn split(s: &str, c: char) -> (r: Vec<&str>)
    ensures
        slices_view(r@) == pieces(s@, c),
{
    let mut r: Vec<&str> = Vec::new();
    let mut rest: &str = s;
    loop
        invariant_except_break
            slices_view(r@) + pieces(rest@, c) == pieces(s@, c),
        ensures
            slices_view(r@) == pieces(s@, c),
        decreases rest@.len(),
    {
        let ghost sofar = slices_view(r@);
        proof {
            lemma_find(rest@, c);
        }
        let i = find_char(rest, c);
        let n = rest.unicode_len();
        if i >= n {
            r.push(rest);
            assert(slices_view(r@) =~= sofar + seq![rest@]);
            break;
        }
        let head = rest.substring_char(0, i);
        let ghost whole = rest@;
        rest = rest.substring_char(i + 1, n);
        r.push(head);
        assert(slices_view(r@) =~= sofar + seq![before(whole, c)]);
        assert(sofar + (seq![before(whole, c)] + pieces(rest@, c)) =~= slices_view(r@) + pieces(
            rest@,
            c,
        ));
    }
    r
}

/// `s` without one carriage return at its end.
fn strip_cr(s: &str) -> (r: &str)
    ensures
        r@ == without_cr(s@),
{
    let n = s.unicode_len();
    if n > 0 && s.get_char(n - 1) == '\r' {
        s.substring_char(0, n - 1)
    } else {
        s
    }
}

/// The lines of `s`.
pub fn lines(s: &str) -> (r: Vec<&str>)
    ensures
        slices_view(r@) == text_lines(s@),
{
    let mut r: Vec<&str> = Vec::new();
    let mut rest: &str = s;
    assert(slices_view(r@) + text_lines(s@) =~= text_lines(s@));
    while !rest.is_empty()
        invariant
            slices_view(r@) + text_lines(rest@) == text_lines(s@),
        decreases rest@.len(),
    {
        let ghost sofar = slices_view(r@);
        let ghost whole = rest@;
        proof {
            lemma_find(whole, '\n');
        }
        let i = find_char(rest, '\n');
        let n = rest.unicode_len();
        let line: &str;
        if i >= n {
            line = rest;
            rest = rest.substring_char(n, n);
            assert(text_lines(rest@) =~= seq![]);
        } else {
            line = strip_cr(rest.substring_char(0, i));
            rest = rest.substring_char(i + 1, n);
        }
        r.push(line);
        assert(slices_view(r@) =~= sofar + seq![line@]);
        assert(sofar + (seq![line@] + text_lines(rest@)) =~= slices_view(r@) + text_lines(rest@));
        assert(text_lines(whole) =~= seq![line@] + text_lines(rest@));
    }
    assert(text_lines(rest@) =~= seq![]);
    assert(slices_view(r@) + text_lines(rest@) =~= slices_view(r@));
    r
}

proof fn lemma_trim_start_at(s: Seq<char>, i: int)
    requires
        0 <= i <= s.len(),
        forall|j: int| 0 <= j < i ==> white_space(s[j]),
        i < s.len() ==> !white_space(s[i]),
    ensures
        trim_start(s) == s.skip(i),
    decreases s.len(),
{
    if i == 0 {
        assert(s.skip(0) =~= s);
    } else {
        lemma_trim_start_at(s.drop_first(), i - 1);
        assert(s.drop_first().skip(i - 1) =~= s.skip(i));
    }
}

proof fn lemma_trim_end_at(s: Seq<char>, i: int)
    requires
        0 <= i <= s.len(),
        forall|j: int| i <= j < s.len() ==> white_space(s[j]),
        i > 0 ==> !white_space(s[i - 1]),
    ensures
        trim_end(s) == s.take(i),
    decreases s.len(),
{
    if i == s.len() {
        assert(s.take(i) =~= s);
    } else {
        lemma_trim_end_at(s.drop_last(), i);
        assert(s.drop_last().take(i) =~= s.take(i));
    }
}

proof fn lemma_word_len_at(s: Seq<char>, i: int)
    requires
        0 <= i <= s.len(),
        forall|j: int| 0 <= j < i ==> !white_space(s[j]),
        i < s.len() ==> white_space(s[i]),
    ensures
        word_len(s) == i,
    decreases s.len(),
{
    if i > 0 {
        lemma_word_len_at(s.drop_first(), i - 1);
    }
}

/// Position of the first character of `cs` that is no white space.
fn skip_white_space(cs: &Vec<char>) -> (i: usize)
    ensures
        i <= cs@.len(),
        trim_start(cs@) == cs@.skip(i as int),
        i < cs@.len() ==> !white_space(cs@[i as int]),
{
    let mut i: usize = 0;
    while i < cs.len() && is_white_space(cs[i])
        invariant
            i <= cs@.len(),
            forall|j: int| 0 <= j < i ==> white_space(cs@[j]),
        decreases cs@.len() - i,
    {
        i += 1;
    }
    proof {
        lemma_trim_start_at(cs@, i as int);
    }
    i
}

/// `s` without the white space at both ends.
pub fn trim(s: &str) -> (r: &str)
    ensures
        r@ == trimmed(s@),
{
    let cs = chars_of(s);
    let i = skip_white_space(&cs);
    let mut k: usize = cs.len();
    while k > i && is_white_space(cs[k - 1])
        invariant
            i <= k <= cs@.len(),
            forall|j: int| k <= j < cs@.len() ==> white_space(cs@[j]),
        decreases k,
    {
        k -= 1;
    }
    proof {
        let t = s@.skip(i as int);
        lemma_trim_end_at(t, k - i);
        assert(t.take(k - i) =~= s@.subrange(i as int, k as int));
    }
    s.substring_char(i, k)
}

/// The first run of characters of `s` that are not white space.
pub fn first_whitespace_separated(s: &str) -> (r: Option<&str>)
    ensures
        r is Some <==> first_word(s@) is Some,
        r matches Some(w) ==> first_word(s@) == Some(w@),
{
    let cs = chars_of(s);
    let i = skip_white_space(&cs);
    if i == cs.len() {
        return None;
    }
    let mut k: usize = i;
    while k < cs.len() && !is_white_space(cs[k])
        invariant
            i <= k <= cs@.len(),
            forall|j: int| i <= j < k ==> !white_space(cs@[j]),
        decreases cs@.len() - k,
    {
        k += 1;
    }
    proof {
        let t = s@.skip(i as int);
        lemma_word_len_at(t, k - i);
        assert(t.take(k - i) =~= s@.subrange(i as int, k as int));
    }
    Some(s.substring_char(i, k))
}

/// What follows `prefix` in `s`, where `s` starts with it.
pub fn strip_prefix<'a>(s: &'a str, prefix: &str) -> (r: Option<&'a str>)
    ensures
        r is Some <==> without_prefix(s@, prefix@) is Some,
        r matches Some(t) ==> without_prefix(s@, prefix@) == Some(t@),
{
    let cs = chars_of(s);
    let ps = chars_of(prefix);
    if ps.len() > cs.len() {
        return None;
    }
    let mut i: usize = 0;
    while i < ps.len()
        invariant
            ps@ == prefix@,
            cs@ == s@,
            i <= ps@.len() <= cs@.len(),
            forall|j: int| 0 <= j < i ==> ps@[j] == cs@[j],
        decreases ps@.len() - i,
    {
        if ps[i] != cs[i] {
            assert(prefix@[i as int] != s@.subrange(0, prefix@.len() as int)[i as int]);
            return None;
        }
        i += 1;
    }
    assert(prefix@ =~= s@.subrange(0, prefix@.len() as int));
    Some(s.substring_char(ps.len(), cs.len()))
}

/// Whether two texts are the same.
pub fn same_text(a: &str, b: &str) -> (r: bool)
    ensures
        r == (a@ == b@),
{
    match strip_prefix(a, b) {
        Some(rest) => {
            let r = rest.is_empty();
            proof {
                assert(a@ =~= a@.subrange(0, b@.len() as int) + rest@);
                if r {
                    assert(a@ =~= b@);
                }
            }
            r
        },
        None => {
            assert(a@ != b@) by {
                assert(a@.subrange(0, a@.len() as int) =~= a@);
            }
            false
        },
    }
}

/// Whether `names` holds `name`.
pub fn holds(names: &[String], name: &str) -> (r: bool)
    ensures
        r == strings_view(names@).contains(name@),
{
    let mut i: usize = 0;
    while i < names.len()
        invariant
            i <= names@.len(),
            forall|j: int| 0 <= j < i ==> names@[j]@ != name@,
        decreases names@.len() - i,
    {
        if same_text(names[i].as_str(), name) {
            assert(strings_view(names@)[i as int] == name@);
            return true;
        }
        i += 1;
    }
    false
}

/// The digit of value `d`, as a text of one character.
fn digit_text(d: u32) -> (r: &'static str)
    requires
        d < 10,
    ensures
        r@ == seq![digit(d as int)],
{
    proof {
        reveal_strlit("0");
        reveal_strlit("1");
        reveal_strlit("2");
        reveal_strlit("3");
        reveal_strlit("4");
        reveal_strlit("5");
        reveal_strlit("6");
        reveal_strlit("7");
        reveal_strlit("8");
        reveal_strlit("9");
    }
    match d {
        0 => "0",
        1 => "1",
        2 => "2",
        3 => "3",
        4 => "4",
        5 => "5",
        6 => "6",
        7 => "7",
        8 => "8",
        _ => "9",
    }
}

/// `n` in decimal.
pub fn decimal_text(n: u32) -> (r: String)
    ensures
        r@ == decimal(n as int),
    decreases n,
{
    let mut r: String = if n < 10 {
        String::new()
    } else {
        decimal_text(n / 10)
    };
    let ghost sofar = r@;
    r.append(digit_text(n % 10));
    assert(r@ =~= sofar.push(digit(n as int % 10)));
    r
}

proof fn lemma_decimal_nonempty(n: int)
    requires
        n >= 0,
    ensures
        decimal(n).len() > 0,
        decimal(n).len() == 1 <==> n < 10,
    decreases n,
{
    if n >= 10 {
        lemma_decimal_nonempty(n / 10);
    }
}

/// Different numbers are written differently.
pub proof fn law_decimal_is_injective(a: int, b: int)
    requires
        a >= 0,
        b >= 0,
        decimal(a) == decimal(b),
    ensures
        a == b,
    decreases a,
{
    lemma_decimal_nonempty(a);
    lemma_decimal_nonempty(b);
    let s = decimal(a);
    assert(s.last() == digit(a % 10));
    assert(s.last() == digit(b % 10));
    assert(a % 10 == b % 10);
    if a >= 10 {
        assert(s.drop_last() =~= decimal(a / 10));
        assert(s.drop_last() =~= decimal(b / 10));
        law_decimal_is_injective(a / 10, b / 10);
    }
}

/// A text that is cut in two is put together again by the character at which
/// it was cut, and the first part does not hold that character; a text that
/// does not hold the character is not cut.
pub proof fn law_cut_rejoins(s: Seq<char>, c: char)
    ensures
        match cut(s, c) {
            Some(parts) => parts.0 + seq![c] + parts.1 == s && !parts.0.contains(c),
            None => !s.contains(c),
        },
{
    lemma_find(s, c);
    if s.contains(c) {
        assert(before(s, c) + seq![c] + after(s, c) =~= s);
    }
}

/// Trimming takes away nothing but white space at the ends: what is left
/// neither starts nor ends with it.
pub proof fn law_trimmed_has_no_outer_space(s: Seq<char>)
    ensures
        trimmed(s).len() > 0 ==> !white_space(trimmed(s)[0]) && !white_space(trimmed(s).last()),
{
    lemma_trim_start(s);
    lemma_trim_end(trim_start(s));
}

proof fn lemma_trim_start(s: Seq<char>)
    ensures
        trim_start(s).len() <= s.len(),
        trim_start(s).len() > 0 ==> !white_space(trim_start(s)[0]),
    decreases s.len(),
{
    if s.len() > 0 && white_space(s[0]) {
        lemma_trim_start(s.drop_first());
    }
}

proof fn lemma_trim_end(s: Seq<char>)
    ensures
        trim_end(s).len() <= s.len(),
        trim_end(s).len() > 0 ==> !white_space(trim_end(s).last()) && trim_end(s)[0] == s[0],
    decreases s.len(),
{
    if s.len() > 0 && white_space(s.last()) {
        lemma_trim_end(s.drop_last());
    }
}

/// The first word of a text is not empty and holds no white space.
pub proof fn law_first_word_is_a_word(s: Seq<char>)
    ensures
        first_word(s) matches Some(word) ==> {
            &&& word.len() > 0
            &&& forall|i: int| 0 <= i < word.len() ==> !white_space(#[trigger] word[i])
        },
{
    lemma_trim_start(s);
    lemma_word_len(trim_start(s));
}

proof fn lemma_word_len(s: Seq<char>)
    ensures
        0 <= word_len(s) <= s.len(),
        s.len() > 0 && !white_space(s[0]) ==> word_len(s) > 0,
        forall|i: int| 0 <= i < word_len(s) ==> !white_space(#[trigger] s[i]),
    decreases s.len(),
{
    if s.len() > 0 && !white_space(s[0]) {
        let rest = s.drop_first();
        lemma_word_len(rest);
        assert forall|i: int| 0 <= i < word_len(s) implies !white_space(#[trigger] s[i]) by {
            if i > 0 {
                assert(s[i] == rest[i - 1]);
            }
        }
    }
}

/// The part in front of a character is the longest start of the text without
/// it: it is a start of the text, does not hold the character, and where it is
/// not the whole text the character follows.
pub proof fn law_before_ends_at_the_character(s: Seq<char>, c: char)
    ensures
        before(s, c).is_prefix_of(s),
        !before(s, c).contains(c),
        before(s, c).len() < s.len() ==> s[before(s, c).len() as int] == c,
{
    lemma_find(s, c);
}

/// A text that is cut at every occurrence of a character loses nothing else: no
/// piece holds the character, and the pieces, each followed by it, are the text
/// followed by it.
pub proof fn law_pieces_rejoin(s: Seq<char>, c: char)
    ensures
        pieces(s, c).len() > 0,
        forall|i: int| 0 <= i < pieces(s, c).len() ==> !(#[trigger] pieces(s, c)[i]).contains(c),
        pieces(s, c).map_values(|p: Seq<char>| p.push(c)).flatten() == s.push(c),
    decreases s.len(),
{
    let ended = |p: Seq<char>| p.push(c);
    let ps = pieces(s, c);
    lemma_find(s, c);
    law_before_ends_at_the_character(s, c);
    if find(s, c) >= s.len() {
        assert(ps.map_values(ended) =~= seq![s.push(c)]);
        seq![s.push(c)].lemma_flatten_one_element();
    } else {
        let rest = after(s, c);
        law_pieces_rejoin(rest, c);
        assert forall|i: int| 0 <= i < ps.len() implies !(#[trigger] ps[i]).contains(c) by {
            if i > 0 {
                assert(ps[i] == pieces(rest, c)[i - 1]);
            }
        }
        assert(ps.map_values(ended).drop_first() =~= pieces(rest, c).map_values(ended));
        assert(ps.map_values(ended).first() == before(s, c).push(c));
        assert(before(s, c).push(c) + rest.push(c) =~= s.push(c));
    }
}

/// The lines of a text are what stands between its line feeds, in order and
/// without a carriage return in front of the line feed; behind the last line
/// feed there is a line only where something stands there.
pub proof fn law_lines_are_what_line_feeds_end(s: Seq<char>)
    ensures
        ({
            let p = pieces(s, '\n');
            let n = p.len();
            &&& text_lines(s).len() == (if p[n - 1].len() == 0 {
                n - 1
            } else {
                n as int
            })
            &&& forall|i: int|
                0 <= i < n - 1 ==> #[trigger] text_lines(s)[i] == (if p[i].len() > 0
                    && p[i].last() == '\r' {
                    p[i].drop_last()
                } else {
                    p[i]
                })
            &&& p[n - 1].len() > 0 ==> text_lines(s)[n - 1] == p[n - 1]
        }),
    decreases s.len(),
{
    lemma_find(s, '\n');
    if s.len() > 0 && find(s, '\n') < s.len() {
        let rest = after(s, '\n');
        law_pieces_rejoin(rest, '\n');
        law_lines_are_what_line_feeds_end(rest);
        let p = pieces(s, '\n');
        let q = pieces(rest, '\n');
        assert(p.len() == q.len() + 1);
        assert(forall|i: int| 0 < i < p.len() ==> #[trigger] p[i] == q[i - 1]);
        assert(forall|i: int|
            0 < i < text_lines(s).len() ==> #[trigger] text_lines(s)[i] == text_lines(rest)[i - 1]);
        assert(p[p.len() - 1] == q[q.len() - 1]);
    }
}

/// Trimming takes away the white space at both ends, all of it and nothing
/// else.
pub proof fn law_trimming_takes_only_outer_space(s: Seq<char>)
    ensures
        exists|i: int, j: int|
            {
                &&& 0 <= i <= j <= s.len()
                &&& trimmed(s) == #[trigger] s.subrange(i, j)
                &&& forall|k: int| 0 <= k < i ==> white_space(#[trigger] s[k])
                &&& forall|k: int| j <= k < s.len() ==> white_space(#[trigger] s[k])
            },
        trimmed(s).len() > 0 ==> !white_space(trimmed(s)[0]) && !white_space(trimmed(s).last()),
{
    law_trimmed_has_no_outer_space(s);
    lemma_trim_start_takes(s);
    let t = trim_start(s);
    lemma_trim_end_takes(t);
    let i = s.len() - t.len();
    let j = i + trimmed(s).len();
    assert(trimmed(s) =~= s.subrange(i, j));
    assert forall|k: int| j <= k < s.len() implies white_space(#[trigger] s[k]) by {
        assert(s[k] == t[k - i]);
    }
}

proof fn lemma_trim_start_takes(s: Seq<char>)
    ensures
        trim_start(s).len() <= s.len(),
        trim_start(s) == s.skip(s.len() - trim_start(s).len()),
        forall|k: int| 0 <= k < s.len() - trim_start(s).len() ==> white_space(#[trigger] s[k]),
    decreases s.len(),
{
    if s.len() > 0 && white_space(s[0]) {
        let rest = s.drop_first();
        lemma_trim_start_takes(rest);
        assert(trim_start(s) =~= s.skip(s.len() - trim_start(s).len()));
        assert forall|k: int| 0 <= k < s.len() - trim_start(s).len() implies white_space(
            #[trigger] s[k],
        ) by {
            if k > 0 {
                assert(s[k] == rest[k - 1]);
            }
        }
    } else {
        assert(s.skip(0) =~= s);
    }
}

proof fn lemma_trim_end_takes(s: Seq<char>)
    ensures
        trim_end(s).len() <= s.len(),
        trim_end(s) == s.take(trim_end(s).len() as int),
        forall|k: int| trim_end(s).len() <= k < s.len() ==> white_space(#[trigger] s[k]),
    decreases s.len(),
{
    if s.len() > 0 && white_space(s.last()) {
        let rest = s.drop_last();
        lemma_trim_end_takes(rest);
        assert(trim_end(s) =~= s.take(trim_end(s).len() as int));
        assert forall|k: int| trim_end(s).len() <= k < s.len() implies white_space(
            #[trigger] s[k],
        ) by {
            if k < rest.len() {
                assert(s[k] == rest[k]);
            }
        }
    } else {
        assert(s.take(s.len() as int) =~= s);
    }
}

/// The first word of a text is its first run of characters that are not white
/// space, from its first character to its last; only a text of white space has
/// none.
pub proof fn law_first_word_is_the_first_run(s: Seq<char>)
    ensures
        match first_word(s) {
            Some(word) => exists|i: int, j: int|
                {
                    &&& 0 <= i < j <= s.len()
                    &&& word == #[trigger] s.subrange(i, j)
                    &&& forall|k: int| 0 <= k < i ==> white_space(#[trigger] s[k])
                    &&& forall|k: int| i <= k < j ==> !white_space(#[trigger] s[k])
                    &&& j < s.len() ==> white_space(s[j])
                },
            None => forall|k: int| 0 <= k < s.len() ==> white_space(#[trigger] s[k]),
        },
{
    lemma_trim_start(s);
    lemma_trim_start_takes(s);
    let t = trim_start(s);
    lemma_word_len(t);
    lemma_word_ends(t);
    let i = s.len() - t.len();
    let j = i + word_len(t);
    if t.len() > 0 {
        assert(t.take(word_len(t)) =~= s.subrange(i, j));
        assert forall|k: int| i <= k < j implies !white_space(#[trigger] s[k]) by {
            assert(s[k] == t[k - i]);
        }
        assert(j < s.len() ==> s[j] == t[j - i]);
    }
}

proof fn lemma_word_ends(s: Seq<char>)
    ensures
        0 <= word_len(s) <= s.len(),
        word_len(s) < s.len() ==> white_space(s[word_len(s)]),
    decreases s.len(),
{
    if s.len() > 0 && !white_space(s[0]) {
        lemma_word_ends(s.drop_first());
    }
}

/// A text starts with a prefix exactly where something follows the prefix in
/// it, and the two together are the text.
pub proof fn law_prefix_and_rest(s: Seq<char>, prefix: Seq<char>, rest: Seq<char>)
    ensures
        without_prefix(s, prefix) == Some(rest) <==> s == prefix + rest,
{
    let n = prefix.len() as int;
    if s == prefix + rest {
        assert(prefix =~= s.subrange(0, n));
        assert(s.skip(n) =~= rest);
    }
    if prefix.is_prefix_of(s) {
        assert(s =~= prefix + s.skip(n));
    }
}

/// Decimal notation: a single digit is its own notation, and a digit behind the
/// notation of a number is the notation of ten times that number and the digit.
pub proof fn law_decimal_is_positional(n: int, d: int)
    requires
        0 <= n,
        0 <= d < 10,
    ensures
        decimal(d) == seq![(48 + d) as char],
        n > 0 ==> decimal(n * 10 + d) == decimal(n).push((48 + d) as char),
{
    if n > 0 {
        assert((n * 10 + d) / 10 == n);
        assert((n * 10 + d) % 10 == d);
    }
}

/// The views of lists of texts keep every text in its place.
pub proof fn law_views_keep_texts(slices: Seq<&str>, strings: Seq<String>)
    ensures
        slices_view(slices).len() == slices.len(),
        forall|i: int| 0 <= i < slices.len() ==> #[trigger] slices_view(slices)[i] == slices[i]@,
        strings_view(strings).len() == strings.len(),
        forall|i: int|
            0 <= i < strings.len() ==> #[trigger] strings_view(strings)[i] == strings[i]@,
{
}

/// The white space of ASCII is the blank and the characters from the tab to the
/// carriage return.
pub proof fn law_ascii_white_space(c: char)
    requires
        c as u32 <= 0x7f,
    ensures
        white_space(c) <==> c as u32 == 32 || 9 <= c as u32 <= 13,
{
}

} // verus!
