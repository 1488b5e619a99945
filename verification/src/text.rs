//! Texts as sequences of characters: searching, cutting into lines,
//! trimming blanks, case folding and writing numbers.
use vstd::prelude::*;
use vstd::string::StrSliceExecFns;
use vstd::string::StringExecFns;

verus! {

/// The view of an optional text.
pub open spec fn opt_text(text: Option<String>) -> Option<Seq<char>> {
    match text {
        Some(t) => Some(t@),
        None => None,
    }
}

/// The views of a sequence of texts.
pub open spec fn texts(items: Seq<String>) -> Seq<Seq<char>> {
    Seq::new(items.len(), |i: int| items[i]@)
}

/// Whether `pat` stands in `hay` at offset `i`.
pub open spec fn occurs_at(hay: Seq<char>, pat: Seq<char>, i: int) -> bool {
    &&& 0 <= i
    &&& i + pat.len() <= hay.len()
    &&& hay.subrange(i, i + pat.len()) == pat
}

/// Whether `pat` stands somewhere in `hay`.
pub open spec fn contains_text(hay: Seq<char>, pat: Seq<char>) -> bool {
    exists|i: int| occurs_at(hay, pat, i)
}

/// Whether `hay` begins with `pat`.
pub open spec fn starts_with_text(hay: Seq<char>, pat: Seq<char>) -> bool {
    occurs_at(hay, pat, 0)
}

/// Whether `hay` ends with `pat`.
pub open spec fn ends_with_text(hay: Seq<char>, pat: Seq<char>) -> bool {
    occurs_at(hay, pat, hay.len() - pat.len())
}

/// The least offset from `from` on at which `pat` stands in `hay`.
pub open spec fn first_at(hay: Seq<char>, pat: Seq<char>, from: int) -> Option<int>
    decreases hay.len() - from,
{
    if from < 0 || from + pat.len() > hay.len() {
        None
    } else if occurs_at(hay, pat, from) {
        Some(from)
    } else if from >= hay.len() {
        None
    } else {
        first_at(hay, pat, from + 1)
    }
}

/// The least offset at which a text occurs, told from where it does not.
pub proof fn lemma_first_at(hay: Seq<char>, pat: Seq<char>, from: int, found: Option<int>)
    requires
        0 <= from,
        match found {
            Some(i) => from <= i && occurs_at(hay, pat, i) && forall|j: int|
                from <= j < i ==> !occurs_at(hay, pat, j),
            None => forall|j: int| from <= j ==> !occurs_at(hay, pat, j),
        },
    ensures
        first_at(hay, pat, from) == found,
    decreases hay.len() - from,
{
    if from + pat.len() > hay.len() {
    } else if occurs_at(hay, pat, from) {
    } else if from >= hay.len() {
    } else {
        lemma_first_at(hay, pat, from + 1, found);
    }
}

/// The length of a text with its first and its last character: enough to
/// tell the fixed words of a vocabulary apart.
pub open spec fn mark(s: Seq<char>) -> (nat, char, char) {
    (s.len(), s[0], s[s.len() - 1])
}

/// The lower-case form of an ASCII letter; any other character itself.
pub open spec fn ascii_lower_char(c: char) -> char {
    if 'A' <= c && c <= 'Z' {
        ((c as u8) + 32) as char
    } else {
        c
    }
}

/// A text with each ASCII capital replaced by its small letter.
pub open spec fn ascii_lowercase(s: Seq<char>) -> Seq<char> {
    Seq::new(s.len(), |i: int| ascii_lower_char(s[i]))
}

/// The text that `str::to_lowercase` gives for a text.
pub uninterp spec fn lowercase_text(s: Seq<char>) -> Seq<char>;

/// The characters of `s`, in order.
pub fn to_chars(s: &str) -> (v: Vec<char>)
    ensures
        v@ == s@,
{
    let mut v: Vec<char> = Vec::new();
    for c in it: s.chars()
        invariant
            v@ == it.seq().take(it.index()),
            it.seq() == s@,
    {
        v.push(c);
    }
    v
}

/// The characters of `hay` from `from` up to `to`.
pub(crate) fn slice_chars(hay: &Vec<char>, from: usize, to: usize) -> (v: Vec<char>)
    requires
        from <= to <= hay.len(),
    ensures
        v@ == hay@.subrange(from as int, to as int),
{
    let mut v: Vec<char> = Vec::new();
    let mut i: usize = from;
    while i < to
        invariant
            from <= i <= to <= hay.len(),
            v@ == hay@.subrange(from as int, i as int),
        decreases to - i,
    {
        v.push(hay[i]);
        i += 1;
    }
    v
}

/// Whether `pat` stands in `hay` at offset `i`.
pub fn matches_at(hay: &Vec<char>, i: usize, pat: &Vec<char>) -> (b: bool)
    ensures
        b == occurs_at(hay@, pat@, i as int),
{
    if pat.len() > hay.len() || i > hay.len() - pat.len() {
        return false;
    }
    let mut k: usize = 0;
    while k < pat.len()
        invariant
            k <= pat.len(),
            i + pat.len() <= hay.len(),
            forall|j: int| 0 <= j < k ==> hay@[i + j] == pat@[j],
        decreases pat.len() - k,
    {
        if hay[i + k] != pat[k] {
            proof {
                let cut = hay@.subrange(i as int, i + pat.len());
                assert(cut[k as int] == hay@[i + k]);
            }
            return false;
        }
        k += 1;
    }
    proof {
        assert(hay@.subrange(i as int, i + pat.len()) =~= pat@);
    }
    true
}

/// The least offset from `from` on at which `pat` stands in `hay`.
pub fn find_text(hay: &Vec<char>, pat: &Vec<char>, from: usize) -> (found: Option<usize>)
    ensures
        match found {
            Some(i) => from <= i && occurs_at(hay@, pat@, i as int) && forall|j: int|
                from <= j < i ==> !occurs_at(hay@, pat@, j),
            None => forall|j: int| from <= j ==> !occurs_at(hay@, pat@, j),
        },
        match found {
            Some(i) => first_at(hay@, pat@, from as int) == Some(i as int),
            None => first_at(hay@, pat@, from as int) is None,
        },
{
    let found = find_first(hay, pat, from);
    proof {
        lemma_first_at(
            hay@,
            pat@,
            from as int,
            match found {
                Some(i) => Some(i as int),
                None => None,
            },
        );
    }
    found
}

fn find_first(hay: &Vec<char>, pat: &Vec<char>, from: usize) -> (found: Option<usize>)
    ensures
        match found {
            Some(i) => from <= i && occurs_at(hay@, pat@, i as int) && forall|j: int|
                from <= j < i ==> !occurs_at(hay@, pat@, j),
            None => forall|j: int| from <= j ==> !occurs_at(hay@, pat@, j),
        },
{
    if pat.len() > hay.len() {
        return None;
    }
    let last: usize = hay.len() - pat.len();
    let mut i: usize = from;
    while i <= last
        invariant
            from <= i,
            last == hay.len() - pat.len(),
            forall|j: int| from <= j < i ==> !occurs_at(hay@, pat@, j),
        decreases last + 1 - i,
    {
        if matches_at(hay, i, pat) {
            return Some(i);
        }
        if i == last {
            return None;
        }
        i += 1;
    }
    None
}

/// Whether `pat` stands somewhere in `hay`.
pub fn contains(hay: &Vec<char>, pat: &Vec<char>) -> (b: bool)
    ensures
        b == contains_text(hay@, pat@),
{
    find_text(hay, pat, 0).is_some()
}

/// Whether the text `pat` stands somewhere in the characters `hay`.
pub(crate) fn holds(hay: &Vec<char>, pat: &str) -> (b: bool)
    ensures
        b == contains_text(hay@, pat@),
{
    let p = to_chars(pat);
    contains(hay, &p)
}

/// Whether the text `pat` stands somewhere in the text `hay`.
pub fn str_contains(hay: &str, pat: &str) -> (b: bool)
    ensures
        b == contains_text(hay@, pat@),
{
    let h = to_chars(hay);
    let p = to_chars(pat);
    contains(&h, &p)
}

/// Whether two texts hold the same characters.
pub fn str_equals(a: &str, b: &str) -> (same: bool)
    ensures
        same == (a@ == b@),
{
    let x = to_chars(a);
    let y = to_chars(b);
    if x.len() != y.len() {
        return false;
    }
    let same = matches_at(&x, 0, &y);
    proof {
        assert(x@.subrange(0, x@.len() as int) =~= x@);
    }
    same
}

/// The text in lower case, as Unicode defines it.
pub fn lowercase(s: &str) -> (lower: String)
    ensures
        lower@ == lowercase_text(s@),
{
    std_lowercase(s)
}

/// `str::to_lowercase`. The result is named, not described: what the
/// lower case of a text is takes the tables of Unicode to say.
#[verifier::external_body]
fn std_lowercase(s: &str) -> (lower: String)
    ensures
        lower@ == lowercase_text(s@),
{
    s.to_lowercase()
}

/// The text that the `Debug` form of a `str` writes: the text between
/// double quotes, with what cannot be shown escaped.
pub uninterp spec fn debug_text(s: Seq<char>) -> Seq<char>;

/// The text between double quotes, as its `Debug` form writes it.
pub fn quoted(s: &str) -> (q: String)
    ensures
        q@ == debug_text(s@),
{
    std_debug(s)
}

/// The `Debug` form of a `str`, written by `format!`. The result is named,
/// not described.
#[verifier::external_body]
fn std_debug(s: &str) -> (q: String)
    ensures
        q@ == debug_text(s@),
{
    format!("{:?}", s)
}

/// The decimal digits of `n`, most significant first.
pub open spec fn decimal_text(n: nat) -> Seq<char>
    decreases n,
{
    if n < 10 {
        seq![digit_char(n)]
    } else {
        decimal_text(n / 10).push(digit_char(n % 10))
    }
}

/// The character for a digit below ten.
pub open spec fn digit_char(d: nat) -> char {
    if d == 0 {
        '0'
    } else if d == 1 {
        '1'
    } else if d == 2 {
        '2'
    } else if d == 3 {
        '3'
    } else if d == 4 {
        '4'
    } else if d == 5 {
        '5'
    } else if d == 6 {
        '6'
    } else if d == 7 {
        '7'
    } else if d == 8 {
        '8'
    } else {
        '9'
    }
}

fn digit_str(d: u64) -> (s: &'static str)
    requires
        d < 10,
    ensures
        s@ == seq![digit_char(d as nat)],
{
    proof {
        reveal_strlit("0");
        reveal_strlit("1");
        reveal_strlit("2");
        reveal_strlit("3");
        reveal_strlit("4");
        reveal_strlit("5");
        reveal_strlit("6");
        reveal_strlit("7");
        reveal_strlit("8");
        reveal_strlit("9");
    }
    let s = if d == 0 {
        "0"
    } else if d == 1 {
        "1"
    } else if d == 2 {
        "2"
    } else if d == 3 {
        "3"
    } else if d == 4 {
        "4"
    } else if d == 5 {
        "5"
    } else if d == 6 {
        "6"
    } else if d == 7 {
        "7"
    } else if d == 8 {
        "8"
    } else {
        "9"
    };
    assert(s@ =~= seq![digit_char(d as nat)]);
    s
}

/// `n` written in decimal.
pub fn number_text(n: u64) -> (s: String)
    ensures
        s@ == decimal_text(n as nat),
    decreases n,
{
    if n < 10 {
        String::from_str(digit_str(n))
    } else {
        let mut s = number_text(n / 10);
        s.append(digit_str(n % 10));
        assert(s@ =~= decimal_text((n / 10) as nat).push(digit_char((n % 10) as nat)));
        s
    }
}

/// The offset of the first `c` in a text; its length where it has none.
pub open spec fn char_pos(s: Seq<char>, c: char) -> nat
    decreases s.len(),
{
    if s.len() == 0 || s[0] == c {
        0
    } else {
        1 + char_pos(s.drop_first(), c)
    }
}

/// Where the first `c` of a text stands, told from what stands before it.
pub proof fn lemma_char_pos(s: Seq<char>, c: char, k: int)
    requires
        0 <= k <= s.len(),
        forall|j: int| 0 <= j < k ==> s[j] != c,
        k == s.len() || s[k] == c,
    ensures
        char_pos(s, c) == k,
    decreases s.len(),
{
    if k > 0 {
        let rest = s.drop_first();
        assert forall|j: int| 0 <= j < k - 1 implies rest[j] != c by {
            assert(rest[j] == s[j + 1]);
        }
        if k < s.len() {
            assert(rest[k - 1] == s[k]);
        }
        lemma_char_pos(rest, c, k - 1);
    }
}

/// The offset of the last `.` of a text; 0 where it has none.
pub open spec fn last_dot(s: Seq<char>) -> nat
    decreases s.len(),
{
    if s.len() == 0 {
        0
    } else if s.last() == '.' {
        (s.len() - 1) as nat
    } else {
        last_dot(s.drop_last())
    }
}

/// A file name without its extension: what stands before its last dot,
/// or all of it where it has no dot but, at most, a first one.
pub open spec fn stem_of(name: Seq<char>) -> Seq<char> {
    if last_dot(name) == 0 {
        name
    } else {
        name.take(last_dot(name) as int)
    }
}

/// Whether a file name has the extension `md`.
pub open spec fn is_markdown_name(name: Seq<char>) -> bool {
    last_dot(name) > 0 && name.skip(last_dot(name) as int + 1) == "md"@
}

/// Where the last dot of a text stands, told from what stands behind it.
pub proof fn lemma_last_dot(s: Seq<char>, k: int)
    requires
        0 <= k < s.len(),
        s[k] == '.',
        forall|j: int| k < j < s.len() ==> s[j] != '.',
    ensures
        last_dot(s) == k,
    decreases s.len(),
{
    if s.last() != '.' {
        lemma_last_dot(s.drop_last(), k);
    }
}

/// A text without a dot has no last dot.
pub proof fn lemma_no_dot(s: Seq<char>)
    requires
        forall|j: int| 0 <= j < s.len() ==> s[j] != '.',
    ensures
        last_dot(s) == 0,
    decreases s.len(),
{
    if s.len() > 0 {
        lemma_no_dot(s.drop_last());
    }
}

/// The offset of the last dot of `hay`, if it has a dot.
pub fn find_last_dot(hay: &Vec<char>) -> (found: Option<usize>)
    ensures
        match found {
            Some(k) => k < hay@.len() && hay@[k as int] == '.' && last_dot(hay@) == k,
            None => last_dot(hay@) == 0 && forall|j: int| 0 <= j < hay@.len() ==> hay@[j] != '.',
        },
{
    let mut k: usize = hay.len();
    while k > 0
        invariant
            k <= hay@.len(),
            forall|j: int| k <= j < hay@.len() ==> hay@[j] != '.',
        decreases k,
    {
        k -= 1;
        if hay[k] == '.' {
            proof {
                lemma_last_dot(hay@, k as int);
            }
            return Some(k);
        }
    }
    proof {
        lemma_no_dot(hay@);
    }
    None
}

/// The offset of the first line break of a text; its length where it has
/// none.
pub open spec fn newline_pos(s: Seq<char>) -> nat
    decreases s.len(),
{
    if s.len() == 0 || s[0] == '\n' {
        0
    } else {
        1 + newline_pos(s.drop_first())
    }
}

/// A line without the carriage return that may end it.
pub open spec fn strip_cr(line: Seq<char>) -> Seq<char> {
    if line.len() > 0 && line.last() == '\r' {
        line.drop_last()
    } else {
        line
    }
}

/// The lines of a text. A line ends at a line break, which is not part of
/// it, nor is a carriage return just before the break; the last line
/// needs no break; a text that ends with a break has no empty line after
/// it.
pub open spec fn split_lines(s: Seq<char>) -> Seq<Seq<char>>
    decreases s.len(),
{
    if s.len() == 0 {
        Seq::empty()
    } else {
        let end = newline_pos(s);
        if end >= s.len() {
            seq![strip_cr(s)]
        } else {
            seq![strip_cr(s.take(end as int))] + split_lines(s.skip(end as int + 1))
        }
    }
}

/// Where the first line break of a text stands, told from what stands
/// before it.
pub proof fn lemma_newline_pos(s: Seq<char>, k: int)
    requires
        0 <= k <= s.len(),
        forall|j: int| 0 <= j < k ==> s[j] != '\n',
        k == s.len() || s[k] == '\n',
    ensures
        newline_pos(s) == k,
    decreases s.len(),
{
    if k > 0 {
        let rest = s.drop_first();
        assert forall|j: int| 0 <= j < k - 1 implies rest[j] != '\n' by {
            assert(rest[j] == s[j + 1]);
        }
        if k < s.len() {
            assert(rest[k - 1] == s[k]);
        }
        lemma_newline_pos(rest, k - 1);
    }
}

/// The spans of the lines of `hay`: for each line the offsets at which it
/// begins and ends.
pub fn line_spans(hay: &Vec<char>) -> (spans: Vec<(usize, usize)>)
    ensures
        spans@.len() == split_lines(hay@).len(),
        forall|k: int|
            0 <= k < spans@.len() ==> (#[trigger] spans@[k]).0 <= spans@[k].1 <= hay@.len()
                && hay@.subrange(spans@[k].0 as int, spans@[k].1 as int) == split_lines(hay@)[k],
{
    let mut spans: Vec<(usize, usize)> = Vec::new();
    let len: usize = hay.len();
    let mut pos: usize = 0;
    let ghost mut done: Seq<Seq<char>> = Seq::empty();
    assert(hay@.skip(0) =~= hay@);
    while pos < len
        invariant
            pos <= len,
            len == hay@.len(),
            spans@.len() == done.len(),
            split_lines(hay@) == done + split_lines(hay@.skip(pos as int)),
            forall|k: int|
                0 <= k < spans@.len() ==> (#[trigger] spans@[k]).0 <= spans@[k].1 <= hay@.len()
                    && hay@.subrange(spans@[k].0 as int, spans@[k].1 as int) == done[k],
        decreases len - pos,
    {
        let mut end: usize = pos;
        while end < len && hay[end] != '\n'
            invariant
                pos <= end <= len,
                len == hay@.len(),
                forall|j: int| pos <= j < end ==> hay@[j] != '\n',
            decreases len - end,
        {
            end += 1;
        }
        let ghost rest = hay@.skip(pos as int);
        proof {
            assert forall|j: int| 0 <= j < end - pos implies rest[j] != '\n' by {
                assert(rest[j] == hay@[pos + j]);
            }
            lemma_newline_pos(rest, end - pos);
        }
        let stop: usize = if end > pos && hay[end - 1] == '\r' {
            end - 1
        } else {
            end
        };
        let ghost raw_line = hay@.subrange(pos as int, end as int);
        let ghost line = strip_cr(raw_line);
        proof {
            assert(hay@.subrange(pos as int, stop as int) =~= line);
            if end < len {
                assert(rest.take(end - pos) =~= raw_line);
                assert(rest.skip(end - pos + 1) =~= hay@.skip(end + 1));
                assert(split_lines(rest) == seq![line] + split_lines(hay@.skip(end + 1)));
            } else {
                assert(rest =~= raw_line);
                assert(split_lines(rest) == seq![line]);
                assert(hay@.skip(len as int) =~= Seq::<char>::empty());
            }
        }
        spans.push((pos, stop));
        proof {
            let next: int = if end < len {
                end + 1
            } else {
                len as int
            };
            assert(split_lines(hay@) =~= done.push(line) + split_lines(hay@.skip(next)));
            done = done.push(line);
        }
        if end < len {
            pos = end + 1;
        } else {
            pos = len;
        }
    }
    proof {
        assert(hay@.skip(len as int) =~= Seq::<char>::empty());
        assert(split_lines(hay@) =~= done);
    }
    spans
}

/// Whether a character is a blank: a space or a tab.
pub open spec fn is_blank(c: char) -> bool {
    c == ' ' || c == '\t'
}

/// How many blanks a text begins with.
pub open spec fn leading_blanks(s: Seq<char>) -> nat
    decreases s.len(),
{
    if s.len() > 0 && is_blank(s[0]) {
        1 + leading_blanks(s.drop_first())
    } else {
        0
    }
}

/// How many blanks a text ends with.
pub open spec fn trailing_blanks(s: Seq<char>) -> nat
    decreases s.len(),
{
    if s.len() > 0 && is_blank(s.last()) {
        1 + trailing_blanks(s.drop_last())
    } else {
        0
    }
}

/// How many characters stand before the first blank of a text.
pub open spec fn word_len(s: Seq<char>) -> nat
    decreases s.len(),
{
    if s.len() > 0 && !is_blank(s[0]) {
        1 + word_len(s.drop_first())
    } else {
        0
    }
}

/// A text without the blanks at its two ends.
pub open spec fn trim_blanks(s: Seq<char>) -> Seq<char> {
    let rest = s.skip(leading_blanks(s) as int);
    rest.take(rest.len() - trailing_blanks(rest))
}

/// The first word of a text: what stands before its first blank.
pub open spec fn first_word(s: Seq<char>) -> Seq<char> {
    s.take(word_len(s) as int)
}

/// How many blanks a text begins with, told from where they end.
pub proof fn lemma_leading_blanks(s: Seq<char>, k: int)
    requires
        0 <= k <= s.len(),
        forall|j: int| 0 <= j < k ==> is_blank(s[j]),
        k == s.len() || !is_blank(s[k]),
    ensures
        leading_blanks(s) == k,
    decreases s.len(),
{
    if k > 0 {
        let rest = s.drop_first();
        assert forall|j: int| 0 <= j < k - 1 implies is_blank(rest[j]) by {
            assert(rest[j] == s[j + 1]);
        }
        if k < s.len() {
            assert(rest[k - 1] == s[k]);
        }
        lemma_leading_blanks(rest, k - 1);
    }
}

/// How many blanks a text ends with, told from where they begin.
pub proof fn lemma_trailing_blanks(s: Seq<char>, k: int)
    requires
        0 <= k <= s.len(),
        forall|j: int| s.len() - k <= j < s.len() ==> is_blank(s[j]),
        k == s.len() || !is_blank(s[s.len() - k - 1]),
    ensures
        trailing_blanks(s) == k,
    decreases s.len(),
{
    if k > 0 {
        let rest = s.drop_last();
        assert forall|j: int| rest.len() - (k - 1) <= j < rest.len() implies is_blank(rest[j]) by {
            assert(rest[j] == s[j]);
        }
        if k < s.len() {
            assert(rest[rest.len() - (k - 1) - 1] == s[s.len() - k - 1]);
        }
        lemma_trailing_blanks(rest, k - 1);
    }
}

/// How long the first word of a text is, told from where it ends.
pub proof fn lemma_word_len(s: Seq<char>, k: int)
    requires
        0 <= k <= s.len(),
        forall|j: int| 0 <= j < k ==> !is_blank(s[j]),
        k == s.len() || is_blank(s[k]),
    ensures
        word_len(s) == k,
    decreases s.len(),
{
    if k > 0 {
        let rest = s.drop_first();
        assert forall|j: int| 0 <= j < k - 1 implies !is_blank(rest[j]) by {
            assert(rest[j] == s[j + 1]);
        }
        if k < s.len() {
            assert(rest[k - 1] == s[k]);
        }
        lemma_word_len(rest, k - 1);
    }
}

/// The span of `hay` between `from` and `to` without the blanks at its
/// two ends.
pub(crate) fn trim_span(hay: &Vec<char>, from: usize, to: usize) -> (span: (usize, usize))
    requires
        from <= to <= hay.len(),
    ensures
        from <= span.0 <= span.1 <= to,
        hay@.subrange(span.0 as int, span.1 as int) == trim_blanks(
            hay@.subrange(from as int, to as int),
        ),
{
    let ghost whole = hay@.subrange(from as int, to as int);
    let mut a: usize = from;
    while a < to && (hay[a] == ' ' || hay[a] == '\t')
        invariant
            from <= a <= to <= hay.len(),
            forall|j: int| from <= j < a ==> is_blank(hay@[j]),
        decreases to - a,
    {
        a += 1;
    }
    proof {
        assert forall|j: int| 0 <= j < a - from implies is_blank(whole[j]) by {
            assert(whole[j] == hay@[from + j]);
        }
        lemma_leading_blanks(whole, a - from);
    }
    let ghost rest = whole.skip(a - from);
    assert(rest =~= hay@.subrange(a as int, to as int));
    let mut b: usize = to;
    while b > a && (hay[b - 1] == ' ' || hay[b - 1] == '\t')
        invariant
            a <= b <= to <= hay.len(),
            forall|j: int| b <= j < to ==> is_blank(hay@[j]),
        decreases b,
    {
        b -= 1;
    }
    proof {
        assert forall|j: int| rest.len() - (to - b) <= j < rest.len() implies is_blank(rest[j]) by {
            assert(rest[j] == hay@[a + j]);
        }
        if to - b < rest.len() {
            assert(rest[rest.len() - (to - b) - 1] == hay@[b - 1]);
        }
        lemma_trailing_blanks(rest, to - b);
        assert(hay@.subrange(a as int, b as int) =~= rest.take(rest.len() - (to - b)));
    }
    (a, b)
}

/// Where the first word of the span of `hay` between `from` and `to`
/// ends.
pub(crate) fn word_end(hay: &Vec<char>, from: usize, to: usize) -> (end: usize)
    requires
        from <= to <= hay.len(),
    ensures
        from <= end <= to,
        hay@.subrange(from as int, end as int) == first_word(hay@.subrange(from as int, to as int)),
{
    let ghost whole = hay@.subrange(from as int, to as int);
    let mut end: usize = from;
    while end < to && !(hay[end] == ' ' || hay[end] == '\t')
        invariant
            from <= end <= to <= hay.len(),
            forall|j: int| from <= j < end ==> !is_blank(hay@[j]),
        decreases to - end,
    {
        end += 1;
    }
    proof {
        assert forall|j: int| 0 <= j < end - from implies !is_blank(whole[j]) by {
            assert(whole[j] == hay@[from + j]);
        }
        lemma_word_len(whole, end - from);
        assert(hay@.subrange(from as int, end as int) =~= whole.take(end - from));
    }
    end
}

/// The characters of `hay` with each ASCII capital replaced by its small
/// letter.
pub fn to_ascii_lowercase(hay: &Vec<char>) -> (lower: Vec<char>)
    ensures
        lower@ == ascii_lowercase(hay@),
{
    let mut lower: Vec<char> = Vec::new();
    let mut i: usize = 0;
    while i < hay.len()
        invariant
            i <= hay@.len(),
            lower@.len() == i,
            forall|j: int| 0 <= j < i ==> lower@[j] == ascii_lower_char(hay@[j]),
        decreases hay@.len() - i,
    {
        let c = hay[i];
        lower.push(small_letter(c));
        i += 1;
    }
    assert(lower@ =~= ascii_lowercase(hay@));
    lower
}

/// The small letter for an ASCII capital; any other character itself.
pub fn small_letter(c: char) -> (lower: char)
    ensures
        lower == ascii_lower_char(c),
{
    if c == 'A' {
        'a'
    } else if c == 'B' {
        'b'
    } else if c == 'C' {
        'c'
    } else if c == 'D' {
        'd'
    } else if c == 'E' {
        'e'
    } else if c == 'F' {
        'f'
    } else if c == 'G' {
        'g'
    } else if c == 'H' {
        'h'
    } else if c == 'I' {
        'i'
    } else if c == 'J' {
        'j'
    } else if c == 'K' {
        'k'
    } else if c == 'L' {
        'l'
    } else if c == 'M' {
        'm'
    } else if c == 'N' {
        'n'
    } else if c == 'O' {
        'o'
    } else if c == 'P' {
        'p'
    } else if c == 'Q' {
        'q'
    } else if c == 'R' {
        'r'
    } else if c == 'S' {
        's'
    } else if c == 'T' {
        't'
    } else if c == 'U' {
        'u'
    } else if c == 'V' {
        'v'
    } else if c == 'W' {
        'w'
    } else if c == 'X' {
        'x'
    } else if c == 'Y' {
        'y'
    } else if c == 'Z' {
        'z'
    } else {
        c
    }
}

/// The first offset from `from` up to `to` at which `c` stands in `hay`.
pub(crate) fn find_char(hay: &Vec<char>, from: usize, to: usize, c: char) -> (found: Option<usize>)
    requires
        from <= to <= hay.len(),
    ensures
        match found {
            Some(i) => from <= i < to && hay@[i as int] == c && forall|j: int|
                from <= j < i ==> hay@[j] != c,
            None => forall|j: int| from <= j < to ==> hay@[j] != c,
        },
{
    let mut i: usize = from;
    while i < to
        invariant
            from <= i <= to <= hay.len(),
            forall|j: int| from <= j < i ==> hay@[j] != c,
        decreases to - i,
    {
        if hay[i] == c {
            return Some(i);
        }
        i += 1;
    }
    None
}

/// Whether a text holds no line break.
pub open spec fn is_single_line(s: Seq<char>) -> bool {
    forall|i: int| 0 <= i < s.len() ==> s[i] != '\n'
}

/// The text of a sequence of lines: each line with a line break behind
/// it.
pub open spec fn joined(lines: Seq<Seq<char>>) -> Seq<char>
    decreases lines.len(),
{
    if lines.len() == 0 {
        Seq::empty()
    } else {
        lines[0] + seq!['\n'] + joined(lines.drop_first())
    }
}

/// Each line without the carriage return that may end it.
pub open spec fn stripped(lines: Seq<Seq<char>>) -> Seq<Seq<char>> {
    Seq::new(lines.len(), |i: int| strip_cr(lines[i]))
}

/// A text that begins with a line and its break is split into that line
/// and the lines of what follows.
pub proof fn lemma_first_line(line: Seq<char>, rest: Seq<char>)
    requires
        is_single_line(line),
    ensures
        split_lines(line + seq!['\n'] + rest) == seq![strip_cr(line)] + split_lines(rest),
{
    let s = line + seq!['\n'] + rest;
    let at = line.len() as int;
    assert forall|j: int| 0 <= j < at implies s[j] != '\n' by {
        assert(s[j] == line[j]);
    }
    assert(s[at] == '\n');
    lemma_newline_pos(s, at);
    assert(s.take(at) =~= line);
    assert(s.skip(at + 1) =~= rest);
}

/// A text that begins with lines, each with its break, is split into
/// those lines and the lines of what follows.
pub proof fn lemma_split_joined(lines: Seq<Seq<char>>, rest: Seq<char>)
    requires
        forall|i: int| 0 <= i < lines.len() ==> is_single_line(#[trigger] lines[i]),
    ensures
        split_lines(joined(lines) + rest) == stripped(lines) + split_lines(rest),
    decreases lines.len(),
{
    if lines.len() == 0 {
        assert(joined(lines) + rest =~= rest);
        assert(stripped(lines) + split_lines(rest) =~= split_lines(rest));
    } else {
        let tail = lines.drop_first();
        assert forall|i: int| 0 <= i < tail.len() implies is_single_line(#[trigger] tail[i]) by {
            assert(tail[i] == lines[i + 1]);
        }
        lemma_split_joined(tail, rest);
        lemma_first_line(lines[0], joined(tail) + rest);
        assert(joined(lines) + rest =~= lines[0] + seq!['\n'] + (joined(tail) + rest));
        assert(stripped(lines) =~= seq![strip_cr(lines[0])] + stripped(tail));
        assert(stripped(lines) + split_lines(rest) =~= seq![strip_cr(lines[0])] + (stripped(tail)
            + split_lines(rest)));
    }
}

/// One more line behind a sequence of lines comes last in their text.
pub proof fn lemma_joined_push(lines: Seq<Seq<char>>, line: Seq<char>)
    ensures
        joined(lines.push(line)) == joined(lines) + line + seq!['\n'],
    decreases lines.len(),
{
    if lines.len() == 0 {
        let rest = lines.push(line).drop_first();
        assert(rest =~= Seq::<Seq<char>>::empty());
        assert(joined(rest) =~= Seq::<char>::empty());
        assert(lines.push(line)[0] == line);
        assert(joined(lines.push(line)) =~= line + seq!['\n']);
        assert(joined(lines) + line + seq!['\n'] =~= line + seq!['\n']);
    } else {
        let more = lines.push(line);
        assert(more.drop_first() =~= lines.drop_first().push(line));
        lemma_joined_push(lines.drop_first(), line);
        assert(joined(more) =~= joined(lines) + line + seq!['\n']);
    }
}

/// Whether a file name has the extension `md`.
pub fn has_markdown_extension(file_name: &str) -> (is: bool)
    ensures
        is == is_markdown_name(file_name@),
{
    let chars = to_chars(file_name);
    match find_last_dot(&chars) {
        Some(k) => {
            if k == 0 {
                false
            } else {
                let len: usize = chars.len();
                let rest = slice_chars(&chars, k + 1, len);
                assert(rest@ =~= file_name@.skip(k as int + 1));
                let md = to_chars("md");
                if rest.len() != md.len() {
                    return false;
                }
                let same = matches_at(&rest, 0, &md);
                proof {
                    assert(rest@.subrange(0, rest@.len() as int) =~= rest@);
                }
                same
            }
        },
        None => false,
    }
}

/// A text with each space replaced by an underscore.
pub open spec fn underscored(s: Seq<char>) -> Seq<char> {
    Seq::new(
        s.len(),
        |i: int|
            if s[i] == ' ' {
                '_'
            } else {
                s[i]
            },
    )
}

/// The text with each space replaced by an underscore.
pub fn replace_spaces(text: &str) -> (out: String)
    ensures
        out@ == underscored(text@),
{
    let chars = to_chars(text);
    let mut out = String::new();
    let mut i: usize = 0;
    while i < chars.len()
        invariant
            i <= chars@.len(),
            chars@ == text@,
            out@ == underscored(text@).take(i as int),
        decreases chars@.len() - i,
    {
        let ghost before = out@;
        if chars[i] == ' ' {
            proof {
                reveal_strlit("_");
            }
            out.append("_");
            assert(out@ =~= before.push('_'));
        } else {
            let one = text.substring_char(i, i + 1);
            assert(one@ =~= seq![text@[i as int]]);
            out.append(one);
            assert(out@ =~= before.push(text@[i as int]));
        }
        assert(out@ =~= underscored(text@).take(i + 1));
        i += 1;
    }
    assert(underscored(text@).take(i as int) =~= underscored(text@));
    out
}

} // verus!
