//! Text as sequences of characters: classes of characters, runs at either
//! end of a text, lines, separated fields and words.
//!
//! Specifications speak of `Seq<char>`; the executable functions work on a
//! `Vec<char>` and hand out positions, so that no text is copied while it is
//! being taken apart.

use vstd::prelude::*;
use vstd::string::StrSliceExecFns;
use vstd::string::StringExecFns;
use vstd::utf8::encode_utf8;
use vstd::utf8::encode_utf8_decode_utf8;

verus! {

/// Whether `c` has the Unicode `White_Space` property.
pub open spec fn is_whitespace(c: char) -> bool {
    let n = c as u32;
    ||| 0x09 <= n <= 0x0D
    ||| n == 0x20
    ||| n == 0x85
    ||| n == 0xA0
    ||| n == 0x1680
    ||| 0x2000 <= n <= 0x200A
    ||| n == 0x2028
    ||| n == 0x2029
    ||| n == 0x202F
    ||| n == 0x205F
    ||| n == 0x3000
}

/// Whether `c` is an ASCII letter or digit.
pub open spec fn is_ascii_alphanumeric(c: char) -> bool {
    let n = c as u32;
    ||| 0x30 <= n <= 0x39
    ||| 0x41 <= n <= 0x5A
    ||| 0x61 <= n <= 0x7A
}

pub fn whitespace(c: char) -> (b: bool)
    ensures
        b == is_whitespace(c),
{
    let n: u32 = c as u32;
    (0x09 <= n && n <= 0x0D) || n == 0x20 || n == 0x85 || n == 0xA0 || n == 0x1680 || (0x2000 <= n
        && n <= 0x200A) || n == 0x2028 || n == 0x2029 || n == 0x202F || n == 0x205F || n == 0x3000
}

pub fn ascii_alphanumeric(c: char) -> (b: bool)
    ensures
        b == is_ascii_alphanumeric(c),
{
    let n: u32 = c as u32;
    (0x30 <= n && n <= 0x39) || (0x41 <= n && n <= 0x5A) || (0x61 <= n && n <= 0x7A)
}

/// A set of characters by which a run of text is delimited.
#[derive(Clone, Copy, Debug)]
pub enum CharClass {
    /// The characters with the `White_Space` property.
    Whitespace,
    /// The characters without it.
    NonWhitespace,
    /// Every character but the given one.
    Not(char),
}

impl CharClass {
    pub open spec fn contains(self, c: char) -> bool {
        match self {
            CharClass::Whitespace => is_whitespace(c),
            CharClass::NonWhitespace => !is_whitespace(c),
            CharClass::Not(x) => c != x,
        }
    }

    pub fn has(self, c: char) -> (b: bool)
        ensures
            b == self.contains(c),
    {
        match self {
            CharClass::Whitespace => whitespace(c),
            CharClass::NonWhitespace => !whitespace(c),
            CharClass::Not(x) => c != x,
        }
    }
}

/// Length of the longest prefix of `s` whose characters all belong to `class`.
pub open spec fn prefix_len(s: Seq<char>, class: CharClass) -> nat
    decreases s.len(),
{
    if s.len() > 0 && class.contains(s[0]) {
        1 + prefix_len(s.drop_first(), class)
    } else {
        0
    }
}

/// Length of the longest suffix of `s` whose characters all belong to `class`.
pub open spec fn suffix_len(s: Seq<char>, class: CharClass) -> nat
    decreases s.len(),
{
    if s.len() > 0 && class.contains(s.last()) {
        1 + suffix_len(s.drop_last(), class)
    } else {
        0
    }
}

/// `prefix_len` is the one `n` such that the first `n` characters are in the
/// class and the next one, if there is one, is not.
pub proof fn lemma_prefix_len(s: Seq<char>, class: CharClass, n: nat)
    requires
        n <= s.len(),
        forall|k: int| 0 <= k < n ==> class.contains(#[trigger] s[k]),
        n < s.len() ==> !class.contains(s[n as int]),
    ensures
        prefix_len(s, class) == n,
    decreases n,
{
    if n > 0 {
        let t = s.drop_first();
        assert forall|k: int| 0 <= k < n - 1 implies class.contains(#[trigger] t[k]) by {
            assert(t[k] == s[k + 1]);
        }
        lemma_prefix_len(t, class, (n - 1) as nat);
    }
}

/// The converse of `lemma_prefix_len`.
pub proof fn lemma_prefix_len_bounds(s: Seq<char>, class: CharClass)
    ensures
        prefix_len(s, class) <= s.len(),
        forall|k: int| 0 <= k < prefix_len(s, class) ==> class.contains(#[trigger] s[k]),
        prefix_len(s, class) < s.len() ==> !class.contains(s[prefix_len(s, class) as int]),
    decreases s.len(),
{
    if s.len() > 0 && class.contains(s[0]) {
        let t = s.drop_first();
        lemma_prefix_len_bounds(t, class);
        assert forall|k: int| 0 <= k < prefix_len(s, class) implies class.contains(
            #[trigger] s[k],
        ) by {
            if k > 0 {
                assert(s[k] == t[k - 1]);
            }
        }
    }
}

/// `suffix_len` is the one `n` such that the last `n` characters are in the
/// class and the one before them, if there is one, is not.
pub proof fn lemma_suffix_len(s: Seq<char>, class: CharClass, n: nat)
    requires
        n <= s.len(),
        forall|k: int| s.len() - n <= k < s.len() ==> class.contains(#[trigger] s[k]),
        n < s.len() ==> !class.contains(s[s.len() - n - 1]),
    ensures
        suffix_len(s, class) == n,
    decreases n,
{
    if n > 0 {
        let t = s.drop_last();
        assert forall|k: int| t.len() - (n - 1) <= k < t.len() implies class.contains(
            #[trigger] t[k],
        ) by {
            assert(t[k] == s[k]);
        }
        lemma_suffix_len(t, class, (n - 1) as nat);
    }
}

/// The converse of `lemma_suffix_len`.
pub proof fn lemma_suffix_len_bounds(s: Seq<char>, class: CharClass)
    ensures
        suffix_len(s, class) <= s.len(),
        forall|k: int|
            s.len() - suffix_len(s, class) <= k < s.len() ==> class.contains(#[trigger] s[k]),
        suffix_len(s, class) < s.len() ==> !class.contains(
            s[s.len() - suffix_len(s, class) - 1],
        ),
    decreases s.len(),
{
    if s.len() > 0 && class.contains(s.last()) {
        let t = s.drop_last();
        lemma_suffix_len_bounds(t, class);
        assert forall|k: int| s.len() - suffix_len(s, class) <= k < s.len() implies class.contains(
            #[trigger] s[k],
        ) by {
            if k < s.len() - 1 {
                assert(s[k] == t[k]);
            }
        }
    }
}

/// Where the run of `class` characters that starts at `from` ends, looking
/// no further than `to`.
pub fn scan(s: &Vec<char>, from: usize, to: usize, class: CharClass) -> (end: usize)
    requires
        from <= to <= s.len(),
    ensures
        from <= end <= to,
        end - from == prefix_len(s@.subrange(from as int, to as int), class),
{
    let mut end: usize = from;
    while end < to && class.has(s[end])
        invariant
            from <= end <= to <= s.len(),
            forall|k: int| from <= k < end ==> class.contains(#[trigger] s@[k]),
        decreases to - end,
    {
        end += 1;
    }
    proof {
        lemma_prefix_len(s@.subrange(from as int, to as int), class, (end - from) as nat);
    }
    end
}

/// Where the run of `class` characters that ends at `to` starts, looking no
/// further back than `from`.
pub fn scan_back(s: &Vec<char>, from: usize, to: usize, class: CharClass) -> (start: usize)
    requires
        from <= to <= s.len(),
    ensures
        from <= start <= to,
        to - start == suffix_len(s@.subrange(from as int, to as int), class),
{
    let mut start: usize = to;
    while start > from && class.has(s[start - 1])
        invariant
            from <= start <= to <= s.len(),
            forall|k: int| start <= k < to ==> class.contains(#[trigger] s@[k]),
        decreases start - from,
    {
        start -= 1;
    }
    proof {
        lemma_suffix_len(s@.subrange(from as int, to as int), class, (to - start) as nat);
    }
    start
}

/// `s` without its leading whitespace.
pub open spec fn trim_start(s: Seq<char>) -> Seq<char> {
    s.skip(prefix_len(s, CharClass::Whitespace) as int)
}

/// `s` without its trailing whitespace.
pub open spec fn trim_end(s: Seq<char>) -> Seq<char> {
    s.take(s.len() - suffix_len(s, CharClass::Whitespace))
}

/// `s` without its leading and trailing whitespace.
pub open spec fn trim(s: Seq<char>) -> Seq<char> {
    trim_end(trim_start(s))
}

/// Whether `s` holds nothing but whitespace.
pub open spec fn is_blank(s: Seq<char>) -> bool {
    trim(s).len() == 0
}

/// A text is blank exactly if whitespace runs from its start to its end.
pub proof fn lemma_blank(s: Seq<char>)
    ensures
        is_blank(s) <==> prefix_len(s, CharClass::Whitespace) == s.len(),
{
    let n = prefix_len(s, CharClass::Whitespace);
    lemma_prefix_len_bounds(s, CharClass::Whitespace);
    let t = trim_start(s);
    lemma_suffix_len_bounds(t, CharClass::Whitespace);
    if n < s.len() {
        assert(t[0] == s[n as int]);
        if suffix_len(t, CharClass::Whitespace) == t.len() {
            assert(CharClass::Whitespace.contains(t[0]));
        }
    }
}

/// The first whitespace-delimited word of `s`; empty where `s` is blank.
pub open spec fn first_word(s: Seq<char>) -> Seq<char> {
    let t = trim_start(s);
    t.take(prefix_len(t, CharClass::NonWhitespace) as int)
}

/// What follows the first word of `s`.
pub open spec fn after_first_word(s: Seq<char>) -> Seq<char> {
    let t = trim_start(s);
    t.skip(prefix_len(t, CharClass::NonWhitespace) as int)
}

/// `s` without one trailing carriage return.
pub open spec fn strip_cr(s: Seq<char>) -> Seq<char> {
    if s.len() > 0 && s.last() == '\r' {
        s.drop_last()
    } else {
        s
    }
}

/// The lines of `s`. A line ends at a line feed, or at a carriage return
/// directly followed by one; the terminator belongs to no line. The last
/// line needs no terminator, and the empty text has no lines.
pub open spec fn lines(s: Seq<char>) -> Seq<Seq<char>>
    decreases s.len(),
{
    let n = prefix_len(s, CharClass::Not('\n'));
    if s.len() == 0 {
        Seq::empty()
    } else if n < s.len() {
        seq![strip_cr(s.take(n as int))] + lines(s.skip(n as int + 1))
    } else {
        seq![s]
    }
}

/// The fields of `s` between occurrences of `sep`. There is always at least
/// one field, and a separator at either end of `s` borders an empty field.
pub open spec fn split(s: Seq<char>, sep: char) -> Seq<Seq<char>>
    decreases s.len(),
{
    let n = prefix_len(s, CharClass::Not(sep));
    // The lower bound is what the proof of termination goes by.
    if 0 <= n < s.len() {
        seq![s.take(n as int)] + split(s.skip(n as int + 1), sep)
    } else {
        seq![s]
    }
}

/// The `parts` in order, with `sep` between each two neighbours.
pub open spec fn join(parts: Seq<Seq<char>>, sep: Seq<char>) -> Seq<char>
    decreases parts.len(),
{
    if parts.len() == 0 {
        Seq::empty()
    } else if parts.len() == 1 {
        parts[0]
    } else {
        join(parts.drop_last(), sep) + sep + parts.last()
    }
}

/// A stretch of a text, from `start` up to but not including `end`.
#[derive(Clone, Copy, Debug)]
pub struct Span {
    pub start: usize,
    pub end: usize,
}

impl Span {
    /// Whether the span lies inside a text of `len` characters.
    pub open spec fn within(self, len: nat) -> bool {
        self.start <= self.end <= len
    }

    /// The characters of `s` that the span covers.
    pub open spec fn of(self, s: Seq<char>) -> Seq<char> {
        s.subrange(self.start as int, self.end as int)
    }
}

/// The texts that `spans` cover in `s`, in order.
pub open spec fn span_texts(spans: Seq<Span>, s: Seq<char>) -> Seq<Seq<char>> {
    Seq::new(spans.len(), |i: int| spans[i].of(s))
}

/// Whether every one of `spans` lies inside a text of `len` characters.
pub open spec fn spans_within(spans: Seq<Span>, len: nat) -> bool {
    forall|i: int| 0 <= i < spans.len() ==> (#[trigger] spans[i]).within(len)
}

/// The characters of `s`, for indexing.
pub fn to_chars(s: &str) -> (chars: Vec<char>)
    ensures
        chars@ == s@,
{
    let mut chars: Vec<char> = Vec::new();
    for c in it: s.chars()
        invariant
            it.seq() == s@,
            chars@ == it.seq().take(it.index() as int),
    {
        chars.push(c);
    }
    chars
}

/// The part of `span` that is left when the whitespace at both ends is
/// taken off.
pub fn trim_span(s: &Vec<char>, span: Span) -> (inner: Span)
    requires
        span.within(s@.len()),
    ensures
        span.start <= inner.start <= inner.end <= span.end,
        inner.of(s@) == trim(span.of(s@)),
{
    let start = scan(s, span.start, span.end, CharClass::Whitespace);
    let end = scan_back(s, start, span.end, CharClass::Whitespace);
    proof {
        let whole = span.of(s@);
        let tail = s@.subrange(start as int, span.end as int);
        assert(trim_start(whole) =~= tail);
        assert(trim_end(tail) =~= s@.subrange(start as int, end as int));
    }
    Span { start, end }
}

/// The first word inside `span`, and the stretch that follows it.
pub fn word_span(s: &Vec<char>, span: Span) -> (found: (Span, Span))
    requires
        span.within(s@.len()),
    ensures
        span.start <= found.0.start <= found.0.end == found.1.start <= found.1.end == span.end,
        found.0.of(s@) == first_word(span.of(s@)),
        found.1.of(s@) == after_first_word(span.of(s@)),
{
    let start = scan(s, span.start, span.end, CharClass::Whitespace);
    let end = scan(s, start, span.end, CharClass::NonWhitespace);
    proof {
        let whole = span.of(s@);
        let tail = s@.subrange(start as int, span.end as int);
        assert(trim_start(whole) =~= tail);
        assert(tail.take(end - start) =~= s@.subrange(start as int, end as int));
        assert(tail.skip(end - start) =~= s@.subrange(end as int, span.end as int));
    }
    (Span { start, end }, Span { start: end, end: span.end })
}

/// The lines of `s`, as spans.
pub fn line_spans(s: &Vec<char>) -> (spans: Vec<Span>)
    ensures
        spans_within(spans@, s@.len()),
        span_texts(spans@, s@) == lines(s@),
{
    let len = s.len();
    let mut spans: Vec<Span> = Vec::new();
    let mut pos: usize = 0;
    proof {
        assert(s@.skip(0) =~= s@);
        assert(span_texts(spans@, s@) + lines(s@.skip(0)) =~= lines(s@));
    }
    while pos < len
        invariant
            len == s@.len(),
            pos <= len,
            spans_within(spans@, s@.len()),
            lines(s@) == span_texts(spans@, s@) + lines(s@.skip(pos as int)),
        decreases len - pos,
    {
        let stop = scan(s, pos, len, CharClass::Not('\n'));
        let ghost rest = s@.skip(pos as int);
        let ghost before = span_texts(spans@, s@);
        proof {
            assert(rest =~= s@.subrange(pos as int, len as int));
        }
        if stop < len {
            let end = if stop > pos && s[stop - 1] == '\r' {
                stop - 1
            } else {
                stop
            };
            let line = Span { start: pos, end };
            proof {
                assert(rest.take(stop - pos) =~= s@.subrange(pos as int, stop as int));
                assert(strip_cr(rest.take(stop - pos)) =~= line.of(s@));
                assert(rest.skip(stop - pos + 1) =~= s@.skip(stop + 1));
            }
            spans.push(line);
            pos = stop + 1;
            proof {
                assert(span_texts(spans@, s@) =~= before + seq![line.of(s@)]);
                assert(lines(s@) =~= span_texts(spans@, s@) + lines(s@.skip(pos as int)));
            }
        } else {
            let line = Span { start: pos, end: len };
            spans.push(line);
            pos = len;
            proof {
                assert(line.of(s@) =~= rest);
                assert(span_texts(spans@, s@) =~= before + seq![rest]);
                assert(s@.skip(len as int) =~= Seq::<char>::empty());
                assert(lines(s@) =~= span_texts(spans@, s@) + lines(s@.skip(pos as int)));
            }
        }
    }
    proof {
        assert(s@.skip(pos as int) =~= Seq::<char>::empty());
        assert(lines(s@) =~= span_texts(spans@, s@));
    }
    spans
}

/// The fields of `span` between occurrences of `sep`, as spans.
pub fn split_spans(s: &Vec<char>, span: Span, sep: char) -> (spans: Vec<Span>)
    requires
        span.within(s@.len()),
    ensures
        spans_within(spans@, s@.len()),
        span_texts(spans@, s@) == split(span.of(s@), sep),
        spans@.len() >= 1,
{
    let mut spans: Vec<Span> = Vec::new();
    let mut pos: usize = span.start;
    let mut open: bool = true;
    proof {
        assert(s@.subrange(pos as int, span.end as int) =~= span.of(s@));
        assert(span_texts(spans@, s@) + split(span.of(s@), sep) =~= split(span.of(s@), sep));
    }
    while open
        invariant
            span.within(s@.len()),
            span.start <= pos <= span.end,
            spans_within(spans@, s@.len()),
            open ==> split(span.of(s@), sep) == span_texts(spans@, s@) + split(
                s@.subrange(pos as int, span.end as int),
                sep,
            ),
            !open ==> split(span.of(s@), sep) == span_texts(spans@, s@) && spans@.len() >= 1,
        decreases span.end - pos + if open { 1nat } else { 0nat },
    {
        let stop = scan(s, pos, span.end, CharClass::Not(sep));
        let ghost rest = s@.subrange(pos as int, span.end as int);
        let ghost before = span_texts(spans@, s@);
        let field = Span { start: pos, end: stop };
        proof {
            assert(rest.take(stop - pos) =~= field.of(s@));
        }
        spans.push(field);
        proof {
            assert(span_texts(spans@, s@) =~= before + seq![field.of(s@)]);
        }
        if stop < span.end {
            proof {
                assert(rest.skip(stop - pos + 1) =~= s@.subrange(stop + 1, span.end as int));
            }
            pos = stop + 1;
        } else {
            proof {
                assert(field.of(s@) =~= rest);
            }
            open = false;
        }
    }
    spans
}

/// The number of bytes that `s` takes up in UTF-8.
pub open spec fn byte_len(s: Seq<char>) -> nat {
    encode_utf8(s).len()
}

/// Whether two texts hold the same characters.
pub fn str_eq(a: &str, b: &str) -> (same: bool)
    ensures
        same == (a@ == b@),
{
    let x = a.as_bytes();
    let y = b.as_bytes();
    if x.len() != y.len() {
        return false;
    }
    let mut i: usize = 0;
    while i < x.len()
        invariant
            x@ == encode_utf8(a@),
            y@ == encode_utf8(b@),
            x@.len() == y@.len(),
            i <= x@.len(),
            forall|k: int| 0 <= k < i ==> x@[k] == y@[k],
        decreases x@.len() - i,
    {
        if x[i] != y[i] {
            return false;
        }
        i += 1;
    }
    proof {
        assert(x@ =~= y@);
        encode_utf8_decode_utf8(a@);
        encode_utf8_decode_utf8(b@);
    }
    true
}

/// The characters that `span` covers in `s`, as a text of their own.
pub fn span_string(s: &str, span: Span) -> (text: String)
    requires
        span.within(s@.len()),
    ensures
        text@ == span.of(s@),
{
    s.substring_char(span.start, span.end).to_owned()
}

/// Whether `x` covers in `a` the characters that `y` covers in `b`.
pub fn spans_equal(a: &Vec<char>, x: Span, b: &Vec<char>, y: Span) -> (same: bool)
    requires
        x.within(a@.len()),
        y.within(b@.len()),
    ensures
        same == (x.of(a@) == y.of(b@)),
{
    if x.end - x.start != y.end - y.start {
        proof {
            assert(x.of(a@).len() != y.of(b@).len());
        }
        return false;
    }
    let n = x.end - x.start;
    let mut i: usize = 0;
    while i < n
        invariant
            x.within(a@.len()),
            y.within(b@.len()),
            n == x.end - x.start == y.end - y.start,
            i <= n,
            forall|k: int| 0 <= k < i ==> x.of(a@)[k] == y.of(b@)[k],
        decreases n - i,
    {
        if a[x.start + i] != b[y.start + i] {
            proof {
                assert(x.of(a@)[i as int] != y.of(b@)[i as int]);
            }
            return false;
        }
        i += 1;
    }
    proof {
        assert(x.of(a@) =~= y.of(b@));
    }
    true
}

/// The character that stands for a digit.
pub open spec fn digit(d: nat) -> char {
    if d == 0 {
        '0'
    } else if d == 1 {
        '1'
    } else if d == 2 {
        '2'
    } else if d == 3 {
        '3'
    } else if d == 4 {
        '4'
    } else if d == 5 {
        '5'
    } else if d == 6 {
        '6'
    } else if d == 7 {
        '7'
    } else if d == 8 {
        '8'
    } else {
        '9'
    }
}

/// `n` written in base ten, without a sign and without leading zeros.
pub open spec fn decimal(n: nat) -> Seq<char>
    decreases n,
{
    if n < 10 {
        seq![digit(n)]
    } else {
        decimal(n / 10).push(digit(n % 10))
    }
}

fn digit_str(d: usize) -> (text: &'static str)
    requires
        d < 10,
    ensures
        text@ == seq![digit(d as nat)],
{
    proof {
        reveal_strlit("0");
        reveal_strlit("1");
        reveal_strlit("2");
        reveal_strlit("3");
        reveal_strlit("4");
        reveal_strlit("5");
        reveal_strlit("6");
        reveal_strlit("7");
        reveal_strlit("8");
        reveal_strlit("9");
    }
    let text = if d == 0 {
        "0"
    } else if d == 1 {
        "1"
    } else if d == 2 {
        "2"
    } else if d == 3 {
        "3"
    } else if d == 4 {
        "4"
    } else if d == 5 {
        "5"
    } else if d == 6 {
        "6"
    } else if d == 7 {
        "7"
    } else if d == 8 {
        "8"
    } else {
        "9"
    };
    proof {
        assert(text@ =~= seq![digit(d as nat)]);
    }
    text
}

/// `n` in base ten.
pub fn decimal_string(n: usize) -> (text: String)
    ensures
        text@ == decimal(n as nat),
    decreases n,
{
    if n < 10 {
        String::from_str(digit_str(n))
    } else {
        let mut text = decimal_string(n / 10);
        text.append(digit_str(n % 10));
        proof {
            assert(text@ =~= decimal(n as nat));
        }
        text
    }
}

/// Whether `s` begins with `prefix`.
pub fn starts_with(s: &str, prefix: &str) -> (begins: bool)
    ensures
        begins == prefix@.is_prefix_of(s@),
{
    let a = to_chars(s);
    let b = to_chars(prefix);
    if b.len() > a.len() {
        return false;
    }
    let same = spans_equal(
        &a,
        Span { start: 0, end: b.len() },
        &b,
        Span { start: 0, end: b.len() },
    );
    proof {
        assert(b@.subrange(0, b@.len() as int) =~= b@);
    }
    same
}

/// The word of `s` before which `n` other words stand; empty where `s` has
/// no more than `n` words.
pub open spec fn nth_word(s: Seq<char>, n: nat) -> Seq<char>
    decreases n,
{
    if n == 0 {
        first_word(s)
    } else {
        nth_word(after_first_word(s), (n - 1) as nat)
    }
}

} // verus!
