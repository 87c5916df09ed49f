//! Bytes and text: the byte classes of the format, trimming, splitting a line
//! into fields, and turning bytes into a `String`.

use vstd::prelude::*;
use vstd::string::StringSliceAdditionalSpecFns;

verus! {

/// The bytes that the format gives a meaning to.
pub const TAB: u8 = 0x09;

pub const LINE_FEED: u8 = 0x0A;

pub const FORM_FEED: u8 = 0x0C;

pub const CARRIAGE_RETURN: u8 = 0x0D;

pub const SPACE: u8 = 0x20;

pub const QUOTE: u8 = 0x22;

pub const HASH: u8 = 0x23;

pub const PLUS: u8 = 0x2B;

pub const COMMA: u8 = 0x2C;

pub const MINUS: u8 = 0x2D;

pub const POINT: u8 = 0x2E;

pub const SLASH: u8 = 0x2F;

pub const COLON: u8 = 0x3A;

pub const EQUALS: u8 = 0x3D;

pub const OPEN_BRACKET: u8 = 0x5B;

pub const CLOSE_BRACKET: u8 = 0x5D;

/// The text that a run of bytes stands for: every byte is read as the
/// character with the same code point.
pub open spec fn latin1(bytes: Seq<u8>) -> Seq<char> {
    Seq::new(bytes.len(), |i: int| bytes[i] as char)
}

/// ASCII whitespace, as the scanner skips it between syntactic units:
/// space, tab, line feed, form feed and carriage return.
pub open spec fn is_space(b: u8) -> bool {
    b == SPACE || b == TAB || b == LINE_FEED || b == FORM_FEED || b == CARRIAGE_RETURN
}

/// The two bytes that end a line.
pub open spec fn is_line_break(b: u8) -> bool {
    b == LINE_FEED || b == CARRIAGE_RETURN
}

/// The bytes that count as blank at the ends of a key, a value or a section
/// name: the code points below 256 that Unicode classes as white space.
pub open spec fn is_blank(b: u8) -> bool {
    (TAB <= b && b <= CARRIAGE_RETURN) || b == SPACE || b == 0x85 || b == 0xA0
}

/// `s` without its longest prefix of bytes that satisfy `strip`.
pub open spec fn trim_start_by(s: Seq<u8>, strip: spec_fn(u8) -> bool) -> Seq<u8>
    decreases s.len(),
{
    if s.len() > 0 && strip(s[0]) {
        trim_start_by(s.drop_first(), strip)
    } else {
        s
    }
}

/// `s` without its longest suffix of bytes that satisfy `strip`.
pub open spec fn trim_end_by(s: Seq<u8>, strip: spec_fn(u8) -> bool) -> Seq<u8>
    decreases s.len(),
{
    if s.len() > 0 && strip(s.last()) {
        trim_end_by(s.drop_last(), strip)
    } else {
        s
    }
}

/// `s` without the bytes that satisfy `strip` at either end.
pub open spec fn trim_by(s: Seq<u8>, strip: spec_fn(u8) -> bool) -> Seq<u8> {
    trim_end_by(trim_start_by(s, strip), strip)
}

/// The test for a blank byte, as a value.
pub open spec fn blank() -> spec_fn(u8) -> bool {
    |b: u8| is_blank(b)
}

/// The test for the byte `b`, as a value.
pub open spec fn byte(b: u8) -> spec_fn(u8) -> bool {
    |x: u8| x == b
}

/// `s` without blanks at either end.
pub open spec fn trimmed(s: Seq<u8>) -> Seq<u8> {
    trim_by(s, blank())
}

/// `s` without any run of the byte `b` at either end.
pub open spec fn trimmed_of(s: Seq<u8>, b: u8) -> Seq<u8> {
    trim_by(s, byte(b))
}

/// Skipping `i` bytes that all satisfy `strip` does not change what
/// `trim_start_by` gives.
pub proof fn lemma_trim_start_skip(s: Seq<u8>, strip: spec_fn(u8) -> bool, i: int)
    requires
        0 <= i <= s.len(),
        forall|k: int| 0 <= k < i ==> strip(#[trigger] s[k]),
    ensures
        trim_start_by(s, strip) == trim_start_by(s.skip(i), strip),
    decreases i,
{
    if i == 0 {
        assert(s.skip(0) =~= s);
    } else {
        lemma_trim_start_skip(s, strip, i - 1);
        let t = s.skip(i - 1);
        assert(t[0] == s[i - 1]);
        assert(t.drop_first() =~= s.skip(i));
    }
}

/// Dropping bytes that all satisfy `strip` from the end does not change what
/// `trim_end_by` gives.
pub proof fn lemma_trim_end_take(s: Seq<u8>, strip: spec_fn(u8) -> bool, n: int)
    requires
        0 <= n <= s.len(),
        forall|k: int| n <= k < s.len() ==> strip(#[trigger] s[k]),
    ensures
        trim_end_by(s, strip) == trim_end_by(s.take(n), strip),
    decreases s.len() - n,
{
    if n == s.len() {
        assert(s.take(n) =~= s);
    } else {
        lemma_trim_end_take(s, strip, n + 1);
        let t = s.take(n + 1);
        assert(t.last() == s[n]);
        assert(t.drop_last() =~= s.take(n));
    }
}

/// Where trimming cuts: if everything before `start` and from `end` on
/// satisfies `strip`, and the bytes just inside do not, then what is left is
/// the bytes from `start` up to `end`.
pub proof fn lemma_trim_bounds(s: Seq<u8>, strip: spec_fn(u8) -> bool, start: int, end: int)
    requires
        0 <= start <= end <= s.len(),
        forall|k: int| 0 <= k < start ==> strip(#[trigger] s[k]),
        forall|k: int| end <= k < s.len() ==> strip(#[trigger] s[k]),
        start == s.len() || !strip(s[start]),
        end == start || !strip(s[end - 1]),
    ensures
        trim_by(s, strip) == s.subrange(start, end),
{
    let t = s.skip(start);
    lemma_trim_start_skip(s, strip, start);
    assert(trim_start_by(t, strip) == t) by {
        if t.len() > 0 {
            assert(t[0] == s[start]);
        }
    }
    let n = end - start;
    assert forall|k: int| n <= k < t.len() implies strip(#[trigger] t[k]) by {
        assert(t[k] == s[k + start]);
    }
    lemma_trim_end_take(t, strip, n);
    let u = t.take(n);
    assert(trim_end_by(u, strip) == u) by {
        if u.len() > 0 {
            assert(u.last() == s[end - 1]);
        }
    }
    assert(s.subrange(start, end) =~= u);
}

/// Whether `b` is blank.
pub fn is_blank_byte(b: u8) -> (r: bool)
    ensures
        r == is_blank(b),
{
    (TAB <= b && b <= CARRIAGE_RETURN) || b == SPACE || b == 0x85 || b == 0xA0
}

/// The part of `s` between its first and last byte that is not blank.
pub fn trim(s: &[u8]) -> (r: &[u8])
    ensures
        r@ == trimmed(s@),
{
    let mut start: usize = 0;
    while start < s.len() && is_blank_byte(s[start])
        invariant
            start <= s.len(),
            forall|k: int| 0 <= k < start ==> is_blank(#[trigger] s@[k]),
        decreases s.len() - start,
    {
        start += 1;
    }
    let mut end: usize = s.len();
    while end > start && is_blank_byte(s[end - 1])
        invariant
            start <= end <= s.len(),
            forall|k: int| end <= k < s.len() ==> is_blank(#[trigger] s@[k]),
        decreases end,
    {
        end -= 1;
    }
    proof {
        lemma_trim_bounds(s@, blank(), start as int, end as int);
    }
    &s[start..end]
}

/// The part of `s` between its first and last byte that is not `b`.
pub fn trim_matches(s: &[u8], b: u8) -> (r: &[u8])
    ensures
        r@ == trimmed_of(s@, b),
{
    let mut start: usize = 0;
    while start < s.len() && s[start] == b
        invariant
            start <= s.len(),
            forall|k: int| 0 <= k < start ==> #[trigger] s@[k] == b,
        decreases s.len() - start,
    {
        start += 1;
    }
    let mut end: usize = s.len();
    while end > start && s[end - 1] == b
        invariant
            start <= end <= s.len(),
            forall|k: int| end <= k < s.len() ==> #[trigger] s@[k] == b,
        decreases end,
    {
        end -= 1;
    }
    proof {
        lemma_trim_bounds(s@, byte(b), start as int, end as int);
    }
    &s[start..end]
}

/// Whether `s` begins with the bytes of `prefix`.
pub open spec fn starts_with(s: Seq<u8>, prefix: Seq<u8>) -> bool {
    prefix.len() <= s.len() && s.take(prefix.len() as int) == prefix
}

/// `s` after `prefix` has been taken off its front as often as it stands
/// there.
pub open spec fn strip_prefix_all(s: Seq<u8>, prefix: Seq<u8>) -> Seq<u8>
    decreases s.len(),
{
    if prefix.len() > 0 && starts_with(s, prefix) {
        strip_prefix_all(s.skip(prefix.len() as int), prefix)
    } else {
        s
    }
}

/// Whether the two slices hold the same bytes.
pub fn bytes_eq(a: &[u8], b: &[u8]) -> (r: bool)
    ensures
        r == (a@ == b@),
{
    if a.len() != b.len() {
        return false;
    }
    let mut i: usize = 0;
    while i < a.len()
        invariant
            i <= a.len(),
            a.len() == b.len(),
            forall|k: int| 0 <= k < i ==> a@[k] == b@[k],
        decreases a.len() - i,
    {
        if a[i] != b[i] {
            return false;
        }
        i += 1;
    }
    assert(a@ =~= b@);
    true
}

/// Whether `s` is spelled exactly as `name`.
pub fn is_name(s: &[u8], name: &str) -> (r: bool)
    ensures
        r == (s@ == name.spec_bytes()),
{
    bytes_eq(s, name.as_bytes())
}

/// Whether the bytes of `s` from `at` on begin with `prefix`.
fn has_prefix_at(s: &[u8], at: usize, prefix: &[u8]) -> (r: bool)
    requires
        at <= s.len(),
    ensures
        r == starts_with(s@.skip(at as int), prefix@),
{
    if prefix.len() > s.len() - at {
        return false;
    }
    let ghost t = s@.skip(at as int);
    let mut i: usize = 0;
    while i < prefix.len()
        invariant
            i <= prefix.len(),
            at + prefix.len() <= s.len(),
            t == s@.skip(at as int),
            forall|k: int| 0 <= k < i ==> t[k] == prefix@[k],
        decreases prefix.len() - i,
    {
        if s[at + i] != prefix[i] {
            assert(t.take(prefix.len() as int)[i as int] != prefix@[i as int]);
            return false;
        }
        i += 1;
    }
    assert(t.take(prefix.len() as int) =~= prefix@);
    true
}

/// `s` without the copies of `prefix` at its front.
pub fn strip_prefix<'a>(s: &'a [u8], prefix: &[u8]) -> (r: &'a [u8])
    ensures
        r@ == strip_prefix_all(s@, prefix@),
{
    if prefix.len() == 0 {
        return s;
    }
    let mut at: usize = 0;
    proof {
        assert(s@.skip(0) =~= s@);
    }
    while has_prefix_at(s, at, prefix)
        invariant
            at <= s.len(),
            prefix.len() > 0,
            strip_prefix_all(s@, prefix@) == strip_prefix_all(s@.skip(at as int), prefix@),
        decreases s.len() - at,
    {
        proof {
            assert(s@.skip(at as int).skip(prefix.len() as int) =~= s@.skip(at + prefix.len()));
        }
        at += prefix.len();
    }
    proof {
        assert(s@.subrange(at as int, s.len() as int) =~= s@.skip(at as int));
    }
    &s[at..s.len()]
}

/// The first place at or after `from` where a byte of `s` satisfies `stop`,
/// or the length of `s` where none does.
pub open spec fn find(s: Seq<u8>, from: int, stop: spec_fn(u8) -> bool) -> int
    decreases s.len() - from,
{
    if from < 0 || from >= s.len() {
        s.len() as int
    } else if stop(s[from]) {
        from
    } else {
        find(s, from + 1, stop)
    }
}

/// What `find` returns: a place in range before which nothing satisfies
/// `stop`, and at which a byte does unless it is the end.
pub proof fn lemma_find(s: Seq<u8>, from: int, stop: spec_fn(u8) -> bool)
    requires
        0 <= from <= s.len(),
    ensures
        from <= find(s, from, stop) <= s.len(),
        forall|k: int| from <= k < find(s, from, stop) ==> !stop(#[trigger] s[k]),
        find(s, from, stop) < s.len() ==> stop(s[find(s, from, stop)]),
    decreases s.len() - from,
{
    if from < s.len() && !stop(s[from]) {
        lemma_find(s, from + 1, stop);
    }
}

/// `find` is settled by those three facts.
pub proof fn lemma_find_unique(s: Seq<u8>, from: int, stop: spec_fn(u8) -> bool, at: int)
    requires
        0 <= from <= at <= s.len(),
        forall|k: int| from <= k < at ==> !stop(#[trigger] s[k]),
        at < s.len() ==> stop(s[at]),
    ensures
        find(s, from, stop) == at,
    decreases at - from,
{
    if from < at {
        assert(!stop(s[from]));
        lemma_find_unique(s, from + 1, stop, at);
    }
}

/// Searching again from the place that was found finds the same place.
pub proof fn lemma_find_again(s: Seq<u8>, from: int, stop: spec_fn(u8) -> bool)
    requires
        0 <= from <= s.len(),
    ensures
        find(s, find(s, from, stop), stop) == find(s, from, stop),
{
    lemma_find(s, from, stop);
}

/// Searching in what is left after `n` bytes finds the same place.
pub proof fn lemma_find_skip(s: Seq<u8>, n: int, stop: spec_fn(u8) -> bool)
    requires
        0 <= n <= s.len(),
    ensures
        find(s.skip(n), 0, stop) == find(s, n, stop) - n,
{
    let t = s.skip(n);
    lemma_find(s, n, stop);
    let at = find(s, n, stop);
    assert forall|k: int| 0 <= k < at - n implies !stop(#[trigger] t[k]) by {
        assert(t[k] == s[k + n]);
    }
    lemma_find_unique(t, 0, stop, at - n);
}

/// The fields of `s`: the runs of bytes between one `sep` and the next. There
/// is always at least one field, and a field may be empty.
pub open spec fn split(s: Seq<u8>, sep: u8) -> Seq<Seq<u8>>
    decreases s.len(),
{
    let at = find(s, 0, byte(sep));
    if 0 <= at < s.len() {
        seq![s.take(at)] + split(s.skip(at + 1), sep)
    } else {
        seq![s]
    }
}

/// A line has at least one field.
pub proof fn lemma_split_nonempty(s: Seq<u8>, sep: u8)
    ensures
        split(s, sep).len() > 0,
{
}

/// The line that holds `fields`: each but the last followed by `sep`.
pub open spec fn join(fields: Seq<Seq<u8>>, sep: u8) -> Seq<u8>
    decreases fields.len(),
{
    if fields.len() == 0 {
        Seq::empty()
    } else if fields.len() == 1 {
        fields[0]
    } else {
        fields[0] + seq![sep] + join(fields.drop_first(), sep)
    }
}

/// No byte of `s` is `b`.
pub open spec fn free_of(s: Seq<u8>, b: u8) -> bool {
    forall|i: int| 0 <= i < s.len() ==> #[trigger] s[i] != b
}

/// A line made of fields that hold no `sep` is cut into those fields again.
pub proof fn lemma_split_join(fields: Seq<Seq<u8>>, sep: u8)
    requires
        fields.len() > 0,
        forall|i: int| 0 <= i < fields.len() ==> free_of(#[trigger] fields[i], sep),
    ensures
        split(join(fields, sep), sep) == fields,
    decreases fields.len(),
{
    let line = join(fields, sep);
    let first = fields[0];
    assert(free_of(first, sep));
    if fields.len() == 1 {
        lemma_find_unique(line, 0, byte(sep), line.len() as int);
        assert(split(line, sep) =~= fields);
    } else {
        let rest = fields.drop_first();
        assert forall|i: int| 0 <= i < rest.len() implies free_of(#[trigger] rest[i], sep) by {
            assert(rest[i] == fields[i + 1]);
        }
        lemma_split_join(rest, sep);
        assert(line[first.len() as int] == sep);
        lemma_find_unique(line, 0, byte(sep), first.len() as int);
        assert(line.take(first.len() as int) =~= first);
        assert(line.skip(first.len() as int + 1) =~= join(rest, sep));
        assert(split(line, sep) =~= fields);
    }
}

/// A line made of fields that hold no `b` holds no `b` either, if `b` is
/// not the separator.
pub proof fn lemma_join_free_of(fields: Seq<Seq<u8>>, sep: u8, b: u8)
    requires
        b != sep,
        forall|i: int| 0 <= i < fields.len() ==> free_of(#[trigger] fields[i], b),
    ensures
        free_of(join(fields, sep), b),
    decreases fields.len(),
{
    if fields.len() == 1 {
        assert(free_of(fields[0], b));
    } else if fields.len() > 1 {
        let rest = fields.drop_first();
        assert forall|i: int| 0 <= i < rest.len() implies free_of(#[trigger] rest[i], b) by {
            assert(rest[i] == fields[i + 1]);
        }
        lemma_join_free_of(rest, sep, b);
        assert(free_of(fields[0], b));
    }
}

/// A line whose first field is not empty starts with the first byte of that
/// field.
pub proof fn lemma_join_first(fields: Seq<Seq<u8>>, sep: u8)
    requires
        fields.len() > 0,
        fields[0].len() > 0,
    ensures
        join(fields, sep).len() > 0,
        join(fields, sep)[0] == fields[0][0],
{
}

/// The bytes that write `text`, for a text whose characters all lie below
/// 256: each character is one byte.
pub open spec fn bytes_of(text: Seq<char>) -> Seq<u8> {
    Seq::new(text.len(), |i: int| text[i] as u8)
}

/// Every character of `text` lies below 256.
pub open spec fn is_latin1(text: Seq<char>) -> bool {
    forall|i: int| 0 <= i < text.len() ==> '\0' <= #[trigger] text[i] <= '\u{ff}'
}

/// The bytes that write a text are read as that text.
pub proof fn lemma_latin1_of_bytes(text: Seq<char>)
    requires
        is_latin1(text),
    ensures
        latin1(bytes_of(text)) == text,
{
    assert forall|i: int| 0 <= i < text.len() implies latin1(bytes_of(text))[i] == text[i] by {
        assert('\0' <= text[i] <= '\u{ff}');
    }
    assert(latin1(bytes_of(text)) =~= text);
}

/// What each slice of `fields` holds.
pub open spec fn views(fields: Seq<&[u8]>) -> Seq<Seq<u8>> {
    Seq::new(fields.len(), |i: int| fields[i]@)
}

/// The place of the first `sep` in `s` at or after `from`, or the length of
/// `s`.
pub fn find_byte(s: &[u8], from: usize, sep: u8) -> (at: usize)
    requires
        from <= s.len(),
    ensures
        at == find(s@, from as int, byte(sep)),
        from <= at <= s.len(),
{
    let mut at: usize = from;
    while at < s.len() && s[at] != sep
        invariant
            from <= at <= s.len(),
            forall|k: int| from <= k < at ==> #[trigger] s@[k] != sep,
        decreases s.len() - at,
    {
        at += 1;
    }
    proof {
        lemma_find_unique(s@, from as int, byte(sep), at as int);
    }
    at
}

/// Cuts `s` at every `sep`.
pub fn split_fields<'a>(s: &'a [u8], sep: u8) -> (fields: Vec<&'a [u8]>)
    ensures
        views(fields@) == split(s@, sep),
{
    let mut fields: Vec<&[u8]> = Vec::new();
    let mut start: usize = 0;
    proof {
        assert(s@.skip(0) =~= s@);
        assert(views(fields@) + split(s@, sep) =~= split(s@, sep));
    }
    loop
        invariant_except_break
            start <= s.len(),
            split(s@, sep) == views(fields@) + split(s@.skip(start as int), sep),
        ensures
            views(fields@) == split(s@, sep),
        decreases s.len() - start,
    {
        let at = find_byte(s, start, sep);
        let ghost before = views(fields@);
        let ghost rest = s@.skip(start as int);
        proof {
            lemma_find_skip(s@, start as int, byte(sep));
            assert(rest.take(at - start) =~= s@.subrange(start as int, at as int));
        }
        fields.push(&s[start..at]);
        if at >= s.len() {
            proof {
                assert(rest.take(at - start) =~= rest);
                assert(views(fields@) =~= before + seq![rest]);
            }
            break;
        }
        proof {
            assert(rest.skip(at - start + 1) =~= s@.skip(at + 1));
            assert(views(fields@) =~= before + seq![rest.take(at - start)]);
            assert(before + (seq![rest.take(at - start)] + split(s@.skip(at + 1), sep)) =~= views(
                fields@,
            ) + split(s@.skip(at + 1), sep));
        }
        start = at + 1;
    }
    fields
}

/// `String::push`: the string afterwards is the string before with `c` at its
/// end.
#[verifier::external_body]
fn push_char(s: &mut String, c: char)
    ensures
        final(s)@ == old(s)@.push(c),
{
    s.push(c)
}

/// The text of `bytes`, each byte read as one character.
pub fn text_of(bytes: &[u8]) -> (out: String)
    ensures
        out@ == latin1(bytes@),
{
    let mut out = String::new();
    let mut i: usize = 0;
    while i < bytes.len()
        invariant
            i <= bytes.len(),
            out@ == latin1(bytes@.take(i as int)),
        decreases bytes.len() - i,
    {
        push_char(&mut out, bytes[i] as char);
        i += 1;
        assert(out@ =~= latin1(bytes@.take(i as int)));
    }
    assert(bytes@.take(i as int) =~= bytes@);
    out
}

} // verus!
