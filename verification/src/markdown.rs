//! Escaping of text for Telegram's MarkdownV2.

use vstd::prelude::*;
use vstd::utf8::*;
use vstd::string::StringSliceAdditionalSpecFns;
use crate::text::push_char;

verus! {

broadcast use vstd::utf8::group_utf8_lib;

/// The characters that MarkdownV2 requires to be escaped outside of entities.
pub open spec fn is_markdown_v2_special(c: char) -> bool {
    c == '_' || c == '*' || c == '[' || c == ']' || c == '(' || c == ')' || c == '~'
        || c == '`' || c == '>' || c == '#' || c == '+' || c == '-' || c == '=' || c == '|'
        || c == '{' || c == '}' || c == '.' || c == '!' || c == '\\'
}

/// One character, escaped.
pub open spec fn escape_char(c: char) -> Seq<char> {
    if is_markdown_v2_special(c) {
        seq!['\\', c]
    } else {
        seq![c]
    }
}

/// Every character of `s`, escaped.
pub open spec fn escape_chars(s: Seq<char>) -> Seq<char>
    decreases s.len(),
{
    if s.len() == 0 {
        Seq::empty()
    } else {
        escape_chars(s.drop_last()) + escape_char(s.last())
    }
}

/// `s` with each backslash that precedes a special character removed: what
/// a MarkdownV2 reader displays for text outside entities.
pub open spec fn unescape_chars(s: Seq<char>) -> Seq<char>
    decreases s.len(),
{
    if s.len() == 0 {
        Seq::empty()
    } else if s.len() >= 2 && s[0] == '\\' && is_markdown_v2_special(s[1]) {
        seq![s[1]] + unescape_chars(s.skip(2))
    } else {
        seq![s[0]] + unescape_chars(s.skip(1))
    }
}

/// Escaping text piece by piece escapes the whole text.
pub proof fn lemma_escape_chars_concat(a: Seq<char>, b: Seq<char>)
    ensures
        escape_chars(a + b) == escape_chars(a) + escape_chars(b),
    decreases b.len(),
{
    if b.len() == 0 {
        assert(a + b =~= a);
        assert(escape_chars(a) + escape_chars(b) =~= escape_chars(a));
    } else {
        lemma_escape_chars_concat(a, b.drop_last());
        assert((a + b).drop_last() =~= a + b.drop_last());
        assert((a + b).last() == b.last());
        assert(escape_chars(a + b) =~= escape_chars(a) + escape_chars(b));
    }
}

/// Text without special characters is left as it is.
pub proof fn lemma_escape_plain_text(s: Seq<char>)
    requires
        forall|i: int| 0 <= i < s.len() ==> !is_markdown_v2_special(#[trigger] s[i]),
    ensures
        escape_chars(s) == s,
    decreases s.len(),
{
    if s.len() > 0 {
        lemma_escape_plain_text(s.drop_last());
        assert(escape_chars(s) =~= s);
    }
}

/// Escaping loses nothing: a MarkdownV2 reader sees exactly the text that
/// was escaped.
pub proof fn lemma_unescape_escape(s: Seq<char>)
    ensures
        unescape_chars(escape_chars(s)) == s,
    decreases s.len(),
{
    if s.len() > 0 {
        let rest = s.skip(1);
        lemma_unescape_escape(rest);
        lemma_escape_chars_concat(seq![s[0]], rest);
        assert(seq![s[0]] + rest =~= s);
        let first = escape_chars(seq![s[0]]);
        assert(seq![s[0]].drop_last() =~= Seq::<char>::empty());
        assert(escape_chars(Seq::<char>::empty()) =~= Seq::<char>::empty());
        assert(first =~= escape_char(s[0]));
        let out = escape_chars(s);
        assert(out =~= first + escape_chars(rest));
        if is_markdown_v2_special(s[0]) {
            assert(out.skip(2) =~= escape_chars(rest));
        } else {
            assert(out.skip(1) =~= escape_chars(rest));
            if s[0] == '\\' {
                assert(is_markdown_v2_special(s[0]));
            }
        }
        assert(unescape_chars(out) =~= s);
    }
}

fn is_special(c: char) -> (b: bool)
    ensures
        b == is_markdown_v2_special(c),
{
    c == '_' || c == '*' || c == '[' || c == ']' || c == '(' || c == ')' || c == '~'
        || c == '`' || c == '>' || c == '#' || c == '+' || c == '-' || c == '=' || c == '|'
        || c == '{' || c == '}' || c == '.' || c == '!' || c == '\\'
}

/// Appends `s` to `out`, escaping every special character.
fn push_escaped(out: &mut String, s: &str)
    ensures
        final(out)@ == old(out)@ + escape_chars(s@),
{
    let ghost start = out@;
    for c in it: s.chars()
        invariant
            out@ == start + escape_chars(it.seq().take(it.index() as int)),
            it.seq() == s@,
    {
        proof {
            let seen = it.seq().take(it.index() as int);
            let next = it.seq().take(it.index() + 1);
            assert(next.drop_last() =~= seen);
        }
        if is_special(c) {
            push_char(out, '\\');
        }
        push_char(out, c);
    }
    proof {
        assert(s@.take(s@.len() as int) =~= s@);
    }
}


/// What the entity scan reports for one match: the byte range of the whole
/// match, then the byte ranges of the link label and of the link target when
/// the match is a `[label](url)` link.
pub type EntityMatch = (usize, usize, Option<(usize, usize)>, Option<(usize, usize)>);

/// The pattern of the MarkdownV2 entities that are kept as they stand: code
/// blocks, inline code, bold, italic, strikethrough and links.
pub const MARKDOWN_V2_ENTITY_PATTERN: &'static str =
    r"(?s)```.*?```|`[^`]*`|\*[^*]*\*|_[^_]*_|~[^~]*~|\[([^\]]+)\]\(([^)]+)\)";

/// The matches that the regex `pattern` finds in `haystack`, in order, each
/// with capture groups 1 and 2; `None` when `pattern` does not compile.
pub uninterp spec fn regex_capture_spans(pattern: Seq<char>, haystack: Seq<char>) -> Option<
    Seq<(usize, usize, Option<(usize, usize)>, Option<(usize, usize)>)>,
>;

/// `regex::Regex::new(pattern)` and then `Regex::captures_iter(haystack)`,
/// each match converted to the byte ranges of group 0, group 1 and group 2.
/// The contract claims only that the result is the one named
/// `regex_capture_spans` for these two arguments; what the regex engine finds
/// is not stated.
#[verifier::external_body]
fn find_capture_spans(pattern: &str, haystack: &str) -> (res: Option<Vec<EntityMatch>>)
    ensures
        res is None <==> regex_capture_spans(pattern@, haystack@) is None,
        res matches Some(found) ==> regex_capture_spans(pattern@, haystack@) == Some(found@),
{
    let re = regex::Regex::new(pattern).ok()?;
    let span = |m: regex::Match<'_>| (m.start(), m.end());
    Some(
        re.captures_iter(haystack)
            .map(|c| {
                let (start, end) = c.get(0).map_or((0, 0), span);
                (start, end, c.get(1).map(span), c.get(2).map(span))
            })
            .collect(),
    )
}

/// The characters encoded by the bytes `from..to` of `bytes`.
pub open spec fn chars_between(bytes: Seq<u8>, from: int, to: int) -> Seq<char> {
    decode_utf8(bytes.subrange(from, to))
}

/// `from..to` is a range of `bytes` that starts and ends on character boundaries.
pub open spec fn char_range(bytes: Seq<u8>, from: int, to: int) -> bool {
    &&& 0 <= from <= to <= bytes.len()
    &&& is_char_boundary(bytes, from)
    &&& is_char_boundary(bytes, to)
}

/// Every range that `m` reports is a character range of `bytes`.
pub open spec fn match_in_text(bytes: Seq<u8>, m: EntityMatch) -> bool {
    &&& char_range(bytes, m.0 as int, m.1 as int)
    &&& (m.2 matches Some(g) ==> char_range(bytes, g.0 as int, g.1 as int))
    &&& (m.3 matches Some(g) ==> char_range(bytes, g.0 as int, g.1 as int))
}

/// The matches lie in the text and follow one another without overlapping.
pub open spec fn matches_well_formed(bytes: Seq<u8>, ms: Seq<EntityMatch>) -> bool {
    forall|i: int|
        0 <= i < ms.len() ==> match_in_text(bytes, #[trigger] ms[i]) && (i > 0 ==> ms[i
            - 1].1 <= ms[i].0)
}

/// What an entity becomes: a link has its label and target escaped, any
/// other entity is kept verbatim.
pub open spec fn entity_output(bytes: Seq<u8>, m: EntityMatch) -> Seq<char> {
    match (m.2, m.3) {
        (Some(label), Some(target)) => seq!['['] + escape_chars(
            chars_between(bytes, label.0 as int, label.1 as int),
        ) + seq![']', '('] + escape_chars(chars_between(bytes, target.0 as int, target.1 as int))
            + seq![')'],
        _ => chars_between(bytes, m.0 as int, m.1 as int),
    }
}

/// The byte offset just past the last match (0 when there is none).
pub open spec fn matches_end(ms: Seq<EntityMatch>) -> int {
    if ms.len() == 0 {
        0
    } else {
        ms.last().1 as int
    }
}

/// The output for the text up to the end of the last match.
pub open spec fn render_matches(bytes: Seq<u8>, ms: Seq<EntityMatch>) -> Seq<char>
    decreases ms.len(),
{
    if ms.len() == 0 {
        Seq::empty()
    } else {
        let before = ms.drop_last();
        let m = ms.last();
        render_matches(bytes, before) + escape_chars(
            chars_between(bytes, matches_end(before), m.0 as int),
        ) + entity_output(bytes, m)
    }
}

/// The escaped form of the text whose UTF-8 bytes are `bytes`, given the
/// entities found in it: text between entities is escaped character by
/// character, entities are rendered by `entity_output`.
pub open spec fn escaped_with_entities(bytes: Seq<u8>, ms: Seq<EntityMatch>) -> Seq<char> {
    render_matches(bytes, ms) + escape_chars(
        chars_between(bytes, matches_end(ms), bytes.len() as int),
    )
}

/// The MarkdownV2 form of `text`: entities found by the entity pattern are
/// preserved, every special character elsewhere is escaped. Should the scan
/// report matches that do not fit the text, the whole text is escaped.
pub open spec fn markdown_v2_escaped(text: Seq<char>) -> Seq<char> {
    let bytes = encode_utf8(text);
    match regex_capture_spans(MARKDOWN_V2_ENTITY_PATTERN@, text) {
        Some(ms) => if matches_well_formed(bytes, ms) {
            escaped_with_entities(bytes, ms)
        } else {
            escape_chars(text)
        },
        None => escape_chars(text),
    }
}

proof fn lemma_boundary_in_suffix(bytes: Seq<u8>, from: int, to: int)
    requires
        valid_utf8(bytes),
        char_range(bytes, from, to),
    ensures
        valid_utf8(bytes.subrange(from, bytes.len() as int)),
        is_char_boundary(bytes.subrange(from, bytes.len() as int), to - from),
{
    let rest = bytes.subrange(from, bytes.len() as int);
    valid_utf8_split(bytes, from);
    if to - from == 0 {
    } else if to == bytes.len() {
        is_char_boundary_start_end_of_seq(rest);
    } else {
        is_char_boundary_iff_not_is_continuation_byte(bytes, to);
        is_char_boundary_iff_not_is_continuation_byte(rest, to - from);
        assert(rest[to - from] == bytes[to]);
    }
}

/// The part of `text` between the byte offsets `from` and `to`.
fn str_range(text: &str, from: usize, to: usize) -> (res: &str)
    requires
        char_range(text.spec_bytes(), from as int, to as int),
    ensures
        res@ == chars_between(text.spec_bytes(), from as int, to as int),
{
    proof {
        lemma_boundary_in_suffix(text.spec_bytes(), from as int, to as int);
    }
    let (_, rest) = text.split_at(from);
    let (middle, _) = rest.split_at(to - from);
    proof {
        assert(middle.spec_bytes() =~= text.spec_bytes().subrange(from as int, to as int));
    }
    middle
}

/// Whether every range that `m` reports lies on character boundaries of `text`.
fn check_range(text: &str, from: usize, to: usize) -> (b: bool)
    ensures
        b == char_range(text.spec_bytes(), from as int, to as int),
{
    from <= to && to <= text.as_bytes().len() && text.is_char_boundary(from) && text.is_char_boundary(to)
}

/// Whether the reported matches lie in `text` and follow one another.
pub fn matches_fit(text: &str, ms: &[EntityMatch]) -> (b: bool)
    ensures
        b == matches_well_formed(text.spec_bytes(), ms@),
{
    let mut i: usize = 0;
    while i < ms.len()
        invariant
            i <= ms@.len(),
            matches_well_formed(text.spec_bytes(), ms@.take(i as int)),
        decreases ms@.len() - i,
    {
        let m = ms[i];
        let groups_ok = match m.2 {
            Some(g) => check_range(text, g.0, g.1),
            None => true,
        } && match m.3 {
            Some(g) => check_range(text, g.0, g.1),
            None => true,
        };
        if !check_range(text, m.0, m.1) || !groups_ok || (i > 0 && ms[i - 1].1 > m.0) {
            proof {
                assert(ms@.take(i + 1)[i as int] == ms@[i as int]);
                assert(!matches_well_formed(text.spec_bytes(), ms@)) by {
                    assert(ms@[i as int] == m);
                }
            }
            return false;
        }
        proof {
            assert forall|j: int| 0 <= j < i + 1 implies match_in_text(
                text.spec_bytes(),
                #[trigger] ms@.take(i + 1)[j],
            ) && (j > 0 ==> ms@.take(i + 1)[j - 1].1 <= ms@.take(i + 1)[j].0) by {
                if j < i {
                    assert(ms@.take(i as int)[j] == ms@.take(i + 1)[j]);
                    if j > 0 {
                        assert(ms@.take(i as int)[j - 1] == ms@.take(i + 1)[j - 1]);
                    }
                }
            }
        }
        i += 1;
    }
    proof {
        assert(ms@.take(ms@.len() as int) =~= ms@);
    }
    true
}


/// `text` with every special character escaped.
pub fn escape_every_special(text: &str) -> (res: String)
    ensures
        res@ == escape_chars(text@),
{
    let mut out = String::new();
    push_escaped(&mut out, text);
    out
}

/// The entities that the MarkdownV2 entity pattern finds in `text`.
pub fn find_entities(text: &str) -> (res: Option<Vec<EntityMatch>>)
    ensures
        res is None <==> regex_capture_spans(MARKDOWN_V2_ENTITY_PATTERN@, text@) is None,
        res matches Some(found) ==> regex_capture_spans(MARKDOWN_V2_ENTITY_PATTERN@, text@)
            == Some(found@),
{
    find_capture_spans(MARKDOWN_V2_ENTITY_PATTERN, text)
}

/// Appends what the entity `m` of `text` becomes.
fn push_entity(out: &mut String, text: &str, m: EntityMatch)
    requires
        match_in_text(text.spec_bytes(), m),
    ensures
        final(out)@ == old(out)@ + entity_output(text.spec_bytes(), m),
{
    match (m.2, m.3) {
        (Some(label), Some(target)) => {
            push_char(out, '[');
            push_escaped(out, str_range(text, label.0, label.1));
            push_char(out, ']');
            push_char(out, '(');
            push_escaped(out, str_range(text, target.0, target.1));
            push_char(out, ')');
            proof {
                let b = text.spec_bytes();
                assert(out@ =~= old(out)@ + entity_output(b, m));
            }
        },
        _ => {
            out.append(str_range(text, m.0, m.1));
        },
    }
}

/// Escapes `text` for MarkdownV2, keeping the entities `ms` (byte ranges of
/// `text`, in order and not overlapping) as they stand and escaping the label
/// and target of each link.
pub fn escape_with_entities(text: &str, ms: &[EntityMatch]) -> (res: String)
    requires
        matches_well_formed(text.spec_bytes(), ms@),
    ensures
        res@ == escaped_with_entities(text.spec_bytes(), ms@),
{
    let ghost bytes = text.spec_bytes();
    let mut out = String::new();
    let mut last: usize = 0;
    let mut i: usize = 0;
    while i < ms.len()
        invariant
            i <= ms@.len(),
            bytes == text.spec_bytes(),
            matches_well_formed(bytes, ms@),
            last == matches_end(ms@.take(i as int)),
            out@ == render_matches(bytes, ms@.take(i as int)),
        decreases ms@.len() - i,
    {
        let m = ms[i];
        proof {
            assert(match_in_text(bytes, ms@[i as int]));
            assert(ms@.take(i + 1).drop_last() =~= ms@.take(i as int));
            assert(ms@.take(i + 1).last() == m);
            if i > 0 {
                assert(ms@[i - 1].1 <= ms@[i as int].0);
                assert(ms@.take(i as int).last() == ms@[i - 1]);
                assert(match_in_text(bytes, ms@[i - 1]));
            } else {
                is_char_boundary_start_end_of_seq(bytes);
            }
        }
        push_escaped(&mut out, str_range(text, last, m.0));
        push_entity(&mut out, text, m);
        last = m.1;
        i += 1;
    }
    proof {
        assert(ms@.take(ms@.len() as int) =~= ms@);
        is_char_boundary_start_end_of_seq(bytes);
        if ms@.len() > 0 {
            assert(match_in_text(bytes, ms@[ms@.len() - 1]));
        }
    }
    let end = text.as_bytes().len();
    push_escaped(&mut out, str_range(text, last, end));
    out
}

} // verus!
