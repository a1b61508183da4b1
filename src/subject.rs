//! From the raw header block of a message to the title of its task.
//!
//! The `Subject` header is located with a regular expression, and every
//! whitespace-separated word of it that is an RFC 2047 encoded word is
//! decoded; any other word, or one that does not decode, is kept as it is.
//! Each word of the title is followed by one space.
use vstd::prelude::*;
use vstd::string::StrSliceExecFns;
use vstd::utf8::{decode_utf8, valid_utf8};

verus! {

#[verifier::external_type_specification]
#[verifier::external_body]
pub struct ExRegexError(regex::Error);

/// Pattern locating the subject: the rest of the `Subject:` line, up to the
/// carriage return, after at most one space.
pub const SUBJECT_PATTERN: &'static str = "\\nSubject: ?(.*?)\\r";

/// Whether the regex engine rejects a pattern.
pub uninterp spec fn pattern_rejected(pattern: Seq<char>) -> bool;

/// The leftmost-first match of an accepted pattern in a text, if any, and in
/// it the text of the first group when that group took part in the match.
pub uninterp spec fn regex_match(pattern: Seq<char>, text: Seq<char>) -> Option<Option<Seq<char>>>;

/// What RFC 2047 decoding makes of a word, when it decodes.
pub uninterp spec fn rfc2047_decoded(word: Seq<char>) -> Option<Seq<char>>;

pub open spec fn opt_view(s: Option<String>) -> Option<Seq<char>> {
    match s {
        Some(t) => Some(t@),
        None => None,
    }
}

pub open spec fn group_view(found: Option<Option<String>>) -> Option<Option<Seq<char>>> {
    match found {
        Some(g) => Some(opt_view(g)),
        None => None,
    }
}

/// Relies on regex::Regex::new, which fails exactly on the patterns the
/// engine rejects, and on Regex::captures with Captures::get(1), which give
/// the first group of the leftmost-first match.
#[verifier::external_body]
fn regex_first_group(pattern: &str, text: &str) -> (r: Result<Option<Option<String>>, regex::Error>)
    ensures
        r is Err <==> pattern_rejected(pattern@),
        r matches Ok(found) ==> group_view(found) == regex_match(pattern@, text@),
{
    let re = regex::Regex::new(pattern)?;
    Ok(re.captures(text).map(|c| c.get(1).map(|m| m.as_str().to_string())))
}

/// Why a pattern yielded nothing.
#[derive(Debug, Clone, Copy, PartialEq, Eq, Structural)]
pub enum ExtractError {
    /// The pattern is not a valid regular expression.
    BadPattern,
    /// The pattern does not match the text.
    NoMatch,
    /// The pattern matched, but its first group did not take part.
    NoGroup,
}

/// The first group of `pattern` in `text`, or why there is none.
pub open spec fn extracted(pattern: Seq<char>, text: Seq<char>) -> Result<Seq<char>, ExtractError> {
    if pattern_rejected(pattern) {
        Err(ExtractError::BadPattern)
    } else {
        match regex_match(pattern, text) {
            None => Err(ExtractError::NoMatch),
            Some(None) => Err(ExtractError::NoGroup),
            Some(Some(g)) => Ok(g),
        }
    }
}

pub open spec fn result_view(r: Result<String, ExtractError>) -> Result<Seq<char>, ExtractError> {
    match r {
        Ok(s) => Ok(s@),
        Err(e) => Err(e),
    }
}

/// The text of the first capture group of `pattern` in `text`.
pub fn extract_info(pattern: &str, text: &str) -> (r: Result<String, ExtractError>)
    ensures
        result_view(r) == extracted(pattern@, text@),
{
    match regex_first_group(pattern, text) {
        Err(_) => Err(ExtractError::BadPattern),
        Ok(None) => Err(ExtractError::NoMatch),
        Ok(Some(None)) => Err(ExtractError::NoGroup),
        Ok(Some(Some(g))) => Ok(g),
    }
}

/// Relies on std::str::from_utf8: it succeeds exactly on valid UTF-8 and
/// then reads the bytes as the characters they encode.
#[verifier::external_body]
fn utf8_text<'a>(bytes: &'a [u8]) -> (r: Option<&'a str>)
    ensures
        r is Some <==> valid_utf8(bytes@),
        r matches Some(s) ==> s@ == decode_utf8(bytes@),
{
    std::str::from_utf8(bytes).ok()
}

/// The header block made of the fetched parts, when each is valid UTF-8.
pub open spec fn header_text(parts: Seq<Seq<u8>>) -> Option<Seq<char>>
    decreases parts.len(),
{
    if parts.len() == 0 {
        Some(seq![])
    } else {
        match header_text(parts.drop_last()) {
            Some(h) if valid_utf8(parts.last()) => Some(h + decode_utf8(parts.last())),
            _ => None,
        }
    }
}

pub open spec fn parts_view(parts: Seq<Vec<u8>>) -> Seq<Seq<u8>> {
    parts.map_values(|p: Vec<u8>| p@)
}

/// Joins the fetched parts of a header block into text.
pub fn join_header(parts: &Vec<Vec<u8>>) -> (r: Option<String>)
    ensures
        opt_view(r) == header_text(parts_view(parts@)),
{
    let mut out = String::new();
    let mut i: usize = 0;
    while i < parts.len()
        invariant
            i <= parts@.len(),
            header_text(parts_view(parts@).take(i as int)) == Some(out@),
        decreases parts@.len() - i,
    {
        let ghost pv = parts_view(parts@);
        proof {
            assert(pv.take(i + 1).drop_last() =~= pv.take(i as int));
            assert(pv.take(i + 1).last() == parts@[i as int]@);
        }
        match utf8_text(parts[i].as_slice()) {
            Some(s) => {
                out.append(s);
            },
            None => {
                proof {
                    lemma_header_text_fails(pv, i + 1);
                    assert(pv.take(parts@.len() as int) =~= pv);
                }
                return None;
            },
        }
        i = i + 1;
    }
    proof {
        assert(parts_view(parts@).take(parts@.len() as int) =~= parts_view(parts@));
    }
    Some(out)
}

proof fn lemma_header_text_fails(parts: Seq<Seq<u8>>, k: int)
    requires
        0 < k <= parts.len(),
        header_text(parts.take(k)) is None,
    ensures
        header_text(parts) is None,
    decreases parts.len() - k,
{
    if k < parts.len() {
        assert(parts.take(k + 1).drop_last() =~= parts.take(k));
        lemma_header_text_fails(parts, k + 1);
    } else {
        assert(parts.take(k) =~= parts);
    }
}

/// Whether a character is white space in the Unicode sense, as
/// `char::is_whitespace` reads it.
pub open spec fn is_space(c: char) -> bool {
    let v = c as u32;
    ||| 0x09 <= v <= 0x0d
    ||| v == 0x20
    ||| v == 0x85
    ||| v == 0xa0
    ||| v == 0x1680
    ||| 0x2000 <= v <= 0x200a
    ||| v == 0x2028
    ||| v == 0x2029
    ||| v == 0x202f
    ||| v == 0x205f
    ||| v == 0x3000
}

pub fn space(c: char) -> (r: bool)
    ensures
        r == is_space(c),
{
    let v = c as u32;
    (0x09 <= v && v <= 0x0d) || v == 0x20 || v == 0x85 || v == 0xa0 || v == 0x1680 || (0x2000
        <= v && v <= 0x200a) || v == 0x2028 || v == 0x2029 || v == 0x202f || v == 0x205f || v
        == 0x3000
}

/// The words of `s` that follow a word `cur` already begun: the maximal runs
/// of non-space characters, in order.
pub open spec fn split_words(s: Seq<char>, cur: Seq<char>) -> Seq<Seq<char>>
    decreases s.len(),
{
    if s.len() == 0 {
        if cur.len() == 0 { seq![] } else { seq![cur] }
    } else if is_space(s[0]) {
        (if cur.len() == 0 { seq![] } else { seq![cur] }) + split_words(s.drop_first(), seq![])
    } else {
        split_words(s.drop_first(), cur.push(s[0]))
    }
}

/// The whitespace-separated words of `s`.
pub open spec fn words(s: Seq<char>) -> Seq<Seq<char>> {
    split_words(s, seq![])
}

/// Position of the first `?` in `w` at or after `i`, or the length of `w`.
pub open spec fn next_mark(w: Seq<char>, i: int) -> int
    decreases w.len() - i,
{
    if i >= w.len() {
        w.len() as int
    } else if w[i] == '?' {
        i
    } else {
        next_mark(w, i + 1)
    }
}

pub open spec fn is_q(c: char) -> bool {
    c == 'q' || c == 'Q'
}

pub open spec fn is_b(c: char) -> bool {
    c == 'b' || c == 'B'
}

/// Whether every `=` escape of a Q-encoded text has the characters it reads.
pub open spec fn q_complete(s: Seq<char>) -> bool
    decreases s.len(),
{
    if s.len() == 0 {
        true
    } else if s[0] == '=' {
        if s.len() < 2 {
            false
        } else if s[1] == '\r' {
            s.len() >= 3 && (s[2] == '\n' ==> q_complete(s.skip(3)))
        } else if s[1] == '\n' {
            q_complete(s.skip(2))
        } else {
            s.len() >= 3 && q_complete(s.skip(3))
        }
    } else {
        q_complete(s.drop_first())
    }
}

/// Whether `w` is an encoded word `=?charset?e?text?=` with the encoding `e`
/// one of `Q` and `B` in either case, and a Q text whose escapes are all
/// complete. Only such words are handed to the decoder.
pub open spec fn decodable(w: Seq<char>) -> bool {
    let a = next_mark(w, 2);
    let b = next_mark(w, a + 1);
    let c = next_mark(w, b + 1);
    &&& w.len() >= 4
    &&& w[0] == '='
    &&& w[1] == '?'
    &&& w[w.len() - 1] == '='
    &&& c == w.len() - 2
    &&& b == a + 2
    &&& is_q(w[a + 1]) || is_b(w[a + 1])
    &&& is_q(w[a + 1]) ==> q_complete(w.subrange(b + 1, c))
}

/// Relies on email::rfc2047::decode_rfc2047, whose result depends on the
/// word alone. It panics on an encoding other than Q or B and on a Q escape
/// cut short, which `decodable` rules out.
#[verifier::external_body]
fn rfc2047(word: &str) -> (r: Option<String>)
    requires
        decodable(word@),
    ensures
        opt_view(r) == rfc2047_decoded(word@),
{
    email::rfc2047::decode_rfc2047(word)
}

/// What a word of the subject becomes in the title.
pub open spec fn word_text(w: Seq<char>) -> Seq<char> {
    if decodable(w) {
        match rfc2047_decoded(w) {
            Some(d) => d,
            None => w,
        }
    } else {
        w
    }
}

/// The title made of words: each word's text followed by one space.
pub open spec fn render_words(ws: Seq<Seq<char>>) -> Seq<char>
    decreases ws.len(),
{
    if ws.len() == 0 {
        seq![]
    } else {
        word_text(ws[0]) + seq![' '] + render_words(ws.drop_first())
    }
}

/// The title made of a raw subject.
pub open spec fn subject_text(raw: Seq<char>) -> Seq<char> {
    render_words(words(raw))
}

/// The title of a message whose header block came in these parts, if a
/// subject can be read from it.
pub open spec fn title_of(parts: Seq<Seq<u8>>) -> Option<Seq<char>> {
    match header_text(parts) {
        Some(h) => match extracted(SUBJECT_PATTERN@, h) {
            Ok(raw) => Some(subject_text(raw)),
            Err(_) => None,
        },
        None => None,
    }
}

fn find_mark(w: &str, n: usize, i: usize) -> (r: usize)
    requires
        n == w@.len(),
        i <= n,
    ensures
        r == next_mark(w@, i as int),
        i <= r <= n,
{
    let mut j = i;
    while j < n
        invariant
            n == w@.len(),
            i <= j <= n,
            next_mark(w@, j as int) == next_mark(w@, i as int),
        decreases n - j,
    {
        if w.get_char(j) == '?' {
            return j;
        }
        j = j + 1;
    }
    j
}

/// Whether every `=` escape of a Q-encoded text has the characters it reads.
pub fn q_escapes_complete(s: &str) -> (r: bool)
    ensures
        r == q_complete(s@),
{
    let n = s.unicode_len();
    let mut i: usize = 0;
    assert(s@.skip(0) =~= s@);
    while i < n
        invariant
            n == s@.len(),
            i <= n,
            q_complete(s@.skip(i as int)) == q_complete(s@),
        decreases n - i,
    {
        let ghost t = s@.skip(i as int);
        if s.get_char(i) == '=' {
            if n - i < 2 {
                return false;
            }
            let c1 = s.get_char(i + 1);
            if c1 == '\r' {
                if n - i < 3 {
                    return false;
                }
                if s.get_char(i + 2) != '\n' {
                    return true;
                }
                assert(t.skip(3) =~= s@.skip(i + 3));
                i = i + 3;
            } else if c1 == '\n' {
                assert(t.skip(2) =~= s@.skip(i + 2));
                i = i + 2;
            } else {
                if n - i < 3 {
                    return false;
                }
                assert(t.skip(3) =~= s@.skip(i + 3));
                i = i + 3;
            }
        } else {
            assert(t.drop_first() =~= s@.skip(i + 1));
            i = i + 1;
        }
    }
    true
}

proof fn lemma_mark_past_end(w: Seq<char>, i: int)
    requires
        i >= w.len(),
    ensures
        next_mark(w, i) == w.len(),
{
}

/// Whether `w` may be handed to the RFC 2047 decoder.
pub fn is_decodable(w: &str) -> (r: bool)
    ensures
        r == decodable(w@),
{
    let n = w.unicode_len();
    if n < 4 {
        return false;
    }
    if w.get_char(0) != '=' || w.get_char(1) != '?' || w.get_char(n - 1) != '=' {
        return false;
    }
    let a = find_mark(w, n, 2);
    if a >= n - 2 {
        proof {
            lemma_mark_past_end(w@, a + 3);
            if a + 1 >= n {
                lemma_mark_past_end(w@, a + 1);
            }
        }
        return false;
    }
    let b = find_mark(w, n, a + 1);
    if b != a + 2 {
        return false;
    }
    let c = find_mark(w, n, b + 1);
    if c != n - 2 {
        return false;
    }
    let e = w.get_char(a + 1);
    if e == 'q' || e == 'Q' {
        let content = w.substring_char(b + 1, c);
        q_escapes_complete(content)
    } else {
        e == 'b' || e == 'B'
    }
}

/// What one word of a subject becomes in the title.
pub fn word_title(w: &str) -> (r: String)
    ensures
        r@ == word_text(w@),
{
    if is_decodable(w) {
        match rfc2047(w) {
            Some(d) => d,
            None => w.to_owned(),
        }
    } else {
        w.to_owned()
    }
}

proof fn lemma_render_concat(a: Seq<Seq<char>>, b: Seq<Seq<char>>)
    ensures
        render_words(a + b) == render_words(a) + render_words(b),
    decreases a.len(),
{
    if a.len() == 0 {
        assert(a + b =~= b);
    } else {
        assert((a + b).drop_first() =~= a.drop_first() + b);
        lemma_render_concat(a.drop_first(), b);
    }
}

proof fn lemma_render_one(w: Seq<char>)
    ensures
        render_words(seq![w]) == word_text(w) + seq![' '],
{
    assert(seq![w].drop_first() =~= Seq::<Seq<char>>::empty());
    assert(seq![w][0] == w);
    assert(render_words(Seq::<Seq<char>>::empty()) == Seq::<char>::empty());
    assert(word_text(w) + seq![' '] + Seq::<char>::empty() =~= word_text(w) + seq![' ']);
}

/// The title made of a raw subject: each word decoded when it is an encoded
/// word that decodes, kept otherwise, and followed by one space.
pub fn decode_subject(raw: &str) -> (r: String)
    ensures
        r@ == subject_text(raw@),
{
    let n = raw.unicode_len();
    let mut out = String::new();
    let mut start: usize = 0;
    let mut i: usize = 0;
    proof {
        reveal_strlit(" ");
        assert(raw@.skip(0) =~= raw@);
        assert(raw@.subrange(0, 0) =~= Seq::<char>::empty());
    }
    while i < n
        invariant
            n == raw@.len(),
            start <= i <= n,
            " "@ == seq![' '],
            out@ + render_words(split_words(raw@.skip(i as int), raw@.subrange(start as int, i as int)))
                == subject_text(raw@),
        decreases n - i,
    {
        let ghost t = raw@.skip(i as int);
        let ghost cur = raw@.subrange(start as int, i as int);
        let c = raw.get_char(i);
        proof {
            assert(t.drop_first() =~= raw@.skip(i + 1));
        }
        if space(c) {
            let ghost rest = split_words(raw@.skip(i + 1), seq![]);
            if start < i {
                let w = raw.substring_char(start, i);
                let wt = word_title(w);
                out.append(wt.as_str());
                out.append(" ");
                proof {
                    lemma_render_concat(seq![cur], rest);
                    lemma_render_one(cur);
                }
            } else {
                assert(Seq::<Seq<char>>::empty() + rest =~= rest);
            }
            start = i + 1;
            proof {
                assert(raw@.subrange(start as int, i + 1) =~= Seq::<char>::empty());
            }
        } else {
            proof {
                assert(cur.push(c) =~= raw@.subrange(start as int, i + 1));
            }
        }
        i = i + 1;
    }
    let ghost cur = raw@.subrange(start as int, n as int);
    if start < n {
        let w = raw.substring_char(start, n);
        let wt = word_title(w);
        out.append(wt.as_str());
        out.append(" ");
        proof {
            lemma_render_one(cur);
        }
    }
    proof {
        assert(render_words(Seq::<Seq<char>>::empty()) == Seq::<char>::empty());
        assert(out@ =~= out@ + Seq::<char>::empty());
    }
    out
}

/// The title of a message whose header block was fetched in these parts:
/// `None` when a part is not UTF-8 or no subject can be read.
pub fn message_title(parts: &Vec<Vec<u8>>) -> (r: Option<String>)
    ensures
        opt_view(r) == title_of(parts_view(parts@)),
{
    match join_header(parts) {
        Some(h) => match extract_info(SUBJECT_PATTERN, h.as_str()) {
            Ok(raw) => Some(decode_subject(raw.as_str())),
            Err(_) => None,
        },
        None => None,
    }
}

} // verus!
