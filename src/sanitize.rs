use vstd::prelude::*;

use crate::error::TipError;

verus! {

/// ASCII letters and digits, a fixed set of punctuation and symbols (space
/// included), and a fixed set of accented Latin letters.
pub open spec fn is_allowed_char(c: char) -> bool {
    ||| ('a' <= c && c <= 'z')
    ||| ('A' <= c && c <= 'Z')
    ||| ('0' <= c && c <= '9')
    ||| c == ' ' || c == '.' || c == ',' || c == '!' || c == '?' || c == ':' || c == ';'
    ||| c == '-' || c == '_' || c == '\'' || c == '"' || c == '(' || c == ')' || c == '['
    ||| c == ']' || c == '{' || c == '}' || c == '@' || c == '#' || c == '$' || c == '%'
    ||| c == '&' || c == '*' || c == '+' || c == '=' || c == '|' || c == '~' || c == '`'
    ||| c == '/' || c == '\\' || c == '<' || c == '>'
    ||| c == 'á' || c == 'é' || c == 'í' || c == 'ó' || c == 'ú' || c == 'ñ' || c == 'ü'
    ||| c == 'Á' || c == 'É' || c == 'Í' || c == 'Ó' || c == 'Ú' || c == 'Ñ' || c == 'Ü'
    ||| c == 'à' || c == 'è' || c == 'ì' || c == 'ò' || c == 'ù' || c == 'À' || c == 'È'
    ||| c == 'Ì' || c == 'Ò' || c == 'Ù' || c == 'â' || c == 'ê' || c == 'î' || c == 'ô'
    ||| c == 'û' || c == 'Â' || c == 'Ê' || c == 'Î' || c == 'Ô' || c == 'Û' || c == 'ä'
    ||| c == 'ë' || c == 'ï' || c == 'ö' || c == 'Ä' || c == 'Ë' || c == 'Ï' || c == 'Ö'
    ||| c == 'ÿ'
}

/// Tab, newline, carriage return, and the invisible formatting characters
/// (zero-width space, non-joiner, joiner, and the byte-order mark).
pub open spec fn is_problematic_char(c: char) -> bool {
    ||| c == '\t' || c == '\n' || c == '\r'
    ||| c == '\u{200B}' || c == '\u{200C}' || c == '\u{200D}' || c == '\u{FEFF}'
}

/// Characters with the Unicode White_Space property.
pub open spec fn is_white_space(c: char) -> bool {
    ||| ('\u{9}' <= c && c <= '\u{D}')
    ||| c == ' ' || c == '\u{85}' || c == '\u{A0}' || c == '\u{1680}'
    ||| ('\u{2000}' <= c && c <= '\u{200A}')
    ||| c == '\u{2028}' || c == '\u{2029}' || c == '\u{202F}' || c == '\u{205F}' || c == '\u{3000}'
}

/// Whether a character passes the sanitizer (kept or turned into a space).
pub open spec fn is_accepted_char(c: char) -> bool {
    is_allowed_char(c) || is_problematic_char(c)
}

/// The character-level pass: allowed characters stay, problematic ones
/// become a space.
pub open spec fn map_char(c: char) -> char {
    if is_allowed_char(c) {
        c
    } else {
        ' '
    }
}

pub open spec fn map_chars(s: Seq<char>) -> Seq<char> {
    s.map_values(|c: char| map_char(c))
}

/// The maximal runs of non-whitespace characters of `s`, in order.
pub open spec fn words(s: Seq<char>) -> Seq<Seq<char>>
    decreases s.len(),
{
    if s.len() == 0 {
        seq![]
    } else {
        let p = s.drop_last();
        let c = s.last();
        if is_white_space(c) {
            words(p)
        } else if p.len() == 0 || is_white_space(p.last()) {
            words(p).push(seq![c])
        } else {
            let w = words(p);
            w.update(w.len() - 1, w.last().push(c))
        }
    }
}

/// Words joined by single spaces.
pub open spec fn join_words(ws: Seq<Seq<char>>) -> Seq<char>
    decreases ws.len(),
{
    if ws.len() == 0 {
        seq![]
    } else if ws.len() == 1 {
        ws[0]
    } else {
        join_words(ws.drop_last()) + seq![' '] + ws.last()
    }
}

/// Every run of whitespace becomes one space; leading and trailing
/// whitespace is dropped.
pub open spec fn collapse(s: Seq<char>) -> Seq<char> {
    join_words(words(s))
}

/// What sanitizing `s` yields.
pub open spec fn sanitized(s: Seq<char>) -> Result<Seq<char>, TipError> {
    if forall|i: int| 0 <= i < s.len() ==> is_accepted_char(#[trigger] s[i]) {
        Ok(collapse(map_chars(s)))
    } else {
        Err(TipError::InvalidCharacters)
    }
}

/// Whether `c` is copied through the sanitizer unchanged.
pub fn is_allowed_character(c: char) -> (r: bool)
    ensures
        r == is_allowed_char(c),
{
    ('a' <= c && c <= 'z') || ('A' <= c && c <= 'Z') || ('0' <= c && c <= '9')
        || c == ' ' || c == '.' || c == ',' || c == '!' || c == '?' || c == ':' || c == ';'
        || c == '-' || c == '_' || c == '\'' || c == '"' || c == '(' || c == ')' || c == '['
        || c == ']' || c == '{' || c == '}' || c == '@' || c == '#' || c == '$' || c == '%'
        || c == '&' || c == '*' || c == '+' || c == '=' || c == '|' || c == '~' || c == '`'
        || c == '/' || c == '\\' || c == '<' || c == '>'
        || c == 'á' || c == 'é' || c == 'í' || c == 'ó' || c == 'ú' || c == 'ñ' || c == 'ü'
        || c == 'Á' || c == 'É' || c == 'Í' || c == 'Ó' || c == 'Ú' || c == 'Ñ' || c == 'Ü'
        || c == 'à' || c == 'è' || c == 'ì' || c == 'ò' || c == 'ù' || c == 'À' || c == 'È'
        || c == 'Ì' || c == 'Ò' || c == 'Ù' || c == 'â' || c == 'ê' || c == 'î' || c == 'ô'
        || c == 'û' || c == 'Â' || c == 'Ê' || c == 'Î' || c == 'Ô' || c == 'Û' || c == 'ä'
        || c == 'ë' || c == 'ï' || c == 'ö' || c == 'Ä' || c == 'Ë' || c == 'Ï' || c == 'Ö'
        || c == 'ÿ'
}

/// Whether `c` is replaced by a space in the sanitizer.
pub fn is_problematic_character(c: char) -> (r: bool)
    ensures
        r == is_problematic_char(c),
{
    c == '\t' || c == '\n' || c == '\r' || c == '\u{200B}' || c == '\u{200C}' || c == '\u{200D}'
        || c == '\u{FEFF}'
}

/// Relies on `char::is_whitespace`: true exactly on the Unicode White_Space
/// characters.
#[verifier::external_body]
fn is_whitespace(c: char) -> (r: bool)
    ensures
        r == is_white_space(c),
{
    c.is_whitespace()
}

/// Relies on `String::push`: appends one character.
#[verifier::external_body]
pub(crate) fn push_char(s: &mut String, c: char)
    ensures
        final(s)@ == old(s)@.push(c),
{
    s.push(c)
}

/// Each word of `words(s)` is non-empty and free of whitespace; a string
/// that ends in a non-whitespace character has at least one word.
pub proof fn lemma_words_shape(s: Seq<char>)
    ensures
        forall|k: int| 0 <= k < words(s).len() ==> #[trigger] words(s)[k].len() > 0,
        forall|k: int, j: int|
            0 <= k < words(s).len() && 0 <= j < words(s)[k].len() ==> !is_white_space(
                #[trigger] words(s)[k][j],
            ),
        s.len() > 0 && !is_white_space(s.last()) ==> words(s).len() > 0,
    decreases s.len(),
{
    if s.len() > 0 {
        let p = s.drop_last();
        let c = s.last();
        lemma_words_shape(p);
        if !is_white_space(c) && !(p.len() == 0 || is_white_space(p.last())) {
            let w = words(p);
            let u = w.update(w.len() - 1, w.last().push(c));
            assert(words(s) == u);
            assert forall|k: int, j: int| 0 <= k < u.len() && 0 <= j < u[k].len() implies !is_white_space(
                #[trigger] u[k][j],
            ) by {
                if k == w.len() - 1 && j == w.last().len() {
                } else if k == w.len() - 1 {
                    assert(u[k][j] == w[k][j]);
                }
            }
        } else if !is_white_space(c) {
            let w = words(p);
            let u = w.push(seq![c]);
            assert(words(s) == u);
            assert forall|k: int, j: int| 0 <= k < u.len() && 0 <= j < u[k].len() implies !is_white_space(
                #[trigger] u[k][j],
            ) by {
                if k < w.len() {
                    assert(u[k] == w[k]);
                }
            }
        }
    }
}

proof fn lemma_join_words_empty(ws: Seq<Seq<char>>)
    requires
        ws.len() > 0 ==> ws[0].len() > 0,
    ensures
        join_words(ws).len() == 0 <==> ws.len() == 0,
    decreases ws.len(),
{
}

proof fn lemma_join_words_extend(ws: Seq<Seq<char>>, c: char)
    requires
        ws.len() > 0,
    ensures
        join_words(ws.update(ws.len() - 1, ws.last().push(c))) == join_words(ws).push(c),
{
    let u = ws.update(ws.len() - 1, ws.last().push(c));
    if ws.len() > 1 {
        assert(u.drop_last() =~= ws.drop_last());
        assert(join_words(u) =~= join_words(ws).push(c));
    }
}

/// One step of the whitespace pass: `collapse` of a string extended by one
/// character, in terms of `collapse` of the string.
proof fn lemma_collapse_step(p: Seq<char>, c: char)
    ensures
        collapse(p.push(c)) == if is_white_space(c) {
            collapse(p)
        } else if collapse(p).len() == 0 {
            seq![c]
        } else if is_white_space(p.last()) {
            collapse(p) + seq![' ', c]
        } else {
            collapse(p).push(c)
        },
{
    let s = p.push(c);
    assert(s.drop_last() =~= p);
    lemma_words_shape(p);
    lemma_join_words_empty(words(p));
    if !is_white_space(c) {
        if p.len() == 0 || is_white_space(p.last()) {
            if words(p).len() > 0 {
                assert(words(p).push(seq![c]).drop_last() =~= words(p));
                assert(collapse(s) =~= collapse(p) + seq![' ', c]);
            } else {
                assert(collapse(s) =~= seq![c]);
            }
        } else {
            lemma_join_words_extend(words(p), c);
        }
    }
}

/// Collapses every run of whitespace to one space and trims both ends.
pub fn collapse_whitespace(s: &str) -> (r: String)
    ensures
        r@ == collapse(s@),
{
    let mut result = String::new();
    let mut pending_space = false;
    for c in it: s.chars()
        invariant
            it.seq() == s@,
            result@ == collapse(s@.take(it.index() as int)),
            pending_space == (result@.len() > 0 && it.index() > 0 && is_white_space(
                s@[it.index() - 1],
            )),
    {
        let ghost p = s@.take(it.index() as int);
        proof {
            lemma_collapse_step(p, c);
            assert(s@.take(it.index() + 1) =~= p.push(c));
        }
        if is_whitespace(c) {
            if !result.as_str().is_empty() {
                pending_space = true;
            }
        } else {
            if pending_space {
                push_char(&mut result, ' ');
                pending_space = false;
            }
            push_char(&mut result, c);
        }
    }
    proof {
        assert(s@.take(s@.len() as int) =~= s@);
    }
    result
}

/// The view of a sanitizer outcome.
pub open spec fn outcome_view(r: Result<String, TipError>) -> Result<Seq<char>, TipError> {
    match r {
        Ok(t) => Ok(t@),
        Err(e) => Err(e),
    }
}

/// Maps each character to itself (allowed) or a space (problematic), failing
/// on any other character, then collapses whitespace.
pub fn sanitize_message(message: String) -> (r: Result<String, TipError>)
    ensures
        outcome_view(r) == sanitized(message@),
        (exists|i: int| 0 <= i < message@.len() && !is_accepted_char(#[trigger] message@[i])) ==> r
            == Err::<String, TipError>(TipError::InvalidCharacters),
{
    if message.as_str().is_empty() {
        return Ok(String::new());
    }
    let mut mapped = String::new();
    for c in it: message.as_str().chars()
        invariant
            it.seq() == message@,
            mapped@ == map_chars(message@.take(it.index() as int)),
            forall|i: int| 0 <= i < it.index() ==> is_accepted_char(#[trigger] message@[i]),
    {
        proof {
            assert(map_chars(message@.take(it.index() + 1)) =~= map_chars(
                message@.take(it.index() as int),
            ).push(map_char(c)));
        }
        if is_allowed_character(c) {
            push_char(&mut mapped, c);
        } else if is_problematic_character(c) {
            push_char(&mut mapped, ' ');
        } else {
            return Err(TipError::InvalidCharacters);
        }
    }
    proof {
        assert(message@.take(message@.len() as int) =~= message@);
    }
    Ok(collapse_whitespace(mapped.as_str()))
}

/// No whitespace at either end, and every whitespace character is a plain
/// space between two non-whitespace characters.
pub open spec fn well_spaced(t: Seq<char>) -> bool {
    &&& t.len() > 0 ==> !is_white_space(t[0]) && !is_white_space(t[t.len() - 1])
    &&& forall|i: int|
        0 <= i < t.len() && is_white_space(#[trigger] t[i]) ==> {
            &&& t[i] == ' '
            &&& 0 < i < t.len() - 1
            &&& !is_white_space(t[i - 1])
            &&& !is_white_space(t[i + 1])
        }
}

/// Collapsed text is well spaced, made of characters of the input or spaces,
/// and not longer than the input.
pub proof fn lemma_collapse_shape(s: Seq<char>)
    ensures
        well_spaced(collapse(s)),
        collapse(s).len() + (if collapse(s).len() > 0 && s.len() > 0 && is_white_space(s.last()) {
            1int
        } else {
            0int
        }) <= s.len(),
        (forall|i: int| 0 <= i < s.len() ==> is_allowed_char(#[trigger] s[i])) ==> forall|i: int|
            0 <= i < collapse(s).len() ==> is_allowed_char(#[trigger] collapse(s)[i]),
    decreases s.len(),
{
    if s.len() > 0 {
        let p = s.drop_last();
        let c = s.last();
        assert(p.push(c) =~= s);
        lemma_collapse_shape(p);
        lemma_collapse_step(p, c);
        let t = collapse(p);
        let u = collapse(s);
        if forall|i: int| 0 <= i < s.len() ==> is_allowed_char(#[trigger] s[i]) {
            assert(is_allowed_char(c));
            assert forall|i: int| 0 <= i < p.len() implies is_allowed_char(#[trigger] p[i]) by {
                assert(p[i] == s[i]);
            }
            assert forall|i: int| 0 <= i < u.len() implies is_allowed_char(#[trigger] u[i]) by {
                if i < t.len() {
                    assert(u[i] == t[i]);
                }
            }
        }
        if !is_white_space(c) {
            assert forall|i: int| 0 <= i < u.len() && is_white_space(#[trigger] u[i]) implies {
                &&& u[i] == ' '
                &&& 0 < i < u.len() - 1
                &&& !is_white_space(u[i - 1])
                &&& !is_white_space(u[i + 1])
            } by {
                if i < t.len() {
                    assert(u[i] == t[i]);
                    assert(u[i - 1] == t[i - 1]);
                    if i + 1 < t.len() {
                        assert(u[i + 1] == t[i + 1]);
                    }
                }
            }
        }
    }
}

/// Collapsing whitespace keeps the words of a text.
pub proof fn lemma_words_of_join(ws: Seq<Seq<char>>)
    requires
        forall|k: int| 0 <= k < ws.len() ==> #[trigger] ws[k].len() > 0,
        forall|k: int, j: int|
            0 <= k < ws.len() && 0 <= j < ws[k].len() ==> !is_white_space(#[trigger] ws[k][j]),
    ensures
        words(join_words(ws)) == ws,
    decreases ws.len(),
{
    if ws.len() == 1 {
        lemma_words_append_word(seq![], ws[0]);
        assert(seq![] + ws[0] =~= ws[0]);
        assert(seq![].push(ws[0]) =~= ws);
    } else if ws.len() > 1 {
        let d = ws.drop_last();
        lemma_words_of_join(d);
        let x = join_words(d).push(' ');
        assert(x.drop_last() =~= join_words(d));
        lemma_words_append_word(x, ws.last());
        assert(x + ws.last() =~= join_words(ws));
        assert(d.push(ws.last()) =~= ws);
    }
}

proof fn lemma_words_append_word(x: Seq<char>, w: Seq<char>)
    requires
        w.len() > 0,
        forall|j: int| 0 <= j < w.len() ==> !is_white_space(#[trigger] w[j]),
        x.len() == 0 || is_white_space(x.last()),
    ensures
        words(x + w) == words(x).push(w),
    decreases w.len(),
{
    let s = x + w;
    assert(s.drop_last() =~= x + w.drop_last());
    assert(s.last() == w.last());
    if w.len() == 1 {
        assert(x + w.drop_last() =~= x);
        assert(w =~= seq![w.last()]);
    } else {
        let v = w.drop_last();
        lemma_words_append_word(x, v);
        assert((x + v).last() == v.last());
        assert(v.push(w.last()) =~= w);
        assert(words(x).push(v).update(words(x).len() as int, v.push(w.last())) =~= words(x).push(w));
    }
}

/// Collapsing whitespace a second time changes nothing.
pub proof fn lemma_collapse_idempotent(s: Seq<char>)
    ensures
        collapse(collapse(s)) == collapse(s),
{
    lemma_words_shape(s);
    lemma_words_of_join(words(s));
}

/// Text made only of accepted characters is sanitized without error, into
/// text no longer than the input that holds only allowed characters: no tab,
/// newline, carriage return or invisible formatting character.
pub proof fn lemma_accepted_text_sanitizes(s: Seq<char>)
    requires
        forall|i: int| 0 <= i < s.len() ==> is_accepted_char(#[trigger] s[i]),
    ensures
        sanitized(s) is Ok,
        sanitized(s)->Ok_0.len() <= s.len(),
        forall|i: int|
            0 <= i < sanitized(s)->Ok_0.len() ==> is_allowed_char(#[trigger] sanitized(s)->Ok_0[i])
                && !is_problematic_char(sanitized(s)->Ok_0[i]),
{
    let m = map_chars(s);
    lemma_collapse_shape(m);
    let t = collapse(m);
    assert forall|i: int| 0 <= i < t.len() implies !is_problematic_char(#[trigger] t[i]) by {
        assert(is_allowed_char(t[i]));
    }
}

/// Sanitized text is well spaced and has the same words as the text after
/// the character pass: each run of whitespace, substituted characters
/// included, became one space between the characters around it.
pub proof fn lemma_sanitized_spacing(s: Seq<char>)
    requires
        sanitized(s) is Ok,
    ensures
        well_spaced(sanitized(s)->Ok_0),
        words(sanitized(s)->Ok_0) == words(map_chars(s)),
{
    lemma_collapse_shape(map_chars(s));
    lemma_words_shape(map_chars(s));
    lemma_words_of_join(words(map_chars(s)));
}

} // verus!
