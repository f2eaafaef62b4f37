//! Text shaping: turning a post's description into a status that fits a
//! network's length budget, with hashtags and a short link.

use vstd::prelude::*;
use crate::citation::{display_of, uri_of, PermashortCitation};
use crate::feed::strings_view;
use crate::strings::{chars_of, string_of};
use convert_case::{Case, Casing};

verus! {

broadcast use vstd::string::group_string_axioms;

/// The number of bytes of a character in UTF-8.
pub open spec fn char_bytes(c: char) -> nat {
    if (c as u32) < 0x80 {
        1
    } else if (c as u32) < 0x800 {
        2
    } else if (c as u32) < 0x10000 {
        3
    } else {
        4
    }
}

/// The number of bytes of a text in UTF-8.
pub open spec fn byte_len(s: Seq<char>) -> nat
    decreases s.len(),
{
    if s.len() == 0 {
        0
    } else {
        byte_len(s.drop_last()) + char_bytes(s.last())
    }
}

/// The number of bytes of a character in UTF-8.
pub fn char_width(c: char) -> (r: u8)
    ensures
        r == char_bytes(c),
{
    let v = c as u32;
    if v < 0x80 {
        1
    } else if v < 0x800 {
        2
    } else if v < 0x10000 {
        3
    } else {
        4
    }
}

/// One more character adds its bytes.
pub proof fn lemma_byte_len_step(s: Seq<char>, i: int)
    requires
        0 <= i < s.len(),
    ensures
        byte_len(s.take(i + 1)) == byte_len(s.take(i)) + char_bytes(s[i]),
{
    assert(s.take(i + 1).drop_last() =~= s.take(i));
}

/// A longer prefix has at least as many bytes.
pub proof fn lemma_byte_len_monotone(s: Seq<char>, i: int, j: int)
    requires
        0 <= i <= j <= s.len(),
    ensures
        byte_len(s.take(i)) <= byte_len(s.take(j)),
    decreases j - i,
{
    if i < j {
        lemma_byte_len_step(s, j - 1);
        lemma_byte_len_monotone(s, i, j - 1);
    }
}

/// Bytes add up over concatenation.
pub proof fn lemma_byte_len_concat(a: Seq<char>, b: Seq<char>)
    ensures
        byte_len(a + b) == byte_len(a) + byte_len(b),
    decreases b.len(),
{
    if b.len() > 0 {
        assert((a + b).drop_last() =~= a + b.drop_last());
        lemma_byte_len_concat(a, b.drop_last());
    } else {
        assert(a + b =~= a);
    }
}

/// Position `p` ends a word of `s`: the text ends there or a space follows.
pub open spec fn is_word_end(s: Seq<char>, p: int) -> bool {
    0 <= p <= s.len() && (p == s.len() || s[p] == ' ')
}

/// No space stands before position `p`: the text up to `p` is its first word.
pub open spec fn in_first_word(s: Seq<char>, p: int) -> bool {
    forall|j: int| 0 <= j < p ==> s[j] != ' '
}

/// The text up to the word end `p` fits the limit: its bytes stay below it,
/// and for the first word one byte more does too.
pub open spec fn word_fits(s: Seq<char>, p: int, limit: nat) -> bool {
    if in_first_word(s, p) {
        byte_len(s.take(p)) + 1 < limit
    } else {
        byte_len(s.take(p)) < limit
    }
}

/// `p` is where `s` is cut for `limit`: the last word end that fits, or 0
/// where none does.
pub open spec fn is_cut(s: Seq<char>, limit: nat, p: int) -> bool {
    &&& 0 <= p <= s.len()
    &&& p == 0 || (is_word_end(s, p) && word_fits(s, p, limit))
    &&& forall|q: int| p < q <= s.len() && is_word_end(s, q) ==> !word_fits(s, q, limit)
}

/// There is one cut for a text and a limit.
pub proof fn lemma_cut_unique(s: Seq<char>, limit: nat, p: int, q: int)
    requires
        is_cut(s, limit, p),
        is_cut(s, limit, q),
    ensures
        p == q,
{
}

/// The text cut after its last whole word that fits the limit.
pub open spec fn shortened(s: Seq<char>, limit: nat) -> Seq<char> {
    s.take(choose|p: int| is_cut(s, limit, p))
}

/// Cuts `text` after its last whole word that fits `limit`.
pub fn shorten(text: &str, limit: usize) -> (r: &str)
    ensures
        is_cut(text@, limit as nat, r@.len() as int),
        r@ == text@.take(r@.len() as int),
        r@ == shortened(text@, limit as nat),
{
    let chars = chars_of(text);
    let ghost s = text@;
    let n = chars.len();
    let lim = limit as u128;
    let mut best: usize = 0;
    let mut bytes: u128 = 0;
    let mut seen_space = false;
    let mut i: usize = 0;
    let mut stop = false;
    while !stop
        invariant
            chars@ == s,
            n == s.len(),
            lim == limit as u128,
            i <= n,
            bytes == byte_len(s.take(i as int)),
            bytes < lim + 4,
            seen_space == !in_first_word(s, i as int),
            best <= i,
            best == 0 || (is_word_end(s, best as int) && word_fits(s, best as int, limit as nat)),
            !stop ==> forall|q: int| best < q < i && is_word_end(s, q) ==> !word_fits(s, q, limit as nat),
            stop ==> forall|q: int| best < q <= n && is_word_end(s, q) ==> !word_fits(s, q, limit as nat),
        decreases n + 1 - i - if stop { 1int } else { 0int },
    {
        if i == n || chars[i] == ' ' {
            let fits = if seen_space {
                bytes < lim
            } else {
                bytes + 1 < lim
            };
            if fits {
                best = i;
            }
        }
        if i == n {
            stop = true;
        } else if bytes >= lim {
            proof {
                assert forall|q: int| best < q <= n && is_word_end(s, q) implies !word_fits(s, q, limit as nat) by {
                    if q > i {
                        lemma_byte_len_monotone(s, i as int, q);
                    }
                }
            }
            stop = true;
        } else {
            if chars[i] == ' ' {
                seen_space = true;
            }
            proof {
                lemma_byte_len_step(s, i as int);
            }
            bytes = bytes + char_width(chars[i]) as u128;
            i = i + 1;
        }
    }
    assert(is_cut(s, limit as nat, best as int));
    proof {
        let c = choose|p: int| is_cut(s, limit as nat, p);
        lemma_cut_unique(s, limit as nat, c, best as int);
    }
    text.substring_char(0, best)
}

} // verus!

verus! {

/// A sub-heading tag (`<h1` to `<h6`, followed by a space or `>`) opens at
/// position `i`.
pub open spec fn subheading_at(s: Seq<char>, i: int) -> bool {
    &&& 0 <= i
    &&& i + 4 <= s.len()
    &&& s[i] == '<'
    &&& s[i + 1] == 'h'
    &&& 0x31 <= (s[i + 2] as u32) <= 0x36
    &&& (s[i + 3] == ' ' || s[i + 3] == '>')
}

/// The text holds a sub-heading: it is a long-form post.
pub open spec fn has_subheading(s: Seq<char>) -> bool {
    exists|i: int| subheading_at(s, i)
}

/// The first sub-heading opens at `i`.
pub open spec fn first_subheading(s: Seq<char>, i: int) -> bool {
    subheading_at(s, i) && forall|j: int| 0 <= j < i ==> !subheading_at(s, j)
}

/// The text before the first sub-heading, or all of it where there is none.
pub open spec fn before_subheading(s: Seq<char>) -> Seq<char> {
    if has_subheading(s) {
        s.take(choose|i: int| first_subheading(s, i))
    } else {
        s
    }
}

/// Where the first sub-heading of `s` opens, if any.
fn find_subheading(s: &Vec<char>) -> (r: Option<usize>)
    ensures
        match r {
            Some(i) => first_subheading(s@, i as int),
            None => !has_subheading(s@),
        },
{
    let n = s.len();
    let mut i: usize = 0;
    while n >= 4 && i <= n - 4
        invariant
            n == s@.len(),
            forall|j: int| 0 <= j < i ==> !subheading_at(s@, j),
        decreases n - i,
    {
        let level: char = s[i + 2];
        let d = level as u32;
        if s[i] == '<' && s[i + 1] == 'h' && 0x31 <= d && d <= 0x36 && (s[i + 3] == ' ' || s[i + 3] == '>') {
            return Some(i);
        }
        i += 1;
    }
    None
}

/// The text with every occurrence of `pat` replaced by `rep`, left to right.
pub open spec fn replaced(s: Seq<char>, pat: Seq<char>, rep: Seq<char>) -> Seq<char>
    decreases s.len(),
{
    if s.len() == 0 || pat.len() == 0 {
        s
    } else if pat.len() <= s.len() && s.take(pat.len() as int) == pat {
        rep + replaced(s.skip(pat.len() as int), pat, rep)
    } else {
        seq![s[0]] + replaced(s.skip(1), pat, rep)
    }
}

fn occurs_at(s: &Vec<char>, i: usize, pat: &Vec<char>) -> (r: bool)
    requires
        i <= s@.len(),
    ensures
        r == (i + pat@.len() <= s@.len() && s@.subrange(i as int, i + pat@.len()) == pat@),
{
    let n = s.len();
    if pat.len() > n - i {
        return false;
    }
    let mut k: usize = 0;
    while k < pat.len()
        invariant
            n == s@.len(),
            i <= s@.len(),
            i + pat@.len() <= s@.len(),
            k <= pat@.len(),
            forall|m: int| 0 <= m < k ==> s@[i + m] == pat@[m],
        decreases pat@.len() - k,
    {
        if s[i + k] != pat[k] {
            assert(s@.subrange(i as int, i + pat@.len())[k as int] != pat@[k as int]);
            return false;
        }
        k += 1;
    }
    assert(s@.subrange(i as int, i + pat@.len()) =~= pat@);
    true
}

/// Replaces every occurrence of `pat` in `s` by `rep`, left to right.
pub fn replace_all(s: &Vec<char>, pat: &Vec<char>, rep: &Vec<char>) -> (r: Vec<char>)
    requires
        pat@.len() > 0,
    ensures
        r@ == replaced(s@, pat@, rep@),
{
    let n = s.len();
    let mut out: Vec<char> = Vec::new();
    let mut i: usize = 0;
    assert(s@.skip(0) =~= s@);
    assert(out@ + s@ =~= s@);
    while i < n
        invariant
            n == s@.len(),
            pat@.len() > 0,
            i <= n,
            out@ + replaced(s@.skip(i as int), pat@, rep@) == replaced(s@, pat@, rep@),
        decreases n - i,
    {
        let ghost rest = s@.skip(i as int);
        if occurs_at(s, i, pat) {
            assert(rest.take(pat@.len() as int) =~= s@.subrange(i as int, i + pat@.len()));
            assert(rest.skip(pat@.len() as int) =~= s@.skip(i + pat@.len()));
            let ghost before = out@;
            let mut k: usize = 0;
            while k < rep.len()
                invariant
                    out@ == before + rep@.take(k as int),
                    k <= rep@.len(),
                decreases rep@.len() - k,
            {
                out.push(rep[k]);
                assert(rep@.take(k + 1) =~= rep@.take(k as int).push(rep@[k as int]));
                k += 1;
            }
            assert(rep@.take(rep@.len() as int) =~= rep@);
            assert(out@ + replaced(s@.skip(i + pat@.len()), pat@, rep@) =~= before + replaced(rest, pat@, rep@));
            i = i + pat.len();
        } else {
            assert(!(pat@.len() <= rest.len() && rest.take(pat@.len() as int) == pat@)) by {
                if pat@.len() <= rest.len() {
                    assert(rest.take(pat@.len() as int) =~= s@.subrange(i as int, i + pat@.len()));
                }
            }
            assert(rest.skip(1) =~= s@.skip(i + 1));
            let ghost before = out@;
            out.push(s[i]);
            assert(out@ + replaced(s@.skip(i + 1), pat@, rep@) =~= before + replaced(rest, pat@, rep@));
            i = i + 1;
        }
    }
    assert(s@.skip(n as int) =~= Seq::<char>::empty());
    assert(out@ + replaced(s@.skip(n as int), pat@, rep@) =~= out@);
    out
}

/// List items and code markup in plain-text form, newlines as spaces, and
/// paragraph ends as blank lines.
pub open spec fn normalized(s: Seq<char>) -> Seq<char> {
    replaced(
        replaced(
            replaced(replaced(replaced(s, "<li>"@, "<li>- "@), "<code>"@, "`"@), "</code>"@, "`"@),
            "\n"@,
            " "@,
        ),
        "</p> "@,
        "\n\n"@,
    )
}

/// The HTML document that wraps a fragment.
pub open spec fn html_document(s: Seq<char>) -> Seq<char> {
    "<html>"@ + s + "</html>"@
}

/// The text content of an HTML document, as the HTML parser finds it.
pub uninterp spec fn document_text_of(doc: Seq<char>) -> Seq<char>;

/// Relies on scraper's `Html::parse_document` and `ElementRef::text`: the
/// document is parsed and the text nodes under its root element are joined.
#[verifier::external_body]
fn document_text(doc: &str) -> (r: String)
    ensures
        r@ == document_text_of(doc@),
{
    scraper::Html::parse_document(doc).root_element().text().collect::<String>()
}

/// The plain text of a description: the part before its first sub-heading,
/// normalized and stripped of markup.
pub open spec fn cleaned_text(d: Seq<char>) -> Seq<char> {
    document_text_of(html_document(normalized(before_subheading(d))))
}

fn replace_str(s: &Vec<char>, pat: &str, rep: &str) -> (r: Vec<char>)
    requires
        pat@.len() > 0,
    ensures
        r@ == replaced(s@, pat@, rep@),
{
    let p = chars_of(pat);
    let q = chars_of(rep);
    replace_all(s, &p, &q)
}

/// Strips a description down to plain text, and tells whether it was cut at
/// a sub-heading (a long-form post).
pub fn clean_description(description: &str) -> (r: (String, bool))
    ensures
        r.0@ == cleaned_text(description@),
        r.1 == has_subheading(description@),
{
    let chars = chars_of(description);
    let (summary, long_form) = match find_subheading(&chars) {
        Some(i) => {
            let mut v: Vec<char> = Vec::new();
            let mut k: usize = 0;
            while k < i
                invariant
                    i < chars@.len(),
                    k <= i,
                    v@ == chars@.take(k as int),
                decreases i - k,
            {
                v.push(chars[k]);
                assert(chars@.take(k + 1) =~= chars@.take(k as int).push(chars@[k as int]));
                k += 1;
            }
            proof {
                let c = choose|j: int| first_subheading(chars@, j);
                if c < i {
                    assert(!subheading_at(chars@, c));
                } else if c > i {
                    assert(!subheading_at(chars@, i as int));
                }
            }
            (v, true)
        },
        None => (chars, false),
    };
    assert(summary@ == before_subheading(description@));
    proof {
        reveal_strlit("<li>");
        reveal_strlit("<code>");
        reveal_strlit("</code>");
        reveal_strlit("\n");
        reveal_strlit("</p> ");
    }
    let a = replace_str(&summary, "<li>", "<li>- ");
    let b = replace_str(&a, "<code>", "`");
    let c = replace_str(&b, "</code>", "`");
    let d = replace_str(&c, "\n", " ");
    let e = replace_str(&d, "</p> ", "\n\n");
    let mut doc = String::from_str("<html>");
    let body = string_of(&e);
    doc.append(body.as_str());
    doc.append("</html>");
    (document_text(doc.as_str()), long_form)
}

} // verus!

verus! {

/// The Pascal-cased form of a tag, as the case-conversion library makes it.
pub uninterp spec fn pascal_case_of(s: Seq<char>) -> Seq<char>;

/// Relies on convert_case's `Casing::to_case` with `Case::Pascal`: the text is
/// split into words at the library's default boundaries, each word is
/// capitalised, and the words are joined.
#[verifier::external_body]
fn pascal_case(s: &str) -> (r: String)
    ensures
        r@ == pascal_case_of(s@),
{
    s.to_case(Case::Pascal)
}

/// The hashtag of a tag.
pub open spec fn hashtag_of(t: Seq<char>) -> Seq<char> {
    "#"@ + pascal_case_of(t)
}

/// The hashtags of the tags, separated by single spaces.
pub open spec fn hashtags_of(tags: Seq<Seq<char>>) -> Seq<char>
    decreases tags.len(),
{
    if tags.len() == 0 {
        Seq::empty()
    } else if tags.len() == 1 {
        hashtag_of(tags[0])
    } else {
        hashtags_of(tags.drop_last()) + " "@ + hashtag_of(tags.last())
    }
}

/// Renders the tags as `#`-prefixed, Pascal-cased hashtags joined by spaces.
pub fn hashtags(tags: &Vec<String>) -> (r: String)
    ensures
        r@ == hashtags_of(strings_view(tags@)),
{
    let ghost all = strings_view(tags@);
    let mut r = String::new();
    let mut i: usize = 0;
    while i < tags.len()
        invariant
            i <= tags@.len(),
            all == strings_view(tags@),
            r@ == hashtags_of(all.take(i as int)),
        decreases tags@.len() - i,
    {
        assert(all.take(i + 1).drop_last() =~= all.take(i as int));
        assert(all.take(i + 1).last() == tags@[i as int]@);
        if i > 0 {
            r.append(" ");
        } else {
            assert(r@ =~= Seq::<char>::empty());
        }
        r.append("#");
        let p = pascal_case(tags[i].as_str());
        r.append(p.as_str());
        proof {
            if i == 0 {
                assert(r@ =~= hashtag_of(all.take(1)[0]));
            }
        }
        i += 1;
    }
    assert(all.take(tags@.len() as int) =~= all);
    r
}

/// The number of bytes of a string in UTF-8.
pub fn byte_count(s: &str) -> (r: u128)
    ensures
        r == byte_len(s@),
        r <= 4 * (usize::MAX as u128),
{
    let chars = chars_of(s);
    let n = chars.len();
    let mut total: u128 = 0;
    let mut i: usize = 0;
    while i < n
        invariant
            n == chars@.len(),
            chars@ == s@,
            i <= chars@.len(),
            total == byte_len(s@.take(i as int)),
            total <= 4 * i,
        decreases chars@.len() - i,
    {
        proof {
            lemma_byte_len_step(s@, i as int);
        }
        total = total + char_width(chars[i]) as u128;
        i += 1;
    }
    assert(s@.take(chars@.len() as int) =~= s@);
    total
}

/// The bytes that frame a truncated text besides its hashtags and link: the
/// opening quote, the ellipsis, the closing quote, the line break, and the
/// space before the link.
pub const TRUNCATION_FRAME_BYTES: usize = 7;

/// `a - b`, or 0 where `b` exceeds `a`.
pub open spec fn sat_sub(a: nat, b: nat) -> nat {
    if a >= b {
        (a - b) as nat
    } else {
        0
    }
}

/// The line that follows the text of a status that fits: the hashtags and the
/// short link, its URI for a short post and its display form in parentheses
/// for a long-form one.
pub open spec fn suffix_of(long_form: bool, h: Seq<char>, c: crate::citation::CitationView) -> Seq<char> {
    if long_form {
        "\n"@ + h + " ("@ + display_of(c) + ")"@
    } else {
        "\n"@ + h + " "@ + uri_of(c)
    }
}

/// The budget left for the words of a truncated text: the limit less the
/// frame, the hashtags and the link's URI.
pub open spec fn truncated_budget(limit: nat, h: Seq<char>, c: crate::citation::CitationView) -> nat {
    sat_sub(limit, TRUNCATION_FRAME_BYTES as nat + byte_len(h) + byte_len(uri_of(c)))
}

/// The status rendered from a description for a byte budget: the cleaned text
/// with its hashtag and link line where all of it fits, else the words that fit
/// the remaining budget, quoted with an ellipsis, then the hashtags and the URI.
pub open spec fn status_of(
    desc: Seq<char>,
    limit: nat,
    c: crate::citation::CitationView,
    tags: Seq<Seq<char>>,
) -> Seq<char> {
    let h = hashtags_of(tags);
    let cleaned = cleaned_text(desc);
    let suffix = suffix_of(has_subheading(desc), h, c);
    if shortened(cleaned, sat_sub(limit, byte_len(suffix))).len() == cleaned.len() {
        cleaned + suffix
    } else {
        "\""@ + shortened(cleaned, truncated_budget(limit, h, c)) + "…\"\n"@ + h + " "@ + uri_of(c)
    }
}

fn budget_after(limit: usize, used: u128) -> (r: usize)
    ensures
        r == sat_sub(limit as nat, used as nat),
{
    if used >= limit as u128 {
        0
    } else {
        (limit as u128 - used) as usize
    }
}

/// Renders a description as a status within `limit` bytes, with the tags as
/// hashtags and the short link.
pub fn shorten_with_permashort_citation(
    text: &str,
    limit: usize,
    permashort_citation: &PermashortCitation,
    tags: &Vec<String>,
) -> (r: String)
    ensures
        r@ == status_of(text@, limit as nat, permashort_citation@, strings_view(tags@)),
{
    let hash_tags = hashtags(tags);
    let (cleaned, long_form) = clean_description(text);
    let mut suffix = String::from_str("\n");
    suffix.append(hash_tags.as_str());
    if long_form {
        suffix.append(" (");
        let display = permashort_citation.to_string();
        suffix.append(display.as_str());
        suffix.append(")");
    } else {
        suffix.append(" ");
        let uri = permashort_citation.to_uri();
        suffix.append(uri.as_str());
    }
    let suffix_bytes = byte_count(suffix.as_str());
    let fitted = shorten(cleaned.as_str(), budget_after(limit, suffix_bytes));
    if fitted.unicode_len() == cleaned.unicode_len() {
        let mut r = cleaned.clone();
        r.append(suffix.as_str());
        r
    } else {
        let tag_bytes = byte_count(hash_tags.as_str());
        let uri = permashort_citation.to_uri();
        let uri_bytes = byte_count(uri.as_str());
        let words = shorten(
            cleaned.as_str(),
            budget_after(limit, TRUNCATION_FRAME_BYTES as u128 + tag_bytes + uri_bytes),
        );
        let mut r = String::from_str("\"");
        r.append(words);
        r.append("…\"\n");
        r.append(hash_tags.as_str());
        r.append(" ");
        r.append(uri.as_str());
        r
    }
}

} // verus!

verus! {

proof fn lemma_cut_exists_below(s: Seq<char>, limit: nat, q: int)
    requires
        0 <= q <= s.len(),
        forall|p: int| q < p <= s.len() && is_word_end(s, p) ==> !word_fits(s, p, limit),
    ensures
        exists|p: int| is_cut(s, limit, p),
    decreases q,
{
    if q == 0 {
        assert(is_cut(s, limit, 0));
    } else if is_word_end(s, q) && word_fits(s, q, limit) {
        assert(is_cut(s, limit, q));
    } else {
        lemma_cut_exists_below(s, limit, q - 1);
    }
}

/// Every text has a cut for every limit; the words before it take fewer bytes
/// than the limit, or none at all.
pub proof fn lemma_shortened_bytes(s: Seq<char>, limit: nat)
    ensures
        exists|p: int| is_cut(s, limit, p),
        shortened(s, limit) == s.take(shortened(s, limit).len() as int),
        shortened(s, limit).len() <= s.len(),
        shortened(s, limit).len() == 0 || byte_len(shortened(s, limit)) < limit,
{
    lemma_cut_exists_below(s, limit, s.len() as int);
    let c = choose|p: int| is_cut(s, limit, p);
    assert(s.take(c).len() == c);
}

proof fn lemma_small_literals()
    ensures
        byte_len("\""@) == 1,
        byte_len("\n"@) == 1,
        byte_len(" "@) == 1,
        byte_len(" ("@) == 2,
        byte_len(")"@) == 1,
        byte_len("://"@) == 3,
        byte_len("/"@) == 1,
        byte_len("…\"\n"@) == 5,
{
    reveal_strlit("\"");
    reveal_strlit("\n");
    reveal_strlit(" ");
    reveal_strlit(" (");
    reveal_strlit(")");
    reveal_strlit("://");
    reveal_strlit("/");
    reveal_strlit("…\"\n");
    reveal_with_fuel(byte_len, 4);
    assert("\""@.drop_last() =~= Seq::<char>::empty());
    assert("\n"@.drop_last() =~= Seq::<char>::empty());
    assert(" "@.drop_last() =~= Seq::<char>::empty());
    assert(")"@.drop_last() =~= Seq::<char>::empty());
    assert("/"@.drop_last() =~= Seq::<char>::empty());
    assert(" ("@.drop_last() =~= seq![' ']);
    assert(seq![' '].drop_last() =~= Seq::<char>::empty());
    assert("://"@.drop_last() =~= seq![':', '/']);
    assert(seq![':', '/'].drop_last() =~= seq![':']);
    assert(seq![':'].drop_last() =~= Seq::<char>::empty());
    assert("…\"\n"@.drop_last() =~= seq!['…', '"']);
    assert(seq!['…', '"'].drop_last() =~= seq!['…']);
    assert(seq!['…'].drop_last() =~= Seq::<char>::empty());
}

/// The display form of a short link is shorter than its URI.
pub proof fn lemma_display_shorter(c: crate::citation::CitationView)
    ensures
        byte_len(display_of(c)) < byte_len(uri_of(c)),
{
    lemma_small_literals();
    lemma_byte_len_concat(c.protocol, "://"@);
    lemma_byte_len_concat(c.protocol + "://"@, c.domain);
    lemma_byte_len_concat(c.protocol + "://"@ + c.domain, "/"@);
    lemma_byte_len_concat(c.protocol + "://"@ + c.domain + "/"@, c.short_url);
    lemma_byte_len_concat(c.domain, " "@);
    lemma_byte_len_concat(c.domain + " "@, c.short_url);
}

/// Adaptive truncation: where the budget leaves room for the frame, the
/// hashtags and the link's URI, the status never exceeds the budget; and where
/// the cleaned text
/// does not fit with its hashtag and link line, the status is the words that
/// fit, quoted with an ellipsis, then the hashtags and the URI.
pub proof fn lemma_status_within_budget(
    desc: Seq<char>,
    limit: nat,
    c: crate::citation::CitationView,
    tags: Seq<Seq<char>>,
)
    requires
        limit >= TRUNCATION_FRAME_BYTES as nat + byte_len(hashtags_of(tags)) + byte_len(uri_of(c)),
    ensures
        byte_len(status_of(desc, limit, c, tags)) <= limit,
        ({
            let h = hashtags_of(tags);
            let cleaned = cleaned_text(desc);
            let suffix = suffix_of(has_subheading(desc), h, c);
            shortened(cleaned, sat_sub(limit, byte_len(suffix))).len() != cleaned.len() ==> status_of(
                desc,
                limit,
                c,
                tags,
            ) == "\""@ + shortened(cleaned, truncated_budget(limit, h, c)) + "…\"\n"@ + h + " "@ + uri_of(c)
        }),
{
    let h = hashtags_of(tags);
    let cleaned = cleaned_text(desc);
    let suffix = suffix_of(has_subheading(desc), h, c);
    let budget = sat_sub(limit, byte_len(suffix));
    lemma_small_literals();
    lemma_display_shorter(c);
    if has_subheading(desc) {
        lemma_byte_len_concat("\n"@, h);
        lemma_byte_len_concat("\n"@ + h, " ("@);
        lemma_byte_len_concat("\n"@ + h + " ("@, display_of(c));
        lemma_byte_len_concat("\n"@ + h + " ("@ + display_of(c), ")"@);
    } else {
        lemma_byte_len_concat("\n"@, h);
        lemma_byte_len_concat("\n"@ + h, " "@);
        lemma_byte_len_concat("\n"@ + h + " "@, uri_of(c));
    }
    assert(byte_len(suffix) < limit);
    lemma_shortened_bytes(cleaned, budget);
    if shortened(cleaned, budget).len() == cleaned.len() {
        assert(cleaned.take(cleaned.len() as int) =~= cleaned);
        lemma_byte_len_concat(cleaned, suffix);
        if cleaned.len() == 0 {
            assert(cleaned =~= Seq::<char>::empty());
        }
    } else {
        let words = shortened(cleaned, truncated_budget(limit, h, c));
        lemma_shortened_bytes(cleaned, truncated_budget(limit, h, c));
        if words.len() == 0 {
            assert(words =~= Seq::<char>::empty());
        }
        lemma_byte_len_concat("\""@, words);
        lemma_byte_len_concat("\""@ + words, "…\"\n"@);
        lemma_byte_len_concat("\""@ + words + "…\"\n"@, h);
        lemma_byte_len_concat("\""@ + words + "…\"\n"@ + h, " "@);
        lemma_byte_len_concat("\""@ + words + "…\"\n"@ + h + " "@, uri_of(c));
    }
}

} // verus!
