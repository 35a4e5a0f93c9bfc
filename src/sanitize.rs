//! Sanitization of untrusted free text before it is stored or shown again.

use vstd::prelude::*;
use crate::text::{
    chars_of, is_white_space, lemma_trim_fixed, lemma_trim_shape, string_from_chars, trim, trim_chars,
};

verus! {

/// Longest text, in characters, that sanitization keeps.
pub const MAX_NAME_LENGTH: usize = 200;

/// The characters that sanitization replaces by an HTML entity.
pub open spec fn is_markup(c: char) -> bool {
    c == '<' || c == '>' || c == '&' || c == '"' || c == '\'' || c == '/'
}

/// What one character becomes when escaped.
pub open spec fn entity(c: char) -> Seq<char> {
    if c == '<' {
        "&lt;"@
    } else if c == '>' {
        "&gt;"@
    } else if c == '&' {
        "&amp;"@
    } else if c == '"' {
        "&quot;"@
    } else if c == '\'' {
        "&#x27;"@
    } else if c == '/' {
        "&#x2F;"@
    } else {
        seq![c]
    }
}

/// `s` with every markup character replaced by its entity.
pub open spec fn escape(s: Seq<char>) -> Seq<char>
    decreases s.len(),
{
    if s.len() == 0 {
        Seq::empty()
    } else {
        escape(s.drop_last()) + entity(s.last())
    }
}

/// Whether a character has the Unicode `Alphabetic` property.
pub uninterp spec fn alphabetic_of(c: char) -> bool;

/// Relies on `char::is_alphabetic`: it reports the Unicode `Alphabetic`
/// property, which depends on the character alone.
#[verifier::external_body]
fn is_alphabetic(c: char) -> (r: bool)
    ensures
        r == alphabetic_of(c),
{
    c.is_alphabetic()
}

/// Whether sanitization keeps a character: ASCII, or alphabetic in any script.
pub open spec fn is_kept(c: char) -> bool {
    (c as u32) < 128 || alphabetic_of(c)
}

/// The characters of `s` that sanitization keeps, in order.
pub open spec fn keep(s: Seq<char>) -> Seq<char>
    decreases s.len(),
{
    if s.len() == 0 {
        Seq::empty()
    } else if is_kept(s.last()) {
        keep(s.drop_last()).push(s.last())
    } else {
        keep(s.drop_last())
    }
}

/// At most the first `MAX_NAME_LENGTH` characters of `s`.
pub open spec fn truncate(s: Seq<char>) -> Seq<char> {
    if s.len() > MAX_NAME_LENGTH {
        s.take(MAX_NAME_LENGTH as int)
    } else {
        s
    }
}

/// Trim, escape markup, drop characters that are neither ASCII nor alphabetic,
/// and keep at most `MAX_NAME_LENGTH` characters.
pub open spec fn sanitize(s: Seq<char>) -> Seq<char> {
    truncate(keep(escape(trim(s))))
}

fn push_str(out: &mut Vec<char>, s: &str)
    ensures
        final(out)@ == old(out)@ + s@,
{
    let n = s.unicode_len();
    let mut i: usize = 0;
    while i < n
        invariant
            n == s@.len(),
            i <= n,
            out@ == old(out)@ + s@.subrange(0, i as int),
        decreases n - i,
    {
        out.push(s.get_char(i));
        i += 1;
        assert(out@ =~= old(out)@ + s@.subrange(0, i as int));
    }
    assert(s@.subrange(0, n as int) =~= s@);
}

fn push_entity(out: &mut Vec<char>, c: char)
    ensures
        final(out)@ == old(out)@ + entity(c),
{
    if c == '<' {
        push_str(out, "&lt;");
    } else if c == '>' {
        push_str(out, "&gt;");
    } else if c == '&' {
        push_str(out, "&amp;");
    } else if c == '"' {
        push_str(out, "&quot;");
    } else if c == '\'' {
        push_str(out, "&#x27;");
    } else if c == '/' {
        push_str(out, "&#x2F;");
    } else {
        out.push(c);
        assert(out@ =~= old(out)@ + seq![c]);
    }
}

fn escape_chars(s: &Vec<char>) -> (r: Vec<char>)
    ensures
        r@ == escape(s@),
{
    let mut out: Vec<char> = Vec::new();
    let mut i: usize = 0;
    while i < s.len()
        invariant
            i <= s@.len(),
            out@ == escape(s@.subrange(0, i as int)),
        decreases s@.len() - i,
    {
        proof {
            let p = s@.subrange(0, i as int + 1);
            assert(p.drop_last() =~= s@.subrange(0, i as int));
        }
        push_entity(&mut out, s[i]);
        i += 1;
    }
    assert(s@.subrange(0, s@.len() as int) =~= s@);
    out
}

fn keep_chars(s: &Vec<char>) -> (r: Vec<char>)
    ensures
        r@ == keep(s@),
{
    let mut out: Vec<char> = Vec::new();
    let mut i: usize = 0;
    while i < s.len()
        invariant
            i <= s@.len(),
            out@ == keep(s@.subrange(0, i as int)),
        decreases s@.len() - i,
    {
        proof {
            let p = s@.subrange(0, i as int + 1);
            assert(p.drop_last() =~= s@.subrange(0, i as int));
        }
        let c = s[i];
        if (c as u32) < 128 || is_alphabetic(c) {
            out.push(c);
        }
        i += 1;
    }
    assert(s@.subrange(0, s@.len() as int) =~= s@);
    out
}

/// Sanitizes untrusted text for storage and display.
pub fn sanitize_string(input: &str) -> (r: String)
    ensures
        r@ == sanitize(input@),
{
    let chars = chars_of(input);
    let trimmed = trim_chars(&chars);
    let escaped = escape_chars(&trimmed);
    let kept = keep_chars(&escaped);
    let mut out: Vec<char> = Vec::new();
    let mut i: usize = 0;
    while i < kept.len() && i < MAX_NAME_LENGTH
        invariant
            i <= kept@.len(),
            i <= MAX_NAME_LENGTH,
            out@ == kept@.take(i as int),
        decreases kept@.len() - i,
    {
        out.push(kept[i]);
        i += 1;
        assert(out@ =~= kept@.take(i as int));
    }
    assert(out@ =~= truncate(kept@));
    string_from_chars(&out)
}

/// Every character that survives the filter is one that it keeps.
pub proof fn lemma_keep_all_kept(s: Seq<char>)
    ensures
        forall|i: int| 0 <= i < keep(s).len() ==> is_kept(#[trigger] keep(s)[i]),
        keep(s).len() <= s.len(),
    decreases s.len(),
{
    if s.len() > 0 {
        lemma_keep_all_kept(s.drop_last());
    }
}

/// Filtering a sequence whose characters are all kept changes nothing.
pub proof fn lemma_keep_fixed(s: Seq<char>)
    requires
        forall|i: int| 0 <= i < s.len() ==> is_kept(#[trigger] s[i]),
    ensures
        keep(s) == s,
    decreases s.len(),
{
    if s.len() > 0 {
        lemma_keep_fixed(s.drop_last());
        assert(s.drop_last().push(s.last()) =~= s);
    }
}

/// Escaping a sequence without markup characters changes nothing.
pub proof fn lemma_escape_fixed(s: Seq<char>)
    requires
        forall|i: int| 0 <= i < s.len() ==> !is_markup(#[trigger] s[i]),
    ensures
        escape(s) == s,
    decreases s.len(),
{
    if s.len() > 0 {
        lemma_escape_fixed(s.drop_last());
        assert(escape(s.drop_last()) + seq![s.last()] =~= s);
    }
}

/// Whether every character of `s` is ASCII.
pub open spec fn all_ascii(s: Seq<char>) -> bool {
    forall|i: int| 0 <= i < s.len() ==> (#[trigger] s[i] as u32) < 128
}

proof fn lemma_entity_shape(c: char)
    ensures
        entity(c).len() > 0,
        entity(c)[0] == (if is_markup(c) { '&' } else { c }),
        (c as u32) < 128 ==> all_ascii(entity(c)),
{
    reveal_strlit("&lt;");
    reveal_strlit("&gt;");
    reveal_strlit("&amp;");
    reveal_strlit("&quot;");
    reveal_strlit("&#x27;");
    reveal_strlit("&#x2F;");
}

proof fn lemma_escape_ascii(s: Seq<char>)
    requires
        all_ascii(s),
    ensures
        all_ascii(escape(s)),
    decreases s.len(),
{
    if s.len() > 0 {
        lemma_escape_ascii(s.drop_last());
        lemma_entity_shape(s.last());
        let a = escape(s.drop_last());
        let b = entity(s.last());
        assert forall|i: int| 0 <= i < (a + b).len() implies ((#[trigger] (a + b)[i]) as u32)
            < 128 by {
            if i >= a.len() {
                assert((a + b)[i] == b[i - a.len()]);
            }
        }
    }
}

proof fn lemma_escape_first(s: Seq<char>)
    requires
        s.len() > 0,
    ensures
        escape(s) == entity(s[0]) + escape(s.drop_first()),
    decreases s.len(),
{
    if s.len() == 1 {
        assert(s.drop_last() =~= Seq::<char>::empty());
        assert(s.drop_first() =~= Seq::<char>::empty());
        assert(entity(s[0]) + Seq::<char>::empty() =~= entity(s[0]));
    } else {
        lemma_escape_first(s.drop_last());
        assert(s.drop_last().drop_first() =~= s.drop_first().drop_last());
        assert(escape(s.drop_first()) == escape(s.drop_first().drop_last()) + entity(s.last()));
        assert(entity(s[0]) + escape(s.drop_last().drop_first()) + entity(s.last()) =~= entity(s[0])
            + (escape(s.drop_first().drop_last()) + entity(s.last())));
    }
}

/// Sanitizing ASCII text twice gives what sanitizing once gives, whenever the
/// first result holds no markup character (which a second pass would escape
/// again) and does not end in white space (which a second pass would trim, as
/// a truncation can leave it there).
pub proof fn lemma_sanitize_idempotent(x: Seq<char>)
    requires
        all_ascii(x),
        forall|i: int| 0 <= i < sanitize(x).len() ==> !is_markup(#[trigger] sanitize(x)[i]),
        sanitize(x).len() > 0 ==> !is_white_space(sanitize(x).last()),
    ensures
        sanitize(sanitize(x)) == sanitize(x),
{
    let y = sanitize(x);
    let t = trim(x);
    let e = escape(t);
    let k = keep(e);
    lemma_keep_all_kept(e);
    assert forall|i: int| 0 <= i < y.len() implies is_kept(#[trigger] y[i]) by {
        assert(y[i] == k[i]);
    }
    if y.len() > 0 {
        lemma_trim_shape(x);
        assert(all_ascii(t)) by {
            assert forall|i: int| 0 <= i < t.len() implies (#[trigger] t[i] as u32) < 128 by {
                let j = choose|j: int| 0 <= j < x.len() && x[j] == t[i];
            }
        }
        lemma_escape_ascii(t);
        lemma_keep_fixed(e);
        if t.len() == 0 {
            assert(e == Seq::<char>::empty());
        }
        lemma_escape_first(t);
        lemma_entity_shape(t[0]);
        assert(y[0] == e[0]);
        assert(e[0] == entity(t[0])[0]);
        if is_markup(t[0]) {
            assert(is_markup(y[0]));
        }
    }
    lemma_trim_fixed(y);
    lemma_escape_fixed(y);
    lemma_keep_fixed(y);
}

} // verus!
