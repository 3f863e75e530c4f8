use vstd::prelude::*;

verus! {

/// An ASCII letter or digit: the characters a journal field name keeps.
pub open spec fn is_key_char(c: char) -> bool {
    ('A' <= c && c <= 'Z') || ('a' <= c && c <= 'z') || ('0' <= c && c <= '9')
}

/// The ASCII upper-case form of a key character.
pub open spec fn upper(c: char) -> char {
    if 'a' <= c && c <= 'z' {
        ((c as u32) - 32) as char
    } else {
        c
    }
}

/// The sanitized form of a key, read left to right: letters are upper-cased,
/// digits kept, and every other character becomes `_`, except before the
/// first kept character, where it is dropped.
pub open spec fn sanitized(s: Seq<char>) -> Seq<char>
    decreases s.len(),
{
    if s.len() == 0 {
        Seq::empty()
    } else {
        let prev = sanitized(s.drop_last());
        let c = s.last();
        if is_key_char(c) {
            prev.push(upper(c))
        } else if prev.len() > 0 {
            prev.push('_')
        } else {
            prev
        }
    }
}

/// An upper-case ASCII letter or a digit.
pub open spec fn is_upper_or_digit(c: char) -> bool {
    ('A' <= c && c <= 'Z') || ('0' <= c && c <= '9')
}

/// A well-formed journal field name: empty, or an upper-case letter or digit
/// followed by upper-case letters, digits and underscores.
pub open spec fn is_field_name(r: Seq<char>) -> bool {
    r.len() == 0 || (is_upper_or_digit(r[0]) && forall|i: int|
        0 <= i < r.len() ==> #[trigger] is_upper_or_digit(r[i]) || r[i] == '_')
}

/// Every sanitized key is a well-formed field name; in particular it never
/// starts with an underscore.
pub proof fn lemma_sanitized_is_field_name(s: Seq<char>)
    ensures
        is_field_name(sanitized(s)),
    decreases s.len(),
{
    if s.len() > 0 {
        lemma_sanitized_is_field_name(s.drop_last());
        let prev = sanitized(s.drop_last());
        let r = sanitized(s);
        if r.len() > 0 {
            assert(r[0] == prev[0] || prev.len() == 0);
            assert forall|i: int| 0 <= i < r.len() implies #[trigger] is_upper_or_digit(r[i])
                || r[i] == '_' by {
                if i < prev.len() {
                    assert(r[i] == prev[i]);
                }
            }
        }
    }
}

/// A key that is already a well-formed field name is left unchanged.
pub proof fn lemma_field_name_fixed(r: Seq<char>)
    requires
        is_field_name(r),
    ensures
        sanitized(r) == r,
    decreases r.len(),
{
    if r.len() > 0 {
        let p = r.drop_last();
        assert(is_field_name(p)) by {
            if p.len() > 0 {
                assert(p[0] == r[0]);
                assert forall|i: int| 0 <= i < p.len() implies #[trigger] is_upper_or_digit(p[i])
                    || p[i] == '_' by {
                    assert(p[i] == r[i]);
                    assert(is_upper_or_digit(r[i]) || r[i] == '_');
                }
            }
        }
        lemma_field_name_fixed(p);
        assert(is_upper_or_digit(r[r.len() - 1]) || r[r.len() - 1] == '_');
        if r.len() == 1 {
            assert(r.last() == r[0]);
        }
        assert(p.push(r.last()) == r);
    }
}

/// Sanitizing is idempotent: a sanitized key sanitizes to itself.
pub proof fn lemma_sanitize_idempotent(s: Seq<char>)
    ensures
        sanitized(sanitized(s)) == sanitized(s),
{
    lemma_sanitized_is_field_name(s);
    lemma_field_name_fixed(sanitized(s));
}

/// Keys that differ only in the ASCII case of their letters sanitize to the
/// same field name.
pub proof fn lemma_sanitize_ignores_case(s: Seq<char>, t: Seq<char>)
    requires
        s.len() == t.len(),
        forall|i: int| 0 <= i < s.len() ==> upper(#[trigger] s[i]) == upper(t[i]),
    ensures
        sanitized(s) == sanitized(t),
    decreases s.len(),
{
    if s.len() > 0 {
        let n = s.len() - 1;
        assert(upper(s[n]) == upper(t[n]));
        lemma_sanitize_ignores_case(s.drop_last(), t.drop_last());
    }
}

/// Relies on `String::push`: the character is appended at the end.
#[verifier::external_body]
pub(crate) fn push_char(s: &mut String, c: char)
    ensures
        final(s)@ == old(s)@.push(c),
{
    s.push(c)
}

/// Sanitizes a key in one left-to-right pass.
pub fn sanitize_key(key: &str) -> (r: String)
    ensures
        r@ == sanitized(key@),
{
    let mut out = String::new();
    let mut found_non_underscore = false;
    for c in it: key.chars()
        invariant
            it.seq() == key@,
            out@ == sanitized(key@.subrange(0, it.index() as int)),
            found_non_underscore == (out@.len() > 0),
    {
        proof {
            assert(key@.subrange(0, it.index() + 1).drop_last() == key@.subrange(0, it.index() as int));
        }
        if ('A' <= c && c <= 'Z') || ('0' <= c && c <= '9') {
            push_char(&mut out, c);
            found_non_underscore = true;
        } else if 'a' <= c && c <= 'z' {
            push_char(&mut out, ((c as u8) - 32) as char);
            found_non_underscore = true;
        } else if found_non_underscore {
            push_char(&mut out, '_');
        }
    }
    proof {
        assert(key@.subrange(0, key@.len() as int) == key@);
    }
    out
}

/// A key as the journal will see it: upper-case letters, digits and
/// interior underscores.
pub struct SanitizedKey(pub String);

impl SanitizedKey {
    /// The sanitized text of the key.
    pub fn to_string(&self) -> (r: String)
        ensures
            r@ == sanitized(self.0@),
    {
        sanitize_key(self.0.as_str())
    }
}

} // verus!
