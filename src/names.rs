//! File-name sanitization and the display tokens derived from emote names.
use vstd::prelude::*;

verus! {

/// Whether `c` may not stand in a file name on common platforms.
pub open spec fn is_reserved(c: char) -> bool {
    c == '<' || c == '>' || c == ':' || c == '/' || c == '\\' || c == '|' || c == '?' || c == '*'
}

/// `s` with every reserved character replaced by `_`, all others kept in place.
pub open spec fn sanitized(s: Seq<char>) -> Seq<char> {
    s.map_values(|c: char| if is_reserved(c) { '_' } else { c })
}

/// The mapping key of an emote: its sanitized name between colons.
pub open spec fn token_of(name: Seq<char>) -> Seq<char> {
    seq![':'] + sanitized(name) + seq![':']
}

/// Relies on regex::Regex::new and regex::Regex::replace_all: the pattern is one
/// character class of the reserved characters, so every non-overlapping match is
/// a single reserved character, and each is replaced by the literal `_`.
#[verifier::external_body]
fn replace_reserved(pattern: &str, text: &str, replacement: &str) -> (r: String)
    requires
        pattern@ == "[<>:/\\\\|?*]"@,
        replacement@ == "_"@,
    ensures
        r@ == sanitized(text@),
{
    regex::Regex::new(pattern).unwrap().replace_all(text, replacement).into_owned()
}

/// Replaces each character of `< > : / \ | ? *` in `name` by `_`.
pub fn sanitize_filename(name: &str) -> (r: String)
    ensures
        r@ == sanitized(name@),
{
    replace_reserved("[<>:/\\\\|?*]", name, "_")
}

/// The display token `:<sanitized name>:` under which an emote is mapped.
pub fn mapping_token(name: &str) -> (r: String)
    ensures
        r@ == token_of(name@),
{
    let clean = sanitize_filename(name);
    let mut r = String::from_str(":");
    r.append(clean.as_str());
    r.append(":");
    proof {
        reveal_strlit(":");
    }
    r
}

/// Sanitization is total and deterministic: every name has exactly one sanitized
/// form, of the same length, holding no reserved character, and keeping every
/// character that was not reserved.
pub proof fn lemma_sanitize_total(s: Seq<char>, t: Seq<char>)
    ensures
        s == t ==> sanitized(s) == sanitized(t),
        sanitized(s).len() == s.len(),
        forall|i: int| 0 <= i < s.len() ==> !is_reserved(#[trigger] sanitized(s)[i]),
        forall|i: int| 0 <= i < s.len() && !is_reserved(s[i]) ==> #[trigger] sanitized(s)[i] == s[i],
{
}

/// Sanitizing twice changes nothing more than sanitizing once.
pub proof fn lemma_sanitize_idempotent(s: Seq<char>)
    ensures
        sanitized(sanitized(s)) == sanitized(s),
{
    assert(sanitized(sanitized(s)) =~= sanitized(s));
}

} // verus!
