//! Dash/underscore normalisation of names that pass through the SQL grammar.
//!
//! The grammar has no place for a bare dash in an identifier, so a name is
//! carried with `_` in place of `-` and turned back on the way out.

use vstd::prelude::*;

verus! {

/// `s` with every `from` replaced by `to`, position by position.
pub open spec fn substituted(s: Seq<char>, from: char, to: char) -> Seq<char> {
    Seq::new(
        s.len(),
        |i: int|
            if s[i] == from {
                to
            } else {
                s[i]
            },
    )
}

/// The form in which a name enters the grammar: dashes become underscores.
pub open spec fn encoded(s: Seq<char>) -> Seq<char> {
    substituted(s, '-', '_')
}

/// The form in which a name leaves the grammar: underscores become dashes.
pub open spec fn decoded(s: Seq<char>) -> Seq<char> {
    substituted(s, '_', '-')
}

/// Calls `str::replace` with a character as the pattern and a one-character
/// replacement. Trusted: the result has the characters of `s` in order, each
/// occurrence of `from` turned into the single character of `to`.
#[verifier::external_body]
fn replace_char(s: &str, from: char, to: &str) -> (r: String)
    requires
        to@.len() == 1,
    ensures
        r@ == substituted(s@, from, to@[0]),
{
    s.replace(from, to)
}

/// Replaces every dash by an underscore.
pub fn encode(name: &str) -> (r: String)
    ensures
        r@ == encoded(name@),
{
    proof {
        reveal_strlit("_");
    }
    replace_char(name, '-', "_")
}

/// Replaces every underscore by a dash.
pub fn decode(name: &str) -> (r: String)
    ensures
        r@ == decoded(name@),
{
    proof {
        reveal_strlit("-");
    }
    replace_char(name, '_', "-")
}

/// Decoding an encoded name gives the name back, provided the name itself
/// holds no underscore.
pub proof fn lemma_decode_encode(s: Seq<char>)
    requires
        !s.contains('_'),
    ensures
        decoded(encoded(s)) == s,
{
    assert(decoded(encoded(s)) =~= s);
}

/// Encoding a decoded name gives the name back, provided the name itself
/// holds no dash.
pub proof fn lemma_encode_decode(s: Seq<char>)
    requires
        !s.contains('-'),
    ensures
        encoded(decoded(s)) == s,
{
    assert(encoded(decoded(s)) =~= s);
}

/// Both directions keep the length and every character other than the two
/// they exchange; encoding leaves no dash and decoding no underscore.
pub proof fn lemma_other_characters_kept(s: Seq<char>)
    ensures
        encoded(s).len() == s.len(),
        decoded(s).len() == s.len(),
        forall|i: int| 0 <= i < s.len() && s[i] != '-' ==> #[trigger] encoded(s)[i] == s[i],
        forall|i: int| 0 <= i < s.len() && s[i] == '-' ==> #[trigger] encoded(s)[i] == '_',
        forall|i: int| 0 <= i < s.len() && s[i] != '_' ==> #[trigger] decoded(s)[i] == s[i],
        forall|i: int| 0 <= i < s.len() && s[i] == '_' ==> #[trigger] decoded(s)[i] == '-',
        !encoded(s).contains('-'),
        !decoded(s).contains('_'),
{
}

/// Each direction is idempotent, and the identity on a name that holds
/// nothing for it to replace.
pub proof fn lemma_idempotent(s: Seq<char>)
    ensures
        encoded(encoded(s)) == encoded(s),
        decoded(decoded(s)) == decoded(s),
        !s.contains('-') ==> encoded(s) == s,
        !s.contains('_') ==> decoded(s) == s,
{
    assert(encoded(encoded(s)) =~= encoded(s));
    assert(decoded(decoded(s)) =~= decoded(s));
    if !s.contains('-') {
        assert(encoded(s) =~= s);
    }
    if !s.contains('_') {
        assert(decoded(s) =~= s);
    }
}

} // verus!
