//! Resolving an input token to a source: the reserved marker names standard
//! input, anything else a file path.

use vstd::prelude::*;

verus! {

/// Whether `t` is the token that stands for standard input: a lone `-`.
pub open spec fn is_stdin_token(t: Seq<char>) -> bool {
    t == seq!['-']
}

/// The token for standard input is the single byte 45 in UTF-8.
proof fn lemma_dash_encoding()
    ensures
        vstd::utf8::encode_utf8(seq!['-']) == seq![45u8],
{
    let dash = seq!['-'];
    assert(dash.drop_first() =~= Seq::<char>::empty());
    assert((45u32 & 0x7Fu32) == 45u32) by (bit_vector);
    assert(vstd::utf8::encode_utf8(dash.drop_first()) =~= Seq::<u8>::empty());
    assert(vstd::utf8::encode_scalar(45u32) =~= seq![45u8]);
    assert(vstd::utf8::encode_utf8(dash) == vstd::utf8::encode_scalar(45u32)
        + vstd::utf8::encode_utf8(dash.drop_first()));
    assert(vstd::utf8::encode_utf8(dash) =~= seq![45u8]);
}

/// Where the bytes of one input come from.
pub enum Source {
    /// The process's standard input.
    Stdin,
    /// A file, by its path.
    File(String),
}

/// Decides where the bytes named by `token` come from.
pub fn resolve(token: &str) -> (r: Source)
    ensures
        is_stdin_token(token@) ==> r is Stdin,
        !is_stdin_token(token@) ==> (r matches Source::File(p) && p@ == token@),
{
    let b = token.as_bytes();
    proof {
        lemma_dash_encoding();
        vstd::utf8::encode_utf8_decode_utf8(token@);
        vstd::utf8::encode_utf8_decode_utf8(seq!['-']);
    }
    if b.len() == 1 && b[0] == 45u8 {
        assert(b@ =~= seq![45u8]);
        Source::Stdin
    } else {
        Source::File(token.to_owned())
    }
}

} // verus!
