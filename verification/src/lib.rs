pub mod emit;
pub mod model;
pub mod record;
pub mod tokens;

use vstd::prelude::*;

verus! {

use crate::emit::{
    expand_record, relex_diagnostic, spec_expand, spec_relex_diag, spec_unsupported_diag,
    unsupported_diagnostic,
};
use crate::tokens::{lexes, record_of};

/// Expand one record declaration, given as a token sequence, into the source
/// text of its builder companion: the builder record, its setters and `build`,
/// and the record's `builder()` factory — exactly the expansion of the record
/// the tokens decode to. A declaration that is not a record with named
/// members is rejected with the fixed diagnostic.
pub fn derive_source(input: proc_macro2::TokenStream) -> (r: Result<String, String>)
    ensures
        r is Ok <==> record_of(input) is Some,
        r matches Ok(s) ==> record_of(input) matches Some(rv) && s@ == spec_expand(rv),
        r matches Err(m) ==> m@ == spec_unsupported_diag(),
{
    match crate::tokens::parse_record(input) {
        Some(rec) => Ok(expand_record(&rec)),
        None => Err(unsupported_diagnostic()),
    }
}

/// The derive entry: expand one record declaration into the token sequence of
/// its builder companion, the expansion of exactly the record the tokens
/// decode to. A declaration that is not a record with named members is
/// rejected with the fixed diagnostic; an emitted text that the tokenizer
/// will not take back (which a well-formed expansion never produces) is
/// reported under a diagnostic of its own.
pub fn derive(input: proc_macro2::TokenStream) -> (r: Result<
    proc_macro2::TokenStream,
    String,
>)
    ensures
        record_of(input) is None ==> (r matches Err(m) && m@ == spec_unsupported_diag()),
        record_of(input) is Some ==> (r is Ok || (r matches Err(m) && m@ == spec_relex_diag())),
        r matches Ok(_) ==> (record_of(input) matches Some(rv) && lexes(spec_expand(rv))),
        r matches Err(m) ==> m@ == spec_unsupported_diag() || m@ == spec_relex_diag(),
{
    match derive_source(input) {
        Ok(text) => match crate::tokens::text_to_tokens(text.as_str()) {
            Some(ts) => Ok(ts),
            None => Err(relex_diagnostic()),
        },
        Err(m) => Err(m),
    }
}

} // verus!
