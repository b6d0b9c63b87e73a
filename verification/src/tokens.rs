use vstd::prelude::*;
use crate::record::{Member, RecordView, SourceRecord};

verus! {

#[verifier::external_type_specification]
#[verifier::external_body]
pub struct ExTokenStream(proc_macro2::TokenStream);

/// The record declaration a token sequence decodes to, if any: names the
/// result of `syn::parse2::<syn::DeriveInput>` together with the extraction
/// of the record's name and members, which depend on the tokens alone. None
/// stands for every declaration that is not a record with named members.
pub uninterp spec fn record_of(ts: proc_macro2::TokenStream) -> Option<RecordView>;

/// A text that a run of `str::parse::<proc_macro2::TokenStream>` accepts.
/// Which tokenizer runs depends on the process (inside a macro host the
/// compiler's own lexer is consulted too), so only success says anything of
/// the text: a failed parse is not pinned to it.
pub uninterp spec fn lexes(s: Seq<char>) -> bool;

/// Relies on syn::parse2::<syn::DeriveInput> to decode one declaration, on
/// proc_macro2::Ident::to_string for the textual form of each name (never
/// empty), and on quote::ToTokens::to_token_stream for the textual form of
/// each member type; all three depend on the tokens alone, so the outcome is
/// the one `record_of` names. Returns the record's name and its members in
/// declaration order, or None when the declaration is not a record with
/// named members.
#[verifier::external_body]
pub(crate) fn parse_record(ts: proc_macro2::TokenStream) -> (r: Option<SourceRecord>)
    ensures
        r matches Some(rec) ==> record_of(ts) == Some(rec@) && rec.name@.len() > 0,
        r is None ==> record_of(ts) is None,
{
    let ast = match syn::parse2::<syn::DeriveInput>(ts) { Ok(a) => a, Err(_) => return None };
    let name = ast.ident.to_string();
    let named = match ast.data {
        syn::Data::Struct(syn::DataStruct { fields: syn::Fields::Named(f), .. }) => f.named,
        _ => return None,
    };
    let mut members = Vec::new();
    for f in named {
        let id = match f.ident { Some(i) => i.to_string(), None => return None };
        members.push(Member { name: id, ty: quote::ToTokens::to_token_stream(&f.ty).to_string() });
    }
    Some(SourceRecord { name, members })
}

/// Relies on str::parse::<proc_macro2::TokenStream>: a successful parse
/// witnesses that the text tokenizes. Nothing is claimed of a failure, since
/// the tokenizer consulted varies with the process.
#[verifier::external_body]
pub(crate) fn text_to_tokens(s: &str) -> (r: Option<proc_macro2::TokenStream>)
    ensures
        r is Some ==> lexes(s@),
{
    s.parse().ok()
}

} // verus!
