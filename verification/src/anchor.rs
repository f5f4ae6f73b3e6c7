//! The contextual anchor: a caller-supplied description of a place in a
//! document, robust to the caller not knowing exact offsets.
//!
//! An anchor names a file by path, gives a short context snippet that must
//! contain the token to locate, and optionally a one-based index that picks
//! between repeated occurrences of the token inside the context.

use vstd::prelude::*;
use vstd::string::StringExecFns;
use vstd::utf8::encode_utf8;

use crate::number::{decimal_of, u64_to_string};
use crate::position::lemma_encode_utf8_len;
use crate::search::{
    byte_match_offsets, bytes_contain, contains_seq, is_match_at, lemma_match_offsets_ordered,
    match_offsets,
};

verus! {

/// A lightweight contextual anchor used to identify a syntax position
/// robustly across edits.
#[derive(Clone, Debug)]
pub struct ContextualAnchor {
    /// Project-relative path identifying the file or buffer.
    pub path: String,
    /// A short multi-word context snippet that contains `token`.
    pub context_str: String,
    /// The specific token to locate inside the context snippet.
    pub token: String,
    /// Optional one-based index to disambiguate repeated occurrences of
    /// `token` in `context_str`. If provided it must be at least one.
    pub index: Option<usize>,
}

/// Errors returned by anchor validation.
#[derive(Clone, Debug, PartialEq, Eq)]
pub enum ValidationError {
    MissingContext,
    MissingToken,
    ContextDoesNotContainToken { context: String, token: String },
    InvalidIndex(usize),
}

impl ContextualAnchor {
    /// The UTF-8 encoding of the context snippet.
    pub open spec fn context_bytes(&self) -> Seq<u8> {
        encode_utf8(self.context_str@)
    }

    /// The UTF-8 encoding of the token.
    pub open spec fn token_bytes(&self) -> Seq<u8> {
        encode_utf8(self.token@)
    }

    /// The context snippet contains the token as an exact substring.
    pub open spec fn context_has_token(&self) -> bool {
        contains_seq(self.context_bytes(), self.token_bytes())
    }

    /// The structural invariant checked by `validate_basic`: a non-empty
    /// context that contains the non-empty token, and an index, when present,
    /// of at least one.
    pub open spec fn is_valid(&self) -> bool {
        &&& self.context_str@.len() > 0
        &&& self.token@.len() > 0
        &&& self.context_has_token()
        &&& self.index != Some(0usize)
    }

    /// Structural validation that needs no document: the checks run in order,
    /// and the first to fail names the error.
    pub fn validate_basic(&self) -> (r: Result<(), ValidationError>)
        ensures
            r is Ok <==> self.is_valid(),
            r matches Err(ValidationError::MissingContext) <==> self.context_str@.len() == 0,
            r matches Err(ValidationError::MissingToken)
                <==> (self.context_str@.len() > 0 && self.token@.len() == 0),
            r matches Err(ValidationError::ContextDoesNotContainToken { .. })
                <==> (self.context_str@.len() > 0 && self.token@.len() > 0
                    && !self.context_has_token()),
            r matches Err(ValidationError::ContextDoesNotContainToken { context, token })
                ==> context@ == self.context_str@ && token@ == self.token@,
            r matches Err(ValidationError::InvalidIndex(..))
                <==> (self.context_str@.len() > 0 && self.token@.len() > 0
                    && self.context_has_token() && self.index == Some(0usize)),
            r matches Err(ValidationError::InvalidIndex(ix)) ==> ix == 0,
    {
        if self.context_str.as_str().is_empty() {
            return Err(ValidationError::MissingContext);
        }
        if self.token.as_str().is_empty() {
            return Err(ValidationError::MissingToken);
        }
        if !bytes_contain(
            self.context_str.as_str().as_bytes(),
            self.token.as_str().as_bytes(),
        ) {
            return Err(ValidationError::ContextDoesNotContainToken {
                context: self.context_str.clone(),
                token: self.token.clone(),
            });
        }
        if let Some(ix) = self.index {
            if ix == 0 {
                return Err(ValidationError::InvalidIndex(ix));
            }
        }
        Ok(())
    }

    /// Byte offsets, relative to the start of `context_str`, of each
    /// non-overlapping left-to-right occurrence of `token` in `context_str`.
    /// An empty token yields no occurrences.
    pub fn token_occurrences_in_context(&self) -> (r: Vec<usize>)
        ensures
            r@.map_values(|x: usize| x as int)
                == match_offsets(self.context_bytes(), self.token_bytes()),
    {
        byte_match_offsets(
            self.context_str.as_str().as_bytes(),
            self.token.as_str().as_bytes(),
        )
    }
}

/// An anchor whose token is non-empty and occurs in its context, and whose
/// index is not zero, passes validation.
pub proof fn lemma_validate_accepts(a: ContextualAnchor)
    requires
        a.token@.len() > 0,
        a.context_has_token(),
        a.index != Some(0usize),
    ensures
        a.is_valid(),
{
    lemma_encode_utf8_len(a.token@);
    let i = choose|i: int| is_match_at(a.context_bytes(), a.token_bytes(), i);
    assert(a.context_bytes().len() > 0);
    lemma_encode_utf8_len(a.context_str@);
}

/// For an anchor that passes the structural checks on its context and token,
/// validation rejects — and `validate_basic`'s contract then names
/// `InvalidIndex(0)` — exactly when the anchor's index is zero.
pub proof fn lemma_zero_index_rejected(a: ContextualAnchor)
    requires
        a.context_str@.len() > 0,
        a.token@.len() > 0,
        a.context_has_token(),
    ensures
        !a.is_valid() <==> a.index == Some(0usize),
{
}

/// The token occurrences reported for a non-empty token all are matches of
/// the token, and consecutive offsets are at least the token's encoded length
/// apart: the occurrences come in increasing order and never overlap.
pub proof fn lemma_token_occurrences_ordered(a: ContextualAnchor)
    requires
        a.token@.len() > 0,
    ensures
        forall|k: int| 0 <= k < match_offsets(a.context_bytes(), a.token_bytes()).len()
            ==> is_match_at(a.context_bytes(), a.token_bytes(),
                #[trigger] match_offsets(a.context_bytes(), a.token_bytes())[k]),
        forall|k: int| 0 <= k < match_offsets(a.context_bytes(), a.token_bytes()).len() - 1
            ==> #[trigger] match_offsets(a.context_bytes(), a.token_bytes())[k]
                    + a.token_bytes().len()
                <= match_offsets(a.context_bytes(), a.token_bytes())[k + 1],
{
    lemma_encode_utf8_len(a.token@);
    lemma_match_offsets_ordered(a.context_bytes(), a.token_bytes());
}

impl ValidationError {
    /// The human-readable description of the error.
    pub open spec fn message_spec(&self) -> Seq<char> {
        match self {
            ValidationError::MissingContext => "context_str is empty"@,
            ValidationError::MissingToken => "token is empty"@,
            ValidationError::ContextDoesNotContainToken { context: _, token } =>
                "context_str does not contain token `"@ + token@ + "`"@,
            ValidationError::InvalidIndex(ix) =>
                "index must be 1-based and >= 1 (got "@ + decimal_of(*ix as int) + ")"@,
        }
    }

    /// Renders the error for display.
    pub fn message(&self) -> (r: String)
        ensures
            r@ == self.message_spec(),
    {
        match self {
            ValidationError::MissingContext => "context_str is empty".to_owned(),
            ValidationError::MissingToken => "token is empty".to_owned(),
            ValidationError::ContextDoesNotContainToken { context: _, token } => {
                let mut s = "context_str does not contain token `".to_owned();
                s.append(token.as_str());
                s.append("`");
                s
            },
            ValidationError::InvalidIndex(ix) => {
                let mut s = "index must be 1-based and >= 1 (got ".to_owned();
                let d = u64_to_string(*ix as u64);
                s.append(d.as_str());
                s.append(")");
                s
            },
        }
    }
}

} // verus!
