//! The token handed to the downstream sink for a recognized membership card.

use vstd::prelude::*;

verus! {

/// How the identifier was obtained. This flow always reads by proximity,
/// so the only method it ever records is RFID.
#[derive(Clone, Copy, PartialEq, Eq, Structural, Debug)]
pub enum AuthorizationType {
    Rfid,
}

/// An identifier token built from a membership card's `tag_id`.
///
/// Beyond the identifier and the authorization method, the token carries a
/// set of optional fields that this flow never sets.
#[derive(Debug)]
pub struct ProvidedToken {
    pub id_token: String,
    pub authorization_type: AuthorizationType,
    pub certificate: Option<String>,
    pub connectors: Option<Vec<u32>>,
    pub prevalidated: Option<bool>,
    pub request_id: Option<u64>,
}

/// The authorization method is fixed to RFID and every optional field is
/// unset: the shape of every token this flow produces.
pub open spec fn token_fields_fixed(t: ProvidedToken) -> bool {
    &&& t.authorization_type == AuthorizationType::Rfid
    &&& t.certificate is None
    &&& t.connectors is None
    &&& t.prevalidated is None
    &&& t.request_id is None
}

/// A token correctly built from the given identifier.
pub open spec fn token_for(t: ProvidedToken, tag: Seq<char>) -> bool {
    &&& t.id_token@ == tag
    &&& token_fields_fixed(t)
}

impl ProvidedToken {
    /// Construct the token for one membership presentation.
    pub fn from_tag(tag: String) -> (t: ProvidedToken)
        ensures
            token_for(t, tag@),
    {
        ProvidedToken {
            id_token: tag,
            authorization_type: AuthorizationType::Rfid,
            certificate: None,
            connectors: None,
            prevalidated: None,
            request_id: None,
        }
    }
}

} // verus!
