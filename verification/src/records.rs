//! Records that flow through the persistence layer.
//!
//! Identifiers are 128-bit values (the numeric form of the usual random
//! identifiers); timestamps and row payloads are plain strings, booleans and
//! integers, so that every record is a value the contracts can speak about
//! in full.

use vstd::prelude::*;

use crate::text::{lower_char, spec_lower_char, str_chars};

verus! {

/// A claim under investigation: the anchor that artifacts relate to.
#[derive(Debug, Clone)]
pub struct ClaimContext {
    pub id: u128,
    pub text: String,
}

/// How much weight an entity's sourcing carries.
#[derive(Debug, Clone, Copy, PartialEq, Eq, Structural)]
pub enum Credibility {
    Strong,
    Weak,
    Unknown,
}

impl Credibility {
    /// Read a credibility from its stored string form, ASCII
    /// case-insensitively: `"strong"` and `"weak"` in any casing map to
    /// their variants, anything else is [`Credibility::Unknown`].
    pub fn from(s: &str) -> (r: Credibility)
        ensures
            r == Credibility::Strong <==> s@.map_values(|c: char| spec_lower_char(c)) == "strong"@,
            r == Credibility::Weak <==> s@.map_values(|c: char| spec_lower_char(c)) != "strong"@
                && s@.map_values(|c: char| spec_lower_char(c)) == "weak"@,
    {
        let chars = str_chars(s);
        let n = chars.len();
        let mut lowered: Vec<char> = Vec::new();
        let mut i: usize = 0;
        while i < n
            invariant
                0 <= i <= n,
                n == chars@.len(),
                chars@ == s@,
                lowered@ == s@.take(i as int).map_values(|c: char| spec_lower_char(c)),
            decreases n - i,
        {
            lowered.push(lower_char(chars[i]));
            proof {
                assert(lowered@ =~= s@.take(i + 1).map_values(|c: char| spec_lower_char(c)));
            }
            i = i + 1;
        }
        proof {
            assert(s@.take(n as int) =~= s@);
            assert(lowered@ =~= s@.map_values(|c: char| spec_lower_char(c)));
        }
        let len = lowered.len();
        if crate::text::segment_matches(&lowered, 0, len, "strong") {
            proof {
                assert(lowered@.subrange(0, len as int) =~= lowered@);
            }
            Credibility::Strong
        } else if crate::text::segment_matches(&lowered, 0, len, "weak") {
            proof {
                assert(lowered@.subrange(0, len as int) =~= lowered@);
            }
            Credibility::Weak
        } else {
            proof {
                assert(lowered@.subrange(0, len as int) =~= lowered@);
            }
            Credibility::Unknown
        }
    }
}

/// A named entity extracted from an artifact.
#[derive(Debug, Clone)]
pub struct Entity {
    pub article_id: u128,
    pub external_id: String,
    pub name: String,
    pub credibility: Credibility,
    pub reasoning: String,
}

/// An artifact normalised for storage, with the entities found in it.
#[derive(Debug)]
pub struct NormalizedArtifact {
    pub external_id: String,
    pub internal_id: u128,
    pub claim_id: u128,
    pub claim_relevance: bool,
    pub reasoning: String,
    pub provenance_info: String,
    pub entities: Vec<Entity>,
}

/// One stored artifact row, as queries return it.
#[derive(Debug, Clone)]
pub struct ArtifactRow {
    pub internal_id: String,
    pub external_id: String,
    pub claim_relevance: bool,
    pub reasoning: String,
    pub provenance_info: String,
    pub claim_id: Option<String>,
}

/// One stored entity row, as queries return it.
#[derive(Debug, Clone)]
pub struct EntityRow {
    pub id: String,
    pub article_id: String,
    pub name: String,
    pub credibility: String,
    pub reasoning: String,
}

/// An artifact row together with its entity rows.
#[derive(Debug, Clone)]
pub struct ArtifactWithEntities {
    pub artifact: ArtifactRow,
    pub entities: Vec<EntityRow>,
}

/// An assistant reply assembled from stored artifacts and entities.
#[derive(Debug)]
pub struct ChatResponse {
    pub text: String,
    pub used_artifacts: Vec<String>,
    pub used_entities: Vec<String>,
    pub caveats: Vec<String>,
}

/// A search command, with its time window in milliseconds since the epoch.
#[derive(Debug, Clone)]
pub struct SearchCmd {
    pub query: String,
    pub date_from_ms: i64,
    pub date_to_ms: i64,
    pub claim: ClaimContext,
}

/// A search query built for a claim, window in milliseconds since the epoch.
#[derive(Debug)]
pub struct BuiltSearchQuery {
    pub query: String,
    pub date_from_ms: i64,
    pub date_to_ms: i64,
    pub claim: ClaimContext,
}

} // verus!
