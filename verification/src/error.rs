//! Failures of resource loading.

use crate::text::{number_text, write_number};
use vstd::prelude::*;

verus! {

#[derive(Clone, Debug)]
pub enum BlockResourceError {
    /// The resource could not be read.
    Source { message: String },
    Identifier { value: String },
    Malformed { kind: &'static str, identifier: String, reason: String },
    TextureMetadata {
        texture: String,
        metadata_path: String,
        section: &'static str,
        reason: String,
    },
    AtlasTooLarge { maximum: u32 },
}

/// What a failure says.
pub enum Failure {
    Source { message: Seq<char> },
    Identifier { value: Seq<char> },
    Malformed { kind: Seq<char>, identifier: Seq<char>, reason: Seq<char> },
    TextureMetadata {
        texture: Seq<char>,
        metadata_path: Seq<char>,
        section: Seq<char>,
        reason: Seq<char>,
    },
    AtlasTooLarge { maximum: u32 },
}

impl View for BlockResourceError {
    type V = Failure;

    open spec fn view(&self) -> Failure {
        match self {
            BlockResourceError::Source { message } => Failure::Source { message: message@ },
            BlockResourceError::Identifier { value } => Failure::Identifier { value: value@ },
            BlockResourceError::Malformed { kind, identifier, reason } => Failure::Malformed {
                kind: kind@,
                identifier: identifier@,
                reason: reason@,
            },
            BlockResourceError::TextureMetadata { texture, metadata_path, section, reason } => {
                Failure::TextureMetadata {
                    texture: texture@,
                    metadata_path: metadata_path@,
                    section: section@,
                    reason: reason@,
                }
            },
            BlockResourceError::AtlasTooLarge { maximum } => Failure::AtlasTooLarge {
                maximum: *maximum,
            },
        }
    }
}

/// A failure of a resource of a kind.
pub open spec fn malformation(kind: Seq<char>, identifier: Seq<char>, reason: Seq<char>) -> Failure {
    Failure::Malformed { kind, identifier, reason }
}

pub fn malformed(kind: &'static str, identifier: &str, reason: &str) -> (error: BlockResourceError)
    ensures
        error@ == malformation(kind@, identifier@, reason@),
{
    BlockResourceError::Malformed {
        kind,
        identifier: identifier.to_owned(),
        reason: reason.to_owned(),
    }
}

/// What a failure is reported as.
pub open spec fn failure_message(failure: Failure) -> Seq<char> {
    match failure {
        Failure::Source { message } => message,
        Failure::Identifier { value } => "invalid block resource identifier `"@ + value + "`"@,
        Failure::Malformed { kind, identifier, reason } => "malformed "@ + kind + " `"@ + identifier
            + "`: "@ + reason,
        Failure::TextureMetadata { texture, metadata_path, section, reason } => {
            "malformed texture metadata section `"@ + section + "` for `"@ + texture + "` at `"@
                + metadata_path + "`: "@ + reason
        },
        Failure::AtlasTooLarge { maximum } => "texture atlas exceeds the "@ + number_text(
            maximum as nat,
        ) + "-pixel side limit"@,
    }
}

impl BlockResourceError {
    /// What the failure is reported as.
    pub fn message(&self) -> (message: String)
        ensures
            message@ == failure_message(self@),
    {
        match self {
            BlockResourceError::Source { message } => message.clone(),
            BlockResourceError::Identifier { value } => {
                let mut text: String = String::new();
                text.push_str("invalid block resource identifier `");
                text.push_str(value.as_str());
                text.push_str("`");
                assert(text@ =~= failure_message(self@));
                text
            },
            BlockResourceError::Malformed { kind, identifier, reason } => {
                let mut text: String = String::new();
                text.push_str("malformed ");
                text.push_str(kind);
                text.push_str(" `");
                text.push_str(identifier.as_str());
                text.push_str("`: ");
                text.push_str(reason.as_str());
                assert(text@ =~= failure_message(self@));
                text
            },
            BlockResourceError::TextureMetadata { texture, metadata_path, section, reason } => {
                let mut text: String = String::new();
                text.push_str("malformed texture metadata section `");
                text.push_str(section);
                text.push_str("` for `");
                text.push_str(texture.as_str());
                text.push_str("` at `");
                text.push_str(metadata_path.as_str());
                text.push_str("`: ");
                text.push_str(reason.as_str());
                assert(text@ =~= failure_message(self@));
                text
            },
            BlockResourceError::AtlasTooLarge { maximum } => {
                let mut text: String = String::new();
                text.push_str("texture atlas exceeds the ");
                let number: String = write_number(*maximum as u64);
                text.push_str(number.as_str());
                text.push_str("-pixel side limit");
                assert(text@ =~= failure_message(self@));
                text
            },
        }
    }
}

/// A failure is reported with what it is about: the name that is no identifier, the kind
/// and the name of what is malformed with the reason, the section and the two files of
/// texture metadata, and the limit of the atlas in decimal digits.
pub proof fn lemma_messages_name_their_subject(
    a: Seq<char>,
    b: Seq<char>,
    c: Seq<char>,
    d: Seq<char>,
    maximum: u32,
)
    ensures
        failure_message(Failure::Source { message: a }) == a,
        failure_message(Failure::Identifier { value: a }) == "invalid block resource identifier `"@
            + a + "`"@,
        failure_message(malformation(a, b, c)) == "malformed "@ + a + " `"@ + b + "`: "@ + c,
        failure_message(
            Failure::TextureMetadata { texture: a, metadata_path: b, section: c, reason: d },
        ) == "malformed texture metadata section `"@ + c + "` for `"@ + a + "` at `"@ + b + "`: "@
            + d,
        failure_message(Failure::AtlasTooLarge { maximum }) == "texture atlas exceeds the "@
            + number_text(maximum as nat) + "-pixel side limit"@,
{
}

} // verus!
