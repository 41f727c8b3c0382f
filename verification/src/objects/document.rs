//! Documents that are attached to messages and posts.

use vstd::prelude::*;
use vstd::std_specs::convert::FromSpecImpl;

verus! {

/// A drawing.
#[derive(Clone, Debug, PartialEq, Eq)]
pub struct Graffiti {
    pub src: String,
    pub width: i64,
    pub height: i64,
}

/// A voice message.
#[derive(Clone, Debug, PartialEq, Eq)]
pub struct AudioMessage {
    pub duration: i64,
    pub waveform: Vec<i64>,
    pub link_ogg: String,
    pub link_mp3: String,
}

/// The kind of a document, which the API gives as a number from 1 to 8.
#[derive(Clone, Copy, Debug, PartialEq, Eq, Structural)]
pub enum DocumentType {
    /// 1: a text document.
    Text,
    /// 2: an archive.
    Archive,
    /// 3: a gif.
    Gif,
    /// 4: an image.
    Image,
    /// 5: audio.
    Audio,
    /// 6: video.
    Video,
    /// 7: an e-book.
    Ebook,
    /// 8: anything else.
    Other,
}

/// The kind that the number `val` stands for: each number from 1 to 7 has
/// its kind, and every other number stands for `Other`.
pub open spec fn document_type_of(val: int) -> DocumentType {
    if val == 1 {
        DocumentType::Text
    } else if val == 2 {
        DocumentType::Archive
    } else if val == 3 {
        DocumentType::Gif
    } else if val == 4 {
        DocumentType::Image
    } else if val == 5 {
        DocumentType::Audio
    } else if val == 6 {
        DocumentType::Video
    } else if val == 7 {
        DocumentType::Ebook
    } else {
        DocumentType::Other
    }
}

/// The number that the API gives for `kind`.
pub open spec fn document_type_number(kind: DocumentType) -> int {
    match kind {
        DocumentType::Text => 1,
        DocumentType::Archive => 2,
        DocumentType::Gif => 3,
        DocumentType::Image => 4,
        DocumentType::Audio => 5,
        DocumentType::Video => 6,
        DocumentType::Ebook => 7,
        DocumentType::Other => 8,
    }
}

impl From<i64> for DocumentType {
    fn from(val: i64) -> (kind: Self) {
        match val {
            1 => DocumentType::Text,
            2 => DocumentType::Archive,
            3 => DocumentType::Gif,
            4 => DocumentType::Image,
            5 => DocumentType::Audio,
            6 => DocumentType::Video,
            7 => DocumentType::Ebook,
            _ => DocumentType::Other,
        }
    }
}

impl FromSpecImpl<i64> for DocumentType {
    open spec fn obeys_from_spec() -> bool {
        true
    }

    open spec fn from_spec(val: i64) -> Self {
        document_type_of(val as int)
    }
}

impl From<DocumentType> for i64 {
    fn from(kind: DocumentType) -> (val: Self) {
        match kind {
            DocumentType::Text => 1,
            DocumentType::Archive => 2,
            DocumentType::Gif => 3,
            DocumentType::Image => 4,
            DocumentType::Audio => 5,
            DocumentType::Video => 6,
            DocumentType::Ebook => 7,
            DocumentType::Other => 8,
        }
    }
}

impl FromSpecImpl<DocumentType> for i64 {
    open spec fn obeys_from_spec() -> bool {
        true
    }

    open spec fn from_spec(kind: DocumentType) -> Self {
        document_type_number(kind) as i64
    }
}

/// The number of a kind stands for that kind.
pub proof fn lemma_document_type_number_round_trip(kind: DocumentType)
    ensures
        1 <= document_type_number(kind) <= 8,
        document_type_of(document_type_number(kind)) == kind,
{
}

} // verus!
