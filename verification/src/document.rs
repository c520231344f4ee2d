use vstd::prelude::*;

verus! {

/// Scalar metadata carried with each document. Textual fields are held as
/// UTF-8 bytes, so that contracts can speak of them byte for byte.
#[derive(Clone, Debug)]
pub struct Metadata {
    pub source: Vec<u8>,
    pub content_type: Vec<u8>,
    pub language: Vec<u8>,
}

/// A text chunk with its metadata and an optional embedding vector.
///
/// Vector components are single-precision values carried by their bit
/// patterns: the verified pipeline moves them around but never computes on
/// them, so nothing here depends on floating-point arithmetic.
#[derive(Clone, Debug)]
pub struct Document {
    pub page_content: Vec<u8>,
    pub metadata: Metadata,
    pub embeddings: Vec<u32>,
}

/// The body of an embedding request: the document's text content.
pub struct EmbedRequest {
    pub content: Vec<u8>,
}

/// The body of an embedding response: one vector component per entry, already
/// narrowed to single precision and carried as bit patterns.
pub struct EmbedResponse {
    pub embedding: Vec<u32>,
}

impl Document {
    /// The request asking the inference service to embed this document's text.
    pub fn to_request(self) -> (r: EmbedRequest)
        ensures
            r.content == self.page_content,
    {
        EmbedRequest { content: self.page_content }
    }
}

/// The per-document result of the embedding stage: either the document now
/// carries a non-empty vector, or it survives unchanged with an empty one.
pub enum EmbeddingOutcome {
    Embedded(Document),
    NotEmbedded(Document),
}

/// Holds when `o` is a failure outcome that kept `d`'s content and metadata
/// and attached an empty vector.
pub open spec fn is_failure_outcome_for(o: EmbeddingOutcome, d: Document) -> bool {
    match o {
        EmbeddingOutcome::NotEmbedded(e) => {
            &&& e.page_content == d.page_content
            &&& e.metadata == d.metadata
            &&& e.embeddings@.len() == 0
        },
        EmbeddingOutcome::Embedded(_) => false,
    }
}

/// Classify what the inference service handed back for one document.
///
/// `response` is `Some(v)` when the service answered with a vector that parsed
/// and was narrowed to single precision, and `None` on a transport error or an
/// unparsable response. A failure, or an unusable empty vector, never aborts
/// anything: the document survives with an empty vector.
pub fn embed_outcome(d: Document, response: Option<Vec<u32>>) -> (o: EmbeddingOutcome)
    ensures
        (match response {
            Some(v) => {
                if v.len() > 0 {
                    o == EmbeddingOutcome::Embedded(
                        (Document {
                            page_content: d.page_content,
                            metadata: d.metadata,
                            embeddings: v,
                        }),
                    )
                } else {
                    is_failure_outcome_for(o, d)
                }
            },
            None => is_failure_outcome_for(o, d),
        }),
{
    match response {
        Some(v) => {
            if v.len() > 0 {
                EmbeddingOutcome::Embedded(
                    Document { page_content: d.page_content, metadata: d.metadata, embeddings: v },
                )
            } else {
                EmbeddingOutcome::NotEmbedded(
                    Document { page_content: d.page_content, metadata: d.metadata, embeddings: v },
                )
            }
        },
        None => EmbeddingOutcome::NotEmbedded(
            Document {
                page_content: d.page_content,
                metadata: d.metadata,
                embeddings: Vec::new(),
            },
        ),
    }
}

} // verus!
