use vstd::prelude::*;

verus! {

/// The kind of capture asked of the service; it picks the URL path segment.
#[derive(Debug, Clone, Copy, PartialEq, Eq, Structural)]
pub enum RequestType {
    Image,
    Pdf,
    Content,
    Metadata,
    Animated,
}

/// The path segment that names a capture kind in a request URL.
pub open spec fn segment_of(t: RequestType) -> Seq<char> {
    match t {
        RequestType::Image => seq!['i', 'm', 'a', 'g', 'e'],
        RequestType::Pdf => seq!['p', 'd', 'f'],
        RequestType::Content => seq!['c', 'o', 'n', 't', 'e', 'n', 't'],
        RequestType::Metadata => seq!['m', 'e', 't', 'a', 'd', 'a', 't', 'a'],
        RequestType::Animated => seq!['a', 'n', 'i', 'm', 'a', 't', 'e', 'd'],
    }
}

impl RequestType {
    /// The lowercase path segment of this capture kind.
    pub fn as_str(&self) -> (r: &'static str)
        ensures
            r@ == segment_of(*self),
    {
        match self {
            RequestType::Image => {
                proof {
                    reveal_strlit("image");
                }
                "image"
            },
            RequestType::Pdf => {
                proof {
                    reveal_strlit("pdf");
                }
                "pdf"
            },
            RequestType::Content => {
                proof {
                    reveal_strlit("content");
                }
                "content"
            },
            RequestType::Metadata => {
                proof {
                    reveal_strlit("metadata");
                }
                "metadata"
            },
            RequestType::Animated => {
                proof {
                    reveal_strlit("animated");
                }
                "animated"
            },
        }
    }
}

} // verus!
