//! Shared value types for page content.

use vstd::prelude::*;

verus! {

/// Raw bytes of one packed site asset (a style sheet, a font, an
/// image).  Viewed as the byte sequence it holds.
pub struct EmbeddedData(Vec<u8>);

impl View for EmbeddedData {
    type V = Seq<u8>;

    closed spec fn view(&self) -> Seq<u8> {
        self.0@
    }
}

impl EmbeddedData {
    /// Wrap the bytes of one asset.
    pub fn new(data: Vec<u8>) -> (r: Self)
        ensures
            r@ == data@,
    {
        EmbeddedData(data)
    }

    /// No bytes at all; what a handler serves when an asset is
    /// missing.
    pub fn empty() -> (r: Self)
        ensures
            r@ == Seq::<u8>::empty(),
    {
        EmbeddedData(Vec::new())
    }

    /// The held bytes.
    pub fn as_bytes(&self) -> (r: &[u8])
        ensures
            r@ == self@,
    {
        self.0.as_slice()
    }

    /// How many bytes are held.
    pub fn len(&self) -> (n: usize)
        ensures
            n == self@.len(),
    {
        self.0.len()
    }
}

impl Clone for EmbeddedData {
    /// An independent copy of the same bytes.
    fn clone(&self) -> (r: Self)
        ensures
            r@ == self@,
    {
        let data = self.0.clone();
        proof {
            assert forall|i: int| 0 <= i < data@.len() implies data@[i] == self.0@[i] by {
                assert(cloned::<u8>(self.0@[i], data@[i]));
            }
            assert(data@ =~= self.0@);
        }
        EmbeddedData(data)
    }
}

/// One fully rendered HTML document, ready to serve.  Viewed as its
/// text.
pub struct RenderedHtml(String);

impl View for RenderedHtml {
    type V = Seq<char>;

    closed spec fn view(&self) -> Seq<char> {
        self.0@
    }
}

impl RenderedHtml {
    /// Wrap a rendered document.
    pub fn new(html: String) -> (r: Self)
        ensures
            r@ == html@,
    {
        RenderedHtml(html)
    }

    /// The document text.
    pub fn as_str(&self) -> (r: &str)
        ensures
            r@ == self@,
    {
        self.0.as_str()
    }
}

impl Clone for RenderedHtml {
    /// An independent copy of the same document.
    fn clone(&self) -> (r: Self)
        ensures
            r@ == self@,
    {
        RenderedHtml(self.0.clone())
    }
}

} // verus!
