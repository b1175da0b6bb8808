use vstd::prelude::*;
use vstd::string::{StringExecFns, StringSliceAdditionalSpecFns};
use vstd::utf8::encode_utf8;
use std::borrow::Cow;

verus! {

/// The extended grapheme clusters of a text, in order, as
/// `unicode_segmentation` cuts them.
pub uninterp spec fn grapheme_clusters(text: Seq<char>) -> Seq<Seq<char>>;

/// The texts of a sequence of strings.
pub open spec fn texts_of(strings: Seq<String>) -> Seq<Seq<char>> {
    strings.map_values(|s: String| s@)
}

/// `unicode_segmentation::UnicodeSegmentation::graphemes` with extended
/// clusters, each cluster copied into a string of its own.
#[verifier::external_body]
pub(crate) fn graphemes(text: &str) -> (r: Vec<String>)
    ensures
        texts_of(r@) == grapheme_clusters(text@),
{
    unicode_segmentation::UnicodeSegmentation::graphemes(text, true).map(|g| g.to_owned()).collect()
}

/// The parts written one after another.
pub open spec fn joined(parts: Seq<Seq<char>>) -> Seq<char>
    decreases parts.len(),
{
    if parts.len() == 0 {
        Seq::empty()
    } else {
        joined(parts.drop_last()) + parts.last()
    }
}

/// How many of `have` parts are kept when at most `len` are wanted.
pub open spec fn kept(len: nat, have: nat) -> nat {
    if len <= have {
        len
    } else {
        have
    }
}

/// The first `len` clusters, or all of them where there are fewer, with
/// three dots behind them.
pub open spec fn ellipsized(clusters: Seq<Seq<char>>, len: nat) -> Seq<char> {
    joined(clusters.take(kept(len, clusters.len()) as int)) + "..."@
}

/// A text cut down for display: text that takes at most `len` bytes stays
/// as it is; of longer text the first `len` grapheme clusters stay, with
/// three dots behind them.
pub open spec fn truncated(text: Seq<char>, len: nat) -> Seq<char> {
    if encode_utf8(text).len() <= len {
        text
    } else {
        ellipsized(grapheme_clusters(text), len)
    }
}

/// Writes the first `len` clusters, or all of them where there are fewer,
/// and three dots behind them.
pub fn ellipsize(clusters: &Vec<String>, len: usize) -> (r: String)
    ensures
        r@ == ellipsized(texts_of(clusters@), len as nat),
{
    let ghost parts = texts_of(clusters@);
    let n: usize = if len <= clusters.len() {
        len
    } else {
        clusters.len()
    };
    let mut r = String::new();
    let mut i: usize = 0;
    assert(parts.take(0) =~= Seq::<Seq<char>>::empty());
    while i < n
        invariant
            i <= n <= clusters.len(),
            parts == texts_of(clusters@),
            r@ == joined(parts.take(i as int)),
        decreases n - i,
    {
        r.append(clusters[i].as_str());
        proof {
            assert(parts.take(i + 1).drop_last() =~= parts.take(i as int));
            assert(parts.take(i + 1).last() == clusters@[i as int]@);
        }
        i += 1;
    }
    r.append("...");
    r
}

/// Text that can be cut down to a number of grapheme clusters.
pub trait Ellipse {
    /// The characters of the text.
    spec fn text(&self) -> Seq<char>;

    /// The text cut down to `len` clusters where it takes more than `len`
    /// bytes.
    fn truncate_graphemes(&self, len: usize) -> (r: Cow<'_, str>)
        ensures
            r@ == truncated(self.text(), len as nat),
    ;
}

impl Ellipse for String {
    open spec fn text(&self) -> Seq<char> {
        self@
    }

    fn truncate_graphemes(&self, len: usize) -> (r: Cow<'_, str>) {
        let s = self.as_str();
        if s.as_bytes().len() <= len {
            return Cow::Borrowed(s);
        }
        let clusters = graphemes(s);
        Cow::Owned(ellipsize(&clusters, len))
    }
}

impl Ellipse for &str {
    open spec fn text(&self) -> Seq<char> {
        self@
    }

    fn truncate_graphemes(&self, len: usize) -> (r: Cow<'_, str>) {
        let s: &str = *self;
        if s.as_bytes().len() <= len {
            return Cow::Borrowed(s);
        }
        let clusters = graphemes(s);
        Cow::Owned(ellipsize(&clusters, len))
    }
}

} // verus!
