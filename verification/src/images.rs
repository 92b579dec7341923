//! The image stage: building the image-generation request from the run's
//! outputs, and accounting for the per-image save outcomes. The network call
//! and the downloads happen outside the library; failure to save an image is
//! reported and never invalidates the already-written text artifact.

use vstd::prelude::*;
use crate::catalog::PoemType;
use crate::strutil::dec_str;
use crate::strutil::u64_to_dec;

verus! {

/// The fixed resolutions the provider accepts.
#[derive(Debug, Clone, Copy, PartialEq, Eq, Structural)]
pub enum ImageSize {
    S256,
    S512,
    S1024,
}

impl ImageSize {
    /// The square edge length in pixels.
    pub open spec fn pixels_spec(self) -> u32 {
        match self {
            ImageSize::S256 => 256u32,
            ImageSize::S512 => 512u32,
            ImageSize::S1024 => 1024u32,
        }
    }

    /// Returns the square edge length in pixels.
    pub fn pixels(&self) -> (r: u32)
        ensures
            r == self.pixels_spec(),
    {
        match self {
            ImageSize::S256 => 256,
            ImageSize::S512 => 512,
            ImageSize::S1024 => 1024,
        }
    }
}

/// The prompt sent to the image stage, built from the style, the trimmed
/// title and the poem body.
pub open spec fn image_prompt_spec(style: PoemType, title: Seq<char>, poem: Seq<char>) -> Seq<
    char,
> {
    "Picture of the "@ + style.display_name_spec() + " named "@ + title + "\n\nCONTENT:\n\n"@
        + poem + "\n\n"@
}

/// Builds the image prompt, per [`image_prompt_spec`].
pub fn image_prompt(style: PoemType, title: &str, poem: &str) -> (r: String)
    ensures
        r@ == image_prompt_spec(style, title@, poem@),
{
    let mut s = String::from_str("Picture of the ");
    let name = style.display_name();
    s.append(name.as_str());
    s.append(" named ");
    s.append(title);
    s.append("\n\nCONTENT:\n\n");
    s.append(poem);
    s.append("\n\n");
    s
}

/// The prompt cut to the provider's limit: its first 1000 characters.
pub open spec fn truncate_spec(s: Seq<char>) -> Seq<char> {
    if s.len() <= 1000 {
        s
    } else {
        s.take(1000)
    }
}

/// Cuts the prompt to the first 1000 characters, per [`truncate_spec`].
pub fn truncate_prompt(s: &str) -> (r: String)
    ensures
        r@ == truncate_spec(s@),
{
    let n = s.unicode_len();
    if n <= 1000 {
        String::from_str(s)
    } else {
        String::from_str(s.substring_char(0, 1000))
    }
}

/// An image-generation request: the prompt already cut to the provider's
/// limit, the number of images asked for, the resolution, and the fixed
/// user tag.
pub struct ImageRequest {
    pub prompt: String,
    pub n: u8,
    pub size: ImageSize,
    pub user: String,
}

impl ImageRequest {
    /// A request the image client accepts: at least one image, a prompt
    /// within the provider's limit.
    pub open spec fn valid(self) -> bool {
        self.n >= 1 && self.prompt@.len() <= 1000
    }
}

/// Builds the request for `n` images of the given size: the prompt is cut to
/// 1000 characters, the count and size pass through unchanged.
pub fn build_image_request(prompt: &str, n: u8, size: ImageSize) -> (r: ImageRequest)
    requires
        n >= 1,
    ensures
        r.prompt@ == truncate_spec(prompt@),
        r.n == n,
        r.size == size,
        r.user@ == "poem-gen"@,
        r.valid(),
{
    ImageRequest {
        prompt: truncate_prompt(prompt),
        n,
        size,
        user: String::from_str("poem-gen"),
    }
}

/// The path an image is stored at, adjacent to the text artifact: the
/// artifact's stem, a dash, the image's index, `.png`.
pub open spec fn image_path_spec(stem: Seq<char>, idx: u64) -> Seq<char> {
    stem + "-"@ + dec_str(idx as nat) + ".png"@
}

/// Builds the path for the image at `idx`, per [`image_path_spec`].
pub fn image_path(stem: &str, idx: u64) -> (r: String)
    ensures
        r@ == image_path_spec(stem@, idx),
{
    let mut s = String::from_str(stem);
    s.append("-");
    let d = u64_to_dec(idx);
    s.append(d.as_str());
    s.append(".png");
    s
}

/// How many of the outcomes succeeded.
pub open spec fn saved_count(outcomes: Seq<bool>) -> nat
    decreases outcomes.len(),
{
    if outcomes.len() == 0 {
        0
    } else {
        saved_count(outcomes.drop_last()) + if outcomes.last() {
            1nat
        } else {
            0nat
        }
    }
}

/// Counts the per-image save outcomes: how many images were persisted and
/// how many failed. Failures are reported this way and never roll back the
/// text artifact.
pub fn image_save_summary(outcomes: &Vec<bool>) -> (r: (usize, usize))
    ensures
        r.0 == saved_count(outcomes@),
        r.0 + r.1 == outcomes@.len(),
{
    let mut saved: usize = 0;
    let mut i: usize = 0;
    while i < outcomes.len()
        invariant
            0 <= i <= outcomes@.len(),
            saved == saved_count(outcomes@.take(i as int)),
            saved <= i,
        decreases outcomes@.len() - i,
    {
        if outcomes[i] {
            saved += 1;
        }
        proof {
            assert(outcomes@.take(i + 1).drop_last() =~= outcomes@.take(i as int));
            assert(outcomes@.take(i + 1).last() == outcomes@[i as int]);
        }
        i += 1;
    }
    proof {
        assert(outcomes@.take(outcomes@.len() as int) =~= outcomes@);
    }
    (saved, outcomes.len() - saved)
}

} // verus!
