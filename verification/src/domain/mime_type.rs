//! The MIME types that a payload may have.

use vstd::prelude::*;
use vstd::string::StringExecFns;
use crate::text::same_text;

verus! {

/// Errors that can occur when working with MIME types.
#[derive(Debug, Clone, PartialEq, Eq)]
pub enum MimeTypeError {
    /// The MIME type is not one of the supported ones; the argument is
    /// the text that was offered.
    UnsupportedMimeType(String),
}

/// A supported MIME type.
#[derive(Debug, Clone, Copy, PartialEq, Eq, Structural)]
pub enum MimeType {
    /// Plain text content (text/plain)
    TextPlain,
    /// HTML content (text/html)
    TextHtml,
    /// JSON content (application/json)
    ApplicationJson,
    /// JPEG image (image/jpeg)
    ImageJpeg,
    /// PNG image (image/png)
    ImagePng,
    /// GIF image (image/gif)
    ImageGif,
}

/// The names of the supported types, in the order in which they are
/// listed.
pub open spec fn supported_names() -> Seq<Seq<char>> {
    seq![
        "text/plain"@,
        "text/html"@,
        "application/json"@,
        "image/jpeg"@,
        "image/png"@,
        "image/gif"@,
    ]
}

/// The type that `name` names, if it names one.
pub open spec fn named(name: Seq<char>) -> Option<MimeType> {
    if name == "text/plain"@ {
        Some(MimeType::TextPlain)
    } else if name == "text/html"@ {
        Some(MimeType::TextHtml)
    } else if name == "application/json"@ {
        Some(MimeType::ApplicationJson)
    } else if name == "image/jpeg"@ {
        Some(MimeType::ImageJpeg)
    } else if name == "image/png"@ {
        Some(MimeType::ImagePng)
    } else if name == "image/gif"@ {
        Some(MimeType::ImageGif)
    } else {
        None
    }
}

/// Text of the error for an unsupported type.
pub open spec fn unsupported_text(offered: Seq<char>) -> Seq<char> {
    "Unsupported MIME type: "@ + offered
}

impl MimeType {
    /// The name of the type, as it is written in a header.
    pub open spec fn name(self) -> Seq<char> {
        match self {
            MimeType::TextPlain => "text/plain"@,
            MimeType::TextHtml => "text/html"@,
            MimeType::ApplicationJson => "application/json"@,
            MimeType::ImageJpeg => "image/jpeg"@,
            MimeType::ImagePng => "image/png"@,
            MimeType::ImageGif => "image/gif"@,
        }
    }

    /// Returns the names of all supported MIME types.
    pub fn supported_types() -> (types: Vec<&'static str>)
        ensures
            types@.len() == 6,
            forall|i: int| 0 <= i < 6 ==> (#[trigger] types@[i])@ == supported_names()[i],
    {
        vec!["text/plain", "text/html", "application/json", "image/jpeg", "image/png", "image/gif"]
    }

    /// Checks if a MIME type string is supported.
    pub fn is_supported(mime_type: &str) -> (supported: bool)
        ensures
            supported == supported_names().contains(mime_type@),
            supported == (named(mime_type@) is Some),
    {
        let types = Self::supported_types();
        let mut i: usize = 0;
        while i < types.len()
            invariant
                i <= types.len(),
                types@.len() == 6,
                forall|k: int| 0 <= k < 6 ==> (#[trigger] types@[k])@ == supported_names()[k],
                forall|k: int| 0 <= k < i ==> supported_names()[k] != mime_type@,
            decreases types.len() - i,
        {
            if same_text(types[i], mime_type) {
                assert(supported_names()[i as int] == mime_type@);
                return true;
            }
            i += 1;
        }
        assert(!supported_names().contains(mime_type@));
        false
    }

    /// Reads a MIME type from its name. A text that names no supported
    /// type is handed back in the error.
    pub fn try_from(s: &str) -> (parsed: Result<MimeType, MimeTypeError>)
        ensures
            match parsed {
                Ok(mime) => named(s@) == Some(mime) && mime.name() == s@,
                Err(MimeTypeError::UnsupportedMimeType(offered)) => named(s@) is None && offered@
                    == s@,
            },
    {
        if same_text(s, "text/plain") {
            Ok(MimeType::TextPlain)
        } else if same_text(s, "text/html") {
            Ok(MimeType::TextHtml)
        } else if same_text(s, "application/json") {
            Ok(MimeType::ApplicationJson)
        } else if same_text(s, "image/jpeg") {
            Ok(MimeType::ImageJpeg)
        } else if same_text(s, "image/png") {
            Ok(MimeType::ImagePng)
        } else if same_text(s, "image/gif") {
            Ok(MimeType::ImageGif)
        } else {
            Err(MimeTypeError::UnsupportedMimeType(String::from_str(s)))
        }
    }

    /// The name of the type as a string slice.
    pub fn as_str(&self) -> (name: &'static str)
        ensures
            name@ == self.name(),
    {
        match self {
            MimeType::TextPlain => "text/plain",
            MimeType::TextHtml => "text/html",
            MimeType::ApplicationJson => "application/json",
            MimeType::ImageJpeg => "image/jpeg",
            MimeType::ImagePng => "image/png",
            MimeType::ImageGif => "image/gif",
        }
    }

    /// The name of the type as a string.
    pub fn to_string(&self) -> (name: String)
        ensures
            name@ == self.name(),
    {
        String::from_str(self.as_str())
    }
}

impl MimeTypeError {
    /// The message of the error.
    pub fn to_string(&self) -> (text: String)
        ensures
            self matches MimeTypeError::UnsupportedMimeType(offered) && text@ == unsupported_text(
                offered@,
            ),
    {
        match self {
            MimeTypeError::UnsupportedMimeType(offered) => String::from_str(
                "Unsupported MIME type: ",
            ).concat(offered.as_str()),
        }
    }
}

/// The six names are six different texts.
pub proof fn lemma_names_differ()
    ensures
        forall|a: MimeType, b: MimeType| a.name() == b.name() ==> a == b,
{
    reveal_strlit("text/plain");
    reveal_strlit("text/html");
    reveal_strlit("application/json");
    reveal_strlit("image/jpeg");
    reveal_strlit("image/png");
    reveal_strlit("image/gif");
    assert forall|a: MimeType, b: MimeType| a.name() == b.name() implies a == b by {
        if a != b {
            let x = a.name();
            let y = b.name();
            if x.len() == y.len() {
                assert(x[7] != y[7]);
            }
        }
    }
}

/// Writing a type and reading it back gives the type; reading a name and
/// writing it back gives the name.
pub proof fn law_name_round_trip(mime: MimeType, text: Seq<char>)
    ensures
        named(mime.name()) == Some(mime),
        named(text) matches Some(read) ==> read.name() == text,
        supported_names().contains(text) <==> named(text) is Some,
{
    lemma_names_differ();
    if named(mime.name()) != Some(mime) {
        let other = named(mime.name())->0;
        assert(other.name() == mime.name());
    }
    let names = supported_names();
    if names.contains(text) {
        let i = choose|i: int| 0 <= i < names.len() && names[i] == text;
        assert(names[i] == text);
    }
    if named(text) is Some {
        let k: int = match named(text)->0 {
            MimeType::TextPlain => 0,
            MimeType::TextHtml => 1,
            MimeType::ApplicationJson => 2,
            MimeType::ImageJpeg => 3,
            MimeType::ImagePng => 4,
            MimeType::ImageGif => 5,
        };
        assert(names[k] == text);
    }
}

} // verus!
