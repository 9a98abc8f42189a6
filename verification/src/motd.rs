//! The message of the day and the icon of a status answer.

use crate::info_messages;
use crate::json::{json_lists, json_parse, list_len, list_text, null_document, parse_document};
use rand::Rng;
use vstd::prelude::*;
use vstd::string::StringExecFns;

verus! {

/// The number of seconds after which the loaded messages are read again.
pub const EXPIRATION_SECONDS: u64 = 3600;

/// What the icon's text starts with.
pub const FAVICON_PREFIX: &'static str = "data:image/png;base64,";

/// The base64 text of `bytes`, in the standard alphabet and without
/// padding, as the `base64` crate writes it.
pub uninterp spec fn base64_no_pad(bytes: Seq<u8>) -> Seq<char>;

/// `Engine::encode` of `base64`'s `STANDARD_NO_PAD`. The text is a
/// function of the bytes alone.
#[verifier::external_body]
fn base64_encode(bytes: &Vec<u8>) -> (text: String)
    ensures
        text@ == base64_no_pad(bytes@),
{
    base64::Engine::encode(&base64::engine::general_purpose::STANDARD_NO_PAD, bytes)
}

/// `Rng::gen_range` of `rand`, on the thread's generator and the range
/// from 0 to `bound`, which must not be empty. Which index comes is up to
/// chance; it is below `bound`.
#[verifier::external_body]
fn random_index(bound: usize) -> (index: usize)
    requires
        bound > 0,
    ensures
        index < bound,
{
    rand::thread_rng().gen_range(0..bound)
}

/// The lines with the given name in the document, or none.
pub open spec fn spec_lines(doc: serde_json::Value, key: Seq<char>) -> Seq<Option<Seq<char>>> {
    if json_lists(doc).contains_key(key) {
        json_lists(doc)[key]
    } else {
        Seq::empty()
    }
}

/// The message made of the first line at `first` and the second line at
/// `second`, with a line break between them. Where an index is beyond its
/// list, or an element is no text, it is the default message.
pub open spec fn spec_pick_motd(doc: serde_json::Value, first: int, second: int) -> Seq<char> {
    let line1 = spec_lines(doc, "line1"@);
    let line2 = spec_lines(doc, "line2"@);
    if 0 <= first < line1.len() && 0 <= second < line2.len() {
        match (line1[first], line2[second]) {
            (Some(a), Some(b)) => a + "\n"@ + b,
            _ => info_messages::DEFAULT_MOTD@,
        }
    } else {
        info_messages::DEFAULT_MOTD@
    }
}

/// Whether messages loaded at second `loaded` are due to be read again at
/// second `now`.
pub fn is_expired(loaded: Option<u64>, now: u64) -> (r: bool)
    ensures
        r == match loaded {
            None => true,
            Some(t) => now - t >= EXPIRATION_SECONDS,
        },
{
    match loaded {
        None => true,
        Some(t) => now >= t && now - t >= EXPIRATION_SECONDS,
    }
}

/// Whether a document has no lines for a message.
pub open spec fn spec_no_lines(doc: serde_json::Value) -> bool {
    spec_lines(doc, "line1"@).len() == 0 && spec_lines(doc, "line2"@).len() == 0
}

/// The document of the messages: the one read from the text of the file,
/// and one without lines where the file could not be read or is no JSON.
pub fn load_motds(data: Option<&str>) -> (doc: serde_json::Value)
    ensures
        match data {
            Some(text) => match json_parse(text@) {
                Some(parsed) => doc == parsed,
                None => spec_no_lines(doc),
            },
            None => spec_no_lines(doc),
        },
{
    match data {
        Some(text) => match parse_document(text) {
            Some(doc) => doc,
            None => null_document(),
        },
        None => null_document(),
    }
}

/// The message for the given pair of lines.
pub fn pick_motd(doc: &serde_json::Value, first: usize, second: usize) -> (r: String)
    ensures
        r@ == spec_pick_motd(*doc, first as int, second as int),
{
    let length1: usize = list_len(doc, "line1");
    let length2: usize = list_len(doc, "line2");
    if first >= length1 || second >= length2 {
        return info_messages::DEFAULT_MOTD.to_owned();
    }
    let line1 = match list_text(doc, "line1", first) {
        Some(s) => s,
        None => {
            return info_messages::DEFAULT_MOTD.to_owned();
        },
    };
    let line2 = match list_text(doc, "line2", second) {
        Some(s) => s,
        None => {
            return info_messages::DEFAULT_MOTD.to_owned();
        },
    };
    let mut line = line1;
    line.append("\n");
    line.append(line2.as_str());
    line
}

/// A message of the day: a pair of lines of the document picked at
/// random, or the default message where the document has no such lines.
pub fn motd(doc: &serde_json::Value) -> (r: String)
    ensures
        spec_lines(*doc, "line1"@).len() == 0 || spec_lines(*doc, "line2"@).len() == 0 ==> r@
            == info_messages::DEFAULT_MOTD@,
        spec_lines(*doc, "line1"@).len() > 0 && spec_lines(*doc, "line2"@).len() > 0 ==> exists|
            first: int,
            second: int,
        |
            0 <= first < spec_lines(*doc, "line1"@).len() && 0 <= second < spec_lines(
                *doc,
                "line2"@,
            ).len() && r@ == #[trigger] spec_pick_motd(*doc, first, second),
{
    let length1: usize = list_len(doc, "line1");
    let length2: usize = list_len(doc, "line2");
    if length1 == 0 || length2 == 0 {
        return info_messages::DEFAULT_MOTD.to_owned();
    }
    let rand1: usize = random_index(length1);
    let rand2: usize = random_index(length2);
    let r = pick_motd(doc, rand1, rand2);
    proof {
        assert(r@ == spec_pick_motd(*doc, rand1 as int, rand2 as int));
    }
    r
}

/// The icon of a status answer: the bytes of a PNG image as a data URI,
/// or nothing where there is no image.
pub fn favicon(image: Option<Vec<u8>>) -> (r: Option<String>)
    ensures
        match image {
            Some(bytes) => r matches Some(text) && text@ == FAVICON_PREFIX@ + base64_no_pad(bytes@),
            None => r is None,
        },
{
    match image {
        Some(bytes) => {
            let mut text = String::from_str(FAVICON_PREFIX);
            text.append(base64_encode(&bytes).as_str());
            Some(text)
        },
        None => None,
    }
}

} // verus!
