//! The image pipeline's computable parts: classifying the display server
//! from a process listing, the clipboard commands, and the serialized
//! multi-part payload that carries a prompt text with one attached image.

use vstd::prelude::*;

use base64::Engine;
use base64::prelude::BASE64_STANDARD;

use crate::json::append_escaped;
use crate::json::esc;
use crate::json::push_char;
use crate::text::contains_pat;
use crate::text::contains_str;

verus! {

/// `c` folded to lower case when it is an ASCII capital.
pub open spec fn lower_char(c: char) -> char {
    if 'A' <= c && c <= 'Z' {
        (((c as u32) + 32) as char)
    } else {
        c
    }
}

/// `s` with every ASCII capital folded to lower case.
pub open spec fn lower_seq(s: Seq<char>) -> Seq<char> {
    s.map(|i: int, c: char| lower_char(c))
}

/// Folds ASCII capitals in `s` to lower case.
pub fn lower_ascii(s: &str) -> (r: String)
    ensures
        r@ == lower_seq(s@),
{
    let n = s.unicode_len();
    let mut out = String::new();
    proof {
        assert(out@ =~= lower_seq(s@.take(0)));
    }
    let mut i: usize = 0;
    while i < n
        invariant
            i <= n,
            n == s@.len(),
            out@ == lower_seq(s@.take(i as int)),
        decreases n - i,
    {
        let c = s.get_char(i);
        let lc = if 'A' <= c && c <= 'Z' {
            (((c as u32) + 32) as u8) as char
        } else {
            c
        };
        push_char(&mut out, lc);
        proof {
            assert(lc == lower_char(c));
            assert(out@ =~= lower_seq(s@.take(i + 1)));
        }
        i += 1;
    }
    proof {
        assert(s@.take(n as int) =~= s@);
    }
    out
}

/// The display server a process listing reveals.
#[derive(Clone, Copy, Debug, PartialEq, Eq, Structural)]
pub enum DisplayServer {
    Xorg,
    Wayland,
    Unsupported,
}

/// Classification rule: the listing, folded to lower case, names the
/// server; an Xorg name wins over a Wayland name.
pub open spec fn classify_spec(ps: Seq<char>) -> DisplayServer {
    if contains_pat(lower_seq(ps), "xorg"@) {
        DisplayServer::Xorg
    } else if contains_pat(lower_seq(ps), "wayland"@) {
        DisplayServer::Wayland
    } else {
        DisplayServer::Unsupported
    }
}

/// Classifies the display server from the text of a process listing.
pub fn classify_display_server(ps_output: &str) -> (r: DisplayServer)
    ensures
        r == classify_spec(ps_output@),
{
    let low = lower_ascii(ps_output);
    if contains_str(low.as_str(), "xorg") {
        DisplayServer::Xorg
    } else if contains_str(low.as_str(), "wayland") {
        DisplayServer::Wayland
    } else {
        DisplayServer::Unsupported
    }
}

/// The clipboard-paste command for a display server.
pub open spec fn clipboard_command_spec(k: DisplayServer) -> Seq<char> {
    match k {
        DisplayServer::Xorg => "xclip -selection clipboard -t image/png -o"@,
        DisplayServer::Wayland => "wl-paste"@,
        DisplayServer::Unsupported => "UNSUPPORTED"@,
    }
}

/// The clipboard-paste command to run for a display server.
pub fn clipboard_command(k: DisplayServer) -> (r: String)
    ensures
        r@ == clipboard_command_spec(k),
{
    match k {
        DisplayServer::Xorg => String::from_str("xclip -selection clipboard -t image/png -o"),
        DisplayServer::Wayland => String::from_str("wl-paste"),
        DisplayServer::Unsupported => String::from_str("UNSUPPORTED"),
    }
}

/// What the base64 crate's standard engine returns for a byte string.
pub uninterp spec fn base64_of(bytes: Seq<u8>) -> Seq<char>;

/// Relies on the base64 crate's `Engine::encode` with the `STANDARD`
/// engine: standard alphabet with padding, a function of the input bytes
/// alone, four characters for every three bytes. The bound keeps the
/// output length within `usize`, on which the crate would panic.
#[verifier::external_body]
fn base64_encode(bytes: &Vec<u8>) -> (r: String)
    requires
        bytes@.len() / 3 < usize::MAX / 4,
    ensures
        r@ == base64_of(bytes@),
        r@.len() == 4 * ((bytes@.len() + 2) / 3),
{
    BASE64_STANDARD.encode(bytes.as_slice())
}

/// The serialized multi-part payload: a text part holding the prompt, then
/// an image part holding the picture base64-encoded in a data URL at high
/// detail.
pub open spec fn multipart_spec(text: Seq<char>, b64: Seq<char>) -> Seq<char> {
    "[{\"text\":\""@ + esc(text)
        + "\",\"type\":\"text\"},{\"image_url\":{\"detail\":\"high\",\"url\":\"data:image/png;base64,"@
        + esc(b64) + "\"},\"type\":\"image_url\"}]"@
}

/// Builds the multi-part payload for a prompt with one attached image.
pub fn multipart_payload(text: &str, image: &Vec<u8>) -> (r: String)
    requires
        image@.len() / 3 < usize::MAX / 4,
    ensures
        r@ == multipart_spec(text@, base64_of(image@)),
        r@.len() > 0,
{
    let b64 = base64_encode(image);
    let mut out = String::from_str("[{\"text\":\"");
    append_escaped(&mut out, text);
    out.append(
        "\",\"type\":\"text\"},{\"image_url\":{\"detail\":\"high\",\"url\":\"data:image/png;base64,",
    );
    append_escaped(&mut out, b64.as_str());
    out.append("\"},\"type\":\"image_url\"}]");
    proof {
        reveal_strlit("[{\"text\":\"");
        assert(out@ =~= multipart_spec(text@, base64_of(image@)));
    }
    out
}

} // verus!
