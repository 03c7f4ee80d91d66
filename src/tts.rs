//! Request texts of the speech services: the VoiceRSS query URLs and the SSML
//! document and bearer header that the Azure service takes.

use vstd::prelude::*;
use vstd::string::StringExecFns;

verus! {

/// The VoiceRSS query up to the API key.
pub open spec fn voicerss_base() -> Seq<char> {
    "http://api.voicerss.org/?key="@
}

/// The VoiceRSS query options between the API key and the text.
pub open spec fn voicerss_options() -> Seq<char> {
    "&c=wav&f=48khz_16bit_stereo&r=4&hl=en-us&b64=false&src="@
}

/// The query options of the spoken-text command between the API key and the
/// text.
pub open spec fn voice_say_options() -> Seq<char> {
    "&c=wav&f=48Khz_16bit_stereo&r=4&hl=en-us&b64=false&src="@
}

/// SSML that comes before the text: US English voice, speech rate +20%.
pub open spec fn ssml_head() -> Seq<char> {
    "<speak version=\"1.0\" xmlns=\"https://www.w3.org/2001/10/synthesis\" xml:lang=\"en-US\"><voice xml:lang='en-US' name=\"en-US-Guy24kRUS\"><prosody rate=\"+20.00%\">"@
}

/// SSML that closes the document after the text.
pub open spec fn ssml_tail() -> Seq<char> {
    "</prosody></voice></speak>"@
}

/// The VoiceRSS service: a query URL that only lacks the text to speak.
pub struct VoiceRSS {
    url: String,
}

impl View for VoiceRSS {
    type V = Seq<char>;

    closed spec fn view(&self) -> Seq<char> {
        self.url@
    }
}

impl VoiceRSS {
    /// The service for API key `key`: 48 kHz 16-bit stereo WAV, US English.
    pub fn with_key(key: &str) -> (r: VoiceRSS)
        ensures
            r@ == voicerss_base() + key@ + voicerss_options(),
    {
        proof {
            reveal_strlit("http://api.voicerss.org/?key=");
            reveal_strlit("&c=wav&f=48khz_16bit_stereo&r=4&hl=en-us&b64=false&src=");
        }
        let mut url = String::from_str("http://api.voicerss.org/?key=");
        url.append(key);
        url.append("&c=wav&f=48khz_16bit_stereo&r=4&hl=en-us&b64=false&src=");
        VoiceRSS { url }
    }

    /// The URL that asks the service to speak `text`.
    pub fn speech_url(&self, text: &str) -> (r: String)
        ensures
            r@ == self@ + text@,
    {
        let mut url = self.url.clone();
        url.append(text);
        url
    }
}

/// The VoiceRSS URL with which the spoken-text command asks for `text`
/// under API key `key`.
pub fn voice_say_url(key: &str, text: &str) -> (r: String)
    ensures
        r@ == voicerss_base() + key@ + voice_say_options() + text@,
{
    proof {
        reveal_strlit("http://api.voicerss.org/?key=");
        reveal_strlit("&c=wav&f=48Khz_16bit_stereo&r=4&hl=en-us&b64=false&src=");
    }
    let mut url = String::from_str("http://api.voicerss.org/?key=");
    url.append(key);
    url.append("&c=wav&f=48Khz_16bit_stereo&r=4&hl=en-us&b64=false&src=");
    url.append(text);
    url
}

/// The SSML document that asks the Azure service to speak `text`.
pub fn speech_markup(text: &str) -> (r: String)
    ensures
        r@ == ssml_head() + text@ + ssml_tail(),
{
    proof {
        reveal_strlit(
            "<speak version=\"1.0\" xmlns=\"https://www.w3.org/2001/10/synthesis\" xml:lang=\"en-US\"><voice xml:lang='en-US' name=\"en-US-Guy24kRUS\"><prosody rate=\"+20.00%\">",
        );
        reveal_strlit("</prosody></voice></speak>");
    }
    let mut doc = String::from_str(
        "<speak version=\"1.0\" xmlns=\"https://www.w3.org/2001/10/synthesis\" xml:lang=\"en-US\"><voice xml:lang='en-US' name=\"en-US-Guy24kRUS\"><prosody rate=\"+20.00%\">",
    );
    doc.append(text);
    doc.append("</prosody></voice></speak>");
    doc
}

/// The `Authorization` header value for an access token.
pub fn bearer_header(token: &str) -> (r: String)
    ensures
        r@ == "Bearer "@ + token@,
{
    proof {
        reveal_strlit("Bearer ");
    }
    let mut header = String::from_str("Bearer ");
    header.append(token);
    header
}

} // verus!
