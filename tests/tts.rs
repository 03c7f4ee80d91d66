use m_bot::tts::bearer_header;
use m_bot::tts::speech_markup;
use m_bot::tts::VoiceRSS;

#[test]
fn voicerss_url_for_text() {
    let service = VoiceRSS::with_key("abc123");
    assert_eq!(
        service.speech_url("hello"),
        "http://api.voicerss.org/?key=abc123&c=wav&f=48khz_16bit_stereo&r=4&hl=en-us&b64=false&src=hello"
    );
    assert_eq!(
        service.speech_url(""),
        "http://api.voicerss.org/?key=abc123&c=wav&f=48khz_16bit_stereo&r=4&hl=en-us&b64=false&src="
    );
}

#[test]
fn azure_markup_wraps_text() {
    assert_eq!(
        speech_markup("1m5s"),
        "<speak version=\"1.0\" xmlns=\"https://www.w3.org/2001/10/synthesis\" xml:lang=\"en-US\"><voice xml:lang='en-US' name=\"en-US-Guy24kRUS\"><prosody rate=\"+20.00%\">1m5s</prosody></voice></speak>"
    );
}

#[test]
fn bearer_header_value() {
    assert_eq!(bearer_header("tok"), "Bearer tok");
}

#[test]
fn voice_say_url_for_text() {
    assert_eq!(
        m_bot::tts::voice_say_url("k1", "hi there"),
        "http://api.voicerss.org/?key=k1&c=wav&f=48Khz_16bit_stereo&r=4&hl=en-us&b64=false&src=hi there"
    );
}
