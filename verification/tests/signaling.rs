use castzura::signaling::{read_description, write_description, SdpType, SessionDescription};

#[test]
fn reads_an_offer() {
    let offer = read_description("{\"type\":\"offer\",\"sdp\":\"v=0\\r\\n\"}").unwrap();
    assert_eq!(offer.sdp_type, SdpType::Offer);
    assert_eq!(offer.sdp, "v=0\r\n");
}

#[test]
fn writes_an_answer() {
    let answer = SessionDescription { sdp_type: SdpType::Answer, sdp: "v=0\r\n".to_string() };
    assert_eq!(write_description(&answer), "{\"type\":\"answer\",\"sdp\":\"v=0\\r\\n\"}");
}

#[test]
fn refuses_what_is_no_description() {
    assert!(read_description("").is_err());
    assert!(read_description("{}").is_err());
    assert!(read_description("{\"type\":\"offer\"}").is_err());
    assert!(read_description("{\"type\":\"bid\",\"sdp\":\"\"}").is_err());
}

#[test]
fn what_is_written_is_read_back() {
    let types = [
        SdpType::Unspecified,
        SdpType::Offer,
        SdpType::Pranswer,
        SdpType::Answer,
        SdpType::Rollback,
    ];
    let texts = ["", "v=0\r\no=- 1 2 IN IP4 127.0.0.1\r\n", "\"\\\u{0}\u{1f}\u{e9}\u{1f600}"];
    for sdp_type in types {
        for sdp in texts {
            let written = SessionDescription { sdp_type, sdp: sdp.to_string() };
            let read = read_description(&write_description(&written)).unwrap();
            assert_eq!(read.sdp_type, sdp_type);
            assert_eq!(read.sdp, sdp);
        }
    }
}
