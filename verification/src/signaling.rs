//! The session descriptions that a client and the server exchange as JSON text.
use vstd::prelude::*;
use webrtc::peer_connection::sdp::sdp_type::RTCSdpType;
use webrtc::peer_connection::sdp::session_description::RTCSessionDescription;

verus! {

/// What a session description is for.
#[derive(Clone, Copy, Debug, PartialEq, Eq, Structural)]
pub enum SdpType {
    Unspecified,
    Offer,
    Pranswer,
    Answer,
    Rollback,
}

/// A session description: its type and its SDP text.
#[derive(Debug)]
pub struct SessionDescription {
    pub sdp_type: SdpType,
    pub sdp: String,
}

/// What a session description holds.
pub struct DescriptionView {
    pub sdp_type: SdpType,
    pub sdp: Seq<char>,
}

impl View for SessionDescription {
    type V = DescriptionView;

    open spec fn view(&self) -> DescriptionView {
        DescriptionView { sdp_type: self.sdp_type, sdp: self.sdp@ }
    }
}

/// The message is not the JSON text of a session description.
#[derive(Clone, Copy, Debug, PartialEq, Eq, Structural)]
pub struct MalformedDescription;

/// The `Error` of the `serde_json` crate.
#[verifier::external_type_specification]
#[verifier::external_body]
pub struct ExJsonError(serde_json::Error);

/// The session description that `serde_json::from_str` reads from `text`, if it
/// accepts it.
pub uninterp spec fn description_in(text: Seq<char>) -> Option<DescriptionView>;

/// The text that `serde_json::to_string` writes for a session description.
pub uninterp spec fn description_text(description: DescriptionView) -> Seq<char>;

/// `serde_json::from_str`, for the `RTCSessionDescription` of the `webrtc` crate,
/// accepts some texts and gives the type and the SDP text that they hold.
#[verifier::external_body]
fn description_from_json(text: &str) -> (description: Result<
    SessionDescription,
    serde_json::Error,
>)
    ensures
        match description {
            Ok(d) => description_in(text@) == Some(d@),
            Err(_) => description_in(text@) is None,
        },
{
    let read = serde_json::from_str::<RTCSessionDescription>(text)?;
    let sdp_type = match read.sdp_type {
        RTCSdpType::Unspecified => SdpType::Unspecified,
        RTCSdpType::Offer => SdpType::Offer,
        RTCSdpType::Pranswer => SdpType::Pranswer,
        RTCSdpType::Answer => SdpType::Answer,
        RTCSdpType::Rollback => SdpType::Rollback,
    };
    Ok(SessionDescription { sdp_type, sdp: read.sdp })
}

/// `serde_json::to_string`, for the `RTCSessionDescription` of the `webrtc` crate,
/// writes its type and its SDP text. A value made of two strings is always written,
/// and reading the text gives the value back.
#[verifier::external_body]
fn description_to_json(description: &SessionDescription) -> (text: Result<
    String,
    serde_json::Error,
>)
    ensures
        text is Ok,
        text->Ok_0@ == description_text(description@),
        description_in(text->Ok_0@) == Some(description@),
{
    let mut value = RTCSessionDescription::default();
    value.sdp_type = match description.sdp_type {
        SdpType::Unspecified => RTCSdpType::Unspecified,
        SdpType::Offer => RTCSdpType::Offer,
        SdpType::Pranswer => RTCSdpType::Pranswer,
        SdpType::Answer => RTCSdpType::Answer,
        SdpType::Rollback => RTCSdpType::Rollback,
    };
    value.sdp = description.sdp.clone();
    serde_json::to_string(&value)
}

/// Reads a session description from the text of a message.
pub fn read_description(text: &str) -> (description: Result<
    SessionDescription,
    MalformedDescription,
>)
    ensures
        match description {
            Ok(d) => description_in(text@) == Some(d@),
            Err(_) => description_in(text@) is None,
        },
        description is Ok <==> description_in(text@) is Some,
        description matches Ok(d) ==> {
            &&& d.sdp_type == description_in(text@)->0.sdp_type
            &&& d.sdp@ == description_in(text@)->0.sdp
        },
{
    match description_from_json(text) {
        Ok(d) => Ok(d),
        Err(_) => Err(MalformedDescription),
    }
}

/// The text of the message that carries a session description. The other side reads
/// the same description from it.
pub fn write_description(description: &SessionDescription) -> (text: String)
    ensures
        text@ == description_text(description@),
        description_in(text@) == Some(description@),
        description_in(text@) is Some,
        description_in(text@)->0.sdp_type == description.sdp_type,
        description_in(text@)->0.sdp == description.sdp@,
{
    description_to_json(description).unwrap()
}

} // verus!
