//! The plugin core's own state: its persisted parameters, the notifications
//! it sends to the editor, the transport changes it tracks, and the text form
//! of a persisted state.
use vstd::prelude::*;

verus! {

/// The parameters that the host persists.
#[derive(Clone)]
pub struct PluginParams {
    pub dummy: String,
}

impl Default for PluginParams {
    fn default() -> (r: PluginParams)
        ensures
            r.dummy@ == Seq::<char>::empty(),
    {
        PluginParams { dummy: String::new() }
    }
}

/// A message from the audio side to the editor.
#[derive(Clone, Copy, Debug, PartialEq, Eq, Structural)]
pub enum UiNotification {
    UpdatePlayingState(bool),
}

/// The editor's own state.
#[derive(Debug, Clone)]
pub struct State {}

impl State {
    pub fn new() -> (r: State) {
        State {}
    }
}

/// What the audio callback remembers of the transport between two blocks.
#[derive(Clone, Copy, Debug, PartialEq, Eq, Structural)]
pub struct Transport {
    pub prev_position: i64,
    pub prev_is_playing: bool,
}

/// What one observation of the transport found.
#[derive(Clone, Copy, Debug, PartialEq, Eq, Structural)]
pub struct TransportUpdate {
    /// The sample position differs from the one observed before.
    pub position_changed: bool,
    /// The notification to send: present exactly when the playing state flipped.
    pub notification: Option<UiNotification>,
}

impl Transport {
    /// A transport at position zero, not playing.
    pub fn new() -> (r: Transport)
        ensures
            r.prev_position == 0,
            !r.prev_is_playing,
    {
        Transport { prev_position: 0, prev_is_playing: false }
    }

    /// Records the transport of one block and reports what changed since the
    /// previous one.
    pub fn observe(&mut self, is_playing: bool, current_sample: i64) -> (r: TransportUpdate)
        ensures
            final(self).prev_position == current_sample,
            final(self).prev_is_playing == is_playing,
            r.position_changed == (old(self).prev_position != current_sample),
            r.notification == (if old(self).prev_is_playing != is_playing {
                Some(UiNotification::UpdatePlayingState(is_playing))
            } else {
                None
            }),
    {
        let position_changed = self.prev_position != current_sample;
        self.prev_position = current_sample;
        let notification = if self.prev_is_playing != is_playing {
            self.prev_is_playing = is_playing;
            Some(UiNotification::UpdatePlayingState(is_playing))
        } else {
            None
        };
        TransportUpdate { position_changed, notification }
    }
}

#[verifier::external_type_specification]
#[verifier::external_body]
pub struct ExDecodeError(base64::DecodeError);

/// The bytes that a text encodes in standard padded base64, if it is such a text.
pub uninterp spec fn base64_decoded(s: Seq<char>) -> Option<Seq<u8>>;

/// The standard padded base64 text of some bytes.
pub uninterp spec fn base64_encoded(b: Seq<u8>) -> Seq<char>;

/// Relies on `Engine::decode` of base64's `STANDARD` engine: the decoded bytes,
/// or its error when the text is not valid padded base64.
#[verifier::external_body]
fn decode_base64(s: &str) -> (r: Result<Vec<u8>, base64::DecodeError>)
    ensures
        match r {
            Ok(b) => base64_decoded(s@) == Some(b@),
            Err(_) => base64_decoded(s@) is None,
        },
{
    base64::Engine::decode(&base64::engine::general_purpose::STANDARD, s)
}

/// Relies on `Engine::encode` of base64's `STANDARD` engine, which panics only
/// when the encoded length overflows `usize`.
#[verifier::external_body]
fn encode_base64(b: &Vec<u8>) -> (r: String)
    requires
        b@.len() <= usize::MAX / 2,
    ensures
        r@ == base64_encoded(b@),
{
    base64::Engine::encode(&base64::engine::general_purpose::STANDARD, b)
}

/// The bytes of a persisted state text: `None` for an empty text, which
/// loads nothing; the decoding error when the text is not valid base64.
pub fn state_bytes(state_base64: &str) -> (r: Result<Option<Vec<u8>>, base64::DecodeError>)
    ensures
        state_base64@.len() == 0 ==> r matches Ok(None),
        state_base64@.len() > 0 ==> match r {
            Ok(Some(b)) => base64_decoded(state_base64@) == Some(b@),
            Ok(None) => false,
            Err(_) => base64_decoded(state_base64@) is None,
        },
{
    if state_base64.unicode_len() == 0 {
        return Ok(None);
    }
    match decode_base64(state_base64) {
        Ok(b) => Ok(Some(b)),
        Err(e) => Err(e),
    }
}

/// The persisted text form of state bytes.
pub fn state_text(bytes: &Vec<u8>) -> (r: String)
    requires
        bytes@.len() <= usize::MAX / 2,
    ensures
        r@ == base64_encoded(bytes@),
{
    encode_base64(bytes)
}

} // verus!
