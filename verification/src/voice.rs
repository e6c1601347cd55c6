//! Voices to speak with.
use vstd::prelude::*;
use vstd::string::*;

verus! {

/// A point in time: whole seconds since the start of 1970 (UTC), and nanoseconds behind them.
#[derive(Debug, Clone, Copy, PartialEq, Eq, Structural)]
pub struct Timestamp {
    pub seconds: i64,
    pub nanoseconds: u32,
}

/// A voice: reference audio and the text spoken in it.
#[derive(Debug)]
pub struct VoiceProfile {
    pub id: u128,
    pub name: String,
    pub reference_wav: String,
    pub reference_text: String,
    pub created_at: Timestamp,
    pub notes: String,
}

/// Whether a 128-bit identifier has the version and variant marks of a random one.
pub open spec fn is_random_id(id: u128) -> bool {
    (id >> 76u128) & 0xf == 4 && (id >> 62u128) & 3 == 2
}

/// `uuid::Uuid::new_v4` draws a random identifier. Whatever it draws, the bits that tell version
/// and variant are set to those of a random identifier; nothing is claimed of the others.
#[verifier::external_body]
fn draw_id() -> (r: u128)
    ensures
        is_random_id(r),
{
    uuid::Uuid::new_v4().as_u128()
}

/// `chrono::Utc::now` reads the clock. Nothing is claimed of the time but that the nanoseconds
/// stay below two seconds, which leaves room for a leap second.
#[verifier::external_body]
fn read_clock() -> (r: Timestamp)
    ensures
        r.nanoseconds < 2_000_000_000,
{
    let now = chrono::Utc::now();
    Timestamp { seconds: now.timestamp(), nanoseconds: now.timestamp_subsec_nanos() }
}

impl VoiceProfile {
    /// A voice with the given identifier and time of creation, without notes.
    pub fn with_identity(
        id: u128,
        created_at: Timestamp,
        name: String,
        reference_wav: String,
        reference_text: String,
    ) -> (r: VoiceProfile)
        ensures
            r.id == id,
            r.name@ == name@,
            r.reference_wav@ == reference_wav@,
            r.reference_text@ == reference_text@,
            r.created_at == created_at,
            r.notes@ == Seq::<char>::empty(),
    {
        VoiceProfile { id, name, reference_wav, reference_text, created_at, notes: String::new() }
    }

    /// A new voice, made now, under a random identifier.
    pub fn new(name: String, reference_wav: String, reference_text: String) -> (r: VoiceProfile)
        ensures
            is_random_id(r.id),
            r.name@ == name@,
            r.reference_wav@ == reference_wav@,
            r.reference_text@ == reference_text@,
            r.created_at.nanoseconds < 2_000_000_000,
            r.notes@ == Seq::<char>::empty(),
    {
        VoiceProfile::with_identity(draw_id(), read_clock(), name, reference_wav, reference_text)
    }
}

} // verus!
