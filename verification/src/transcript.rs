//! The rules around transcription: what input is accepted, when it has to
//! be resampled, and how recognized segments become one text.

use vstd::prelude::*;

verus! {

/// The sample rate that the recognizer expects.
pub const TARGET_SAMPLE_RATE: u32 = 16000;

/// Why a recording cannot be transcribed.
#[derive(Clone, Copy, Debug, PartialEq, Eq, Structural)]
pub enum TranscribeError {
    /// The recording has more or fewer channels than one.
    NotMono,
}

/// `String::push_str` of std: the string afterwards is the string before
/// followed by the slice, as its documentation says.
pub assume_specification[ String::push_str ](text: &mut String, string: &str)
    ensures
        final(text)@ == old(text)@ + string@,
;

/// Accepts mono recordings only.
pub fn check_channels(channels: u16) -> (result: Result<(), TranscribeError>)
    ensures
        match result {
            Ok(_) => channels == 1,
            Err(e) => channels != 1 && e == TranscribeError::NotMono,
        },
{
    if channels == 1 {
        Ok(())
    } else {
        Err(TranscribeError::NotMono)
    }
}

/// Whether a recording at `input_rate` has to be resampled before it is
/// handed to a recognizer that expects `target_rate`.
pub fn needs_resample(input_rate: u32, target_rate: u32) -> (yes: bool)
    ensures
        yes == (input_rate != target_rate),
{
    input_rate != target_rate
}

/// The text of a run of segments: every segment that was recognized,
/// each followed by a line feed, in order. A segment that could not be read
/// leaves nothing.
pub open spec fn transcript_of(segments: Seq<Option<String>>) -> Seq<char>
    decreases segments.len(),
{
    if segments.len() == 0 {
        Seq::<char>::empty()
    } else {
        transcript_of(segments.drop_last()) + (match segments.last() {
            Some(text) => text@ + seq!['\n'],
            None => Seq::<char>::empty(),
        })
    }
}

/// Joins recognized segments into one text.
pub fn join_segments(segments: &Vec<Option<String>>) -> (text: String)
    ensures
        text@ == transcript_of(segments@),
{
    let mut text = String::new();
    let mut i: usize = 0;
    while i < segments.len()
        invariant
            i <= segments.len(),
            text@ == transcript_of(segments@.take(i as int)),
        decreases segments.len() - i,
    {
        proof {
            assert(segments@.take(i + 1).drop_last() =~= segments@.take(i as int));
            reveal_strlit("\n");
            assert("\n"@ =~= seq!['\n']);
        }
        match &segments[i] {
            Some(segment) => {
                text.push_str(segment.as_str());
                text.push_str("\n");
            },
            None => {},
        }
        i += 1;
    }
    assert(segments@.take(segments.len() as int) =~= segments@);
    text
}

} // verus!
