//! The command line of the encoder.

use vstd::prelude::*;
use crate::text::{push_text, texts};

verus! {

/// The command that encodes the waveform `wav` as `mp3`: the encoder at
/// an average bitrate of 58 kbit/s, in mono.
pub open spec fn encode_arguments(wav: Seq<char>, mp3: Seq<char>) -> Seq<Seq<char>> {
    seq!["lame"@, "--verbose"@, "-v"@, "--abr"@, "58"@, "-m"@, "m"@, wav, mp3]
}

/// The command, program first, that encodes the waveform `wav_file` as
/// `mp3_file`.
pub fn convert_to_mp3(wav_file: &str, mp3_file: &str) -> (command: Vec<String>)
    ensures
        texts(command@) == encode_arguments(wav_file@, mp3_file@),
{
    let mut command: Vec<String> = Vec::new();
    push_text(&mut command, "lame");
    push_text(&mut command, "--verbose");
    push_text(&mut command, "-v");
    push_text(&mut command, "--abr");
    push_text(&mut command, "58");
    push_text(&mut command, "-m");
    push_text(&mut command, "m");
    push_text(&mut command, wav_file);
    push_text(&mut command, mp3_file);
    proof {
        assert(texts(command@) =~= encode_arguments(wav_file@, mp3_file@));
    }
    command
}

} // verus!
