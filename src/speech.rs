//! The speech gate: which messages are read aloud in a voice call, and the
//! steps each one goes through.

use vstd::prelude::*;
use crate::text::{trim, trim_seq, starts_with_char, owned, decimal, dec_digits};
use vstd::string::*;

verus! {

/// The most characters handed to a synthesis engine.
pub const MAX_SPOKEN_CHARS: usize = 240;

/// The text that is spoken for a message: its trimmed content cut to
/// `MAX_SPOKEN_CHARS` characters, or nothing for an empty or command message.
pub open spec fn spoken_text_spec(content: Seq<char>) -> Option<Seq<char>> {
    let t = trim_seq(content);
    if t.len() == 0 || t[0] == '/' {
        None
    } else if t.len() > 240 {
        Some(t.subrange(0, 240))
    } else {
        Some(t)
    }
}

/// The text to speak for a message, if any.
pub fn spoken_text(content: &str) -> (r: Option<String>)
    ensures
        match spoken_text_spec(content@) {
            Some(t) => r matches Some(s) && s@ == t,
            None => r is None,
        },
{
    let t = trim(content);
    let n = t.unicode_len();
    if n == 0 || starts_with_char(t, '/') {
        return None;
    }
    if n > MAX_SPOKEN_CHARS {
        Some(owned(t.substring_char(0, MAX_SPOKEN_CHARS)))
    } else {
        Some(owned(t))
    }
}

/// Where a message stands on its way to being spoken.
#[derive(Debug, Clone, Copy, PartialEq, Eq, Structural)]
pub enum SpeechPhase {
    /// Waiting for a message with text to speak.
    Idle,
    /// Is the author opted in for this scope?
    CheckOptIn,
    /// Is the author in the voice channel tied to this text channel?
    CheckPresence,
    /// Synthesis with the first engine.
    SynthesizePrimary,
    /// Synthesis with the second engine, after the first failed.
    SynthesizeSecondary,
    /// Playback on the scope's active call.
    Play,
    /// Removal of the audio file.
    Cleanup,
}

/// The phase that follows `phase` when its work succeeded or failed as `ok`
/// says. For `Idle` the work is finding text to speak.
pub open spec fn speech_next_spec(phase: SpeechPhase, ok: bool) -> SpeechPhase {
    match phase {
        SpeechPhase::Idle => if ok {
            SpeechPhase::CheckOptIn
        } else {
            SpeechPhase::Idle
        },
        SpeechPhase::CheckOptIn => if ok {
            SpeechPhase::CheckPresence
        } else {
            SpeechPhase::Idle
        },
        SpeechPhase::CheckPresence => if ok {
            SpeechPhase::SynthesizePrimary
        } else {
            SpeechPhase::Idle
        },
        SpeechPhase::SynthesizePrimary => if ok {
            SpeechPhase::Play
        } else {
            SpeechPhase::SynthesizeSecondary
        },
        SpeechPhase::SynthesizeSecondary => if ok {
            SpeechPhase::Play
        } else {
            SpeechPhase::Idle
        },
        SpeechPhase::Play => SpeechPhase::Cleanup,
        SpeechPhase::Cleanup => SpeechPhase::Idle,
    }
}

/// The phase after `phase`.
pub fn speech_next(phase: SpeechPhase, ok: bool) -> (r: SpeechPhase)
    ensures
        r == speech_next_spec(phase, ok),
{
    match phase {
        SpeechPhase::Idle => if ok {
            SpeechPhase::CheckOptIn
        } else {
            SpeechPhase::Idle
        },
        SpeechPhase::CheckOptIn => if ok {
            SpeechPhase::CheckPresence
        } else {
            SpeechPhase::Idle
        },
        SpeechPhase::CheckPresence => if ok {
            SpeechPhase::SynthesizePrimary
        } else {
            SpeechPhase::Idle
        },
        SpeechPhase::SynthesizePrimary => if ok {
            SpeechPhase::Play
        } else {
            SpeechPhase::SynthesizeSecondary
        },
        SpeechPhase::SynthesizeSecondary => if ok {
            SpeechPhase::Play
        } else {
            SpeechPhase::Idle
        },
        SpeechPhase::Play => SpeechPhase::Cleanup,
        SpeechPhase::Cleanup => SpeechPhase::Idle,
    }
}

/// An audio file, once written, is always removed: from either synthesis
/// phase, success leads to playback and playback to cleanup whatever its
/// outcome. A failed check or a second failed synthesis returns to `Idle`
/// before any synthesis or playback.
pub proof fn law_cleanup_always_follows(play_ok: bool, engine_primary: bool)
    ensures
        ({
            let synth = if engine_primary {
                SpeechPhase::SynthesizePrimary
            } else {
                SpeechPhase::SynthesizeSecondary
            };
            speech_next_spec(synth, true) == SpeechPhase::Play && speech_next_spec(
                SpeechPhase::Play,
                play_ok,
            ) == SpeechPhase::Cleanup && speech_next_spec(SpeechPhase::Cleanup, play_ok)
                == SpeechPhase::Idle
        }),
        speech_next_spec(SpeechPhase::CheckOptIn, false) == SpeechPhase::Idle,
        speech_next_spec(SpeechPhase::CheckPresence, false) == SpeechPhase::Idle,
        speech_next_spec(SpeechPhase::SynthesizePrimary, false) == SpeechPhase::SynthesizeSecondary,
        speech_next_spec(SpeechPhase::SynthesizeSecondary, false) == SpeechPhase::Idle,
{
}

/// The name of the audio file written at `millis` milliseconds after the Unix
/// epoch.
pub fn speech_file_name(millis: u64) -> (r: String)
    ensures
        r@ == "shaggy_tts_"@ + dec_digits(millis as nat) + ".wav"@,
{
    let mut s = owned("shaggy_tts_");
    let d = decimal(millis);
    s.append(d.as_str());
    s.append(".wav");
    s
}

} // verus!
