use vstd::prelude::*;
use crate::behaviour::FrameBehaviour;
use crate::history::{DialogueRecord, HistoryLs, push_spec};
use crate::script_args::ScriptArg;

verus! {

/// Why a character could not say a line.
#[derive(Debug, Clone, Copy, PartialEq, Eq, Structural)]
pub enum SayError {
    /// `say` was given no argument.
    NoText,
}

/// The text of a `say` command: its first argument when it is a string,
/// the empty text for any other first argument; an error without arguments.
pub open spec fn say_text_spec(args: Seq<ScriptArg>) -> Result<Seq<char>, SayError> {
    if args.len() == 0 {
        Err(SayError::NoText)
    } else {
        match args[0] {
            ScriptArg::Str(s) => Ok(s@),
            _ => Ok(Seq::empty()),
        }
    }
}

/// Reads the text of a `say` command; see `say_text_spec`.
pub fn say_text(args: &Vec<ScriptArg>) -> (r: Result<String, SayError>)
    ensures
        match say_text_spec(args@) {
            Ok(t) => r matches Ok(s) && s@ == t,
            Err(e) => r == Err::<String, SayError>(e),
        },
{
    if args.len() == 0 {
        return Err(SayError::NoText);
    }
    match &args[0] {
        ScriptArg::Str(s) => Ok(s.clone()),
        _ => Ok(String::new()),
    }
}

/// A character says `text` with the face `face_path`: the line is recorded
/// in the history under the current session counter (a history of capacity
/// zero keeps nothing), then shown in the dialogue frame.
pub fn character_say(
    history: &mut HistoryLs,
    frame: &mut FrameBehaviour,
    session_counter: usize,
    speaker: String,
    face_path: String,
    text: String,
)
    ensures
        final(history).capacity() == old(history).capacity(),
        exists|r: DialogueRecord| r.id == session_counter && r.speaker@ == speaker@ && r.content@ == text@
            && #[trigger] final(history).view_records() == push_spec(old(history).view_records(), old(history).capacity(), r),
        old(history).capacity() > 0 ==> final(history).view_records().last().content@ == final(frame).text@,
        old(history).capacity() > 0 ==> final(history).view_records().last().speaker@ == final(frame).speaker@,
        final(frame).speaker@ == speaker@,
        final(frame).face_img@ == face_path@,
        final(frame).text@ == text@,
        final(frame).typewriter.start_text@ == Seq::<char>::empty(),
        final(frame).typewriter.target_text@ == text@,
        final(frame).typewriter.speed == old(frame).typewriter.speed,
        final(frame).typewriter.run_nanos == 0,
{
    let record = DialogueRecord { id: session_counter, speaker: speaker.clone(), content: text.clone() };
    let ghost rec = record;
    history.push(record);
    proof {
        if old(history).capacity() > 0 {
            let s = push_spec(old(history).view_records(), old(history).capacity(), rec);
            assert(s.last() == rec);
            assert(history.view_records().last() == rec);
        }
    }
    frame.export_say(speaker, face_path, text);
}

} // verus!
