use vstd::prelude::*;

use crate::message::{is_plain_message, ApiError, Message};
use crate::text::{str_eq, trim, trim_spec};

verus! {

/// What to do with a line the user typed.
pub enum InputAction {
    /// Nothing was typed; ask again.
    Skip,
    /// The user asked to leave.
    Quit,
    /// The line was added to the conversation; send it.
    Send,
}

/// What became of the model's answer.
pub enum ReplyOutcome {
    /// The answer was added to the conversation.
    Added,
    /// The answer was empty; the question was taken back.
    Empty,
    /// Asking failed; the question was taken back.
    Failed,
}

/// `s` without its last element; the empty sequence stays empty.
pub open spec fn without_last<A>(s: Seq<A>) -> Seq<A> {
    if s.len() > 0 {
        s.subrange(0, s.len() - 1)
    } else {
        s
    }
}

/// The conversation of the interactive loop.
pub struct ReplState {
    pub history: Vec<Message>,
}

impl ReplState {
    /// A conversation that starts with the system prompt, when there is one.
    pub fn new(system_prompt: Option<String>) -> (r: Self)
        ensures
            match system_prompt {
                Some(p) => r.history@.len() == 1 && is_plain_message(r.history@[0], "system"@, p@),
                None => r.history@.len() == 0,
            },
    {
        let mut history: Vec<Message> = Vec::new();
        if let Some(sp) = system_prompt {
            history.push(Message::system(sp));
        }
        ReplState { history }
    }

    /// Takes the typed line `line`: a blank line is skipped, "exit" quits,
    /// and anything else, trimmed, becomes the user's next message.
    pub fn accept_input(&mut self, line: &str) -> (a: InputAction)
        ensures
            trim_spec(line@).len() == 0 ==> a is Skip && final(self).history@ == old(self).history@,
            trim_spec(line@) == "exit"@ ==> a is Quit && final(self).history@ == old(self).history@,
            trim_spec(line@).len() > 0 && trim_spec(line@) != "exit"@ ==> {
                &&& a is Send
                &&& final(self).history@.len() == old(self).history@.len() + 1
                &&& final(self).history@.drop_last() == old(self).history@
                &&& is_plain_message(final(self).history@.last(), "user"@, trim_spec(line@))
            },
    {
        let input = trim(line);
        proof {
            reveal_strlit("exit");
        }
        if input.as_str().is_empty() {
            return InputAction::Skip;
        }
        if str_eq(input.as_str(), "exit") {
            return InputAction::Quit;
        }
        self.history.push(Message::user(input));
        InputAction::Send
    }

    /// Takes the outcome `reply` of sending the last message: an answer with
    /// text is added; an empty answer or an error takes the question back.
    pub fn accept_reply(&mut self, reply: Result<String, ApiError>) -> (o: ReplyOutcome)
        ensures
            match reply {
                Ok(content) => if trim_spec(content@).len() == 0 {
                    o is Empty && final(self).history@ == without_last(old(self).history@)
                } else {
                    &&& o is Added
                    &&& final(self).history@.len() == old(self).history@.len() + 1
                    &&& final(self).history@.drop_last() == old(self).history@
                    &&& is_plain_message(final(self).history@.last(), "assistant"@, content@)
                },
                Err(_) => o is Failed && final(self).history@ == without_last(old(self).history@),
            },
    {
        match reply {
            Ok(content) => {
                let t = trim(content.as_str());
                if t.as_str().is_empty() {
                    self.history.pop();
                    ReplyOutcome::Empty
                } else {
                    self.history.push(Message::assistant(content));
                    ReplyOutcome::Added
                }
            },
            Err(_) => {
                self.history.pop();
                ReplyOutcome::Failed
            },
        }
    }
}

/// An exchange that fails or gets an empty answer leaves the conversation as
/// it was before the question: what `accept_input` adds, `accept_reply` takes back.
pub proof fn lemma_failed_exchange_restores(history: Seq<Message>, question: Message)
    ensures
        without_last(history.push(question)) == history,
{
    assert(history.push(question).subrange(0, history.len() as int) =~= history);
}

} // verus!
