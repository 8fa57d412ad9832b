use vstd::prelude::*;

use crate::message::{is_plain_message, Message, StreamResult, ToolCall};
use crate::text::{
    byte_len, decimal, format_decimal, is_byte_boundary, join_spec, lines_of, shorten,
    shorten_spec, split_lines, views,
};
use crate::tools::registry::{is_read_only, is_read_only_spec};

verus! {

/// The most times one turn asks the model before it stops.
pub const MAX_ITERATIONS: usize = 30;

/// What to do after the model answered.
pub enum ReplyStep {
    /// The turn is over.
    Finished,
    /// Run the tool calls the model asked for; `read_only` of them only read.
    RunTools { read_only: usize },
}

/// What to do after the tool results were recorded.
pub enum ToolsStep {
    /// Stop: the turn used all its rounds.
    Stop,
    /// Ask the model again; `approaching_limit` when few rounds are left.
    Continue { approaching_limit: bool },
}

/// One turn of the agent: the model answers, may ask for tools, gets their
/// results and answers again, for at most `MAX_ITERATIONS` rounds.
pub struct AgentTurn {
    round: usize,
    over: bool,
}

/// The number of calls in `calls` whose tool only reads.
pub open spec fn read_only_count(calls: Seq<ToolCall>) -> nat
    decreases calls.len(),
{
    if calls.len() == 0 {
        0
    } else {
        read_only_count(calls.drop_last()) + if is_read_only_spec(calls.last().name@) { 1nat } else { 0nat }
    }
}

/// How many (call, result) pairs there are in lists of `calls` calls and
/// `results` results taken side by side: the shorter length.
pub open spec fn paired(calls: nat, results: nat) -> nat {
    if calls < results { calls } else { results }
}

impl AgentTurn {
    /// The round the turn is in, counting from zero.
    pub closed spec fn round(&self) -> nat {
        self.round as nat
    }

    /// Whether the turn is over.
    pub closed spec fn is_over(&self) -> bool {
        self.over
    }

    /// A turn that has not asked the model yet.
    pub fn new() -> (t: Self)
        ensures
            t.round() == 0,
            !t.is_over(),
    {
        AgentTurn { round: 0, over: false }
    }

    /// Whether the model may be asked (again).
    pub fn may_ask(&self) -> (r: bool)
        ensures
            r == (!self.is_over() && self.round() < MAX_ITERATIONS),
    {
        !self.over && self.round < MAX_ITERATIONS
    }

    /// The round the turn is in, counting from zero.
    pub fn current_round(&self) -> (r: usize)
        ensures
            r == self.round(),
    {
        self.round
    }

    /// Records the model's answer `reply` in `history`. Without tool calls the
    /// answer ends the turn (and is kept when it has text); with tool calls it
    /// is kept as an assistant message that carries them.
    pub fn on_reply(&mut self, history: &mut Vec<Message>, reply: StreamResult) -> (step: ReplyStep)
        requires
            !old(self).is_over(),
            old(self).round() < MAX_ITERATIONS,
        ensures
            final(self).round() == old(self).round(),
            old(history)@.is_prefix_of(final(history)@),
            reply.tool_calls@.len() == 0 ==> {
                &&& step is Finished
                &&& final(self).is_over()
                &&& reply.content@.len() == 0 ==> final(history)@ == old(history)@
                &&& reply.content@.len() > 0 ==> final(history)@.len() == old(history)@.len() + 1
                    && final(history)@.drop_last() == old(history)@
                    && is_plain_message(final(history)@.last(), "assistant"@, reply.content@)
            },
            reply.tool_calls@.len() > 0 ==> {
                &&& step matches ReplyStep::RunTools { read_only } && read_only == read_only_count(reply.tool_calls@)
                &&& !final(self).is_over()
                &&& final(history)@.len() == old(history)@.len() + 1
                &&& final(history)@.drop_last() == old(history)@
                &&& final(history)@.last().role@ == "assistant"@
                &&& final(history)@.last().content@ == reply.content@
                &&& final(history)@.last().tool_calls@ == reply.tool_calls@
                &&& final(history)@.last().tool_call_id is None
            },
    {
        if reply.tool_calls.len() == 0 {
            self.over = true;
            if !reply.content.as_str().is_empty() {
                history.push(Message::assistant(reply.content));
            }
            return ReplyStep::Finished;
        }
        let n = reply.tool_calls.len();
        let mut read_only: usize = 0;
        for i in 0..n
            invariant
                n == reply.tool_calls@.len(),
                read_only == read_only_count(reply.tool_calls@.take(i as int)),
                read_only <= i,
        {
            assert(reply.tool_calls@.take(i + 1).drop_last() =~= reply.tool_calls@.take(i as int));
            if is_read_only(reply.tool_calls[i].name.as_str()) {
                read_only = read_only + 1;
            }
        }
        assert(reply.tool_calls@.take(n as int) =~= reply.tool_calls@);
        let text = if reply.content.as_str().is_empty() {
            None
        } else {
            Some(reply.content)
        };
        history.push(Message::assistant_with_tools(text, reply.tool_calls));
        ReplyStep::RunTools { read_only }
    }

    /// Records the results of the tool calls `calls` in `history`, one tool
    /// message per call and result taken in pairs, in order (as many as the
    /// shorter of the two lists), each with its call's id and output; then
    /// ends the turn when it has used its last round.
    pub fn on_tool_results(
        &mut self,
        history: &mut Vec<Message>,
        calls: &Vec<ToolCall>,
        results: &Vec<(String, String)>,
    ) -> (step: ToolsStep)
        requires
            !old(self).is_over(),
            old(self).round() < MAX_ITERATIONS,
        ensures
            old(history)@.is_prefix_of(final(history)@),
            final(history)@.len() == old(history)@.len() + paired(calls@.len(), results@.len()),
            forall|i: int| 0 <= i < paired(calls@.len(), results@.len()) ==> {
                let m = #[trigger] final(history)@[old(history)@.len() + i];
                &&& m.role@ == "tool"@
                &&& m.content@ == results@[i].1@
                &&& m.tool_calls@.len() == 0
                &&& m.tool_call_id matches Some(id) && id@ == calls@[i].id@
            },
            old(self).round() == MAX_ITERATIONS - 1 ==> step is Stop && final(self).is_over(),
            old(self).round() < MAX_ITERATIONS - 1 ==> {
                &&& step matches ToolsStep::Continue { approaching_limit }
                    && approaching_limit == (old(self).round() == MAX_ITERATIONS - 4)
                &&& !final(self).is_over()
                &&& final(self).round() == old(self).round() + 1
            },
    {
        let n = if calls.len() < results.len() { calls.len() } else { results.len() };
        let ghost h0 = history@;
        for i in 0..n
            invariant
                n == paired(calls@.len(), results@.len()),
                n <= calls@.len(),
                n <= results@.len(),
                history@.len() == h0.len() + i,
                history@.take(h0.len() as int) == h0,
                forall|j: int| 0 <= j < i ==> {
                    let m = #[trigger] history@[h0.len() + j];
                    &&& m.role@ == "tool"@
                    &&& m.content@ == results@[j].1@
                    &&& m.tool_calls@.len() == 0
                    &&& m.tool_call_id matches Some(id) && id@ == calls@[j].id@
                },
        {
            let ghost before = history@;
            history.push(Message::tool_result(calls[i].id.clone(), results[i].1.clone()));
            assert(history@.take(h0.len() as int) =~= before.take(h0.len() as int));
            assert forall|j: int| 0 <= j < i + 1 implies {
                let m = #[trigger] history@[h0.len() + j];
                &&& m.role@ == "tool"@
                &&& m.content@ == results@[j].1@
                &&& m.tool_calls@.len() == 0
                &&& m.tool_call_id matches Some(id) && id@ == calls@[j].id@
            } by {
                if j < i {
                    assert(history@[h0.len() + j] == before[h0.len() + j]);
                }
            }
        }
        if self.round == MAX_ITERATIONS - 1 {
            self.over = true;
            return ToolsStep::Stop;
        }
        let approaching_limit = self.round == MAX_ITERATIONS - 4;
        self.round = self.round + 1;
        ToolsStep::Continue { approaching_limit }
    }
}

/// Over a whole turn the history only grows: `on_reply` and `on_tool_results`
/// each keep the history before them as a prefix of the history after them,
/// whatever the reply and whatever the lists of calls and results, and a
/// failed request ends the turn without a step. So for the histories seen
/// along a turn, each a prefix of the next, the first is a prefix of the last.
pub proof fn lemma_turn_history_only_grows(steps: Seq<Seq<Message>>)
    requires
        steps.len() > 0,
        forall|i: int| 0 <= i < steps.len() - 1 ==> (#[trigger] steps[i]).is_prefix_of(steps[i + 1]),
    ensures
        steps[0].is_prefix_of(steps.last()),
    decreases steps.len(),
{
    if steps.len() > 1 {
        let front = steps.drop_last();
        assert forall|i: int| 0 <= i < front.len() - 1 implies (#[trigger] front[i]).is_prefix_of(front[i + 1]) by {
            assert(front[i] == steps[i]);
            assert(front[i + 1] == steps[i + 1]);
        }
        lemma_turn_history_only_grows(front);
        let a = steps[0];
        let b = front.last();
        let c = steps.last();
        assert(b == steps[steps.len() - 2]);
        assert(b.is_prefix_of(c));
        assert(a =~= c.subrange(0, a.len() as int)) by {
            assert forall|k: int| 0 <= k < a.len() implies a[k] == c[k] by {
                assert(a[k] == b[k]);
                assert(b[k] == c[k]);
            }
        }
    }
}

/// The warning shown when a turn stops after its last round.
pub fn limit_reached_warning() -> (r: String)
    ensures
        r@ == "\n[warning] Reached max iterations ("@ + decimal(MAX_ITERATIONS as nat) + "), stopping."@,
{
    let mut r = String::new();
    r.append("\n[warning] Reached max iterations (");
    let d = format_decimal(MAX_ITERATIONS as u128);
    r.append(d.as_str());
    r.append("), stopping.");
    r
}

/// The warning shown when a turn finishes round `round` (counting from zero) with few left.
pub fn limit_near_warning(round: usize) -> (r: String)
    requires
        round < MAX_ITERATIONS,
    ensures
        r@ == "\n[warning] Approaching max iterations ("@ + decimal(round as nat + 1) + "/"@ + decimal(
            MAX_ITERATIONS as nat,
        ) + "), wrapping up..."@,
{
    let mut r = String::new();
    r.append("\n[warning] Approaching max iterations (");
    let a = format_decimal(round as u128 + 1);
    r.append(a.as_str());
    r.append("/");
    let b = format_decimal(MAX_ITERATIONS as u128);
    r.append(b.as_str());
    r.append("), wrapping up...");
    r
}

/// The notice shown when a batch of `batch_size` calls holds more than one read-only call.
pub fn batch_notice(batch_size: usize, read_only: usize) -> (r: Option<String>)
    requires
        read_only <= batch_size,
    ensures
        (batch_size > 1 && read_only > 1) == r is Some,
        r matches Some(t) ==> t@ == "\n  [batch] "@ + decimal(read_only as nat)
            + " read-only tools running concurrently + "@ + decimal((batch_size - read_only) as nat)
            + " sequential"@,
{
    if batch_size > 1 && read_only > 1 {
        let mut r = String::new();
        r.append("\n  [batch] ");
        let a = format_decimal(read_only as u128);
        r.append(a.as_str());
        r.append(" read-only tools running concurrently + ");
        let b = format_decimal((batch_size - read_only) as u128);
        r.append(b.as_str());
        r.append(" sequential");
        Some(r)
    } else {
        None
    }
}

/// How a tool call is shown: its name and its arguments, cut after 197 bytes
/// when they are longer than 200.
pub fn tool_call_line(name: &str, args: &str) -> (r: String)
    requires
        byte_len(args@) > 200 ==> is_byte_boundary(args@, 197),
    ensures
        r@ == "  [tool] "@ + name@ + "("@ + shorten_spec(args@, 200, 197) + ")"@,
{
    let display = shorten(args, 200, 197);
    let mut r = String::new();
    r.append("  [tool] ");
    r.append(name);
    r.append("(");
    r.append(display.as_str());
    r.append(")");
    r
}

/// The text of a tool result as shown: cut after 497 bytes, with its size, when longer than 500.
pub open spec fn result_preview(result: Seq<char>) -> Seq<char> {
    if byte_len(result) > 500 {
        shorten_spec(result, 500, 497) + "\n  ("@ + decimal(byte_len(result)) + " total bytes)"@
    } else {
        result
    }
}

/// How a tool result is shown: each line of its preview indented by two spaces.
pub fn tool_result_lines(result: &str) -> (r: Vec<String>)
    requires
        byte_len(result@) > 500 ==> is_byte_boundary(result@, 497),
    ensures
        views(r@) == lines_of(result_preview(result@)).map_values(|l: Seq<char>| "  "@ + l),
{
    let total = result.as_bytes().len();
    let mut preview = shorten(result, 500, 497);
    if total > 500 {
        preview.append("\n  (");
        let d = format_decimal(total as u128);
        preview.append(d.as_str());
        preview.append(" total bytes)");
    }
    let lines = split_lines(preview.as_str());
    let n = lines.len();
    let mut out: Vec<String> = Vec::new();
    for i in 0..n
        invariant
            n == lines@.len(),
            views(lines@) == lines_of(result_preview(result@)),
            views(out@) == views(lines@).take(i as int).map_values(|l: Seq<char>| "  "@ + l),
    {
        let mut l = "  ".to_owned();
        l.append(lines[i].as_str());
        let ghost before = out@;
        out.push(l);
        assert(l@ == "  "@ + views(lines@)[i as int]);
        assert(views(out@) =~= views(before).push(l@));
        assert(views(lines@).take(i + 1) =~= views(lines@).take(i as int).push(views(lines@)[i as int]));
        assert(views(out@) =~= views(lines@).take(i + 1).map_values(|l: Seq<char>| "  "@ + l));
    }
    assert(views(lines@).take(n as int) =~= views(lines@));
    out
}

} // verus!
