use vstd::prelude::*;

use crate::message::{copy_messages, same_messages, Message};
use crate::session::{age_text, non_system_count, count_non_system, format_age_at, stamp_seconds, Session, SessionManager};
use crate::text::{
    byte_len, decimal, format_decimal, from_chars, is_byte_boundary, shorten, shorten_spec,
    str_eq, to_chars, trim, trim_spec, views,
};

verus! {

/// What the loop reading commands does next.
pub enum CommandResult {
    Continue,
    Exit,
}

/// A command typed with a leading slash, with its argument where it takes one.
pub enum SlashCommand {
    Help,
    Clear,
    History,
    Version,
    Model(Option<String>),
    New,
    Sessions,
    Resume(Option<String>),
    Exit,
}

/// The position of the first `c` in `s`.
pub open spec fn first_index_of(s: Seq<char>, c: char) -> Option<int>
    decreases s.len(),
{
    if s.len() == 0 {
        None
    } else if s[0] == c {
        Some(0)
    } else {
        match first_index_of(s.drop_first(), c) {
            Some(i) => Some(i + 1),
            None => None,
        }
    }
}

/// The command word of the typed line `input`, and its argument: the line is
/// trimmed and split at its first space, and the argument trimmed.
pub open spec fn command_parts(input: Seq<char>) -> (Seq<char>, Option<Seq<char>>) {
    let t = trim_spec(input);
    match first_index_of(t, ' ') {
        Some(i) => (t.take(i), Some(trim_spec(t.skip(i + 1)))),
        None => (t, None),
    }
}

/// The characters of an optional string.
pub open spec fn opt_view(o: Option<String>) -> Option<Seq<char>> {
    match o {
        Some(s) => Some(s@),
        None => None,
    }
}

/// Whether the command word `cmd` is one of the known commands.
pub open spec fn is_known_command(cmd: Seq<char>) -> bool {
    ||| cmd == "/help"@ || cmd == "/h"@ || cmd == "/?"@
    ||| cmd == "/clear"@
    ||| cmd == "/history"@ || cmd == "/hist"@
    ||| cmd == "/version"@ || cmd == "/v"@
    ||| cmd == "/model"@ || cmd == "/m"@
    ||| cmd == "/new"@ || cmd == "/n"@
    ||| cmd == "/sessions"@ || cmd == "/ss"@
    ||| cmd == "/session"@ || cmd == "/resume"@ || cmd == "/r"@
    ||| cmd == "/exit"@ || cmd == "/quit"@ || cmd == "/q"@
}

/// Reads the typed line `input` as a slash command; `None` when its command
/// word is not one of the commands.
pub fn parse_slash_command(input: &str) -> (r: Option<SlashCommand>)
    ensures
        ({
            let (cmd, args) = command_parts(input@);
            match r {
                Some(SlashCommand::Help) => cmd == "/help"@ || cmd == "/h"@ || cmd == "/?"@,
                Some(SlashCommand::Clear) => cmd == "/clear"@,
                Some(SlashCommand::History) => cmd == "/history"@ || cmd == "/hist"@,
                Some(SlashCommand::Version) => cmd == "/version"@ || cmd == "/v"@,
                Some(SlashCommand::Model(a)) => (cmd == "/model"@ || cmd == "/m"@) && opt_view(a) == args,
                Some(SlashCommand::New) => cmd == "/new"@ || cmd == "/n"@,
                Some(SlashCommand::Sessions) => cmd == "/sessions"@ || cmd == "/ss"@,
                Some(SlashCommand::Resume(a)) => (cmd == "/session"@ || cmd == "/resume"@ || cmd == "/r"@)
                    && opt_view(a) == args,
                Some(SlashCommand::Exit) => cmd == "/exit"@ || cmd == "/quit"@ || cmd == "/q"@,
                None => !is_known_command(cmd),
            }
        }),
{
    let t = trim(input);
    let v = to_chars(t.as_str());
    let n = v.len();
    let mut i: usize = 0;
    assert(v@.skip(0) =~= v@);
    while i < n && v[i] != ' '
        invariant
            n == v@.len(),
            i <= n,
            first_index_of(v@, ' ') == match first_index_of(v@.skip(i as int), ' ') {
                Some(j) => Some(j + i),
                None => None,
            },
        decreases n - i,
    {
        assert(v@.skip(i as int).drop_first() =~= v@.skip(i + 1));
        i = i + 1;
    }
    let cmd: String;
    let args: Option<String>;
    if i < n {
        assert(v@.skip(i as int)[0] == ' ');
        cmd = from_chars(&v.as_slice()[0..i]);
        let rest = from_chars(&v.as_slice()[i + 1..n]);
        assert(v@.subrange(0, i as int) =~= v@.take(i as int));
        assert(v@.subrange(i + 1, n as int) =~= v@.skip(i + 1));
        args = Some(trim(rest.as_str()));
    } else {
        assert(v@.skip(i as int).len() == 0);
        cmd = t;
        args = None;
    }
    let c = cmd.as_str();
    if str_eq(c, "/help") || str_eq(c, "/h") || str_eq(c, "/?") {
        Some(SlashCommand::Help)
    } else if str_eq(c, "/clear") {
        Some(SlashCommand::Clear)
    } else if str_eq(c, "/history") || str_eq(c, "/hist") {
        Some(SlashCommand::History)
    } else if str_eq(c, "/version") || str_eq(c, "/v") {
        Some(SlashCommand::Version)
    } else if str_eq(c, "/model") || str_eq(c, "/m") {
        Some(SlashCommand::Model(args))
    } else if str_eq(c, "/new") || str_eq(c, "/n") {
        Some(SlashCommand::New)
    } else if str_eq(c, "/sessions") || str_eq(c, "/ss") {
        Some(SlashCommand::Sessions)
    } else if str_eq(c, "/session") || str_eq(c, "/resume") || str_eq(c, "/r") {
        Some(SlashCommand::Resume(args))
    } else if str_eq(c, "/exit") || str_eq(c, "/quit") || str_eq(c, "/q") {
        Some(SlashCommand::Exit)
    } else {
        None
    }
}

/// The messages of `msgs` that are the system prompt, in order.
pub open spec fn system_messages(msgs: Seq<Message>) -> Seq<Message> {
    msgs.filter(|m: Message| m.role@ == "system"@)
}

/// Keeps only the system prompt messages of `history`, in order.
pub fn keep_system_messages(history: &mut Vec<Message>)
    ensures
        final(history)@ == system_messages(old(history)@),
{
    let mut all: Vec<Message> = Vec::new();
    std::mem::swap(history, &mut all);
    let ghost orig = all@;
    let ghost pred = |m: Message| m.role@ == "system"@;
    assert(orig.take(0).filter(pred) =~= Seq::<Message>::empty());
    for m in it: all
        invariant
            it.seq() == orig,
            pred == (|m: Message| m.role@ == "system"@),
            history@ == orig.take(it.index() as int).filter(pred),
    {
        let ghost i = it.index() as int;
        assert(orig.take(i + 1).drop_last() =~= orig.take(i));
        proof {
            reveal_with_fuel(Seq::<_>::filter, 1);
        }
        if m.is_system() {
            history.push(m);
        }
    }
    assert(orig.take(orig.len() as int) =~= orig);
}

/// Clears `history` but for the system prompt, and gives the report shown:
/// the number of messages left after clearing less the number of system
/// messages, and a note when the system prompt stays.
pub fn clear_history(history: &mut Vec<Message>) -> (report: String)
    ensures
        final(history)@ == system_messages(old(history)@),
        report@ == "Cleared "@ + decimal((final(history)@.len() - system_messages(old(history)@).len()) as nat)
            + " messages."@ + if system_messages(old(history)@).len() > 0 {
            " System prompt retained."@
        } else {
            ""@
        },
{
    keep_system_messages(history);
    let system_count = history.len();
    let mut r = String::new();
    r.append("Cleared ");
    let d = format_decimal((history.len() - system_count) as u128);
    r.append(d.as_str());
    r.append(" messages.");
    if system_count > 0 {
        r.append(" System prompt retained.");
    } else {
        r.append("");
    }
    r
}

/// The messages of `msgs` that are not the system prompt, in order.
pub open spec fn conversation(msgs: Seq<Message>) -> Seq<Message> {
    msgs.filter(|m: Message| m.role@ != "system"@)
}

/// Who a message is shown as coming from.
pub open spec fn role_label(role: Seq<char>) -> Seq<char> {
    if role == "user"@ {
        "You"@
    } else if role == "assistant"@ {
        "niche"@
    } else {
        "System"@
    }
}

/// The text shown for a message: its content, or "(tool call)" for an
/// assistant message that only calls tools.
pub open spec fn shown_content(m: Message) -> Seq<char> {
    if m.content@.len() == 0 && m.tool_calls@.len() > 0 {
        "(tool call)"@
    } else {
        m.content@
    }
}

/// `s` with each newline made a space.
pub open spec fn newlines_to_spaces(s: Seq<char>) -> Seq<char> {
    s.map_values(|c: char| if c == '\n' { ' ' } else { c })
}

/// How the `i`-th message of the conversation (counting from zero) is listed.
pub open spec fn history_line(i: nat, m: Message) -> Seq<char> {
    "  "@ + decimal(i + 1) + ". ["@ + role_label(m.role@) + "] "@ + newlines_to_spaces(
        shorten_spec(shown_content(m), 100, 97),
    )
}

/// The lines that list the history `msgs`.
pub open spec fn history_lines_spec(msgs: Seq<Message>) -> Seq<Seq<char>> {
    if msgs.len() == 0 {
        seq!["(empty)"@]
    } else {
        let c = conversation(msgs);
        if c.len() == 0 {
            seq!["(no messages)"@]
        } else {
            Seq::new(c.len(), |i: int| history_line(i as nat, c[i]))
        }
    }
}

/// Whether every message of the conversation in `msgs` (the system prompt
/// is never shown) can be shown cut after 97 bytes when it is longer than 100.
pub open spec fn previews_cut_cleanly(msgs: Seq<Message>) -> bool {
    forall|i: int|
        0 <= i < conversation(msgs).len() && byte_len(shown_content(#[trigger] conversation(msgs)[i])) > 100
            ==> is_byte_boundary(shown_content(conversation(msgs)[i]), 97)
}

fn replace_newlines(s: &str) -> (r: String)
    ensures
        r@ == newlines_to_spaces(s@),
{
    let v = to_chars(s);
    let n = v.len();
    let mut out: Vec<char> = Vec::new();
    for i in 0..n
        invariant
            n == v@.len(),
            out@ == newlines_to_spaces(v@.take(i as int)),
    {
        let c = v[i];
        let d = if c == '\n' { ' ' } else { c };
        out.push(d);
        assert(newlines_to_spaces(v@.take(i + 1)) =~= newlines_to_spaces(v@.take(i as int)).push(d));
    }
    assert(v@.take(n as int) =~= v@);
    from_chars(out.as_slice())
}

fn role_label_of(role: &str) -> (r: &'static str)
    ensures
        r@ == role_label(role@),
{
    if str_eq(role, "user") {
        "You"
    } else if str_eq(role, "assistant") {
        "niche"
    } else {
        "System"
    }
}

fn shown_content_of(m: &Message) -> (r: String)
    ensures
        r@ == shown_content(*m),
{
    if m.content.as_str().is_empty() && m.tool_calls.len() > 0 {
        "(tool call)".to_owned()
    } else {
        m.content.clone()
    }
}

/// The lines that list the history `msgs`: the conversation without the
/// system prompt, numbered, each with who spoke and its first 97 bytes
/// (with "...") when longer than 100, newlines shown as spaces.
pub fn history_lines(msgs: &Vec<Message>) -> (r: Vec<String>)
    requires
        previews_cut_cleanly(msgs@),
    ensures
        views(r@) == history_lines_spec(msgs@),
{
    let mut out: Vec<String> = Vec::new();
    if msgs.len() == 0 {
        out.push("(empty)".to_owned());
        assert(views(out@) =~= history_lines_spec(msgs@));
        return out;
    }
    let ghost pred = |m: Message| m.role@ != "system"@;
    let ghost conv = conversation(msgs@);
    let n = msgs.len();
    let mut count: usize = 0;
    assert(msgs@.take(0).filter(pred) =~= Seq::<Message>::empty());
    for i in 0..n
        invariant
            n == msgs@.len(),
            pred == (|m: Message| m.role@ != "system"@),
            previews_cut_cleanly(msgs@),
            count == msgs@.take(i as int).filter(pred).len(),
            count <= i,
            views(out@) == Seq::new(count as nat, |j: int| history_line(j as nat, msgs@.take(i as int).filter(pred)[j])),
    {
        let ghost prev = msgs@.take(i as int).filter(pred);
        assert(msgs@.take(i + 1).drop_last() =~= msgs@.take(i as int));
        proof {
            reveal_with_fuel(Seq::<_>::filter, 1);
        }
        let m = &msgs[i];
        if !m.is_system() {
            proof {
                assert(msgs@ =~= msgs@.take(i + 1) + msgs@.skip(i + 1));
                Seq::filter_distributes_over_add(msgs@.take(i + 1), msgs@.skip(i + 1), pred);
                assert(msgs@.take(i + 1).filter(pred) == prev.push(msgs@[i as int]));
                assert(conversation(msgs@) == msgs@.filter(pred));
                assert(conversation(msgs@)[count as int] == msgs@[i as int]);
            }
            let shown = shown_content_of(m);
            let cut = shorten(shown.as_str(), 100, 97);
            let preview = replace_newlines(cut.as_str());
            let mut line = "  ".to_owned();
            let num = format_decimal(count as u128 + 1);
            line.append(num.as_str());
            line.append(". [");
            line.append(role_label_of(m.role.as_str()));
            line.append("] ");
            line.append(preview.as_str());
            let ghost before = out@;
            out.push(line);
            let ghost next = msgs@.take(i + 1).filter(pred);
            assert(next == prev.push(msgs@[i as int]));
            assert(line@ == history_line(count as nat, msgs@[i as int]));
            assert(views(out@) =~= views(before).push(line@));
            assert forall|j: int| 0 <= j < count implies next[j] == prev[j] by {}
            assert(views(out@) =~= Seq::new((count + 1) as nat, |j: int| history_line(j as nat, next[j])));
            count = count + 1;
        } else {
            assert(msgs@.take(i + 1).filter(pred) == prev);
        }
    }
    assert(msgs@.take(n as int) =~= msgs@);
    if count == 0 {
        let mut none: Vec<String> = Vec::new();
        none.push("(no messages)".to_owned());
        assert(views(none@) =~= history_lines_spec(msgs@));
        return none;
    }
    assert(views(out@) =~= history_lines_spec(msgs@));
    out
}

/// How many saved sessions are listed at most.
pub const SESSIONS_SHOWN: usize = 20;

/// How the `i`-th listed session (counting from zero) is shown at `now`: its
/// number, age and title (cut after 47 bytes, with "...", when longer than
/// 50), then its id and summary, the first one marked as the latest.
pub open spec fn session_entry(i: nat, s: Session, now: u64) -> Seq<Seq<char>> {
    seq![
        "  "@ + decimal(i + 1) + ". ["@ + age_text(stamp_seconds(s.updated_at@), now) + "] "@
            + shorten_spec(s.title@, 50, 47),
        "     "@ + s.id@ + " | "@ + decimal(non_system_count(s.messages@)) + " msgs"@ + " |"@ + if i == 0 {
            " (latest)"@
        } else {
            ""@
        },
    ]
}

/// The lines for the first `k` sessions of `sessions`.
pub open spec fn session_entries(sessions: Seq<Session>, now: u64, k: nat) -> Seq<Seq<char>>
    decreases k,
{
    if k == 0 {
        seq![]
    } else {
        session_entries(sessions, now, (k - 1) as nat) + session_entry((k - 1) as nat, sessions[k - 1], now)
    }
}

/// The lines that list the saved sessions `sessions` (already in order) at `now`.
pub open spec fn session_listing_spec(sessions: Seq<Session>, now: u64) -> Seq<Seq<char>> {
    if sessions.len() == 0 {
        seq!["No saved sessions."@]
    } else {
        let shown: nat = if sessions.len() > 20 { 20 } else { sessions.len() };
        seq!["Sessions (most recent first):\n"@] + session_entries(sessions, now, shown) + (if sessions.len() > 20 {
            seq!["\n  ... and "@ + decimal((sessions.len() - 20) as nat) + " more"@]
        } else {
            seq![]
        }) + seq!["\n  /session <id> to resume"@]
    }
}

/// Whether every title among the first 20 of `sessions` (those listed) can
/// be cut after 47 bytes when longer than 50.
pub open spec fn titles_cut_cleanly(sessions: Seq<Session>) -> bool {
    forall|i: int|
        0 <= i < sessions.len() && i < 20 && byte_len((#[trigger] sessions[i]).title@) > 50 ==> is_byte_boundary(
            sessions[i].title@,
            47,
        )
}

/// The lines that list the saved sessions `sessions` (already in order) at `now`.
pub fn session_listing(sessions: &Vec<Session>, now: u64) -> (r: Vec<String>)
    requires
        titles_cut_cleanly(sessions@),
    ensures
        views(r@) == session_listing_spec(sessions@, now),
{
    let mut out: Vec<String> = Vec::new();
    let n = sessions.len();
    if n == 0 {
        out.push("No saved sessions.".to_owned());
        assert(views(out@) =~= session_listing_spec(sessions@, now));
        return out;
    }
    out.push("Sessions (most recent first):\n".to_owned());
    let shown = if n > SESSIONS_SHOWN { SESSIONS_SHOWN } else { n };
    let ghost head = views(out@);
    assert(head =~= seq!["Sessions (most recent first):\n"@]);
    for i in 0..shown
        invariant
            n == sessions@.len(),
            shown <= n,
            shown <= SESSIONS_SHOWN,
            titles_cut_cleanly(sessions@),
            views(out@) == head + session_entries(sessions@, now, i as nat),
    {
        let s = &sessions[i];
        let age = format_age_at(s.updated_at.as_str(), now);
        let title = shorten(s.title.as_str(), 50, 47);
        let mut l1 = "  ".to_owned();
        let num = format_decimal(i as u128 + 1);
        l1.append(num.as_str());
        l1.append(". [");
        l1.append(age.as_str());
        l1.append("] ");
        l1.append(title.as_str());
        let count = count_non_system(&s.messages);
        let mut l2 = "     ".to_owned();
        l2.append(s.id.as_str());
        l2.append(" | ");
        let c = format_decimal(count as u128);
        l2.append(c.as_str());
        l2.append(" msgs");
        l2.append(" |");
        if i == 0 {
            l2.append(" (latest)");
        } else {
            l2.append("");
        }
        let ghost before = views(out@);
        out.push(l1);
        out.push(l2);
        assert(views(out@) =~= before + session_entry(i as nat, sessions@[i as int], now));
    }
    let ghost body = views(out@);
    let ghost tail: Seq<Seq<char>>;
    if n > SESSIONS_SHOWN {
        let mut more = "\n  ... and ".to_owned();
        let d = format_decimal((n - SESSIONS_SHOWN) as u128);
        more.append(d.as_str());
        more.append(" more");
        proof {
            tail = seq![more@];
        }
        out.push(more);
    } else {
        proof {
            tail = seq![];
        }
    }
    assert(views(out@) =~= body + tail);
    let last = "\n  /session <id> to resume".to_owned();
    out.push(last);
    assert(views(out@) =~= body + tail + seq![last@]);
    assert(views(out@) =~= session_listing_spec(sessions@, now));
    out
}

/// What resuming the session `s` reports.
pub fn resume_report(s: &Session) -> (r: String)
    ensures
        r@ == "Resumed: "@ + s.title@ + " ("@ + decimal(non_system_count(s.messages@)) + " messages)"@,
{
    let n = count_non_system(&s.messages);
    let mut r = "Resumed: ".to_owned();
    r.append(s.title.as_str());
    r.append(" (");
    let d = format_decimal(n as u128);
    r.append(d.as_str());
    r.append(" messages)");
    r
}

/// Where `/session` resumes: the id given, or else the latest saved session
/// (with the notice shown), or nowhere when none is saved (with the message shown).
pub enum ResumeTarget {
    Session { id: String, notice: Option<String> },
    NoneSaved { message: String },
}

/// Chooses where `/session` resumes from its argument `args` and the id of
/// the latest saved session `latest` (looked up only when no id is given).
pub fn resume_target(args: Option<String>, latest: Option<String>) -> (r: ResumeTarget)
    ensures
        match args {
            Some(a) => r matches ResumeTarget::Session { id, notice } && id@ == a@ && notice is None,
            None => match latest {
                Some(l) => r matches ResumeTarget::Session { id, notice } && id@ == l@
                    && (notice matches Some(t) && t@ == "No session ID given. Resuming latest: "@ + l@),
                None => r matches ResumeTarget::NoneSaved { message } && message@ == "No saved sessions to resume."@,
            },
        },
{
    match args {
        Some(id) => ResumeTarget::Session { id, notice: None },
        None => match latest {
            Some(id) => {
                let mut t = "No session ID given. Resuming latest: ".to_owned();
                t.append(id.as_str());
                ResumeTarget::Session { id, notice: Some(t) }
            },
            None => ResumeTarget::NoneSaved { message: "No saved sessions to resume.".to_owned() },
        },
    }
}

/// Resumes the session `loaded`, the one read for `id`: the history becomes
/// its messages, it becomes the current session, and the report is given.
/// When none was read, nothing changes and the message says so.
pub fn resume_into(
    history: &mut Vec<Message>,
    manager: &mut SessionManager,
    id: &str,
    loaded: Option<Session>,
) -> (r: String)
    ensures
        match loaded {
            Some(s) => {
                &&& same_messages(final(history)@, s.messages@)
                &&& final(manager).current == Some(s)
                &&& r@ == "Resumed: "@ + s.title@ + " ("@ + decimal(non_system_count(s.messages@)) + " messages)"@
            },
            None => {
                &&& final(history)@ == old(history)@
                &&& final(manager).current == old(manager).current
                &&& r@ == "Session '"@ + id@ + "' not found."@
            },
        },
{
    match loaded {
        Some(s) => {
            let report = resume_report(&s);
            *history = copy_messages(&s.messages);
            let _ = manager.load_into(id, Some(s));
            report
        },
        None => {
            let mut r = "Session '".to_owned();
            r.append(id);
            r.append("' not found.");
            r
        },
    }
}

/// The model `/model` switches to: the name given, when models are configured.
pub fn switch_target(available: usize, args: Option<&str>) -> (r: Option<String>)
    ensures
        r is Some <==> (available > 0 && args is Some),
        r matches Some(n) ==> n@ == args->0@,
{
    match args {
        Some(name) => if available > 0 {
            Some(name.to_owned())
        } else {
            None
        },
        None => None,
    }
}

/// A model that can be chosen: its name, how it is shown, and whether it is the active one.
pub struct ModelChoice {
    pub name: String,
    pub display: String,
    pub active: bool,
}

/// How a model is listed, the active one marked with a star.
pub open spec fn model_line(m: ModelChoice) -> Seq<char> {
    "  "@ + (if m.active { " *"@ } else { "  "@ }) + " "@ + m.name@ + " - "@ + m.display@
}

/// What the model command shows. With no models to choose from: the active
/// model `active` and how to add models. Asked to switch to `request`: the
/// outcome `switched` of the switch (the model's display name, or an error
/// followed by the list). Otherwise: the list and how to switch.
pub open spec fn model_report_spec(
    models: Seq<ModelChoice>,
    active: Seq<char>,
    request: Option<Seq<char>>,
    switched: Result<Seq<char>, Seq<char>>,
) -> Seq<Seq<char>> {
    let listing = models.map_values(|m: ModelChoice| model_line(m));
    if models.len() == 0 {
        seq![
            "Current model: "@ + active + " (no multi-model config)"@,
            "Add a 'models' array to config.json to enable /model switching."@,
        ]
    } else {
        match request {
            Some(name) => match switched {
                Ok(display) => seq!["Switched to: "@ + display + " ("@ + name + ")"@],
                Err(e) => seq![e, "\nAvailable models:"@] + listing,
            },
            None => seq!["Available models:"@] + listing + seq!["\n  * = active   |   /model <name> to switch"@],
        }
    }
}

fn model_listing(models: &Vec<ModelChoice>, out: &mut Vec<String>)
    ensures
        views(final(out)@) == views(old(out)@) + models@.map_values(|m: ModelChoice| model_line(m)),
{
    let n = models.len();
    let ghost start = views(out@);
    for i in 0..n
        invariant
            n == models@.len(),
            views(out@) == start + models@.take(i as int).map_values(|m: ModelChoice| model_line(m)),
    {
        let m = &models[i];
        let mut l = "  ".to_owned();
        if m.active {
            l.append(" *");
        } else {
            l.append("  ");
        }
        l.append(" ");
        l.append(m.name.as_str());
        l.append(" - ");
        l.append(m.display.as_str());
        let ghost before = views(out@);
        out.push(l);
        assert(views(out@) =~= before.push(model_line(models@[i as int])));
        assert(models@.take(i + 1).map_values(|m: ModelChoice| model_line(m)) =~= models@.take(i as int).map_values(
            |m: ModelChoice| model_line(m),
        ).push(model_line(models@[i as int])));
    }
    assert(models@.take(n as int) =~= models@);
}

/// What the model command shows (see `model_report_spec`); `switched` is the
/// outcome of switching when a model was asked for.
pub fn model_report(
    models: &Vec<ModelChoice>,
    active: &str,
    request: Option<&str>,
    switched: Result<String, String>,
) -> (r: Vec<String>)
    ensures
        views(r@) == model_report_spec(
            models@,
            active@,
            match request {
                Some(n) => Some(n@),
                None => None,
            },
            match switched {
                Ok(d) => Ok(d@),
                Err(e) => Err(e@),
            },
        ),
{
    let mut out: Vec<String> = Vec::new();
    if models.len() == 0 {
        let mut a = "Current model: ".to_owned();
        a.append(active);
        a.append(" (no multi-model config)");
        out.push(a);
        out.push("Add a 'models' array to config.json to enable /model switching.".to_owned());
        assert(views(out@) =~= model_report_spec(models@, active@, match request { Some(n) => Some(n@), None => None }, match switched { Ok(d) => Ok(d@), Err(e) => Err(e@) }));
        return out;
    }
    match request {
        Some(name) => match switched {
            Ok(display) => {
                let mut a = "Switched to: ".to_owned();
                a.append(display.as_str());
                a.append(" (");
                a.append(name);
                a.append(")");
                let ghost av = a@;
                out.push(a);
                assert(views(out@) =~= seq![av]);
                return out;
            },
            Err(e) => {
                let ghost ev = e@;
                out.push(e);
                let h = "\nAvailable models:".to_owned();
                let ghost hv = h@;
                out.push(h);
                assert(views(out@) =~= seq![ev, hv]);
                model_listing(models, &mut out);
                return out;
            },
        },
        None => {
            let h = "Available models:".to_owned();
            let ghost hv = h@;
            out.push(h);
            assert(views(out@) =~= seq![hv]);
            model_listing(models, &mut out);
            let ghost mid = views(out@);
            let t = "\n  * = active   |   /model <name> to switch".to_owned();
            let ghost tv = t@;
            out.push(t);
            assert(views(out@) =~= mid.push(tv));
            return out;
        },
    }
}

/// The line that tells the version `version`.
pub fn version_line(version: &str) -> (r: String)
    ensures
        r@ == "niche v"@ + version@,
{
    let mut r = "niche v".to_owned();
    r.append(version);
    r
}

/// The lines of the help text for version `version`.
pub open spec fn help_spec(version: Seq<char>) -> Seq<Seq<char>> {
    seq![
        "niche v"@ + version + " - Commands"@,
        ""@,
        "  Session:"@,
        "    /new, /n           Save current, start new session"@,
        "    /sessions, /ss     List saved sessions"@,
        "    /session <id>      Resume a session (or /session for latest)"@,
        ""@,
        "  Model:"@,
        "    /model, /m         List available models"@,
        "    /model <name>      Switch to a specific model"@,
        ""@,
        "  Other:"@,
        "    /help, /h          Show this help message"@,
        "    /clear             Clear conversation history"@,
        "    /history, /hist    Show conversation history"@,
        "    /version, /v       Show version"@,
        "    /exit, /quit, /q   Exit"@,
        ""@,
        "Tips:"@,
        "  @path/to/file       Include file contents in your message"@,
        "  \\\\ at line end      Continue on next line (multi-line input)"@,
        "  Up/Down arrows      Navigate command history"@,
        "  Ctrl+R              Search command history"@,
        "  Ctrl+C              Cancel current input"@,
        "  Ctrl+D              Exit"@,
    ]
}

/// The lines of the help text for version `version`.
pub fn help_lines(version: &str) -> (r: Vec<String>)
    ensures
        views(r@) == help_spec(version@),
{
    let mut out: Vec<String> = Vec::new();
    let mut first = "niche v".to_owned();
    first.append(version);
    first.append(" - Commands");
    out.push(first);
    out.push("".to_owned());
    out.push("  Session:".to_owned());
    out.push("    /new, /n           Save current, start new session".to_owned());
    out.push("    /sessions, /ss     List saved sessions".to_owned());
    out.push("    /session <id>      Resume a session (or /session for latest)".to_owned());
    out.push("".to_owned());
    out.push("  Model:".to_owned());
    out.push("    /model, /m         List available models".to_owned());
    out.push("    /model <name>      Switch to a specific model".to_owned());
    out.push("".to_owned());
    out.push("  Other:".to_owned());
    out.push("    /help, /h          Show this help message".to_owned());
    out.push("    /clear             Clear conversation history".to_owned());
    out.push("    /history, /hist    Show conversation history".to_owned());
    out.push("    /version, /v       Show version".to_owned());
    out.push("    /exit, /quit, /q   Exit".to_owned());
    out.push("".to_owned());
    out.push("Tips:".to_owned());
    out.push("  @path/to/file       Include file contents in your message".to_owned());
    out.push("  \\\\ at line end      Continue on next line (multi-line input)".to_owned());
    out.push("  Up/Down arrows      Navigate command history".to_owned());
    out.push("  Ctrl+R              Search command history".to_owned());
    out.push("  Ctrl+C              Cancel current input".to_owned());
    out.push("  Ctrl+D              Exit".to_owned());
    assert(views(out@) =~= help_spec(version@));
    out
}

/// Clearing a cleared history changes nothing more: keeping the system
/// messages of the system messages keeps them all.
pub proof fn lemma_clear_idempotent(history: Seq<Message>)
    ensures
        system_messages(system_messages(history)) == system_messages(history),
    decreases history.len(),
{
    let pred = |m: Message| m.role@ == "system"@;
    reveal_with_fuel(Seq::<_>::filter, 1);
    if history.len() > 0 {
        lemma_clear_idempotent(history.drop_last());
        let prev = system_messages(history.drop_last());
        if pred(history.last()) {
            assert(system_messages(history) == prev.push(history.last()));
            assert(prev.push(history.last()).drop_last() =~= prev);
        }
    } else {
        assert(system_messages(history) =~= history);
    }
}

/// Clearing keeps every system message and nothing else.
pub proof fn lemma_clear_keeps_only_system(history: Seq<Message>)
    ensures
        forall|i: int| 0 <= i < system_messages(history).len() ==> (#[trigger] system_messages(history)[i]).role@ == "system"@,
        system_messages(history).len() <= history.len(),
{
    broadcast use vstd::seq_lib::group_filter_ensures;
}

} // verus!
