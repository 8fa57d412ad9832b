use vstd::prelude::*;

use crate::message::{Message, is_plain_message};
use crate::sort::{apply_order, is_permutation, is_stable_sorted, key_bytes, sort_order_spec, stable_sort_order, string_keys};
use crate::text::{
    decimal, digits_in_base, digits_value, is_digit, lemma_decimal_digits, format_decimal, format_hex_padded, pad_left, parse_u64, parse_u64_spec,
    str_eq, to_chars, from_chars,
};

verus! {

/// The number of seconds since the Unix epoch now.
/// Calls `SystemTime::now` and `duration_since(UNIX_EPOCH)` (a clock before
/// the epoch counts as zero) and takes the whole seconds. Nothing is promised
/// of the value: it is the time.
#[verifier::external_body]
pub(crate) fn unix_now() -> (secs: u64) {
    std::time::SystemTime::now().duration_since(std::time::UNIX_EPOCH).unwrap_or_default().as_secs()
}

/// A saved conversation.
pub struct Session {
    pub id: String,
    pub title: String,
    pub model: String,
    pub created_at: String,
    pub updated_at: String,
    pub messages: Vec<Message>,
}

/// The session being worked on, if any.
pub struct SessionManager {
    pub current: Option<Session>,
}

/// The title a session has until it is saved with a user message.
pub open spec fn placeholder_title() -> Seq<char> {
    "New Session"@
}

/// The id of a session started at `now`: "ses_", the time, "_", and the time
/// modulo 100000 in five hexadecimal digits.
pub open spec fn session_id_spec(now: u64) -> Seq<char> {
    "ses_"@ + decimal(now as nat) + "_"@ + pad_left(digits_in_base((now % 100000) as nat, 16), 5, '0')
}

/// The id of a session started at `now` (see `session_id_spec`).
pub fn session_id_for(now: u64) -> (r: String)
    ensures
        r@ == session_id_spec(now),
{
    let mut r = String::new();
    r.append("ses_");
    let ts = format_decimal(now as u128);
    r.append(ts.as_str());
    r.append("_");
    let tail = format_hex_padded((now % 100000) as u128, 5);
    r.append(tail.as_str());
    r
}

/// Sessions started at different seconds get different ids.
pub proof fn lemma_session_ids_distinct(a: u64, b: u64)
    requires
        a != b,
    ensures
        session_id_spec(a) != session_id_spec(b),
{
    lemma_decimal_digits(a as nat);
    lemma_decimal_digits(b as nat);
    reveal_strlit("ses_");
    reveal_strlit("_");
    let da = decimal(a as nat);
    let db = decimal(b as nat);
    let sa = session_id_spec(a);
    let sb = session_id_spec(b);
    let ta = pad_left(digits_in_base((a % 100000) as nat, 16), 5, '0');
    let tb = pad_left(digits_in_base((b % 100000) as nat, 16), 5, '0');
    assert(sa == "ses_"@ + da + "_"@ + ta);
    assert(sb == "ses_"@ + db + "_"@ + tb);
    if sa == sb {
        if da.len() == db.len() {
            assert(sa.subrange(4, 4 + da.len() as int) =~= da);
            assert(sb.subrange(4, 4 + db.len() as int) =~= db);
            assert(digits_value(da) == digits_value(db));
        } else if da.len() < db.len() {
            assert(sa[4 + da.len() as int] == '_');
            assert(sb[4 + da.len() as int] == db[da.len() as int]);
            assert(is_digit(db[da.len() as int]));
        } else {
            assert(sb[4 + db.len() as int] == '_');
            assert(sa[4 + db.len() as int] == da[db.len() as int]);
            assert(is_digit(da[db.len() as int]));
        }
    }
}

/// The number of messages of `msgs` that are not the system prompt.
pub open spec fn non_system_count(msgs: Seq<Message>) -> nat
    decreases msgs.len(),
{
    if msgs.len() == 0 {
        0
    } else {
        non_system_count(msgs.drop_last()) + if msgs.last().role@ == "system"@ { 0nat } else { 1nat }
    }
}

/// The message count of a session is the number of its messages whose role
/// is not "system": user, assistant and tool messages all count.
pub proof fn lemma_non_system_count_counts_every_other_role(msgs: Seq<Message>)
    ensures
        non_system_count(msgs) == msgs.filter(|m: Message| m.role@ != "system"@).len(),
    decreases msgs.len(),
{
    let pred = |m: Message| m.role@ != "system"@;
    if msgs.len() > 0 {
        let front = msgs.drop_last();
        lemma_non_system_count_counts_every_other_role(front);
        assert(msgs =~= front + seq![msgs.last()]);
        Seq::filter_distributes_over_add(front, seq![msgs.last()], pred);
        reveal_with_fuel(Seq::<_>::filter, 2);
        assert(seq![msgs.last()].drop_last() =~= Seq::<Message>::empty());
    }
}

/// The number of messages of `msgs` that are not the system prompt.
pub fn count_non_system(msgs: &Vec<Message>) -> (n: usize)
    ensures
        n == non_system_count(msgs@),
        n == msgs@.filter(|m: Message| m.role@ != "system"@).len(),
{
    proof {
        lemma_non_system_count_counts_every_other_role(msgs@);
    }
    let mut n: usize = 0;
    let len = msgs.len();
    for i in 0..len
        invariant
            len == msgs@.len(),
            n == non_system_count(msgs@.take(i as int)),
            n <= i,
    {
        assert(msgs@.take(i + 1).drop_last() =~= msgs@.take(i as int));
        if !msgs[i].is_system() {
            n = n + 1;
        }
    }
    assert(msgs@.take(len as int) =~= msgs@);
    n
}

/// The title given to a session from its messages: the first 60 characters
/// of its first user message, if it has one.
pub open spec fn auto_title_spec(msgs: Seq<Message>) -> Option<Seq<char>>
    decreases msgs.len(),
{
    if msgs.len() == 0 {
        None
    } else if msgs[0].role@ == "user"@ {
        let c = msgs[0].content@;
        Some(if c.len() > 60 { c.take(60) } else { c })
    } else {
        auto_title_spec(msgs.drop_first())
    }
}

/// The title given to a session from its messages (see `auto_title_spec`).
pub fn auto_title(msgs: &Vec<Message>) -> (r: Option<String>)
    ensures
        match r {
            Some(t) => auto_title_spec(msgs@) == Some(t@),
            None => auto_title_spec(msgs@) is None,
        },
{
    let n = msgs.len();
    assert(msgs@.skip(0) =~= msgs@);
    for i in 0..n
        invariant
            n == msgs@.len(),
            auto_title_spec(msgs@) == auto_title_spec(msgs@.skip(i as int)),
    {
        assert(msgs@.skip(i as int)[0] == msgs@[i as int]);
        if str_eq(msgs[i].role.as_str(), "user") {
            let c = to_chars(msgs[i].content.as_str());
            let take = if c.len() > 60 { 60 } else { c.len() };
            let t = from_chars(&c.as_slice()[0..take]);
            assert(c@.subrange(0, take as int) =~= if c@.len() > 60 { c@.take(60) } else { c@ });
            return Some(t);
        }
        assert(msgs@.skip(i as int).drop_first() =~= msgs@.skip(i + 1));
    }
    None
}

/// Whether `s1` is the session `s0` made ready to save at time `now`: the
/// same but for its update time, which is `now`, and its title, which a
/// session still called "New Session" takes from its first user message.
pub open spec fn prepared_for_save(s0: Session, s1: Session, now: u64) -> bool {
    &&& s1.id == s0.id
    &&& s1.model == s0.model
    &&& s1.created_at == s0.created_at
    &&& s1.messages == s0.messages
    &&& s1.updated_at@ == decimal(now as nat)
    &&& s1.title@ == if s0.title@ == placeholder_title() && auto_title_spec(s0.messages@) is Some {
        auto_title_spec(s0.messages@)->0
    } else {
        s0.title@
    }
}

impl SessionManager {
    /// A manager with no session yet.
    pub fn new() -> (m: Self)
        ensures
            m.current is None,
    {
        SessionManager { current: None }
    }

    /// The session being worked on, if any.
    pub fn current(&self) -> (r: Option<&Session>)
        ensures
            match self.current {
                Some(s) => r == Some(&s),
                None => r is None,
            },
    {
        self.current.as_ref()
    }

    /// The session being worked on, to change in place, if any.
    pub fn current_mut(&mut self) -> (r: Option<&mut Session>)
        ensures
            old(self).current is None ==> r is None && final(self).current is None,
            old(self).current is Some ==> (r matches Some(s) && old(self).current == Some(*s)
                && final(self).current == Some(*final(s))),
    {
        self.current.as_mut()
    }

    /// Starts a new session at time `now` for `model`, holding `messages`.
    pub fn start_new_at(&mut self, model: &str, messages: Vec<Message>, now: u64)
        ensures
            final(self).current matches Some(s) && {
                &&& s.id@ == session_id_spec(now)
                &&& s.title@ == placeholder_title()
                &&& s.model@ == model@
                &&& s.created_at@ == decimal(now as nat)
                &&& s.updated_at@ == decimal(now as nat)
                &&& s.messages@ == messages@
            },
    {
        let stamp = format_decimal(now as u128);
        let session = Session {
            id: session_id_for(now),
            title: "New Session".to_owned(),
            model: model.to_owned(),
            created_at: stamp.clone(),
            updated_at: stamp,
            messages,
        };
        self.current = Some(session);
    }

    /// Starts a new session now for `model`, holding `messages`.
    pub fn start_new(&mut self, model: &str, messages: Vec<Message>)
        ensures
            final(self).current matches Some(s) && {
                &&& s.title@ == placeholder_title()
                &&& s.model@ == model@
                &&& s.created_at@ == s.updated_at@
                &&& s.messages@ == messages@
                &&& exists|now: u64| #[trigger] session_id_spec(now) == s.id@ && s.created_at@ == decimal(now as nat)
            },
    {
        let now = unix_now();
        self.start_new_at(model, messages, now);
        assert(self.current matches Some(s) && session_id_spec(now) == s.id@);
    }

    /// Makes the current session ready to save at time `now`: a session still
    /// called "New Session" takes its title from its first user message, and
    /// its update time becomes `now`. Says whether there is a session.
    pub fn prepare_save_at(&mut self, now: u64) -> (r: bool)
        ensures
            r == old(self).current is Some,
            old(self).current is None ==> final(self).current is None,
            old(self).current matches Some(s0) ==> final(self).current matches Some(s1)
                && prepared_for_save(s0, s1, now),
    {
        match self.current.take() {
            None => false,
            Some(mut s) => {
                if str_eq(s.title.as_str(), "New Session") {
                    match auto_title(&s.messages) {
                        Some(t) => {
                            s.title = t;
                        },
                        None => {},
                    }
                }
                s.updated_at = format_decimal(now as u128);
                self.current = Some(s);
                true
            },
        }
    }

    /// Makes the current session ready to save now (see `prepare_save_at`).
    pub fn prepare_save(&mut self) -> (r: bool)
        ensures
            r == old(self).current is Some,
            old(self).current is None ==> final(self).current is None,
            old(self).current matches Some(s0) ==> final(self).current matches Some(s1)
                && exists|now: u64| #[trigger] prepared_for_save(s0, s1, now),
    {
        let now = unix_now();
        self.prepare_save_at(now)
    }

    /// Makes the session `loaded`, the one read for `id`, the current one and
    /// gives it back; fails with "Session '<id>' not found" when none was read.
    pub fn load_into(&mut self, id: &str, loaded: Option<Session>) -> (r: Result<&Session, String>)
        ensures
            loaded is Some ==> final(self).current == loaded && (r matches Ok(s) && Some(*s) == loaded),
            loaded is None ==> final(self).current == old(self).current && (r matches Err(e)
                && e@ == "Session '"@ + id@ + "' not found"@),
    {
        match loaded {
            Some(s) => {
                self.current = Some(s);
                Ok(self.current.as_ref().unwrap())
            },
            None => {
                let mut e = String::new();
                e.append("Session '");
                e.append(id);
                e.append("' not found");
                Err(e)
            },
        }
    }

    /// The saved sessions `sessions`, most recently updated first (the order
    /// of their update times as strings; ties keep their order).
    pub fn list_sessions(sessions: Vec<Session>) -> (r: Vec<Session>)
        ensures
            r@ == Seq::new(sessions@.len(), |k: int| sessions@[recency_order(sessions@)[k] as int]),
            is_permutation(recency_order(sessions@), sessions@.len()),
            is_stable_sorted(update_keys(sessions@), recency_order(sessions@), true),
    {
        let n = sessions.len();
        let mut keys: Vec<String> = Vec::new();
        for i in 0..n
            invariant
                n == sessions@.len(),
                keys@.len() == i,
                forall|j: int| 0 <= j < i ==> #[trigger] keys@[j]@ == sessions@[j].updated_at@,
        {
            keys.push(sessions[i].updated_at.clone());
        }
        assert(string_keys(keys@) =~= update_keys(sessions@));
        let order = stable_sort_order(&keys, true);
        apply_order(sessions, &order)
    }

    /// The most recently updated of the saved sessions `sessions`.
    pub fn load_latest(sessions: Vec<Session>) -> (r: Option<Session>)
        ensures
            sessions@.len() == 0 ==> r is None,
            sessions@.len() > 0 ==> r == Some(sessions@[recency_order(sessions@)[0] as int]),
    {
        let mut listed = SessionManager::list_sessions(sessions);
        if listed.len() == 0 {
            None
        } else {
            let first = listed.swap_remove(0);
            Some(first)
        }
    }

    /// The id of the most recently updated of the saved sessions `sessions`.
    pub fn latest_id(sessions: Vec<Session>) -> (r: Option<String>)
        ensures
            sessions@.len() == 0 ==> r is None,
            sessions@.len() > 0 ==> (r matches Some(id) && id@ == sessions@[recency_order(sessions@)[0] as int].id@),
    {
        match SessionManager::load_latest(sessions) {
            Some(s) => Some(s.id),
            None => None,
        }
    }
}

impl Default for SessionManager {
    fn default() -> (m: Self)
        ensures
            m.current is None,
    {
        SessionManager::new()
    }
}

/// The sort keys of sessions: their update times.
pub open spec fn update_keys(sessions: Seq<Session>) -> Seq<Seq<u8>> {
    sessions.map_values(|s: Session| key_bytes(s.updated_at@))
}

/// The order in which saved sessions are listed: most recently updated first.
pub open spec fn recency_order(sessions: Seq<Session>) -> Seq<usize> {
    sort_order_spec(update_keys(sessions), sessions.len(), true)
}

/// The time written in `s` as seconds; text that does not read as a `u64` counts as 0.
pub open spec fn stamp_seconds(s: Seq<char>) -> u64 {
    match parse_u64_spec(s) {
        Some(t) => t,
        None => 0,
    }
}

/// How long ago `then` was, at `now`, in the largest whole unit that fits.
pub open spec fn age_text(then: u64, now: u64) -> Seq<char> {
    let diff: nat = if now >= then { (now - then) as nat } else { 0 };
    if diff < 60 {
        "just now"@
    } else if diff < 3600 {
        decimal(diff / 60) + "m ago"@
    } else if diff < 86400 {
        decimal(diff / 3600) + "h ago"@
    } else {
        decimal(diff / 86400) + "d ago"@
    }
}

/// How long ago the time `updated_at` (seconds, as text; unreadable text counts as 0) was at `now`.
pub fn format_age_at(updated_at: &str, now: u64) -> (r: String)
    ensures
        r@ == age_text(stamp_seconds(updated_at@), now),
{
    let ts: u64 = match parse_u64(updated_at) {
        Some(t) => t,
        None => 0,
    };
    let diff: u64 = if now >= ts { now - ts } else { 0 };
    if diff < 60 {
        "just now".to_owned()
    } else if diff < 3600 {
        let mut r = format_decimal((diff / 60) as u128);
        r.append("m ago");
        r
    } else if diff < 86400 {
        let mut r = format_decimal((diff / 3600) as u128);
        r.append("h ago");
        r
    } else {
        let mut r = format_decimal((diff / 86400) as u128);
        r.append("d ago");
        r
    }
}

/// How long ago the time `updated_at` was, now.
pub fn format_age(updated_at: &str) -> (r: String)
    ensures
        exists|now: u64| r@ == #[trigger] age_text(stamp_seconds(updated_at@), now),
{
    let now = unix_now();
    format_age_at(updated_at, now)
}

/// The summary of a session: how many messages it holds besides the system prompt.
pub fn session_summary(session: &Session) -> (r: String)
    ensures
        r@ == decimal(non_system_count(session.messages@)) + " msgs"@,
{
    let n = count_non_system(&session.messages);
    let mut r = format_decimal(n as u128);
    r.append(" msgs");
    r
}

} // verus!
