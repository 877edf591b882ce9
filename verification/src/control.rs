//! Control plane: agent-based command mailbox.
//!
//! The server holds a mailbox keyed by hostname. Each entry holds one
//! pending command (or none). The push agent on each node polls the
//! mailbox, acks a pending command, then executes it locally.
use vstd::prelude::*;

use crate::collector::{Snapshot, Timestamp};
use crate::store::NodeStore;
use crate::table::{entries_map, keys_distinct, HostTable};
use crate::text::{
    append_str, chars_of, has_prefix, occurs_at_exec, owned, starts_with, string_of, string_of_range, trim, trim_chars,
};

verus! {

/// The operation a node should perform.
#[derive(Debug, Clone, Copy, PartialEq, Eq, Structural)]
pub enum CommandOp {
    Restart,
    Shutdown,
}

impl CommandOp {
    /// The shell command that carries out `self` on a node.
    pub open spec fn spec_shell_command(self) -> Seq<char> {
        match self {
            CommandOp::Restart => "sudo shutdown -r now"@,
            CommandOp::Shutdown => "sudo shutdown -h now"@,
        }
    }

    /// The shell command executed on the node for this op.
    pub fn shell_command(&self) -> (r: &'static str)
        ensures
            r@ == self.spec_shell_command(),
    {
        match self {
            CommandOp::Restart => "sudo shutdown -r now",
            CommandOp::Shutdown => "sudo shutdown -h now",
        }
    }
}

/// A pending command for one node.
#[derive(Debug, Clone, Copy)]
pub struct Command {
    pub op: CommandOp,
    pub issued_at: Timestamp,
}

/// The command pending for `hostname`, if any.
pub open spec fn pending_for(mailbox: Map<Seq<char>, Command>, hostname: Seq<char>) -> Option<Command> {
    if mailbox.contains_key(hostname) {
        Some(mailbox[hostname])
    } else {
        None
    }
}

/// `after` and `r` are what posting `op` for `hostname` at time `issued_at`
/// on `before` gives: queued, stamped with `issued_at`, when no command was
/// pending for the host; refused, with nothing changed, when one was.
pub open spec fn posted(
    before: Map<Seq<char>, Command>,
    after: Map<Seq<char>, Command>,
    hostname: Seq<char>,
    op: CommandOp,
    issued_at: Timestamp,
    r: bool,
) -> bool {
    &&& r == !before.contains_key(hostname)
    &&& r ==> after == before.insert(hostname, Command { op, issued_at })
    &&& !r ==> after == before
}

/// `after` and `r` are what acking `hostname` on `before` gives: its pending
/// command cleared, and whether there was one.
pub open spec fn acked(
    before: Map<Seq<char>, Command>,
    after: Map<Seq<char>, Command>,
    hostname: Seq<char>,
    r: bool,
) -> bool {
    &&& r == before.contains_key(hostname)
    &&& after == before.remove(hostname)
}

/// Mailbox of pending commands keyed by hostname, at most one per host.
pub struct Mailbox {
    pending: HostTable<Command>,
}

impl View for Mailbox {
    type V = Map<Seq<char>, Command>;

    closed spec fn view(&self) -> Map<Seq<char>, Command> {
        self.pending@
    }
}

impl Mailbox {
    #[verifier::type_invariant]
    closed spec fn inv(self) -> bool {
        self.pending.wf()
    }

    /// An empty mailbox.
    pub fn new() -> (r: Self)
        ensures
            r@ == Map::<Seq<char>, Command>::empty(),
    {
        Mailbox { pending: HostTable::new() }
    }

    /// Queue a command for a hostname, stamped with `issued_at` (the time of
    /// the request). Returns `true` if queued, `false` if a command is already
    /// pending (the mailbox is then left as it was).
    pub fn post(&mut self, hostname: &str, op: CommandOp, issued_at: Timestamp) -> (r: bool)
        ensures
            posted(old(self)@, final(self)@, hostname@, op, issued_at, r),
    {
        proof {
            use_type_invariant(&*self);
        }
        if self.pending.get(hostname).is_some() {
            return false;
        }
        let command = Command { op, issued_at };
        let mut pending = HostTable::new();
        std::mem::swap(&mut pending, &mut self.pending);
        pending.insert(String::from_str(hostname), command);
        self.pending = pending;
        true
    }

    /// Get the pending command for a hostname, if any.
    pub fn poll(&self, hostname: &str) -> (r: Option<Command>)
        ensures
            r == pending_for(self@, hostname@),
    {
        proof {
            use_type_invariant(self);
        }
        match self.pending.get(hostname) {
            Some(c) => Some(*c),
            None => None,
        }
    }

    /// Clear the pending command for a hostname.
    /// Returns `true` if cleared, `false` if no command was pending.
    pub fn ack(&mut self, hostname: &str) -> (r: bool)
        ensures
            acked(old(self)@, final(self)@, hostname@, r),
    {
        proof {
            use_type_invariant(&*self);
        }
        let mut pending = HostTable::new();
        std::mem::swap(&mut pending, &mut self.pending);
        let removed = pending.remove(hostname);
        self.pending = pending;
        removed.is_some()
    }

    /// List all pending commands (hostname → command), one entry per host.
    pub fn all(&self) -> (r: Vec<(String, Command)>)
        ensures
            keys_distinct(r@),
            entries_map(r@) == self@,
    {
        proof {
            use_type_invariant(self);
        }
        let entries = self.pending.entries();
        let mut out: Vec<(String, Command)> = Vec::new();
        let mut i: usize = 0;
        while i < entries.len()
            invariant
                i <= entries@.len(),
                keys_distinct(entries@),
                out@.len() == i,
                forall|j: int| 0 <= j < i ==> (#[trigger] out@[j]).0@ == entries@[j].0@ && out@[j].1 == entries@[j].1,
            decreases entries.len() - i,
        {
            let (h, c) = &entries[i];
            out.push((h.clone(), *c));
            i = i + 1;
        }
        proof {
            lemma_entries_map_same_keys(out@, entries@);
        }
        out
    }
}

/// Two entry lists with the same keys and values, position by position,
/// stand for the same map.
pub proof fn lemma_entries_map_same_keys<V>(a: Seq<(String, V)>, b: Seq<(String, V)>)
    requires
        a.len() == b.len(),
        forall|j: int| 0 <= j < a.len() ==> (#[trigger] a[j]).0@ == b[j].0@ && a[j].1 == b[j].1,
    ensures
        entries_map(a) == entries_map(b),
        keys_distinct(a) == keys_distinct(b),
    decreases a.len(),
{
    if a.len() > 0 {
        lemma_entries_map_same_keys(a.drop_last(), b.drop_last());
        assert(a.last().0@ == b.last().0@);
    }
    assert(keys_distinct(a) == keys_distinct(b)) by {
        if keys_distinct(a) {
            assert forall|i: int, j: int| 0 <= i < j < b.len() implies b[i].0@ != b[j].0@ by {
                assert(a[i].0@ == b[i].0@);
                assert(a[j].0@ == b[j].0@);
            }
        }
        if keys_distinct(b) {
            assert forall|i: int, j: int| 0 <= i < j < a.len() implies a[i].0@ != a[j].0@ by {
                assert(a[i].0@ == b[i].0@);
                assert(a[j].0@ == b[j].0@);
            }
        }
    }
}

impl Default for Mailbox {
    fn default() -> (r: Self)
        ensures
            r@ == Map::<Seq<char>, Command>::empty(),
    {
        Self::new()
    }
}

/// Control-plane configuration from the server config file.
#[derive(Debug, Clone, Copy)]
pub struct ControlConfig {
    /// Master switch. Control plane is off by default.
    pub enabled: bool,
}

impl Default for ControlConfig {
    fn default() -> (r: Self)
        ensures
            !r.enabled,
    {
        ControlConfig { enabled: false }
    }
}

/// The prefix of the `User-Agent` header that push agents send.
pub open spec fn agent_prefix() -> Seq<char> {
    "dgmon-push/"@
}

/// The hostname a push agent names in its `User-Agent` header
/// (`dgmon-push/<hostname>`), trimmed; none for another agent or an empty name.
pub open spec fn spec_hostname_from_user_agent(ua: Seq<char>) -> Option<Seq<char>> {
    if has_prefix(ua, agent_prefix()) {
        let host = trim(ua.skip(agent_prefix().len() as int));
        if host.len() == 0 {
            None
        } else {
            Some(host)
        }
    } else {
        None
    }
}

/// Parse the hostname from a `dgmon-push/<hostname>` User-Agent header value.
pub fn hostname_from_user_agent(ua: &str) -> (r: Option<String>)
    ensures
        r matches Some(h) ==> spec_hostname_from_user_agent(ua@) == Some(h@),
        r is None ==> spec_hostname_from_user_agent(ua@) is None,
{
    let cs = chars_of(ua);
    let prefix = chars_of("dgmon-push/");
    if !starts_with(&cs, &prefix) {
        return None;
    }
    let mut rest: Vec<char> = Vec::new();
    let mut i = prefix.len();
    while i < cs.len()
        invariant
            prefix.len() <= i <= cs.len(),
            rest@ == cs@.subrange(prefix@.len() as int, i as int),
        decreases cs.len() - i,
    {
        rest.push(cs[i]);
        i = i + 1;
    }
    assert(rest@ =~= ua@.skip(agent_prefix().len() as int));
    let host = trim_chars(&rest);
    if host.len() == 0 {
        None
    } else {
        Some(string_of(&host))
    }
}

/// What a request to queue a command comes to.
#[derive(Debug, Clone, Copy, PartialEq, Eq, Structural)]
pub enum PostOutcome {
    /// No kept snapshot names the host.
    NodeNotFound,
    /// The command was queued.
    Queued,
    /// A command is already pending for the host; nothing changed.
    AlreadyPending,
}

/// Queue `op` for `hostname`, which must be a node that has reported,
/// stamped with `issued_at`.
pub fn post_command(
    mailbox: &mut Mailbox,
    nodes: &NodeStore,
    hostname: &str,
    op: CommandOp,
    issued_at: Timestamp,
) -> (r: PostOutcome)
    ensures
        !(exists|i: int|
            0 <= i < nodes.listing().len() && #[trigger] nodes.listing()[i].1.host.hostname@
                == hostname@) ==> r == PostOutcome::NodeNotFound && final(mailbox)@ == old(
            mailbox,
        )@,
        (exists|i: int|
            0 <= i < nodes.listing().len() && #[trigger] nodes.listing()[i].1.host.hostname@
                == hostname@) ==> {
            &&& posted(old(mailbox)@, final(mailbox)@, hostname@, op, issued_at, r == PostOutcome::Queued)
            &&& r != PostOutcome::NodeNotFound
        },
{
    if !nodes.knows_host(hostname) {
        return PostOutcome::NodeNotFound;
    }
    if mailbox.post(hostname, op, issued_at) {
        PostOutcome::Queued
    } else {
        PostOutcome::AlreadyPending
    }
}

/// One line of the control-plane node listing.
#[derive(Debug, Clone)]
pub struct ControlNode {
    pub hostname: String,
    pub gpus: usize,
    pub timestamp: Timestamp,
    pub pending_command: Option<Command>,
}

/// Every node with its GPU count, its snapshot time and the command pending
/// for its host name, snapshot by snapshot.
pub fn control_nodes(snaps: &Vec<&Snapshot>, mailbox: &Mailbox) -> (r: Vec<ControlNode>)
    ensures
        r@.len() == snaps@.len(),
        forall|i: int|
            0 <= i < r@.len() ==> {
                let s = #[trigger] snaps@[i];
                &&& r@[i].hostname@ == s.host.hostname@
                &&& r@[i].gpus == s.gpus@.len()
                &&& r@[i].timestamp == s.timestamp
                &&& r@[i].pending_command == pending_for(mailbox@, s.host.hostname@)
            },
{
    let mut out: Vec<ControlNode> = Vec::new();
    let mut i: usize = 0;
    while i < snaps.len()
        invariant
            i <= snaps@.len(),
            out@.len() == i,
            forall|j: int|
                0 <= j < i ==> {
                    let s = #[trigger] snaps@[j];
                    &&& out@[j].hostname@ == s.host.hostname@
                    &&& out@[j].gpus == s.gpus@.len()
                    &&& out@[j].timestamp == s.timestamp
                    &&& out@[j].pending_command == pending_for(mailbox@, s.host.hostname@)
                },
        decreases snaps.len() - i,
    {
        let s = snaps[i];
        let node = ControlNode {
            hostname: s.host.hostname.clone(),
            gpus: s.gpus.len(),
            timestamp: s.timestamp,
            pending_command: mailbox.poll(s.host.hostname.as_str()),
        };
        out.push(node);
        i = i + 1;
    }
    out
}

/// What the server answers a push agent that polls its mailbox.
#[derive(Debug, Clone, Copy)]
pub enum PollAnswer {
    /// The `User-Agent` header does not name a push agent.
    BadUserAgent,
    /// A command is pending for the agent's host.
    Pending(Command),
    /// Nothing is pending for the agent's host.
    NothingPending,
}

/// Answer a push agent that polls the mailbox with this `User-Agent` header
/// (none when the request has no readable one).
pub fn agent_poll(mailbox: &Mailbox, user_agent: Option<&str>) -> (r: PollAnswer)
    ensures
        match user_agent {
            None => r is BadUserAgent,
            Some(ua) => match spec_hostname_from_user_agent(ua@) {
                None => r is BadUserAgent,
                Some(h) => match pending_for(mailbox@, h) {
                    Some(c) => r == PollAnswer::Pending(c),
                    None => r is NothingPending,
                },
            },
        },
{
    let ua = match user_agent {
        Some(ua) => ua,
        None => {
            return PollAnswer::BadUserAgent;
        },
    };
    match hostname_from_user_agent(ua) {
        None => PollAnswer::BadUserAgent,
        Some(h) => match mailbox.poll(h.as_str()) {
            Some(c) => PollAnswer::Pending(c),
            None => PollAnswer::NothingPending,
        },
    }
}

/// What the server answers a push agent that acks its pending command.
#[derive(Debug, Clone)]
pub enum AckAnswer {
    /// The `User-Agent` header does not name a push agent.
    BadUserAgent,
    /// The command pending for this host was cleared.
    Acked(String),
    /// No command was pending for this host.
    NoCommand(String),
}

/// Clear the command pending for the push agent that sends this
/// `User-Agent` header (none when the request has no readable one).
pub fn agent_ack(mailbox: &mut Mailbox, user_agent: Option<&str>) -> (r: AckAnswer)
    ensures
        match user_agent {
            None => r is BadUserAgent && final(mailbox)@ == old(mailbox)@,
            Some(ua) => match spec_hostname_from_user_agent(ua@) {
                None => r is BadUserAgent && final(mailbox)@ == old(mailbox)@,
                Some(h) => {
                    &&& acked(old(mailbox)@, final(mailbox)@, h, r is Acked)
                    &&& r matches AckAnswer::Acked(x) ==> x@ == h
                    &&& r matches AckAnswer::NoCommand(x) ==> x@ == h
                    &&& r !is BadUserAgent
                },
            },
        },
{
    let ua = match user_agent {
        Some(ua) => ua,
        None => {
            return AckAnswer::BadUserAgent;
        },
    };
    match hostname_from_user_agent(ua) {
        None => AckAnswer::BadUserAgent,
        Some(h) => {
            if mailbox.ack(h.as_str()) {
                AckAnswer::Acked(h)
            } else {
                AckAnswer::NoCommand(h)
            }
        },
    }
}

// ---------------------------------------------------------------------
// The push agent's side of the mailbox.
// ---------------------------------------------------------------------
/// The `User-Agent` header a push agent sends: `dgmon-push/<hostname>`.
pub fn agent_user_agent(hostname: &str) -> (r: String)
    ensures
        r@ == agent_prefix() + hostname@,
{
    let mut out = owned("dgmon-push/");
    append_str(&mut out, hostname);
    out
}

/// The server's base URL as an agent knows it: its ingest URL without a
/// trailing `/ingest`.
pub open spec fn spec_server_base(ingest_url: Seq<char>) -> Seq<char> {
    let suffix = "/ingest"@;
    if suffix.len() <= ingest_url.len() && ingest_url.skip(ingest_url.len() - suffix.len()) == suffix {
        ingest_url.take(ingest_url.len() - suffix.len())
    } else {
        ingest_url
    }
}

/// The server's base URL, from the ingest URL an agent pushes to.
pub fn server_base(ingest_url: &str) -> (r: String)
    ensures
        r@ == spec_server_base(ingest_url@),
{
    let cs = chars_of(ingest_url);
    let suffix = chars_of("/ingest");
    if suffix.len() <= cs.len() {
        let start = cs.len() - suffix.len();
        if occurs_at_exec(&cs, &suffix, start) {
            assert(cs@.skip(start as int) =~= cs@.subrange(start as int, start + suffix@.len()));
            let r = string_of_range(&cs, 0, start);
            assert(cs@.subrange(0, start as int) =~= cs@.take(start as int));
            return r;
        }
        assert(cs@.skip(start as int) =~= cs@.subrange(start as int, start + suffix@.len()));
    }
    owned(ingest_url)
}

/// The mailbox URL of the server an agent pushes to.
pub fn mailbox_url(ingest_url: &str) -> (r: String)
    ensures
        r@ == spec_server_base(ingest_url@) + "/api/v1/control/mailbox"@,
{
    let mut out = server_base(ingest_url);
    append_str(&mut out, "/api/v1/control/mailbox");
    out
}

/// The mailbox acknowledgement URL of the server an agent pushes to.
pub fn mailbox_ack_url(ingest_url: &str) -> (r: String)
    ensures
        r@ == spec_server_base(ingest_url@) + "/api/v1/control/mailbox/ack"@,
{
    let mut out = server_base(ingest_url);
    append_str(&mut out, "/api/v1/control/mailbox/ack");
    out
}

/// The command an agent acts on after polling: the one polled when the
/// server answered 200 with a command, else none.
pub fn command_to_ack(poll_status: u16, polled: Option<CommandOp>) -> (r: Option<CommandOp>)
    ensures
        r == (if poll_status == 200 {
            polled
        } else {
            None
        }),
{
    if poll_status == 200 {
        polled
    } else {
        None
    }
}

} // verus!
