use vstd::prelude::*;

use crate::headroom::{flush_allowed, may_flush_control};

verus! {

/// A control command (SyncPumpFan, PushRgbData, ...) that the control channel
/// handed to the stream thread because the panel was busy ingesting H.264.
/// Sent verbatim at the next safe point; the reply is read and discarded
/// after `reply_wait_ms`.
pub struct PendingCmd {
    pub label: String,
    pub packet: Vec<u8>,
    pub reply_wait_ms: u64,
    /// Monotonic timestamp, in milliseconds, of the moment it was queued.
    pub queued_at_ms: u64,
    /// May this go out between chunks once the panel reports headroom?
    pub play_safe: bool,
}

/// No two queued commands carry the same label.
pub open spec fn labels_distinct(s: Seq<PendingCmd>) -> bool {
    forall|i: int, j: int| 0 <= i < j < s.len() ==> s[i].label@ != s[j].label@
}

/// The queue with every command of the given label removed.
pub open spec fn without_label(s: Seq<PendingCmd>, label: Seq<char>) -> Seq<PendingCmd> {
    s.filter(label_differs(label))
}

/// Does a command carry a label other than `label`?
pub open spec fn label_differs(label: Seq<char>) -> spec_fn(PendingCmd) -> bool {
    |c: PendingCmd| c.label@ != label
}

/// Does a command carry `label`?
pub open spec fn label_is(label: Seq<char>) -> spec_fn(PendingCmd) -> bool {
    |c: PendingCmd| c.label@ == label
}

/// The commands that may go out mid-stream, in queue order.
pub open spec fn play_safe_cmds(s: Seq<PendingCmd>) -> Seq<PendingCmd> {
    s.filter(|c: PendingCmd| c.play_safe)
}

/// The commands that must not go out mid-stream, in queue order.
pub open spec fn play_unsafe_cmds(s: Seq<PendingCmd>) -> Seq<PendingCmd> {
    s.filter(|c: PendingCmd| !c.play_safe)
}

/// How long a command has waited at `now_ms` (zero for a clock reading taken
/// before it was queued).
pub open spec fn age_at(c: PendingCmd, now_ms: u64) -> u64 {
    if now_ms >= c.queued_at_ms {
        (now_ms - c.queued_at_ms) as u64
    } else {
        0
    }
}

/// The longest wait among the play-safe commands, if there is one.
pub open spec fn oldest_play_safe_age(s: Seq<PendingCmd>, now_ms: u64) -> Option<u64>
    decreases s.len(),
{
    if s.len() == 0 {
        None
    } else {
        let rest = oldest_play_safe_age(s.drop_last(), now_ms);
        let c = s.last();
        if !c.play_safe {
            rest
        } else {
            match rest {
                None => Some(age_at(c, now_ms)),
                Some(a) => Some(if a >= age_at(c, now_ms) { a } else { age_at(c, now_ms) }),
            }
        }
    }
}

/// Some queued command may go out mid-stream.
pub open spec fn has_play_safe(s: Seq<PendingCmd>) -> bool {
    exists|i: int| 0 <= i < s.len() && #[trigger] s[i].play_safe
}

/// A flush between chunks: what it hands out to be sent, and what stays
/// queued. Only when some command may go out mid-stream and the flush rule
/// allows it do the play-safe commands leave the queue.
pub open spec fn flush_result(s: Seq<PendingCmd>, level: Option<u8>, now_ms: u64) -> (Seq<PendingCmd>, Seq<PendingCmd>) {
    if has_play_safe(s) && flush_allowed(level, oldest_play_safe_age(s, now_ms)) {
        (play_safe_cmds(s), play_unsafe_cmds(s))
    } else {
        (Seq::empty(), s)
    }
}

/// The end of a stream: what is sent, and what is dropped. After a clean
/// end the play-safe commands are sent and the others dropped; after an
/// error everything is dropped.
pub open spec fn stream_end_result(s: Seq<PendingCmd>, clean: bool) -> (Seq<PendingCmd>, Seq<PendingCmd>) {
    if clean {
        (play_safe_cmds(s), play_unsafe_cmds(s))
    } else {
        (Seq::empty(), s)
    }
}

/// Filtering keeps labels distinct, and keeps only elements of the source.
proof fn lemma_filter_keeps_distinct(s: Seq<PendingCmd>, p: spec_fn(PendingCmd) -> bool)
    requires
        labels_distinct(s),
    ensures
        labels_distinct(s.filter(p)),
        forall|k: int| 0 <= k < s.filter(p).len() ==> s.contains(#[trigger] s.filter(p)[k]),
    decreases s.len(),
{
    reveal(Seq::filter);
    if s.len() > 0 {
        let init = s.drop_last();
        assert(labels_distinct(init));
        lemma_filter_keeps_distinct(init, p);
        let f = init.filter(p);
        assert forall|k: int| 0 <= k < f.len() implies #[trigger] f[k].label@ != s.last().label@ by {
            assert(init.contains(f[k]));
            let j = choose|j: int| 0 <= j < init.len() && init[j] == f[k];
            assert(s[j] == f[k]);
        }
        assert forall|k: int| 0 <= k < s.filter(p).len() implies s.contains(#[trigger] s.filter(p)[k]) by {
            if k < f.len() {
                assert(init.contains(f[k]));
                let j = choose|j: int| 0 <= j < init.len() && init[j] == f[k];
                assert(s[j] == init[j]);
            } else {
                assert(s[s.len() - 1] == s.last());
            }
        }
    }
}

/// Every element of a filtered sequence satisfies the predicate.
proof fn lemma_filter_all(s: Seq<PendingCmd>, p: spec_fn(PendingCmd) -> bool)
    ensures
        forall|k: int| 0 <= k < s.filter(p).len() ==> p(#[trigger] s.filter(p)[k]),
{
    broadcast use vstd::seq_lib::group_filter_ensures;
}

/// Queue of deferred control commands; at most one per label.
pub struct PendingQueue {
    cmds: Vec<PendingCmd>,
}

impl View for PendingQueue {
    type V = Seq<PendingCmd>;

    closed spec fn view(&self) -> Seq<PendingCmd> {
        self.cmds@
    }
}

impl PendingQueue {
    #[verifier::type_invariant]
    spec fn inv(self) -> bool {
        labels_distinct(self.cmds@)
    }

    pub fn new() -> (q: PendingQueue)
        ensures
            q@ == Seq::<PendingCmd>::empty(),
    {
        PendingQueue { cmds: Vec::new() }
    }

    /// Queue a control command. Latest wins per label: an older command with
    /// the same label still waiting is replaced, not appended.
    pub fn defer(&mut self, cmd: PendingCmd)
        ensures
            final(self)@ == without_label(old(self)@, cmd.label@).push(cmd),
            labels_distinct(final(self)@),
    {
        proof { use_type_invariant(&*self); }
        let ghost orig = self.cmds@;
        let mut old_cmds: Vec<PendingCmd> = Vec::new();
        std::mem::swap(&mut self.cmds, &mut old_cmds);
        let mut kept: Vec<PendingCmd> = Vec::new();
        for c in it: old_cmds
            invariant
                it.seq() == orig,
                kept@ == without_label(orig.take(it.index() as int), cmd.label@),
        {
            proof {
                let i = it.index() as int;
                assert(orig.take(i + 1) == orig.take(i).push(c));
                orig.take(i).lemma_filter_push(c, label_differs(cmd.label@));
            }
            if c.label != cmd.label {
                kept.push(c);
            }
        }
        assert(orig.take(orig.len() as int) == orig);
        proof {
            lemma_filter_keeps_distinct(orig, label_differs(cmd.label@));
            lemma_filter_all(orig, label_differs(cmd.label@));
        }
        kept.push(cmd);
        self.cmds = kept;
    }

    pub fn has_pending(&self) -> (b: bool)
        ensures
            b == (self@.len() > 0),
    {
        !self.cmds.is_empty()
    }

    /// Take every queued command (stream over).
    pub fn take_pending(&mut self) -> (taken: Vec<PendingCmd>)
        ensures
            taken@ == old(self)@,
            final(self)@ == Seq::<PendingCmd>::empty(),
    {
        let mut taken: Vec<PendingCmd> = Vec::new();
        std::mem::swap(&mut self.cmds, &mut taken);
        taken
    }

    /// Take only the commands that may be sent mid-stream; the others stay
    /// queued, in their order.
    pub fn take_play_safe(&mut self) -> (safe: Vec<PendingCmd>)
        ensures
            safe@ == play_safe_cmds(old(self)@),
            final(self)@ == play_unsafe_cmds(old(self)@),
            labels_distinct(final(self)@),
    {
        proof { use_type_invariant(&*self); }
        let ghost orig = self.cmds@;
        let mut old_cmds: Vec<PendingCmd> = Vec::new();
        std::mem::swap(&mut self.cmds, &mut old_cmds);
        let mut safe: Vec<PendingCmd> = Vec::new();
        let mut rest: Vec<PendingCmd> = Vec::new();
        for c in it: old_cmds
            invariant
                it.seq() == orig,
                safe@ == play_safe_cmds(orig.take(it.index() as int)),
                rest@ == play_unsafe_cmds(orig.take(it.index() as int)),
        {
            proof {
                let i = it.index() as int;
                assert(orig.take(i + 1) == orig.take(i).push(c));
                orig.take(i).lemma_filter_push(c, |x: PendingCmd| x.play_safe);
                orig.take(i).lemma_filter_push(c, |x: PendingCmd| !x.play_safe);
            }
            if c.play_safe {
                safe.push(c);
            } else {
                rest.push(c);
            }
        }
        assert(orig.take(orig.len() as int) == orig);
        proof {
            lemma_filter_keeps_distinct(orig, |x: PendingCmd| !x.play_safe);
        }
        self.cmds = rest;
        safe
    }

    pub fn has_play_safe_pending(&self) -> (b: bool)
        ensures
            b == has_play_safe(self@),
    {
        let n = self.cmds.len();
        let mut i: usize = 0;
        while i < n
            invariant
                n == self@.len(),
                i <= n,
                forall|k: int| 0 <= k < i ==> !(#[trigger] self@[k].play_safe),
            decreases n - i,
        {
            if self.cmds[i].play_safe {
                return true;
            }
            i = i + 1;
        }
        false
    }

    /// The longest time any play-safe command has waited, measured at `now_ms`.
    pub fn oldest_play_safe_age(&self, now_ms: u64) -> (age: Option<u64>)
        ensures
            age == oldest_play_safe_age(self@, now_ms),
    {
        let n = self.cmds.len();
        let mut best: Option<u64> = None;
        let mut i: usize = 0;
        while i < n
            invariant
                n == self@.len(),
                i <= n,
                best == oldest_play_safe_age(self@.take(i as int), now_ms),
            decreases n - i,
        {
            let c = &self.cmds[i];
            assert(self@.take(i as int + 1).drop_last() == self@.take(i as int));
            if c.play_safe {
                let a = now_ms.saturating_sub(c.queued_at_ms);
                best = match best {
                    None => Some(a),
                    Some(b) => Some(if b >= a { b } else { a }),
                };
            }
            i = i + 1;
        }
        assert(self@.take(n as int) == self@);
        best
    }

    /// Between two chunks: hand out the play-safe commands if the panel
    /// reports headroom (see `may_flush_control`); otherwise hand out nothing.
    pub fn take_flushable(&mut self, level: Option<u8>, now_ms: u64) -> (sent: Vec<PendingCmd>)
        ensures
            (sent@, final(self)@) == flush_result(old(self)@, level, now_ms),
            labels_distinct(final(self)@),
    {
        proof { use_type_invariant(&*self); }
        if !self.has_play_safe_pending() {
            return Vec::new();
        }
        let oldest = self.oldest_play_safe_age(now_ms);
        if !may_flush_control(level, oldest) {
            return Vec::new();
        }
        self.take_play_safe()
    }

    /// At stream end: empty the queue. After a clean end the play-safe
    /// commands are handed out to be sent; every other command is dropped,
    /// and after an error all of them are.
    pub fn finish_stream(&mut self, clean: bool) -> (r: (Vec<PendingCmd>, Vec<PendingCmd>))
        ensures
            final(self)@ == Seq::<PendingCmd>::empty(),
            (r.0@, r.1@) == stream_end_result(old(self)@, clean),
    {
        if !clean {
            let all = self.take_pending();
            return (Vec::new(), all);
        }
        let safe = self.take_play_safe();
        let dropped = self.take_pending();
        (safe, dropped)
    }
}


/// Filtering twice by predicates where the second implies the first is
/// filtering by the second.
proof fn lemma_filter_filter(s: Seq<PendingCmd>, p: spec_fn(PendingCmd) -> bool, q: spec_fn(PendingCmd) -> bool)
    requires
        forall|c: PendingCmd| #[trigger] q(c) ==> p(c),
    ensures
        s.filter(p).filter(q) == s.filter(q),
    decreases s.len(),
{
    if s.len() > 0 {
        let init = s.drop_last();
        lemma_filter_filter(init, p, q);
        assert(init.push(s.last()) == s);
        init.lemma_filter_push(s.last(), p);
        init.lemma_filter_push(s.last(), q);
        init.filter(p).lemma_filter_push(s.last(), q);
    }
}

/// The commands that carry the given label, in queue order.
pub open spec fn with_label(s: Seq<PendingCmd>, label: Seq<char>) -> Seq<PendingCmd> {
    s.filter(label_is(label))
}

/// Latest wins per label: after `defer(cmd)` the queue holds exactly one
/// command with `cmd`'s label, `cmd` itself, at the back; the commands of
/// every other label stay as they were, in their order.
pub proof fn law_defer_latest_wins(s: Seq<PendingCmd>, cmd: PendingCmd)
    requires
        labels_distinct(s),
    ensures
        ({
            let t = without_label(s, cmd.label@).push(cmd);
            &&& without_label(s, cmd.label@) == s.filter(|c: PendingCmd| c.label@ != cmd.label@)
            &&& labels_distinct(t)
            &&& t.last() == cmd
            &&& forall|i: int| 0 <= i < t.len() - 1 ==> (#[trigger] t[i]).label@ != cmd.label@
            &&& forall|other: Seq<char>| other != cmd.label@ ==>
                #[trigger] with_label(t, other) == with_label(s, other)
        }),
{
    let l = cmd.label@;
    let t = without_label(s, l).push(cmd);
    assert(label_differs(l) =~= |c: PendingCmd| c.label@ != cmd.label@);
    lemma_filter_keeps_distinct(s, label_differs(l));
    lemma_filter_all(s, label_differs(l));
    assert forall|other: Seq<char>| other != l implies #[trigger] with_label(t, other)
        == with_label(s, other) by {
        without_label(s, l).lemma_filter_push(cmd, label_is(other));
        lemma_filter_filter(s, label_differs(l), label_is(other));
    }
}

/// Deferring twice under one label leaves only the second command: the
/// first is replaced, not appended.
pub proof fn law_defer_twice_same_label(s: Seq<PendingCmd>, first: PendingCmd, second: PendingCmd)
    requires
        first.label@ == second.label@,
    ensures
        without_label(without_label(s, first.label@).push(first), second.label@).push(second)
            == without_label(s, second.label@).push(second),
{
    let l = first.label@;
    assert(second.label@ == l);
    without_label(s, l).lemma_filter_push(first, label_differs(l));
    lemma_filter_filter(s, label_differs(l), label_differs(l));
}

/// Splitting the queue into play-safe and other commands loses nothing and
/// adds nothing: every command lands on exactly one side, on the side its
/// `play_safe` flag says.
pub proof fn law_play_safe_partition(s: Seq<PendingCmd>)
    ensures
        play_safe_cmds(s) == s.filter(|c: PendingCmd| c.play_safe),
        play_unsafe_cmds(s) == s.filter(|c: PendingCmd| !c.play_safe),
        play_safe_cmds(s).len() + play_unsafe_cmds(s).len() == s.len(),
        play_safe_cmds(s).to_multiset().add(play_unsafe_cmds(s).to_multiset()) == s.to_multiset(),
        forall|i: int| 0 <= i < play_safe_cmds(s).len() ==> (#[trigger] play_safe_cmds(s)[i]).play_safe,
        forall|i: int| 0 <= i < play_unsafe_cmds(s).len() ==> !(#[trigger] play_unsafe_cmds(s)[i]).play_safe,
    decreases s.len(),
{
    broadcast use vstd::seq_lib::group_to_multiset_ensures;
    lemma_filter_all(s, |x: PendingCmd| x.play_safe);
    lemma_filter_all(s, |x: PendingCmd| !x.play_safe);
    if s.len() > 0 {
        let init = s.drop_last();
        law_play_safe_partition(init);
        assert(init.push(s.last()) == s);
        init.lemma_filter_push(s.last(), |x: PendingCmd| x.play_safe);
        init.lemma_filter_push(s.last(), |x: PendingCmd| !x.play_safe);
        assert(play_safe_cmds(s).to_multiset().add(play_unsafe_cmds(s).to_multiset()) =~= s.to_multiset());
    } else {
        assert(play_safe_cmds(s).to_multiset().add(play_unsafe_cmds(s).to_multiset()) =~= s.to_multiset());
    }
}

/// A command that is not play-safe never leaves the queue mid-stream: a
/// flush hands out only play-safe commands, and the commands that are not
/// play-safe stay queued, in their order. At stream end none of them is sent.
pub proof fn law_unsafe_never_sent_mid_stream(s: Seq<PendingCmd>, level: Option<u8>, now_ms: u64, clean: bool)
    ensures
        forall|i: int| 0 <= i < flush_result(s, level, now_ms).0.len()
            ==> (#[trigger] flush_result(s, level, now_ms).0[i]).play_safe,
        play_unsafe_cmds(flush_result(s, level, now_ms).1) == play_unsafe_cmds(s),
        forall|i: int| 0 <= i < stream_end_result(s, clean).0.len()
            ==> (#[trigger] stream_end_result(s, clean).0[i]).play_safe,
{
    lemma_filter_all(s, |x: PendingCmd| x.play_safe);
    lemma_filter_filter(s, |x: PendingCmd| !x.play_safe, |x: PendingCmd| !x.play_safe);
}

/// The oldest wait is the maximum over the play-safe commands: there is
/// none exactly when no command is play-safe, and otherwise it is the wait
/// of one play-safe command and at least the wait of every other.
pub proof fn law_oldest_age_is_maximum(s: Seq<PendingCmd>, now_ms: u64)
    ensures
        oldest_play_safe_age(s, now_ms) is None <==> !has_play_safe(s),
        oldest_play_safe_age(s, now_ms) matches Some(a) ==> {
            &&& exists|i: int| 0 <= i < s.len() && s[i].play_safe && age_at(s[i], now_ms) == a
            &&& forall|i: int| 0 <= i < s.len() && s[i].play_safe ==> age_at(#[trigger] s[i], now_ms) <= a
        },
    decreases s.len(),
{
    if s.len() > 0 {
        let init = s.drop_last();
        let c = s.last();
        let n = s.len() - 1;
        law_oldest_age_is_maximum(init, now_ms);
        assert forall|i: int| 0 <= i < n implies #[trigger] s[i] == init[i] by {}
        assert(s[n] == c);
        assert(has_play_safe(s) <==> (has_play_safe(init) || c.play_safe)) by {
            if has_play_safe(init) {
                let j = choose|j: int| 0 <= j < init.len() && #[trigger] init[j].play_safe;
                assert(s[j].play_safe);
            }
            if has_play_safe(s) && !c.play_safe {
                let j = choose|j: int| 0 <= j < s.len() && #[trigger] s[j].play_safe;
                assert(init[j].play_safe);
            }
        }
        let r = oldest_play_safe_age(s, now_ms);
        if let Some(a) = r {
            let prev = oldest_play_safe_age(init, now_ms);
            assert(prev matches Some(p) ==> p <= a);
            assert forall|i: int| 0 <= i < s.len() && s[i].play_safe implies age_at(#[trigger] s[i], now_ms) <= a by {
                if i < n {
                    assert(init[i].play_safe);
                }
            }
            if c.play_safe && (prev is None || age_at(c, now_ms) > prev.unwrap()) {
                assert(age_at(s[n], now_ms) == a);
            } else {
                let p = prev.unwrap();
                let k = choose|k: int| 0 <= k < init.len() && init[k].play_safe && age_at(init[k], now_ms) == p;
                assert(s[k] == init[k]);
                assert(s[k].play_safe && age_at(s[k], now_ms) == a);
            }
        }
    } else {
        assert(!has_play_safe(s));
    }
}

/// The flush between chunks, stated over the buffer level, the queue times
/// and the `play_safe` flags alone. Commands go out only when the panel
/// reports level 0 or 1, or level 2 while some play-safe command has waited
/// 3000 ms or more; at level 3 and above, or with no level, nothing goes out
/// and the queue stays as it was. When they go out, exactly the play-safe
/// commands leave, in queue order, and exactly the others stay, in order.
pub proof fn law_flush_needs_headroom(s: Seq<PendingCmd>, level: Option<u8>, now_ms: u64)
    ensures
        ({
            let (sent, kept) = flush_result(s, level, now_ms);
            let aged = exists|i: int| 0 <= i < s.len() && s[i].play_safe && now_ms >= s[i].queued_at_ms + 3000;
            let headroom = level matches Some(l) && (l <= 1 || (l == 2 && aged));
            let any_safe = exists|i: int| 0 <= i < s.len() && s[i].play_safe;
            &&& sent.len() > 0 ==> headroom
            &&& !headroom ==> sent.len() == 0 && kept == s
            &&& !any_safe ==> sent.len() == 0 && kept == s
            &&& (headroom && any_safe) ==> sent == s.filter(|c: PendingCmd| c.play_safe)
                && kept == s.filter(|c: PendingCmd| !c.play_safe)
            &&& forall|i: int| 0 <= i < sent.len() ==> (#[trigger] sent[i]).play_safe && s.contains(sent[i])
        }),
{
    law_oldest_age_is_maximum(s, now_ms);
    lemma_filter_all(s, |x: PendingCmd| x.play_safe);
    broadcast use vstd::seq_lib::group_filter_ensures;
    let aged = exists|i: int| 0 <= i < s.len() && s[i].play_safe && now_ms >= s[i].queued_at_ms + 3000;
    match oldest_play_safe_age(s, now_ms) {
        Some(a) => {
            if aged {
                let i = choose|i: int| 0 <= i < s.len() && s[i].play_safe && now_ms >= s[i].queued_at_ms + 3000;
                assert(age_at(s[i], now_ms) <= a);
            }
            if a >= 3000 {
                let k = choose|k: int| 0 <= k < s.len() && s[k].play_safe && age_at(s[k], now_ms) == a;
                assert(s[k].play_safe && now_ms >= s[k].queued_at_ms + 3000);
            }
        },
        None => {},
    }
    let sent = flush_result(s, level, now_ms).0;
    assert forall|i: int| 0 <= i < sent.len() implies (#[trigger] sent[i]).play_safe && s.contains(sent[i]) by {
        assert(sent == play_safe_cmds(s));
        s.lemma_filter_pred(|x: PendingCmd| x.play_safe, i);
        lemma_filter_keeps_members(s, |x: PendingCmd| x.play_safe, i);
    }
}

/// The end of a stream, stated over the `play_safe` flags alone: after a
/// clean end every play-safe command is sent, in queue order, and only the
/// others are dropped; after an error nothing is sent and everything is
/// dropped.
pub proof fn law_stream_end_sends_play_safe(s: Seq<PendingCmd>)
    ensures
        stream_end_result(s, true).0 == s.filter(|c: PendingCmd| c.play_safe),
        stream_end_result(s, true).1 == s.filter(|c: PendingCmd| !c.play_safe),
        forall|i: int| 0 <= i < s.len() && s[i].play_safe ==> stream_end_result(s, true).0.contains(
            #[trigger] s[i],
        ),
        stream_end_result(s, false).0.len() == 0,
        stream_end_result(s, false).1 == s,
{
    broadcast use vstd::seq_lib::group_filter_ensures;
}

/// Members of a filtered sequence come from the source.
proof fn lemma_filter_keeps_members(s: Seq<PendingCmd>, p: spec_fn(PendingCmd) -> bool, i: int)
    requires
        0 <= i < s.filter(p).len(),
    ensures
        s.contains(s.filter(p)[i]),
    decreases s.len(),
{
    reveal(Seq::filter);
    let init = s.drop_last();
    if i < init.filter(p).len() {
        lemma_filter_keeps_members(init, p, i);
        let j = choose|j: int| 0 <= j < init.len() && init[j] == init.filter(p)[i];
        assert(s[j] == init[j]);
    } else {
        assert(s[s.len() - 1] == s.filter(p)[i]);
    }
}

/// A command's wait is the time since it was queued, and zero for a clock
/// reading from before that; some command may go out mid-stream exactly
/// when one of them is flagged play-safe.
pub proof fn law_wait_and_play_safe(s: Seq<PendingCmd>, c: PendingCmd, now_ms: u64)
    ensures
        now_ms >= c.queued_at_ms ==> age_at(c, now_ms) + c.queued_at_ms == now_ms,
        now_ms < c.queued_at_ms ==> age_at(c, now_ms) == 0,
        has_play_safe(s) <==> exists|i: int| 0 <= i < s.len() && s[i].play_safe,
        has_play_safe(s) <==> s.filter(|x: PendingCmd| x.play_safe).len() > 0,
{
    broadcast use vstd::seq_lib::group_filter_ensures;
    lemma_filter_all(s, |x: PendingCmd| x.play_safe);
    if has_play_safe(s) {
        let i = choose|i: int| 0 <= i < s.len() && #[trigger] s[i].play_safe;
        assert(s.filter(|x: PendingCmd| x.play_safe).contains(s[i]));
    }
    if s.filter(|x: PendingCmd| x.play_safe).len() > 0 {
        let f = s.filter(|x: PendingCmd| x.play_safe);
        assert(f[0].play_safe);
        lemma_filter_keeps_members(s, |x: PendingCmd| x.play_safe, 0);
        let j = choose|j: int| 0 <= j < s.len() && s[j] == f[0];
        assert(s[j].play_safe);
    }
}

} // verus!
