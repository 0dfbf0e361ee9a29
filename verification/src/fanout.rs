//! Decisions of the fan-out caller: a request goes to every configured
//! replica at once, and the first success wins — partial failure is
//! success. Also here: the classification of the bulk-processing service's
//! textual retry signals, and the bounded-retry soft-disconnect rule the
//! heartbeat sender follows.

use vstd::prelude::*;

use crate::messages::DirectoryMessage;

verus! {

/// After this many consecutive heartbeat failures the sender marks itself
/// Offline locally rather than wait for a server it cannot reach.
pub const MAX_HEARTBEAT_FAILURES: u32 = 3;

/// The first answer among the per-replica outcomes, front to back.
pub open spec fn first_some(s: Seq<Option<DirectoryMessage>>) -> Option<DirectoryMessage>
    decreases s.len(),
{
    if s.len() == 0 {
        None
    } else if s[0] is Some {
        s[0]
    } else {
        first_some(s.drop_first())
    }
}

/// When every outcome up to `i` is None, the first answer of `s` is the
/// first answer of what follows `i`.
proof fn lemma_first_some_skip(s: Seq<Option<DirectoryMessage>>, i: int)
    requires
        0 <= i <= s.len(),
        forall|j: int| 0 <= j < i ==> s[j] is None,
    ensures
        first_some(s) == first_some(s.skip(i)),
    decreases i,
{
    if i > 0 {
        assert(s[0] is None);
        assert(s.drop_first() =~= s.skip(1));
        lemma_first_some_skip(s.skip(1), i - 1);
        assert(s.skip(1).skip(i - 1) =~= s.skip(i));
    } else {
        assert(s.skip(0) =~= s);
    }
}

/// `i` is the position of the first answer in `s`.
pub open spec fn first_some_at(s: Seq<Option<DirectoryMessage>>, i: int) -> bool {
    0 <= i < s.len() && s[i] is Some && (forall|j: int| 0 <= j < i ==> s[j] is None)
}

/// Resolve a fan-out call: the outcomes of the concurrent attempts, in
/// replica order, collapse to the first success, which is taken out of the
/// vector; only if every replica failed does the whole call fail, and then
/// the outcomes are left as they were.
pub fn first_success(responses: &mut Vec<Option<DirectoryMessage>>) -> (r: Option<
    DirectoryMessage,
>)
    ensures
        r == first_some((*old(responses))@),
        r is None ==> final(responses)@ == (*old(responses))@,
        forall|i: int|
            first_some_at((*old(responses))@, i) ==> final(responses)@ == (*old(
                responses,
            ))@.remove(i),
{
    let ghost orig = (*old(responses))@;
    let n = responses.len();
    let mut i: usize = 0;
    while i < n
        invariant
            n == responses@.len(),
            orig == responses@,
            orig == (*old(responses))@,
            i <= n,
            forall|j: int| 0 <= j < i ==> orig[j] is None,
        decreases n - i,
    {
        if responses[i].is_some() {
            let e = responses.remove(i);
            proof {
                lemma_first_some_skip(orig, i as int);
                assert(orig.skip(i as int)[0] == orig[i as int]);
                assert(orig.skip(i as int).len() > 0);
                assert(first_some_at(orig, i as int));
                assert forall|i2: int| first_some_at(orig, i2) implies i2 == i as int by {
                    if i2 < i as int {
                        assert(orig[i2] is None);
                    } else if i2 > i as int {
                        assert(orig[i as int] is None);
                    }
                }
            }
            return e;
        }
        i = i + 1;
    }
    proof {
        assert forall|i2: int| !first_some_at(orig, i2) by {
            if 0 <= i2 < orig.len() {
                assert(orig[i2] is None);
            }
        }
    }
    proof {
        lemma_first_some_skip(orig, n as int);
        assert(orig.skip(n as int) =~= Seq::<Option<DirectoryMessage>>::empty());
    }
    None
}

/// What the bulk-processing service answered: processed bytes, or one of
/// its two textual retry signals.
#[derive(Debug)]
pub enum BulkServiceReply {
    /// The leader processed the request; here are the result bytes.
    Processed { data: Vec<u8> },
    /// This replica is not the leader; the bytes after the marker hint at
    /// who is.
    NotLeader { hint: Vec<u8> },
    /// No leader is elected right now; retry later.
    NoLeader,
}

/// The ASCII bytes of the "NOT_LEADER:" marker.
pub open spec fn not_leader_marker() -> Seq<u8> {
    seq![78u8, 79u8, 84u8, 95u8, 76u8, 69u8, 65u8, 68u8, 69u8, 82u8, 58u8]
}

/// The ASCII bytes of the "NO_LEADER" marker.
pub open spec fn no_leader_marker() -> Seq<u8> {
    seq![78u8, 79u8, 95u8, 76u8, 69u8, 65u8, 68u8, 69u8, 82u8]
}

/// True if `s` starts with `p`.
pub open spec fn bytes_start_with(s: Seq<u8>, p: Seq<u8>) -> bool {
    s.len() >= p.len() && s.subrange(0, p.len() as int) == p
}

/// Whether `s` starts with `prefix`, byte for byte.
fn starts_with_bytes(s: &Vec<u8>, prefix: &Vec<u8>) -> (r: bool)
    ensures
        r == bytes_start_with(s@, prefix@),
{
    let m = prefix.len();
    if s.len() < m {
        proof {
            assert(!bytes_start_with(s@, prefix@));
        }
        return false;
    }
    let mut i: usize = 0;
    while i < m
        invariant
            m == prefix@.len(),
            s@.len() >= m,
            i <= m,
            forall|j: int| 0 <= j < i ==> s@[j] == prefix@[j],
        decreases m - i,
    {
        if s[i] != prefix[i] {
            proof {
                assert(s@.subrange(0, m as int)[i as int] != prefix@[i as int]);
            }
            return false;
        }
        i = i + 1;
    }
    proof {
        assert(s@.subrange(0, m as int) =~= prefix@);
    }
    true
}

/// Classify one raw reply from the bulk-processing service: a body opening
/// with "NOT_LEADER:" carries a redirect hint after the marker, one opening
/// with "NO_LEADER" says an election is in progress, and anything else is
/// the processed result itself.
pub fn classify_bulk_reply(reply: Vec<u8>) -> (r: BulkServiceReply)
    ensures
        bytes_start_with(reply@, not_leader_marker()) ==> (r matches BulkServiceReply::NotLeader {
            hint,
        } && hint@ == reply@.skip(11)),
        !bytes_start_with(reply@, not_leader_marker()) && bytes_start_with(
            reply@,
            no_leader_marker(),
        ) ==> r is NoLeader,
        !bytes_start_with(reply@, not_leader_marker()) && !bytes_start_with(
            reply@,
            no_leader_marker(),
        ) ==> (r matches BulkServiceReply::Processed { data } && data == reply),
{
    let not_leader: Vec<u8> = vec![78u8, 79u8, 84u8, 95u8, 76u8, 69u8, 65u8, 68u8, 69u8, 82u8, 58u8];
    let no_leader: Vec<u8> = vec![78u8, 79u8, 95u8, 76u8, 69u8, 65u8, 68u8, 69u8, 82u8];
    proof {
        assert(not_leader@ =~= not_leader_marker());
        assert(no_leader@ =~= no_leader_marker());
    }
    if starts_with_bytes(&reply, &not_leader) {
        let mut rest = reply;
        let hint = rest.split_off(11);
        BulkServiceReply::NotLeader { hint }
    } else if starts_with_bytes(&reply, &no_leader) {
        BulkServiceReply::NoLeader
    } else {
        BulkServiceReply::Processed { data: reply }
    }
}

/// The heartbeat sender's bookkeeping after one attempt: success resets the
/// consecutive-failure count; a failure raises it, and on reaching the
/// bound the sender soft-disconnects (marks itself Offline locally) and the
/// count starts over.
pub fn heartbeat_outcome(failures: u32, success: bool) -> (r: (u32, bool))
    requires
        failures < 0xffff_ffffu32,
    ensures
        success ==> r == (0u32, false),
        !success && failures + 1 < MAX_HEARTBEAT_FAILURES ==> r == (((failures + 1) as u32), false),
        !success && failures + 1 >= MAX_HEARTBEAT_FAILURES ==> r == (0u32, true),
{
    if success {
        (0, false)
    } else {
        let next = failures + 1;
        if next >= MAX_HEARTBEAT_FAILURES {
            (0, true)
        } else {
            (next, false)
        }
    }
}

} // verus!
