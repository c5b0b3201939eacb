//! The client registry: the shared table of active sessions, with the
//! broadcast operations of the hub.
//!
//! Each entry holds a session's identity, its owning user, and its outbound
//! delivery queue.  The `open` flag models whether the receiving end of the
//! queue is still connected: delivery to a closed queue fails, and a failed
//! recipient is evicted during the same broadcast — the registry's sole
//! self-healing mechanism.  Both broadcast operations skip the reserved
//! server identity, and a broadcast to a user skips the excluded (sending)
//! session, so no session sees its own traffic back.

use vstd::prelude::*;
use crate::ids::Id;

verus! {

/// One live session: its identity, its owner, and its outbound delivery
/// queue of serialized envelopes.
#[derive(Debug)]
pub struct SyncClient {
    pub session_id: Id,
    pub user_id: Id,
    pub outbound: Vec<Vec<u8>>,
    pub open: bool,
}

/// The mathematical model of a session entry.
#[verifier::ext_equal]
pub struct ClientModel {
    pub session_id: Id,
    pub user_id: Id,
    pub outbound: Seq<Seq<u8>>,
    pub open: bool,
}

impl View for SyncClient {
    type V = ClientModel;

    open spec fn view(&self) -> ClientModel {
        ClientModel {
            session_id: self.session_id,
            user_id: self.user_id,
            outbound: self.outbound.deep_view(),
            open: self.open,
        }
    }
}

/// No two entries carry the same session identity.
pub open spec fn distinct_ids(cs: Seq<ClientModel>) -> bool {
    forall|a: int, b: int| 0 <= a < b < cs.len() ==> cs[a].session_id != cs[b].session_id
}

/// Some entry carries this session identity.
pub open spec fn has_id(cs: Seq<ClientModel>, id: Id) -> bool {
    exists|k: int| 0 <= k < cs.len() && cs[k].session_id == id
}

/// The entries with every entry of the given session identity removed.
pub open spec fn without_id(cs: Seq<ClientModel>, id: Id) -> Seq<ClientModel>
    decreases cs.len(),
{
    if cs.len() == 0 {
        cs
    } else {
        let rest = without_id(cs.drop_first(), id);
        if cs[0].session_id == id {
            rest
        } else {
            seq![cs[0]] + rest
        }
    }
}

/// Whether an entry is addressed by a broadcast: never the reserved server
/// identity, only the given user when one is given, and never the excluded
/// session when one is given.
pub open spec fn receives(c: ClientModel, user: Option<Id>, exclude: Option<Id>, server: Id) -> bool {
    &&& c.session_id != server
    &&& match user {
        Some(u) => c.user_id == u,
        None => true,
    }
    &&& match exclude {
        Some(x) => c.session_id != x,
        None => true,
    }
}

/// An entry with the payload appended to its outbound queue.
pub open spec fn deliver(c: ClientModel, payload: Seq<u8>) -> ClientModel {
    ClientModel { outbound: c.outbound.push(payload), ..c }
}

/// The registry after a broadcast: every addressed open entry has the
/// payload appended, every addressed closed entry is evicted, every other
/// entry is untouched.
pub open spec fn after_broadcast(
    cs: Seq<ClientModel>,
    user: Option<Id>,
    exclude: Option<Id>,
    server: Id,
    payload: Seq<u8>,
) -> Seq<ClientModel>
    decreases cs.len(),
{
    if cs.len() == 0 {
        cs
    } else {
        let rest = after_broadcast(cs.drop_first(), user, exclude, server, payload);
        if receives(cs[0], user, exclude, server) {
            if cs[0].open {
                seq![deliver(cs[0], payload)] + rest
            } else {
                rest
            }
        } else {
            seq![cs[0]] + rest
        }
    }
}

proof fn lemma_without_id_app(cs1: Seq<ClientModel>, cs2: Seq<ClientModel>, id: Id)
    ensures
        without_id(cs1 + cs2, id) == without_id(cs1, id) + without_id(cs2, id),
    decreases cs1.len(),
{
    if cs1.len() == 0 {
        assert(cs1 + cs2 =~= cs2);
        assert(without_id(cs1, id) + without_id(cs2, id) =~= without_id(cs2, id));
    } else {
        assert((cs1 + cs2).drop_first() =~= cs1.drop_first() + cs2);
        assert((cs1 + cs2)[0] == cs1[0]);
        lemma_without_id_app(cs1.drop_first(), cs2, id);
        if cs1[0].session_id == id {
        } else {
            assert(seq![cs1[0]] + (without_id(cs1.drop_first(), id) + without_id(cs2, id))
                =~= (seq![cs1[0]] + without_id(cs1.drop_first(), id)) + without_id(cs2, id));
        }
    }
}

proof fn lemma_without_id_one(c: ClientModel, id: Id)
    ensures
        without_id(seq![c], id) == if c.session_id == id {
            Seq::<ClientModel>::empty()
        } else {
            seq![c]
        },
{
    reveal_with_fuel(without_id, 2);
    let s = seq![c];
    assert(s.drop_first() =~= Seq::<ClientModel>::empty());
    if c.session_id != id {
        assert(seq![c] + Seq::<ClientModel>::empty() =~= seq![c]);
    } else {
        assert(without_id(s, id) =~= Seq::<ClientModel>::empty());
    }
}

/// What remains after a removal carries only identities that were there,
/// and never the removed one.
pub proof fn lemma_without_id_ids(cs: Seq<ClientModel>, id: Id)
    ensures
        forall|j: int| 0 <= j < without_id(cs, id).len() ==> #[trigger] without_id(cs, id)[j].session_id
            != id && has_id(cs, without_id(cs, id)[j].session_id),
        distinct_ids(cs) ==> distinct_ids(without_id(cs, id)),
    decreases cs.len(),
{
    if cs.len() > 0 {
        let tail = cs.drop_first();
        lemma_without_id_ids(tail, id);
        let rest = without_id(tail, id);
        assert forall|j: int| 0 <= j < rest.len() implies rest[j].session_id != id && has_id(
            cs,
            rest[j].session_id,
        ) by {
            let wit = choose|k: int| 0 <= k < tail.len() && tail[k].session_id
                == rest[j].session_id;
            assert(cs[wit + 1] == tail[wit]);
        }
        if cs[0].session_id == id {
        } else {
            let out = seq![cs[0]] + rest;
            assert forall|j: int| 0 <= j < out.len() implies out[j].session_id != id && has_id(
                cs,
                out[j].session_id,
            ) by {
                if j == 0 {
                    assert(out[0] == cs[0]);
                } else {
                    assert(out[j] == rest[j - 1]);
                }
            }
            if distinct_ids(cs) {
                assert forall|a: int, b: int| 0 <= a < b < out.len() implies out[a].session_id
                    != out[b].session_id by {
                    if a == 0 {
                        assert(out[b] == rest[b - 1]);
                        if out[0].session_id == rest[b - 1].session_id {
                            let wit = choose|k: int| 0 <= k < tail.len() && tail[k].session_id
                                == rest[b - 1].session_id;
                            assert(cs[wit + 1] == tail[wit]);
                        }
                    } else {
                        assert(out[a] == rest[a - 1] && out[b] == rest[b - 1]);
                        assert(distinct_ids(tail)) by {
                            assert forall|x: int, y: int| 0 <= x < y < tail.len() implies tail[x].session_id
                                != tail[y].session_id by {
                                assert(cs[x + 1] == tail[x] && cs[y + 1] == tail[y]);
                            }
                        }
                    }
                }
            }
        }
        if cs[0].session_id == id && distinct_ids(cs) {
            assert(distinct_ids(tail)) by {
                assert forall|x: int, y: int| 0 <= x < y < tail.len() implies tail[x].session_id
                    != tail[y].session_id by {
                    assert(cs[x + 1] == tail[x] && cs[y + 1] == tail[y]);
                }
            }
        }
    }
}

proof fn lemma_after_broadcast_app(
    cs1: Seq<ClientModel>,
    cs2: Seq<ClientModel>,
    user: Option<Id>,
    exclude: Option<Id>,
    server: Id,
    payload: Seq<u8>,
)
    ensures
        after_broadcast(cs1 + cs2, user, exclude, server, payload) == after_broadcast(
            cs1,
            user,
            exclude,
            server,
            payload,
        ) + after_broadcast(cs2, user, exclude, server, payload),
    decreases cs1.len(),
{
    if cs1.len() == 0 {
        assert(cs1 + cs2 =~= cs2);
        assert(after_broadcast(cs1, user, exclude, server, payload) + after_broadcast(
            cs2,
            user,
            exclude,
            server,
            payload,
        ) =~= after_broadcast(cs2, user, exclude, server, payload));
    } else {
        assert((cs1 + cs2).drop_first() =~= cs1.drop_first() + cs2);
        assert((cs1 + cs2)[0] == cs1[0]);
        lemma_after_broadcast_app(cs1.drop_first(), cs2, user, exclude, server, payload);
        let r1 = after_broadcast(cs1.drop_first(), user, exclude, server, payload);
        let r2 = after_broadcast(cs2, user, exclude, server, payload);
        if receives(cs1[0], user, exclude, server) {
            if cs1[0].open {
                assert(seq![deliver(cs1[0], payload)] + (r1 + r2) =~= (seq![deliver(
                    cs1[0],
                    payload,
                )] + r1) + r2);
            }
        } else {
            assert(seq![cs1[0]] + (r1 + r2) =~= (seq![cs1[0]] + r1) + r2);
        }
    }
}

proof fn lemma_after_broadcast_one(
    c: ClientModel,
    user: Option<Id>,
    exclude: Option<Id>,
    server: Id,
    payload: Seq<u8>,
)
    ensures
        after_broadcast(seq![c], user, exclude, server, payload) == if receives(
            c,
            user,
            exclude,
            server,
        ) {
            if c.open {
                seq![deliver(c, payload)]
            } else {
                Seq::<ClientModel>::empty()
            }
        } else {
            seq![c]
        },
{
    reveal_with_fuel(after_broadcast, 2);
    let s = seq![c];
    assert(s.drop_first() =~= Seq::<ClientModel>::empty());
    if receives(c, user, exclude, server) {
        if c.open {
            assert(seq![deliver(c, payload)] + Seq::<ClientModel>::empty() =~= seq![deliver(
                c,
                payload,
            )]);
        } else {
            assert(after_broadcast(s, user, exclude, server, payload)
                =~= Seq::<ClientModel>::empty());
        }
    } else {
        assert(seq![c] + Seq::<ClientModel>::empty() =~= seq![c]);
    }
}

/// A broadcast result carries only identities that were in the registry.
pub proof fn lemma_after_broadcast_ids(
    cs: Seq<ClientModel>,
    user: Option<Id>,
    exclude: Option<Id>,
    server: Id,
    payload: Seq<u8>,
)
    ensures
        forall|j: int| 0 <= j < after_broadcast(cs, user, exclude, server, payload).len()
            ==> has_id(cs, #[trigger] after_broadcast(cs, user, exclude, server, payload)[j].session_id),
        distinct_ids(cs) ==> distinct_ids(after_broadcast(cs, user, exclude, server, payload)),
    decreases cs.len(),
{
    if cs.len() > 0 {
        let tail = cs.drop_first();
        lemma_after_broadcast_ids(tail, user, exclude, server, payload);
        let rest = after_broadcast(tail, user, exclude, server, payload);
        let out = after_broadcast(cs, user, exclude, server, payload);
        if distinct_ids(cs) {
            assert(distinct_ids(tail)) by {
                assert forall|x: int, y: int| 0 <= x < y < tail.len() implies tail[x].session_id
                    != tail[y].session_id by {
                    assert(cs[x + 1] == tail[x] && cs[y + 1] == tail[y]);
                }
            }
        }
        assert forall|j: int| 0 <= j < rest.len() implies has_id(cs, rest[j].session_id) by {
            let wit = choose|k: int| 0 <= k < tail.len() && tail[k].session_id
                == rest[j].session_id;
            assert(cs[wit + 1] == tail[wit]);
        }
        let head = if receives(cs[0], user, exclude, server) && cs[0].open {
            seq![deliver(cs[0], payload)]
        } else if !receives(cs[0], user, exclude, server) {
            seq![cs[0]]
        } else {
            Seq::<ClientModel>::empty()
        };
        assert(out =~= head + rest);
        assert forall|j: int| 0 <= j < out.len() implies has_id(cs, out[j].session_id) by {
            if j < head.len() {
                assert(out[j].session_id == cs[0].session_id);
            } else {
                assert(out[j] == rest[j - head.len()]);
            }
        }
        if distinct_ids(cs) {
            assert forall|a: int, b: int| 0 <= a < b < out.len() implies out[a].session_id
                != out[b].session_id by {
                if a < head.len() {
                    assert(out[a].session_id == cs[0].session_id);
                    assert(out[b] == rest[b - head.len()]);
                    if cs[0].session_id == rest[b - head.len()].session_id {
                        let wit = choose|k: int| 0 <= k < tail.len() && tail[k].session_id
                            == rest[b - head.len()].session_id;
                        assert(cs[wit + 1] == tail[wit]);
                    }
                } else {
                    assert(out[a] == rest[a - head.len()] && out[b] == rest[b - head.len()]);
                }
            }
        }
    }
}

/// A session that a broadcast does not address — the excluded (sending)
/// session, a session of another user, or the reserved server identity —
/// stands in the result unchanged, its queue untouched: no session
/// receives its own envelope back, no session receives another user's
/// traffic, and the server identity never receives a broadcast.
pub proof fn lemma_unaddressed_untouched(
    cs: Seq<ClientModel>,
    user: Option<Id>,
    exclude: Option<Id>,
    server: Id,
    payload: Seq<u8>,
    k: int,
)
    requires
        0 <= k < cs.len(),
        !receives(cs[k], user, exclude, server),
    ensures
        after_broadcast(cs, user, exclude, server, payload).contains(cs[k]),
    decreases cs.len(),
{
    let tail = cs.drop_first();
    let rest = after_broadcast(tail, user, exclude, server, payload);
    let out = after_broadcast(cs, user, exclude, server, payload);
    if k == 0 {
        assert(out[0] == cs[0]);
    } else {
        assert(tail[k - 1] == cs[k]);
        lemma_unaddressed_untouched(tail, user, exclude, server, payload, k - 1);
        let w = choose|j: int| 0 <= j < rest.len() && rest[j] == cs[k];
        if receives(cs[0], user, exclude, server) {
            if cs[0].open {
                assert(out[1 + w] == cs[k]);
            } else {
                assert(out[w] == cs[k]);
            }
        } else {
            assert(out[1 + w] == cs[k]);
        }
    }
}

/// No self-echo: the excluded (sending) session stands in the result of
/// a broadcast unchanged; it never receives an envelope whose sender it
/// is.
pub proof fn lemma_no_self_echo(
    cs: Seq<ClientModel>,
    user: Option<Id>,
    sender: Id,
    server: Id,
    payload: Seq<u8>,
    k: int,
)
    requires
        0 <= k < cs.len(),
        cs[k].session_id == sender,
    ensures
        after_broadcast(cs, user, Some(sender), server, payload).contains(cs[k]),
{
    lemma_unaddressed_untouched(cs, user, Some(sender), server, payload, k);
}

/// Sessions are partitioned by user: a session of another user stands in
/// the result of a user broadcast unchanged; it never receives relay
/// traffic that is not its owner's.
pub proof fn lemma_no_cross_user(
    cs: Seq<ClientModel>,
    user: Id,
    exclude: Option<Id>,
    server: Id,
    payload: Seq<u8>,
    k: int,
)
    requires
        0 <= k < cs.len(),
        cs[k].user_id != user,
    ensures
        after_broadcast(cs, Some(user), exclude, server, payload).contains(cs[k]),
{
    lemma_unaddressed_untouched(cs, Some(user), exclude, server, payload, k);
}

/// The reserved server identity never receives a broadcast: an entry
/// that carries it stands in the result unchanged, whatever the user or
/// exclusion arguments were.
pub proof fn lemma_server_never_receives(
    cs: Seq<ClientModel>,
    user: Option<Id>,
    exclude: Option<Id>,
    server: Id,
    payload: Seq<u8>,
    k: int,
)
    requires
        0 <= k < cs.len(),
        cs[k].session_id == server,
    ensures
        after_broadcast(cs, user, exclude, server, payload).contains(cs[k]),
{
    lemma_unaddressed_untouched(cs, user, exclude, server, payload, k);
}

/// Every addressed session that is still open receives the broadcast:
/// the result holds that session with exactly this payload appended to
/// its queue.
pub proof fn lemma_addressed_open_delivered(
    cs: Seq<ClientModel>,
    user: Option<Id>,
    exclude: Option<Id>,
    server: Id,
    payload: Seq<u8>,
    k: int,
)
    requires
        0 <= k < cs.len(),
        receives(cs[k], user, exclude, server),
        cs[k].open,
    ensures
        after_broadcast(cs, user, exclude, server, payload).contains(deliver(cs[k], payload)),
    decreases cs.len(),
{
    let tail = cs.drop_first();
    let rest = after_broadcast(tail, user, exclude, server, payload);
    let out = after_broadcast(cs, user, exclude, server, payload);
    if k == 0 {
        assert(out[0] == deliver(cs[0], payload));
    } else {
        assert(tail[k - 1] == cs[k]);
        lemma_addressed_open_delivered(tail, user, exclude, server, payload, k - 1);
        let w = choose|j: int| 0 <= j < rest.len() && rest[j] == deliver(cs[k], payload);
        if receives(cs[0], user, exclude, server) {
            if cs[0].open {
                assert(out[1 + w] == deliver(cs[k], payload));
            } else {
                assert(out[w] == deliver(cs[k], payload));
            }
        } else {
            assert(out[1 + w] == deliver(cs[k], payload));
        }
    }
}

/// An addressed session whose delivery fails is evicted: no entry of its
/// identity remains, so it is absent from the registry any later
/// broadcast sees.
pub proof fn lemma_failed_recipient_evicted(
    cs: Seq<ClientModel>,
    user: Option<Id>,
    exclude: Option<Id>,
    server: Id,
    payload: Seq<u8>,
    k: int,
)
    requires
        distinct_ids(cs),
        0 <= k < cs.len(),
        receives(cs[k], user, exclude, server),
        !cs[k].open,
    ensures
        !has_id(after_broadcast(cs, user, exclude, server, payload), cs[k].session_id),
    decreases cs.len(),
{
    let tail = cs.drop_first();
    let rest = after_broadcast(tail, user, exclude, server, payload);
    let out = after_broadcast(cs, user, exclude, server, payload);
    let id = cs[k].session_id;
    assert(distinct_ids(tail)) by {
        assert forall|x: int, y: int| 0 <= x < y < tail.len() implies tail[x].session_id
            != tail[y].session_id by {
            assert(cs[x + 1] == tail[x] && cs[y + 1] == tail[y]);
        }
    }
    lemma_after_broadcast_ids(tail, user, exclude, server, payload);
    if k == 0 {
        assert(out == rest);
        if has_id(rest, id) {
            let j = choose|j: int| 0 <= j < rest.len() && rest[j].session_id == id;
            assert(has_id(tail, rest[j].session_id));
            let w = choose|w: int| 0 <= w < tail.len() && tail[w].session_id == id;
            assert(cs[w + 1] == tail[w]);
        }
    } else {
        assert(tail[k - 1] == cs[k]);
        lemma_failed_recipient_evicted(tail, user, exclude, server, payload, k - 1);
        if has_id(out, id) {
            let j = choose|j: int| 0 <= j < out.len() && out[j].session_id == id;
            let head_len: int = if receives(cs[0], user, exclude, server) {
                if cs[0].open {
                    1
                } else {
                    0
                }
            } else {
                1
            };
            if j < head_len {
                assert(out[j].session_id == cs[0].session_id);
            } else {
                assert(out[j] == rest[j - head_len]);
            }
        }
    }
}

/// The models of a run of entries.
pub open spec fn models(cs: Seq<SyncClient>) -> Seq<ClientModel> {
    Seq::new(cs.len(), |k: int| cs[k]@)
}

proof fn lemma_models_split(cs: Seq<SyncClient>)
    requires
        cs.len() > 0,
    ensures
        models(cs) == seq![cs[0]@] + models(cs.drop_first()),
{
    assert(models(cs) =~= seq![cs[0]@] + models(cs.drop_first())) by {
        assert forall|k: int| 0 <= k < cs.len() implies models(cs)[k] == (seq![cs[0]@] + models(
            cs.drop_first(),
        ))[k] by {
            if k > 0 {
                assert(cs.drop_first()[k - 1] == cs[k]);
            }
        }
    }
}

proof fn lemma_models_push(cs: Seq<SyncClient>, c: SyncClient)
    ensures
        models(cs.push(c)) == models(cs).push(c@),
{
    assert(models(cs.push(c)) =~= models(cs).push(c@)) by {
        assert forall|k: int| 0 <= k < cs.len() + 1 implies models(cs.push(c))[k] == models(
            cs,
        ).push(c@)[k] by {
            if k < cs.len() {
                assert(cs.push(c)[k] == cs[k]);
            } else {
                assert(cs.push(c)[k] == c);
            }
        }
    }
}

/// Copies a payload byte for byte.
fn clone_payload(p: &Vec<u8>) -> (r: Vec<u8>)
    ensures
        r@ == p@,
{
    let r = p.clone();
    proof {
        assert forall|i: int| 0 <= i < p@.len() implies r@[i] == p@[i] by {
            assert(cloned::<u8>(p@[i], r@[i]));
        }
        assert(r@ =~= p@);
    }
    r
}

/// The shared table of active sessions of one server process.  The
/// reserved server identity is fixed at construction and is never a
/// broadcast recipient.
pub struct Registry {
    pub server_id: Id,
    pub clients: Vec<SyncClient>,
}

impl View for Registry {
    type V = Seq<ClientModel>;

    open spec fn view(&self) -> Seq<ClientModel> {
        models(self.clients@)
    }
}

impl Registry {
    /// At most one live entry per session identity.
    pub open spec fn wf(self) -> bool {
        distinct_ids(self@)
    }

    /// An empty registry for a server process with the given reserved
    /// identity.
    pub fn new(server_id: Id) -> (r: Registry)
        ensures
            r.server_id == server_id,
            r@ == Seq::<ClientModel>::empty(),
            r.wf(),
    {
        let r = Registry { server_id, clients: Vec::new() };
        proof {
            assert(r@ =~= Seq::<ClientModel>::empty());
        }
        r
    }

    pub fn len(&self) -> (n: usize)
        ensures
            n == self@.len(),
    {
        self.clients.len()
    }

    pub fn client_at(&self, i: usize) -> (c: &SyncClient)
        requires
            i < self@.len(),
        ensures
            c@ == self@[i as int],
    {
        &self.clients[i]
    }

    /// Removes every entry of this session identity; removing an unknown
    /// identity is a no-op.
    pub fn unregister(&mut self, id: Id)
        ensures
            final(self).server_id == old(self).server_id,
            final(self)@ == without_id(old(self)@, id),
            old(self).wf() ==> final(self).wf(),
    {
        let ghost orig = self@;
        let ghost mut p: Seq<ClientModel> = Seq::empty();
        let mut kept: Vec<SyncClient> = Vec::new();
        proof {
            assert(orig =~= p + self@);
            assert(without_id(p, id) =~= Seq::<ClientModel>::empty());
            assert(models(kept@) =~= without_id(p, id));
        }
        while self.clients.len() > 0
            invariant
                self.server_id == old(self).server_id,
                orig == p + models(self.clients@),
                models(kept@) == without_id(p, id),
            decreases self.clients@.len(),
        {
            let ghost pre = self.clients@;
            let ghost kpre = kept@;
            let c = self.clients.remove(0);
            proof {
                lemma_models_split(pre);
                assert(self.clients@ =~= pre.drop_first());
                lemma_without_id_app(p, seq![c@], id);
                lemma_without_id_one(c@, id);
                assert(p + seq![c@] =~= p.push(c@));
                assert(orig =~= (p + seq![c@]) + models(self.clients@)) by {
                    assert(p + (seq![c@] + models(pre.drop_first())) =~= (p + seq![c@]) + models(
                        pre.drop_first(),
                    ));
                }
                p = p.push(c@);
            }
            if c.session_id != id {
                kept.push(c);
                proof {
                    lemma_models_push(kpre, c);
                    assert(models(kept@) =~= without_id(p, id)) by {
                        assert(without_id(p, id) =~= models(kpre) + seq![c@]);
                        assert(models(kpre).push(c@) =~= models(kpre) + seq![c@]);
                    }
                }
            } else {
                proof {
                    assert(models(kept@) =~= without_id(p, id)) by {
                        assert(without_id(p, id) =~= models(kpre) + Seq::<ClientModel>::empty());
                        assert(models(kpre) + Seq::<ClientModel>::empty() =~= models(kpre));
                    }
                }
            }
        }
        proof {
            assert(models(self.clients@) =~= Seq::<ClientModel>::empty());
            assert(orig =~= p) by {
                assert(p + Seq::<ClientModel>::empty() =~= p);
            }
            lemma_without_id_ids(orig, id);
        }
        self.clients = kept;
    }

    /// Adds a session.  Always succeeds; any stale entry under the same
    /// session identity is replaced first, so the registry never holds two
    /// entries with one identity.
    pub fn register(&mut self, c: SyncClient)
        ensures
            final(self).server_id == old(self).server_id,
            final(self)@ == without_id(old(self)@, c@.session_id).push(c@),
            old(self).wf() ==> final(self).wf(),
    {
        let ghost orig = self@;
        let ghost cm = c@;
        self.unregister(c.session_id);
        let ghost kpre = self.clients@;
        self.clients.push(c);
        proof {
            lemma_models_push(kpre, c);
            lemma_without_id_ids(orig, cm.session_id);
            if distinct_ids(orig) {
                let out = without_id(orig, cm.session_id).push(cm);
                assert forall|a: int, b: int| 0 <= a < b < out.len() implies out[a].session_id
                    != out[b].session_id by {
                    if b < out.len() - 1 {
                        assert(out[a] == without_id(orig, cm.session_id)[a]);
                        assert(out[b] == without_id(orig, cm.session_id)[b]);
                    } else {
                        assert(out[a] == without_id(orig, cm.session_id)[a]);
                        assert(out[b] == cm);
                    }
                }
            }
        }
    }

    /// Delivers a payload to every addressed session: under the critical
    /// section, each addressed open session has the payload appended to
    /// its outbound queue, and each addressed session whose delivery fails
    /// (its queue is closed) is evicted.  Sessions that are not addressed
    /// are untouched, dead or not.
    fn broadcast(&mut self, user: Option<Id>, exclude: Option<Id>, payload: &Vec<u8>)
        ensures
            final(self).server_id == old(self).server_id,
            final(self)@ == after_broadcast(
                old(self)@,
                user,
                exclude,
                old(self).server_id,
                payload@,
            ),
            old(self).wf() ==> final(self).wf(),
    {
        let ghost orig = self@;
        let ghost srv = self.server_id;
        let ghost pay = payload@;
        let ghost mut p: Seq<ClientModel> = Seq::empty();
        let mut kept: Vec<SyncClient> = Vec::new();
        proof {
            assert(orig =~= p + self@);
            assert(after_broadcast(p, user, exclude, srv, pay) =~= Seq::<ClientModel>::empty());
            assert(models(kept@) =~= after_broadcast(p, user, exclude, srv, pay));
        }
        while self.clients.len() > 0
            invariant
                self.server_id == old(self).server_id,
                srv == self.server_id,
                pay == payload@,
                orig == p + models(self.clients@),
                models(kept@) == after_broadcast(p, user, exclude, srv, pay),
            decreases self.clients@.len(),
        {
            let ghost pre = self.clients@;
            let ghost kpre = kept@;
            let mut c = self.clients.remove(0);
            let ghost cm = c@;
            proof {
                lemma_models_split(pre);
                assert(self.clients@ =~= pre.drop_first());
                lemma_after_broadcast_app(p, seq![cm], user, exclude, srv, pay);
                lemma_after_broadcast_one(cm, user, exclude, srv, pay);
                assert(p + seq![cm] =~= p.push(cm));
                assert(orig =~= (p + seq![cm]) + models(self.clients@)) by {
                    assert(p + (seq![cm] + models(pre.drop_first())) =~= (p + seq![cm]) + models(
                        pre.drop_first(),
                    ));
                }
                p = p.push(cm);
            }
            let addressed = c.session_id != self.server_id && (match user {
                Some(u) => c.user_id == u,
                None => true,
            }) && (match exclude {
                Some(x) => c.session_id != x,
                None => true,
            });
            proof {
                assert(addressed == receives(cm, user, exclude, srv));
            }
            if addressed && c.open {
                c.outbound.push(clone_payload(payload));
                proof {
                    assert(c@ =~= deliver(cm, pay)) by {
                        assert(c.outbound@.len() == cm.outbound.len() + 1);
                        assert forall|k: int| 0 <= k < c.outbound@.len() implies c.outbound.deep_view()[k]
                            == cm.outbound.push(pay)[k] by {
                        }
                    }
                }
                kept.push(c);
                proof {
                    lemma_models_push(kpre, c);
                    assert(models(kept@) =~= after_broadcast(p, user, exclude, srv, pay)) by {
                        assert(after_broadcast(p, user, exclude, srv, pay) =~= models(kpre)
                            + seq![deliver(cm, pay)]);
                        assert(models(kpre).push(c@) =~= models(kpre) + seq![deliver(cm, pay)]);
                    }
                }
            } else if addressed {
                proof {
                    assert(models(kept@) =~= after_broadcast(p, user, exclude, srv, pay)) by {
                        assert(after_broadcast(p, user, exclude, srv, pay) =~= models(kpre)
                            + Seq::<ClientModel>::empty());
                        assert(models(kpre) + Seq::<ClientModel>::empty() =~= models(kpre));
                    }
                }
            } else {
                kept.push(c);
                proof {
                    lemma_models_push(kpre, c);
                    assert(models(kept@) =~= after_broadcast(p, user, exclude, srv, pay)) by {
                        assert(after_broadcast(p, user, exclude, srv, pay) =~= models(kpre)
                            + seq![cm]);
                        assert(models(kpre).push(cm) =~= models(kpre) + seq![cm]);
                    }
                }
            }
        }
        proof {
            assert(models(self.clients@) =~= Seq::<ClientModel>::empty());
            assert(orig =~= p) by {
                assert(p + Seq::<ClientModel>::empty() =~= p);
            }
            lemma_after_broadcast_ids(orig, user, exclude, srv, pay);
        }
        self.clients = kept;
    }

    /// Delivers a payload to every other session of the same user: the
    /// excluded (sending) session and the reserved server identity never
    /// receive it.  A recipient whose delivery fails is evicted; the
    /// others still receive this broadcast.
    pub fn broadcast_to_user(&mut self, user_id: Id, exclude_session_id: Id, payload: &Vec<u8>)
        ensures
            final(self).server_id == old(self).server_id,
            final(self)@ == after_broadcast(
                old(self)@,
                Some(user_id),
                Some(exclude_session_id),
                old(self).server_id,
                payload@,
            ),
            old(self).wf() ==> final(self).wf(),
    {
        self.broadcast(Some(user_id), Some(exclude_session_id), payload)
    }

    /// Delivers a payload to every session regardless of user, except the
    /// reserved server identity and, when one is given, the triggering
    /// session.  A recipient whose delivery fails is evicted; the others
    /// still receive this broadcast.
    pub fn broadcast_all(&mut self, exclude_session_id: Option<Id>, payload: &Vec<u8>)
        ensures
            final(self).server_id == old(self).server_id,
            final(self)@ == after_broadcast(
                old(self)@,
                None,
                exclude_session_id,
                old(self).server_id,
                payload@,
            ),
            old(self).wf() ==> final(self).wf(),
    {
        self.broadcast(None, exclude_session_id, payload)
    }

    /// Marks the session's outbound queue as closed: its connection has
    /// gone away, and the next delivery attempt against it will fail and
    /// evict it.
    pub fn close(&mut self, id: Id)
        ensures
            final(self).server_id == old(self).server_id,
            final(self)@.len() == old(self)@.len(),
            forall|k: int| 0 <= k < old(self)@.len() ==> #[trigger] final(self)@[k]
                == if old(self)@[k].session_id == id {
                    (ClientModel { open: false, ..old(self)@[k] })
                } else {
                    old(self)@[k]
                },
            old(self).wf() ==> final(self).wf(),
    {
        let ghost orig = self@;
        let mut kept: Vec<SyncClient> = Vec::new();
        proof {
            assert(models(kept@) =~= Seq::<ClientModel>::empty());
        }
        while self.clients.len() > 0
            invariant
                self.server_id == old(self).server_id,
                orig == old(self)@,
                models(kept@).len() + models(self.clients@).len() == orig.len(),
                forall|k: int| 0 <= k < models(kept@).len() ==> #[trigger] models(kept@)[k]
                    == if orig[k].session_id == id {
                        (ClientModel { open: false, ..orig[k] })
                    } else {
                        orig[k]
                    },
                forall|k: int| 0 <= k < models(self.clients@).len()
                    ==> #[trigger] models(self.clients@)[k] == orig[models(kept@).len() + k],
            decreases self.clients@.len(),
        {
            let ghost pre = self.clients@;
            let ghost kpre = kept@;
            let mut c = self.clients.remove(0);
            let ghost cm = c@;
            proof {
                assert(self.clients@ =~= pre.drop_first());
                assert(models(pre)[0] == cm);
                assert forall|k: int| 0 <= k < models(self.clients@).len() implies #[trigger] models(
                    self.clients@,
                )[k] == models(pre)[k + 1] by {
                    assert(pre.drop_first()[k] == pre[k + 1]);
                }
            }
            if c.session_id == id {
                c.open = false;
                proof {
                    assert(c@ =~= (ClientModel { open: false, ..cm }));
                }
            }
            kept.push(c);
            proof {
                lemma_models_push(kpre, c);
            }
        }
        self.clients = kept;
        proof {
            if distinct_ids(orig) {
                assert forall|a: int, b: int| 0 <= a < b < self@.len() implies self@[a].session_id
                    != self@[b].session_id by {
                    assert(self@[a].session_id == orig[a].session_id);
                    assert(self@[b].session_id == orig[b].session_id);
                }
            }
        }
    }
}

} // verus!