//! The store of time-locked messages, the index of who created which, and
//! the rules for creating, reading, updating and releasing them.
use vstd::prelude::*;
use crate::text::{bytes_equal, decimal, decimal_of, principal_text, principal_text_of, trim, trimmed};
use crate::types::{TimelockError, TimelockInfo, TimelockMessage};
use vstd::slice::slice_to_vec;

verus! {

/// The word that starts every generated id.
pub open spec fn timelock_word() -> Seq<char> {
    seq!['t', 'i', 'm', 'e', 'l', 'o', 'c', 'k']
}

/// The prefix of every release identity.
pub open spec fn timelock_prefix() -> Seq<char> {
    timelock_word() + seq!['_']
}

/// The release identity bound to the message with id `id`.
pub open spec fn identity_of(id: Seq<char>) -> Seq<char> {
    timelock_prefix() + id
}

/// An id made of a prefix, the creator's principal text and a time in seconds.
pub open spec fn unique_id_of(prefix: Seq<char>, who: Seq<char>, secs: nat) -> Seq<char> {
    prefix + seq!['_'] + who + seq!['_'] + decimal_of(secs)
}

/// `p` is a prefix of `s`.
pub open spec fn starts_with(s: Seq<char>, p: Seq<char>) -> bool {
    p.len() <= s.len() && s.subrange(0, p.len() as int) == p
}

/// Some message in `recs` has id `id`.
pub open spec fn has_id(recs: Seq<TimelockMessage>, id: Seq<char>) -> bool {
    exists|i: int| 0 <= i < recs.len() && #[trigger] recs[i].id@ == id
}

/// The message at position `i` of `recs` has id `id`.
pub open spec fn locate(recs: Seq<TimelockMessage>, id: Seq<char>, i: int) -> bool {
    0 <= i < recs.len() && recs[i].id@ == id
}

/// No two messages share an id.
pub open spec fn ids_unique(recs: Seq<TimelockMessage>) -> bool {
    forall|i: int, j: int|
        0 <= i < recs.len() && 0 <= j < recs.len() && #[trigger] recs[i].id@ == #[trigger] recs[j].id@
            ==> i == j
}

/// The messages of `recs` created by `owner`, in the order of creation.
pub open spec fn owned(recs: Seq<TimelockMessage>, owner: Seq<u8>) -> Seq<TimelockMessage>
    decreases recs.len(),
{
    if recs.len() == 0 {
        Seq::empty()
    } else if recs.last().creator@ == owner {
        owned(recs.drop_last(), owner).push(recs.last())
    } else {
        owned(recs.drop_last(), owner)
    }
}

/// The greatest id length in `recs`.
pub open spec fn max_id_len(recs: Seq<TimelockMessage>) -> nat
    decreases recs.len(),
{
    if recs.len() == 0 {
        0
    } else {
        let rest = max_id_len(recs.drop_last());
        if recs.last().id@.len() > rest {
            recs.last().id@.len()
        } else {
            rest
        }
    }
}

/// The ids of one creator's messages, in the order of creation.
pub struct OwnerEntry {
    pub owner: Vec<u8>,
    pub ids: Vec<String>,
}

/// `ids` lists, in order, the ids of the messages in `recs` created by `owner`.
pub open spec fn lists_owned(recs: Seq<TimelockMessage>, owner: Seq<u8>, ids: Seq<String>) -> bool {
    &&& ids.len() == owned(recs, owner).len()
    &&& forall|k: int| 0 <= k < ids.len() ==> #[trigger] ids[k]@ == owned(recs, owner)[k].id@
}

/// Each creator has at most one entry, each entry lists exactly its owner's
/// messages, and every creator has an entry.
pub open spec fn index_wf(recs: Seq<TimelockMessage>, index: Seq<OwnerEntry>) -> bool {
    &&& forall|e1: int, e2: int|
        0 <= e1 < index.len() && 0 <= e2 < index.len() && #[trigger] index[e1].owner@ == #[trigger] index[e2].owner@
            ==> e1 == e2
    &&& forall|e: int| 0 <= e < index.len() ==> lists_owned(recs, #[trigger] index[e].owner@, index[e].ids@)
    &&& forall|i: int| 0 <= i < recs.len() ==> exists|e: int| 0 <= e < index.len() && #[trigger] index[e].owner@ == #[trigger] recs[i].creator@
}

/// Holds the messages and, for each creator, the ids of their messages.
pub struct TimelockStore {
    messages: Vec<TimelockMessage>,
    user_timelocks: Vec<OwnerEntry>,
}

impl TimelockStore {
    /// The messages, in the order of creation.
    pub closed spec fn records(&self) -> Seq<TimelockMessage> {
        self.messages@
    }

    /// The ids are unique, each message carries the release identity of its
    /// id, and the index lists for each creator exactly their messages.
    pub closed spec fn wf(&self) -> bool {
        let recs = self.messages@;
        let index = self.user_timelocks@;
        &&& ids_unique(recs)
        &&& forall|i: int| 0 <= i < recs.len() ==> #[trigger] recs[i].timelock_identity@ == identity_of(recs[i].id@)
        &&& index_wf(recs, index)
    }

    /// An empty store.
    pub fn new() -> (r: TimelockStore)
        ensures
            r.wf(),
            r.records().len() == 0,
    {
        TimelockStore { messages: Vec::new(), user_timelocks: Vec::new() }
    }
}

/// The position of the message with id `id`, if there is one.
fn find_message(msgs: &Vec<TimelockMessage>, id: &String) -> (r: Option<usize>)
    ensures
        match r {
            Some(i) => locate(msgs@, id@, i as int),
            None => !has_id(msgs@, id@),
        },
{
    let mut i: usize = 0;
    while i < msgs.len()
        invariant
            i <= msgs@.len(),
            forall|k: int| 0 <= k < i ==> msgs@[k].id@ != id@,
        decreases msgs@.len() - i,
    {
        if msgs[i].id == *id {
            return Some(i);
        }
        i = i + 1;
    }
    None
}

/// The position of `owner`'s index entry, if there is one.
fn find_owner(index: &Vec<OwnerEntry>, owner: &[u8]) -> (r: Option<usize>)
    ensures
        match r {
            Some(e) => e < index@.len() && index@[e as int].owner@ == owner@,
            None => forall|e: int| 0 <= e < index@.len() ==> index@[e].owner@ != owner@,
        },
{
    let mut e: usize = 0;
    while e < index.len()
        invariant
            e <= index@.len(),
            forall|k: int| 0 <= k < e ==> index@[k].owner@ != owner@,
        decreases index@.len() - e,
    {
        if bytes_equal(index[e].owner.as_slice(), owner) {
            return Some(e);
        }
        e = e + 1;
    }
    None
}

/// The release identity of the message with id `timelock_id`.
pub fn generate_timelock_identity(timelock_id: &str) -> (r: String)
    ensures
        r@ == identity_of(timelock_id@),
{
    let p = String::from_str("timelock_");
    proof {
        reveal_strlit("timelock_");
    }
    assert(p@ == timelock_prefix());
    p.concat(timelock_id)
}

/// An id made of `prefix`, the text of the principal `caller` and the time
/// `now` in seconds, joined by underscores.
pub fn generate_unique_id(prefix: &str, caller: &[u8], now: u64) -> (r: String)
    requires
        caller@.len() <= 29,
    ensures
        r@ == unique_id_of(prefix@, principal_text_of(caller@), now as nat),
{
    let sep = String::from_str("_");
    proof {
        reveal_strlit("_");
    }
    let who = principal_text(caller);
    let secs = decimal(now);
    let r = String::from_str(prefix).concat(sep.as_str()).concat(who.as_str()).concat(sep.as_str()).concat(
        secs.as_str(),
    );
    r
}


/// `id` is `base` followed by underscores only, and is the shortest such
/// text that no message of `recs` has: each shorter one was taken.
pub open spec fn is_first_free_id(recs: Seq<TimelockMessage>, base: Seq<char>, id: Seq<char>) -> bool {
    &&& starts_with(id, base)
    &&& !has_id(recs, id)
    &&& forall|k: int| base.len() <= k < id.len() ==> id[k] == '_'
    &&& forall|m: int| base.len() <= m < id.len() ==> has_id(recs, #[trigger] id.subrange(0, m))
}

/// `m` is the message that a successful creation stores: id `id`, made by
/// `caller`, with the trimmed title, the content as given, the unlock time,
/// and the release identity of its id.
pub open spec fn is_new_record(
    m: TimelockMessage,
    id: String,
    caller: Seq<u8>,
    title: Seq<char>,
    content: String,
    unlock_timestamp: u64,
) -> bool {
    &&& m.id == id
    &&& m.creator@ == caller
    &&& m.title@ == trimmed(title)
    &&& m.encrypted_content == content
    &&& m.unlock_timestamp == unlock_timestamp
    &&& m.timelock_identity@ == identity_of(id@)
}

proof fn lemma_owned_push(recs: Seq<TimelockMessage>, m: TimelockMessage, owner: Seq<u8>)
    ensures
        owned(recs.push(m), owner) == (if m.creator@ == owner {
            owned(recs, owner).push(m)
        } else {
            owned(recs, owner)
        }),
{
    assert(recs.push(m).drop_last() =~= recs);
}

proof fn lemma_max_id_len(recs: Seq<TimelockMessage>, i: int)
    requires
        0 <= i < recs.len(),
    ensures
        recs[i].id@.len() <= max_id_len(recs),
    decreases recs.len(),
{
    if i < recs.len() - 1 {
        lemma_max_id_len(recs.drop_last(), i);
    }
}

/// Every message listed for `owner` stands in `recs` and was made by `owner`.
proof fn lemma_owned_in(recs: Seq<TimelockMessage>, owner: Seq<u8>, k: int)
    requires
        0 <= k < owned(recs, owner).len(),
    ensures
        exists|j: int| 0 <= j < recs.len() && recs[j] == owned(recs, owner)[k] && recs[j].creator@ == owner,
    decreases recs.len(),
{
    let rest = recs.drop_last();
    if recs.last().creator@ == owner && k == owned(rest, owner).len() {
        assert(recs[recs.len() - 1] == owned(recs, owner)[k]);
    } else {
        lemma_owned_in(rest, owner, k);
        let j = choose|j: int| 0 <= j < rest.len() && rest[j] == owned(rest, owner)[k] && rest[j].creator@ == owner;
        assert(recs[j] == rest[j]);
    }
}

/// Replacing a message by one with the same id and creator leaves the ids
/// listed for each creator as they were.
proof fn lemma_owned_update(recs: Seq<TimelockMessage>, i: int, m: TimelockMessage, owner: Seq<u8>)
    requires
        0 <= i < recs.len(),
        m.id == recs[i].id,
        m.creator@ == recs[i].creator@,
    ensures
        owned(recs.update(i, m), owner).len() == owned(recs, owner).len(),
        forall|k: int| 0 <= k < owned(recs, owner).len()
            ==> #[trigger] owned(recs.update(i, m), owner)[k].id == owned(recs, owner)[k].id,
    decreases recs.len(),
{
    let new = recs.update(i, m);
    if i == recs.len() - 1 {
        assert(new.drop_last() =~= recs.drop_last());
    } else {
        assert(new.drop_last() =~= recs.drop_last().update(i, m));
        lemma_owned_update(recs.drop_last(), i, m, owner);
    }
}

/// Appending `message` and recording its id in its creator's entry (the
/// entry at `found`, or a new one at the end) keeps the index exact.
proof fn lemma_index_after_create(
    recs: Seq<TimelockMessage>,
    message: TimelockMessage,
    old_index: Seq<OwnerEntry>,
    index: Seq<OwnerEntry>,
    found: Option<usize>,
)
    requires
        index_wf(recs, old_index),
        match found {
            Some(f) => {
                &&& f < old_index.len()
                &&& old_index[f as int].owner@ == message.creator@
                &&& index == old_index.update(f as int, index[f as int])
                &&& index[f as int].owner@ == message.creator@
                &&& index[f as int].ids@ == old_index[f as int].ids@.push(message.id)
            },
            None => {
                &&& forall|e: int| 0 <= e < old_index.len() ==> old_index[e].owner@ != message.creator@
                &&& index.len() == old_index.len() + 1
                &&& index.drop_last() == old_index
                &&& index.last().owner@ == message.creator@
                &&& index.last().ids@ == seq![message.id]
            },
        },
    ensures
        index_wf(recs.push(message), index),
{
    let new_recs = recs.push(message);
    let caller = message.creator;
    let id = message.id;
    assert(new_recs.drop_last() =~= recs);
    assert forall|o: Seq<u8>| #[trigger] owned(new_recs, o) == (if caller@ == o {
        owned(recs, o).push(message)
    } else {
        owned(recs, o)
    }) by {
        lemma_owned_push(recs, message, o);
    }
    if found is None {
        assert forall|e: int| 0 <= e < old_index.len() implies index[e] == old_index[e] by {
            assert(index.drop_last()[e] == index[e]);
        }
    }
    assert forall|e: int| 0 <= e < index.len() implies lists_owned(new_recs, #[trigger] index[e].owner@, index[e].ids@) by {
        let o = index[e].owner@;
        assert(owned(new_recs, o) == (if caller@ == o {
            owned(recs, o).push(message)
        } else {
            owned(recs, o)
        }));
        match found {
            Some(f) => {
                if e != f as int {
                    assert(index[e] == old_index[e]);
                    assert(lists_owned(recs, old_index[e].owner@, old_index[e].ids@));
                    assert(o != caller@);
                } else {
                    assert(lists_owned(recs, old_index[e].owner@, old_index[e].ids@));
                    assert(index[e].ids@ == old_index[e].ids@.push(id));
                    let ids = index[e].ids@;
                    assert forall|k: int| 0 <= k < ids.len() implies #[trigger] ids[k]@ == owned(new_recs, o)[k].id@ by {
                        if k < ids.len() - 1 {
                            assert(ids[k] == old_index[e].ids@[k]);
                        }
                    }
                }
            },
            None => {
                if e < old_index.len() {
                    assert(index[e] == old_index[e]);
                    assert(lists_owned(recs, old_index[e].owner@, old_index[e].ids@));
                } else {
                    if owned(recs, caller@).len() > 0 {
                        lemma_owned_in(recs, caller@, 0);
                        let j = choose|j: int| 0 <= j < recs.len() && recs[j] == owned(recs, caller@)[0] && recs[j].creator@ == caller@;
                        let e2 = choose|e2: int| 0 <= e2 < old_index.len() && #[trigger] old_index[e2].owner@ == #[trigger] recs[j].creator@;
                        assert(old_index[e2].owner@ != caller@);
                    }
                    assert(index[e].ids@.len() == 1);
                }
            },
        }
    }
    assert forall|e1: int, e2: int|
        0 <= e1 < index.len() && 0 <= e2 < index.len() && #[trigger] index[e1].owner@ == #[trigger] index[e2].owner@
            implies e1 == e2 by {
        if e1 < old_index.len() && e2 < old_index.len() {
            assert(index[e1].owner@ == old_index[e1].owner@);
            assert(index[e2].owner@ == old_index[e2].owner@);
        } else if e1 < old_index.len() {
            assert(index[e1].owner@ == old_index[e1].owner@);
        } else if e2 < old_index.len() {
            assert(index[e2].owner@ == old_index[e2].owner@);
        }
    }
    assert forall|i: int| 0 <= i < new_recs.len() implies exists|e: int| 0 <= e < index.len() && #[trigger] index[e].owner@ == #[trigger] new_recs[i].creator@ by {
        if i < recs.len() {
            let e = choose|e: int| 0 <= e < old_index.len() && #[trigger] old_index[e].owner@ == recs[i].creator@;
            assert(index[e].owner@ == old_index[e].owner@);
        } else {
            if let Some(e) = found {
                assert(index[e as int].owner@ == caller@);
            } else {
                assert(index[old_index.len() as int].owner@ == caller@);
            }
        }
    }
}

/// Creates a message of `caller` at time `now` (in seconds) that unlocks at
/// `unlock_timestamp`, and returns its id.
///
/// The unlock time must be after `now`, and neither the content nor the
/// title may be empty once trimmed; these are checked in that order, and a
/// refusal leaves the store as it was. The id is made of the word
/// `timelock`, the caller's principal text and `now`; where a message already
/// has that id, underscores are appended until it is fresh. The title is
/// stored trimmed, the content as given, and the id is appended to the
/// caller's index entry.
pub fn create_timelock_message(
    store: &mut TimelockStore,
    content: String,
    unlock_timestamp: u64,
    title: String,
    caller: &[u8],
    now: u64,
) -> (r: Result<String, TimelockError>)
    requires
        old(store).wf(),
        caller@.len() <= 29,
    ensures
        final(store).wf(),
        unlock_timestamp <= now ==> r == Err::<String, TimelockError>(TimelockError::InvalidUnlockTime),
        unlock_timestamp > now && trimmed(content@).len() == 0 ==> r == Err::<String, TimelockError>(
            TimelockError::EmptyContent,
        ),
        unlock_timestamp > now && trimmed(content@).len() > 0 && trimmed(title@).len() == 0 ==> r == Err::<
            String,
            TimelockError,
        >(TimelockError::EmptyTitle),
        r is Err ==> final(store).records() == old(store).records(),
        unlock_timestamp > now && trimmed(content@).len() > 0 && trimmed(title@).len() > 0 ==> r is Ok,
        r matches Ok(id) ==> {
            &&& !has_id(old(store).records(), id@)
            &&& starts_with(id@, unique_id_of(timelock_word(), principal_text_of(caller@), now as nat))
            &&& is_first_free_id(
                old(store).records(),
                unique_id_of(timelock_word(), principal_text_of(caller@), now as nat),
                id@,
            )
            &&& final(store).records().len() == old(store).records().len() + 1
            &&& final(store).records().drop_last() == old(store).records()
            &&& is_new_record(final(store).records().last(), id, caller@, title@, content, unlock_timestamp)
        },
{
    if unlock_timestamp <= now {
        return Err(TimelockError::InvalidUnlockTime);
    }
    let trimmed_content = trim(content.as_str());
    if trimmed_content.as_str().is_empty() {
        return Err(TimelockError::EmptyContent);
    }
    let trimmed_title = trim(title.as_str());
    if trimmed_title.as_str().is_empty() {
        return Err(TimelockError::EmptyTitle);
    }
    let word = String::from_str("timelock");
    proof {
        reveal_strlit("timelock");
    }
    assert(word@ == timelock_word());
    let base = generate_unique_id(word.as_str(), caller, now);
    let ghost base_view = base@;
    let ghost recs = store.messages@;
    let mut id = base;
    assert(id@.subrange(0, base_view.len() as int) =~= id@);
    while find_message(&store.messages, &id).is_some()
        invariant
            store.messages@ == recs,
            starts_with(id@, base_view),
            forall|k: int| base_view.len() <= k < id@.len() ==> id@[k] == '_',
            forall|m: int| base_view.len() <= m < id@.len() ==> has_id(recs, #[trigger] id@.subrange(0, m)),
        decreases max_id_len(recs) + 1 - id@.len(),
    {
        proof {
            let i = choose|i: int| 0 <= i < recs.len() && #[trigger] recs[i].id@ == id@;
            lemma_max_id_len(recs, i);
        }
        let ghost before = id@;
        id = id.concat("_");
        proof {
            reveal_strlit("_");
            assert(id@.subrange(0, base_view.len() as int) =~= before.subrange(0, base_view.len() as int));
            assert(id@.subrange(0, before.len() as int) =~= before);
            assert forall|m: int| base_view.len() <= m < id@.len() implies has_id(recs, #[trigger] id@.subrange(0, m)) by {
                if m < before.len() {
                    assert(id@.subrange(0, m) =~= before.subrange(0, m));
                }
            }
        }
    }
    let timelock_identity = generate_timelock_identity(id.as_str());
    let message = TimelockMessage {
        id: id.clone(),
        creator: slice_to_vec(caller),
        title: trimmed_title,
        encrypted_content: content,
        unlock_timestamp,
        timelock_identity,
    };
    let ghost old_index = store.user_timelocks@;
    store.messages.push(message);
    let ghost new_recs = store.messages@;
    let found = find_owner(&store.user_timelocks, caller);
    match found {
        Some(e) => {
            let mut entry = store.user_timelocks.remove(e);
            entry.ids.push(id.clone());
            store.user_timelocks.insert(e, entry);
            proof {
                assert(store.user_timelocks@ =~= old_index.update(e as int, entry));
                assert(store.user_timelocks@[e as int] == entry);
            }
        },
        None => {
            let mut ids: Vec<String> = Vec::new();
            ids.push(id.clone());
            store.user_timelocks.push(OwnerEntry { owner: slice_to_vec(caller), ids });
            assert(store.user_timelocks@.drop_last() =~= old_index);
        },
    }
    proof {
        lemma_index_after_create(recs, message, old_index, store.user_timelocks@, found);
        assert forall|i: int| 0 <= i < new_recs.len() implies #[trigger] new_recs[i].timelock_identity@ == identity_of(new_recs[i].id@) by {
            if i < recs.len() {
                assert(new_recs[i] == recs[i]);
            }
        }
        assert forall|i: int, j: int|
            0 <= i < new_recs.len() && 0 <= j < new_recs.len() && #[trigger] new_recs[i].id@ == #[trigger] new_recs[j].id@
                implies i == j by {
            if i < recs.len() && j < recs.len() {
                assert(new_recs[i] == recs[i] && new_recs[j] == recs[j]);
            } else if i < recs.len() {
                assert(new_recs[i] == recs[i]);
            } else if j < recs.len() {
                assert(new_recs[j] == recs[j]);
            }
        }
        assert(ids_unique(new_recs));
        assert(store.wf());
    }
    Ok(id)
}


/// The answer owed to `caller` asking for the content of the message `id`:
/// `NotFound` where no message has that id, `AccessDenied` where another
/// principal created it, and its content otherwise.
pub open spec fn content_answer(
    recs: Seq<TimelockMessage>,
    id: Seq<char>,
    caller: Seq<u8>,
    r: Result<String, TimelockError>,
) -> bool {
    &&& !has_id(recs, id) ==> r == Err::<String, TimelockError>(TimelockError::NotFound)
    &&& forall|i: int| #[trigger]
        locate(recs, id, i) ==> r == (if recs[i].creator@ != caller {
            Err(TimelockError::AccessDenied)
        } else {
            Ok(recs[i].encrypted_content)
        })
}

/// The answer owed to `caller` asking for the release identity of the
/// message `id`, with the same refusals as for its content.
pub open spec fn identity_answer(
    recs: Seq<TimelockMessage>,
    id: Seq<char>,
    caller: Seq<u8>,
    r: Result<String, TimelockError>,
) -> bool {
    &&& !has_id(recs, id) ==> r == Err::<String, TimelockError>(TimelockError::NotFound)
    &&& forall|i: int| #[trigger]
        locate(recs, id, i) ==> r == (if recs[i].creator@ != caller {
            Err(TimelockError::AccessDenied)
        } else {
            Ok(recs[i].timelock_identity)
        })
}

/// The release identity is a function of the id, and distinct ids have
/// distinct release identities.
pub proof fn lemma_identity_of_injective(a: Seq<char>, b: Seq<char>)
    ensures
        (identity_of(a) == identity_of(b)) == (a == b),
{
    let n = timelock_prefix().len() as int;
    if identity_of(a) == identity_of(b) {
        assert(a =~= identity_of(a).subrange(n, identity_of(a).len() as int));
        assert(b =~= identity_of(b).subrange(n, identity_of(b).len() as int));
    }
}

/// Asking twice for the release identity of a message, with the store
/// unchanged, gives the same answer, and a successful answer is the release
/// identity of the id asked for.
pub proof fn lemma_identity_answer_deterministic(
    store: &TimelockStore,
    id: Seq<char>,
    caller: Seq<u8>,
    r1: Result<String, TimelockError>,
    r2: Result<String, TimelockError>,
)
    requires
        store.wf(),
        identity_answer(store.records(), id, caller, r1),
        identity_answer(store.records(), id, caller, r2),
    ensures
        r1 == r2,
        r1 matches Ok(identity) ==> identity@ == identity_of(id),
{
    let recs = store.records();
    if has_id(recs, id) {
        let i = choose|i: int| 0 <= i < recs.len() && #[trigger] recs[i].id@ == id;
        assert(locate(recs, id, i));
    }
}

/// A principal who created no message owns none, so its listing is empty.
pub proof fn lemma_no_messages_empty_listing(recs: Seq<TimelockMessage>, owner: Seq<u8>)
    requires
        forall|i: int| 0 <= i < recs.len() ==> #[trigger] recs[i].creator@ != owner,
    ensures
        owned(recs, owner).len() == 0,
    decreases recs.len(),
{
    if recs.len() > 0 {
        assert(recs.last() == recs[recs.len() - 1]);
        lemma_no_messages_empty_listing(recs.drop_last(), owner);
    }
}

/// After the creator replaces the content of a message, the answer owed to
/// the creator asking for that content is exactly the new content.
pub proof fn lemma_content_after_update(recs: Seq<TimelockMessage>, i: int, content: String)
    requires
        ids_unique(recs),
        0 <= i < recs.len(),
    ensures
        content_answer(with_content(recs, i, content), recs[i].id@, recs[i].creator@, Ok(content)),
        forall|r: Result<String, TimelockError>|
            content_answer(with_content(recs, i, content), recs[i].id@, recs[i].creator@, r) ==> r == Ok::<
                String,
                TimelockError,
            >(content),
{
    let new = with_content(recs, i, content);
    assert(locate(new, recs[i].id@, i));
    assert forall|j: int| #[trigger] locate(new, recs[i].id@, j) implies j == i by {
        if j != i {
            assert(new[j] == recs[j]);
        }
    }
}

/// The content of the message `timelock_id`, for its creator only.
pub fn get_timelock_content(store: &TimelockStore, timelock_id: &String, caller: &[u8]) -> (r: Result<
    String,
    TimelockError,
>)
    requires
        store.wf(),
    ensures
        content_answer(store.records(), timelock_id@, caller@, r),
{
    match find_message(&store.messages, timelock_id) {
        Some(i) => {
            let message = &store.messages[i];
            if !bytes_equal(message.creator.as_slice(), caller) {
                return Err(TimelockError::AccessDenied);
            }
            Ok(message.encrypted_content.clone())
        },
        None => Err(TimelockError::NotFound),
    }
}

/// The release identity of the message `timelock_id`, for its creator only.
pub fn get_timelock_identity(store: &TimelockStore, timelock_id: &String, caller: &[u8]) -> (r: Result<
    String,
    TimelockError,
>)
    requires
        store.wf(),
    ensures
        identity_answer(store.records(), timelock_id@, caller@, r),
{
    match find_message(&store.messages, timelock_id) {
        Some(i) => {
            let message = &store.messages[i];
            if !bytes_equal(message.creator.as_slice(), caller) {
                return Err(TimelockError::AccessDenied);
            }
            Ok(message.timelock_identity.clone())
        },
        None => Err(TimelockError::NotFound),
    }
}

/// `recs` with the content of the message at `i` replaced by `content`.
pub open spec fn with_content(recs: Seq<TimelockMessage>, i: int, content: String) -> Seq<TimelockMessage> {
    recs.update(i, TimelockMessage { encrypted_content: content, ..recs[i] })
}

/// Replaces the content of the message `timelock_id`; only its creator may.
/// Nothing else of the store changes.
pub fn update_timelock_content(
    store: &mut TimelockStore,
    timelock_id: &String,
    encrypted_content: String,
    caller: &[u8],
) -> (r: Result<bool, TimelockError>)
    requires
        old(store).wf(),
    ensures
        final(store).wf(),
        !has_id(old(store).records(), timelock_id@) ==> r == Err::<bool, TimelockError>(TimelockError::NotFound),
        forall|i: int| #[trigger]
            locate(old(store).records(), timelock_id@, i) ==> r == (if old(store).records()[i].creator@ != caller@ {
                Err(TimelockError::AccessDenied)
            } else {
                Ok(true)
            }),
        r is Err ==> final(store).records() == old(store).records(),
        forall|i: int| #[trigger]
            locate(old(store).records(), timelock_id@, i) && r is Ok ==> final(store).records() == with_content(
                old(store).records(),
                i,
                encrypted_content,
            ),
{
    match find_message(&store.messages, timelock_id) {
        Some(i) => {
            if !bytes_equal(store.messages[i].creator.as_slice(), caller) {
                return Err(TimelockError::AccessDenied);
            }
            let ghost recs = store.messages@;
            let mut message = store.messages.remove(i);
            message.encrypted_content = encrypted_content;
            store.messages.insert(i, message);
            proof {
                let new_recs = store.messages@;
                assert(new_recs =~= with_content(recs, i as int, encrypted_content));
                assert(new_recs =~= recs.update(i as int, message));
                let index = store.user_timelocks@;
                assert forall|e: int| 0 <= e < index.len() implies lists_owned(new_recs, #[trigger] index[e].owner@, index[e].ids@) by {
                    lemma_owned_update(recs, i as int, message, index[e].owner@);
                }
                assert forall|i1: int, j1: int|
                    0 <= i1 < new_recs.len() && 0 <= j1 < new_recs.len() && #[trigger] new_recs[i1].id@ == #[trigger] new_recs[j1].id@
                        implies i1 == j1 by {
                    assert(new_recs[i1].id == recs[i1].id && new_recs[j1].id == recs[j1].id);
                }
                assert forall|k: int| 0 <= k < new_recs.len() implies #[trigger] new_recs[k].timelock_identity@ == identity_of(new_recs[k].id@) by {
                    assert(new_recs[k].id == recs[k].id && new_recs[k].timelock_identity == recs[k].timelock_identity);
                }
                assert forall|k: int| 0 <= k < new_recs.len() implies exists|e: int| 0 <= e < index.len() && #[trigger] index[e].owner@ == #[trigger] new_recs[k].creator@ by {
                    assert(new_recs[k].creator == recs[k].creator);
                    let e = choose|e: int| 0 <= e < index.len() && #[trigger] index[e].owner@ == recs[k].creator@;
                    assert(index[e].owner@ == new_recs[k].creator@);
                }
            }
            Ok(true)
        },
        None => Err(TimelockError::NotFound),
    }
}

/// Authorises the release of the decryption key of the message
/// `timelock_id` at time `now` (in seconds), and returns the identity under
/// which the key service is to derive it.
///
/// Only the creator may ask, and only once `now` has reached the unlock
/// time. The store is not changed, so the call can be repeated.
pub fn get_timelock_decryption_key(store: &TimelockStore, timelock_id: &String, caller: &[u8], now: u64) -> (r:
    Result<String, TimelockError>)
    requires
        store.wf(),
    ensures
        !has_id(store.records(), timelock_id@) ==> r == Err::<String, TimelockError>(TimelockError::NotFound),
        forall|i: int| #[trigger]
            locate(store.records(), timelock_id@, i) ==> r == (if store.records()[i].creator@ != caller@ {
                Err(TimelockError::AccessDenied)
            } else if now < store.records()[i].unlock_timestamp {
                Err(TimelockError::NotYetUnlockable)
            } else {
                Ok(store.records()[i].timelock_identity)
            }),
        r matches Ok(identity) ==> identity@ == identity_of(timelock_id@),
{
    match find_message(&store.messages, timelock_id) {
        Some(i) => {
            let message = &store.messages[i];
            if !bytes_equal(message.creator.as_slice(), caller) {
                return Err(TimelockError::AccessDenied);
            }
            if now < message.unlock_timestamp {
                return Err(TimelockError::NotYetUnlockable);
            }
            Ok(message.timelock_identity.clone())
        },
        None => Err(TimelockError::NotFound),
    }
}

/// What a listing at time `now` shows of the message `m`.
pub open spec fn is_info_of(info: TimelockInfo, m: TimelockMessage, now: u64) -> bool {
    &&& info.id == m.id
    &&& info.title == m.title
    &&& info.unlock_timestamp == m.unlock_timestamp
    &&& info.is_expired == (now >= m.unlock_timestamp)
}

/// The messages of `caller`, in the order of creation, as seen at time
/// `now` (in seconds); empty for a caller who created none.
pub fn get_my_timelocks(store: &TimelockStore, caller: &[u8], now: u64) -> (r: Vec<TimelockInfo>)
    requires
        store.wf(),
    ensures
        r@.len() == owned(store.records(), caller@).len(),
        forall|k: int| 0 <= k < r@.len() ==> is_info_of(#[trigger] r@[k], owned(store.records(), caller@)[k], now),
{
    let ghost recs = store.messages@;
    let ghost mine = owned(recs, caller@);
    let mut infos: Vec<TimelockInfo> = Vec::new();
    match find_owner(&store.user_timelocks, caller) {
        None => {
            proof {
                if mine.len() > 0 {
                    lemma_owned_in(recs, caller@, 0);
                    let j = choose|j: int| 0 <= j < recs.len() && recs[j] == mine[0] && recs[j].creator@ == caller@;
                    let e = choose|e: int| 0 <= e < store.user_timelocks@.len() && #[trigger] store.user_timelocks@[e].owner@ == #[trigger] recs[j].creator@;
                }
            }
        },
        Some(e) => {
            let ids = &store.user_timelocks[e].ids;
            assert(lists_owned(recs, caller@, ids@));
            let mut k: usize = 0;
            while k < ids.len()
                invariant
                    store.wf(),
                    recs == store.messages@,
                    mine == owned(recs, caller@),
                    lists_owned(recs, caller@, ids@),
                    k <= ids@.len(),
                    infos@.len() == k,
                    forall|x: int| 0 <= x < k ==> is_info_of(#[trigger] infos@[x], mine[x], now),
                decreases ids@.len() - k,
            {
                proof {
                    lemma_owned_in(recs, caller@, k as int);
                }
                let ghost j0 = choose|j: int| 0 <= j < recs.len() && recs[j] == mine[k as int] && recs[j].creator@ == caller@;
                assert(ids@[k as int]@ == recs[j0].id@);
                match find_message(&store.messages, &ids[k]) {
                    Some(j) => {
                        assert(recs[j as int].id@ == recs[j0].id@);
                        let message = &store.messages[j];
                        infos.push(
                            TimelockInfo {
                                id: message.id.clone(),
                                title: message.title.clone(),
                                unlock_timestamp: message.unlock_timestamp,
                                is_expired: now >= message.unlock_timestamp,
                            },
                        );
                    },
                    None => {
                        assert(recs[j0].id@ == ids@[k as int]@);
                    },
                }
                k = k + 1;
            }
        },
    }
    infos
}

} // verus!
