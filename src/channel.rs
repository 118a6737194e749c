use vstd::prelude::*;
use tokio::sync::mpsc::error::SendError;
use tokio::sync::mpsc::{UnboundedReceiver, UnboundedSender};

verus! {

/// A message to a running pipeline or procedure task.
#[derive(Clone, Copy, Debug, PartialEq, Eq, Structural)]
pub enum Command {
    KillProcedure,
    RetrieveLogs,
}

/// A reply from a running task.
#[derive(Clone, Debug)]
pub enum Response {
    /// The procedure was killed; its close code.
    KilledProcedure(i32),
    /// Captured log lines.
    Logs(Vec<String>),
}

#[verifier::external_type_specification]
#[verifier::external_body]
#[verifier::reject_recursive_types(T)]
pub struct ExUnboundedSender<T>(UnboundedSender<T>);

#[verifier::external_type_specification]
#[verifier::external_body]
#[verifier::reject_recursive_types(T)]
pub struct ExUnboundedReceiver<T>(UnboundedReceiver<T>);

#[verifier::external_type_specification]
#[verifier::external_body]
#[verifier::reject_recursive_types(T)]
pub struct ExSendError<T>(SendError<T>);

/// Relies on tokio's `unbounded_channel`: a new sender and its receiver.
pub assume_specification<T>[ tokio::sync::mpsc::unbounded_channel::<T> ]() -> (UnboundedSender<
    T,
>, UnboundedReceiver<T>);

/// Relies on tokio's `UnboundedSender::send`: fails where the receiver is gone.
pub assume_specification<T>[ UnboundedSender::<T>::send ](
    sender: &UnboundedSender<T>,
    message: T,
) -> Result<(), SendError<T>>;

/// Relies on tokio's `UnboundedSender::is_closed`: whether the receiver is gone.
pub assume_specification<T>[ UnboundedSender::<T>::is_closed ](sender: &UnboundedSender<T>) -> bool;

/// The identity of a pipeline task: repository URL, branch, pipeline name.
pub type ConnectionKey = (Seq<char>, Seq<char>, Seq<char>);

/// A live pipeline task, reachable through its cancellation sender.
#[derive(Debug)]
pub struct PipelineConnection {
    pub remote_url: String,
    pub branch_name: String,
    pub pipeline_name: String,
    sender: UnboundedSender<Command>,
}

impl PipelineConnection {
    pub closed spec fn key(&self) -> ConnectionKey {
        (self.remote_url@, self.branch_name@, self.pipeline_name@)
    }

    /// A connection for a new task, and the receiver that task listens on.
    pub fn new(remote_url: String, branch_name: String, pipeline_name: String) -> (r: (
        PipelineConnection,
        UnboundedReceiver<Command>,
    ))
        ensures
            r.0.key() == (remote_url@, branch_name@, pipeline_name@),
    {
        let (sender, receiver) = tokio::sync::mpsc::unbounded_channel();
        (PipelineConnection { remote_url, branch_name, pipeline_name, sender }, receiver)
    }

    pub fn send(&self, command: Command) -> Result<(), SendError<Command>> {
        self.sender.send(command)
    }

    pub fn is_closed(&self) -> bool {
        self.sender.is_closed()
    }

    /// Whether this connection is for the task identified by the three names.
    pub fn matches(&self, remote_url: &String, branch_name: &String, pipeline_name: &String) -> (r:
        bool)
        ensures
            r == (self.key() == (remote_url@, branch_name@, pipeline_name@)),
    {
        self.remote_url == *remote_url && self.branch_name == *branch_name && self.pipeline_name
            == *pipeline_name
    }
}

/// Keys of a sequence of connections.
pub open spec fn keys_of(conns: Seq<PipelineConnection>) -> Seq<ConnectionKey> {
    conns.map_values(|c: PipelineConnection| c.key())
}

/// The keys that remain after every entry with key `k` is taken out.
pub open spec fn without_key(keys: Seq<ConnectionKey>, k: ConnectionKey) -> Seq<ConnectionKey>
    decreases keys.len(),
{
    if keys.len() == 0 {
        seq![]
    } else {
        let rest = without_key(keys.drop_last(), k);
        if keys.last() == k {
            rest
        } else {
            rest.push(keys.last())
        }
    }
}

/// The registry's keys after a launch with key `k`: older tasks of that key are
/// preempted and dropped, and the new one is added at the end.
pub open spec fn after_launch(keys: Seq<ConnectionKey>, k: ConnectionKey) -> Seq<ConnectionKey> {
    without_key(keys, k).push(k)
}

pub open spec fn keys_distinct(keys: Seq<ConnectionKey>) -> bool {
    forall|i: int, j: int| 0 <= i < j < keys.len() ==> keys[i] != keys[j]
}

/// The live pipeline tasks, at most one for each (repository, branch, pipeline).
pub struct ConnectionRegistry {
    connections: Vec<PipelineConnection>,
}

impl ConnectionRegistry {
    pub closed spec fn spec_keys(&self) -> Seq<ConnectionKey> {
        keys_of(self.connections@)
    }

    pub open spec fn wf(&self) -> bool {
        keys_distinct(self.spec_keys())
    }

    pub fn new() -> (r: ConnectionRegistry)
        ensures
            r.wf(),
            r.spec_keys() == Seq::<ConnectionKey>::empty(),
    {
        let r = ConnectionRegistry { connections: Vec::new() };
        assert(r.spec_keys() =~= Seq::<ConnectionKey>::empty());
        r
    }

    pub fn len(&self) -> (r: usize)
        ensures
            r == self.spec_keys().len(),
    {
        self.connections.len()
    }

    /// Registers the connection of a newly started task. Each older connection with
    /// the same key is sent `KillProcedure` (a failed send is ignored: that task
    /// has already ended) and dropped, which closes its channel as well. Returns
    /// how many older connections were preempted so: one where the registry held
    /// the key, none otherwise.
    pub fn launch(&mut self, connection: PipelineConnection) -> (preempted: usize)
        requires
            old(self).wf(),
        ensures
            final(self).wf(),
            final(self).spec_keys() == after_launch(old(self).spec_keys(), connection.key()),
            old(self).spec_keys().contains(connection.key()) ==> preempted == 1,
            !old(self).spec_keys().contains(connection.key()) ==> preempted == 0,
    {
        let ghost k = connection.key();
        let ghost orig = self.connections@;
        let mut pending: Vec<PipelineConnection> = Vec::new();
        std::mem::swap(&mut self.connections, &mut pending);
        let mut kept: Vec<PipelineConnection> = Vec::new();
        let ghost mut taken: nat = 0;
        let mut preempted: usize = 0;
        let total = pending.len();
        while pending.len() > 0
            invariant
                orig == old(self).connections@,
                orig.len() == total,
                keys_distinct(keys_of(orig)),
                k == connection.key(),
                preempted + kept@.len() == taken,
                taken + pending@.len() == orig.len(),
                pending@ == orig.subrange(taken as int, orig.len() as int),
                keys_of(kept@) == without_key(keys_of(orig.subrange(0, taken as int)), k),
            decreases pending@.len(),
        {
            let c = pending.remove(0);
            proof {
                let before = orig.subrange(0, taken as int);
                let after = orig.subrange(0, taken as int + 1);
                assert(after.drop_last() =~= before);
                assert(keys_of(after).drop_last() =~= keys_of(before));
                assert(keys_of(after).last() == c.key());
                taken = taken + 1;
            }
            if c.matches(&connection.remote_url, &connection.branch_name, &connection.pipeline_name) {
                let _ = c.send(Command::KillProcedure);
                preempted = preempted + 1;
            } else {
                let ghost kept_before = kept@;
                kept.push(c);
                proof {
                    assert(keys_of(kept@) =~= keys_of(kept_before).push(c.key()));
                }
            }
            proof {
                assert(pending@ =~= orig.subrange(taken as int, orig.len() as int));
            }
        }
        proof {
            assert(orig.subrange(0, taken as int) =~= orig);
            lemma_without_key_distinct(keys_of(orig), k);
        }
        kept.push(connection);
        self.connections = kept;
        proof {
            assert(keys_of(self.connections@) =~= without_key(keys_of(orig), k).push(k));
            lemma_after_launch_distinct(keys_of(orig), k);
            lemma_without_key_len(keys_of(orig), k);
        }
        preempted
    }

    /// Keeps, in order, the connections whose flag in `open` is set, and drops
    /// the others.
    pub fn retain_open(&mut self, open: &Vec<bool>)
        requires
            old(self).wf(),
            open@.len() == old(self).spec_keys().len(),
        ensures
            final(self).wf(),
            final(self).spec_keys() == open_keys(old(self).spec_keys(), open@),
    {
        let ghost orig = self.connections@;
        let mut pending: Vec<PipelineConnection> = Vec::new();
        std::mem::swap(&mut self.connections, &mut pending);
        let mut kept: Vec<PipelineConnection> = Vec::new();
        let mut taken: usize = 0;
        let n = open.len();
        while pending.len() > 0
            invariant
                orig == old(self).connections@,
                open@.len() == orig.len(),
                n == open@.len(),
                taken + pending@.len() == orig.len(),
                pending@ == orig.subrange(taken as int, orig.len() as int),
                keys_of(kept@) == open_keys(
                    keys_of(orig).subrange(0, taken as int),
                    open@.subrange(0, taken as int),
                ),
            decreases pending@.len(),
        {
            let c = pending.remove(0);
            proof {
                let ks = keys_of(orig).subrange(0, taken as int + 1);
                let os = open@.subrange(0, taken as int + 1);
                assert(ks.drop_last() =~= keys_of(orig).subrange(0, taken as int));
                assert(os.drop_last() =~= open@.subrange(0, taken as int));
                assert(ks.last() == c.key());
                assert(os.last() == open@[taken as int]);
            }
            let ghost kept_before = kept@;
            if open[taken] {
                kept.push(c);
                proof {
                    assert(keys_of(kept@) =~= keys_of(kept_before).push(c.key()));
                }
            }
            taken = taken + 1;
            proof {
                assert(pending@ =~= orig.subrange(taken as int, orig.len() as int));
            }
        }
        proof {
            assert(keys_of(orig).subrange(0, taken as int) =~= keys_of(orig));
            assert(open@.subrange(0, taken as int) =~= open@);
            lemma_open_keys_distinct(keys_of(orig), open@);
        }
        self.connections = kept;
    }

    /// Drops the connections whose task has ended, as `is_closed` reports at the
    /// time of the call; the others stay, in order.
    pub fn prune_closed(&mut self)
        requires
            old(self).wf(),
        ensures
            final(self).wf(),
            exists|open: Seq<bool>|
                open.len() == old(self).spec_keys().len() && final(self).spec_keys()
                    == #[trigger] open_keys(old(self).spec_keys(), open),
    {
        let mut open: Vec<bool> = Vec::new();
        let mut i: usize = 0;
        while i < self.connections.len()
            invariant
                i <= self.connections@.len(),
                open@.len() == i,
            decreases self.connections@.len() - i,
        {
            open.push(!self.connections[i].is_closed());
            i = i + 1;
        }
        self.retain_open(&open);
    }
}

/// The keys whose flag is set, in order.
pub open spec fn open_keys(keys: Seq<ConnectionKey>, open: Seq<bool>) -> Seq<ConnectionKey>
    decreases keys.len(),
{
    if keys.len() == 0 || open.len() == 0 {
        seq![]
    } else {
        let rest = open_keys(keys.drop_last(), open.drop_last());
        if open.last() {
            rest.push(keys.last())
        } else {
            rest
        }
    }
}

proof fn lemma_open_keys_distinct(keys: Seq<ConnectionKey>, open: Seq<bool>)
    requires
        keys_distinct(keys),
        open.len() == keys.len(),
    ensures
        keys_distinct(open_keys(keys, open)),
        forall|x: ConnectionKey| #[trigger] open_keys(keys, open).contains(x) ==> keys.contains(x),
    decreases keys.len(),
{
    if keys.len() > 0 {
        let init = keys.drop_last();
        assert(keys_distinct(init)) by {
            assert forall|i: int, j: int| 0 <= i < j < init.len() implies init[i] != init[j] by {
                assert(keys[i] != keys[j]);
            }
        }
        lemma_open_keys_distinct(init, open.drop_last());
        let rest = open_keys(init, open.drop_last());
        assert forall|x: ConnectionKey| #[trigger] rest.contains(x) implies keys.contains(x) by {
            let j = choose|j: int| 0 <= j < init.len() && init[j] == x;
            assert(keys[j] == x);
        }
        if open.last() {
            let r = rest.push(keys.last());
            assert(!rest.contains(keys.last())) by {
                if rest.contains(keys.last()) {
                    let j = choose|j: int| 0 <= j < init.len() && init[j] == keys.last();
                    assert(keys[j] != keys[keys.len() - 1]);
                }
            }
            assert forall|i: int, j: int| 0 <= i < j < r.len() implies r[i] != r[j] by {
                if j == rest.len() {
                    assert(rest.contains(rest[i]));
                }
            }
            assert forall|x: ConnectionKey| #[trigger] r.contains(x) implies keys.contains(x) by {
                let i = choose|i: int| 0 <= i < r.len() && r[i] == x;
                if i < rest.len() {
                    assert(rest.contains(x));
                } else {
                    assert(keys[keys.len() - 1] == x);
                }
            }
        }
    }
}

proof fn lemma_without_key_distinct(keys: Seq<ConnectionKey>, k: ConnectionKey)
    requires
        keys_distinct(keys),
    ensures
        keys_distinct(without_key(keys, k)),
        !without_key(keys, k).contains(k),
        forall|x: ConnectionKey| #[trigger] without_key(keys, k).contains(x) ==> keys.contains(x),
    decreases keys.len(),
{
    if keys.len() > 0 {
        let init = keys.drop_last();
        assert(keys_distinct(init)) by {
            assert forall|i: int, j: int| 0 <= i < j < init.len() implies init[i] != init[j] by {
                assert(keys[i] != keys[j]);
            }
        }
        lemma_without_key_distinct(init, k);
        let rest = without_key(init, k);
        if keys.last() != k {
            assert(!init.contains(keys.last())) by {
                if init.contains(keys.last()) {
                    let i = choose|i: int| 0 <= i < init.len() && init[i] == keys.last();
                    assert(keys[i] != keys[keys.len() - 1]);
                }
            }
            assert forall|x: ConnectionKey| #[trigger] rest.push(keys.last()).contains(x) implies keys.contains(x) by {
                if x == keys.last() {
                    assert(keys[keys.len() - 1] == x);
                } else {
                    let i = choose|i: int| 0 <= i < rest.push(keys.last()).len() && rest.push(keys.last())[i] == x;
                    assert(rest.contains(x));
                    let j = choose|j: int| 0 <= j < init.len() && init[j] == x;
                    assert(keys[j] == x);
                }
            }
            assert forall|i: int, j: int|
                0 <= i < j < rest.push(keys.last()).len() implies rest.push(keys.last())[i] != rest.push(
                keys.last(),
            )[j] by {
                if j == rest.len() {
                    assert(rest.contains(rest[i]));
                }
            }
            assert(!rest.push(keys.last()).contains(k)) by {
                if rest.push(keys.last()).contains(k) {
                    let i = choose|i: int| 0 <= i < rest.push(keys.last()).len() && rest.push(keys.last())[i] == k;
                    if i < rest.len() {
                        assert(rest.contains(k));
                    }
                }
            }
        } else {
            assert forall|x: ConnectionKey| #[trigger] rest.contains(x) implies keys.contains(x) by {
                let j = choose|j: int| 0 <= j < init.len() && init[j] == x;
                assert(keys[j] == x);
            }
        }
    }
}

proof fn lemma_without_key_len(keys: Seq<ConnectionKey>, k: ConnectionKey)
    requires
        keys_distinct(keys),
    ensures
        keys.contains(k) ==> without_key(keys, k).len() + 1 == keys.len(),
        !keys.contains(k) ==> without_key(keys, k).len() == keys.len(),
    decreases keys.len(),
{
    if keys.len() > 0 {
        let init = keys.drop_last();
        assert(keys_distinct(init)) by {
            assert forall|i: int, j: int| 0 <= i < j < init.len() implies init[i] != init[j] by {
                assert(keys[i] != keys[j]);
            }
        }
        lemma_without_key_len(init, k);
        if keys.last() == k {
            assert(keys[keys.len() - 1] == k);
            assert(!init.contains(k)) by {
                if init.contains(k) {
                    let i = choose|i: int| 0 <= i < init.len() && init[i] == k;
                    assert(keys[i] != keys[keys.len() - 1]);
                }
            }
        } else {
            if keys.contains(k) {
                let i = choose|i: int| 0 <= i < keys.len() && keys[i] == k;
                assert(i < init.len());
                assert(init[i] == k);
            }
            if init.contains(k) {
                let i = choose|i: int| 0 <= i < init.len() && init[i] == k;
                assert(keys[i] == k);
            }
        }
    }
}

proof fn lemma_after_launch_distinct(keys: Seq<ConnectionKey>, k: ConnectionKey)
    requires
        keys_distinct(keys),
    ensures
        keys_distinct(after_launch(keys, k)),
{
    lemma_without_key_distinct(keys, k);
    let rest = without_key(keys, k);
    assert forall|i: int, j: int|
        0 <= i < j < rest.push(k).len() implies rest.push(k)[i] != rest.push(k)[j] by {
        if j == rest.len() {
            assert(rest.contains(rest[i]));
        }
    }
}

/// After a launch the registry holds exactly one connection for the launched key,
/// and it is the new one (the last entry).
pub proof fn lemma_one_connection_per_key(keys: Seq<ConnectionKey>, k: ConnectionKey)
    requires
        keys_distinct(keys),
    ensures
        keys_distinct(after_launch(keys, k)),
        after_launch(keys, k).last() == k,
        forall|i: int|
            0 <= i < after_launch(keys, k).len() - 1 ==> #[trigger] after_launch(keys, k)[i] != k,
{
    lemma_after_launch_distinct(keys, k);
    lemma_without_key_distinct(keys, k);
    let rest = without_key(keys, k);
    assert forall|i: int| 0 <= i < after_launch(keys, k).len() - 1 implies #[trigger] after_launch(
        keys,
        k,
    )[i] != k by {
        assert(after_launch(keys, k)[i] == rest[i]);
        assert(rest.contains(rest[i]));
    }
}

/// Launching the same task twice leaves the registry as launching it once would:
/// the second launch replaces the first.
pub proof fn lemma_relaunch_replaces(keys: Seq<ConnectionKey>, k: ConnectionKey)
    requires
        keys_distinct(keys),
    ensures
        after_launch(after_launch(keys, k), k) == after_launch(keys, k),
{
    lemma_without_key_distinct(keys, k);
    let rest = without_key(keys, k);
    lemma_without_key_absent(rest, k);
    assert(rest.push(k).drop_last() =~= rest);
    assert(without_key(rest.push(k), k) == without_key(rest, k));
}

proof fn lemma_without_key_absent(keys: Seq<ConnectionKey>, k: ConnectionKey)
    requires
        !keys.contains(k),
    ensures
        without_key(keys, k) == keys,
    decreases keys.len(),
{
    if keys.len() > 0 {
        let init = keys.drop_last();
        assert(!init.contains(k)) by {
            if init.contains(k) {
                let i = choose|i: int| 0 <= i < init.len() && init[i] == k;
                assert(keys[i] == k);
            }
        }
        lemma_without_key_absent(init, k);
        assert(keys.last() != k) by {
            if keys.last() == k {
                assert(keys[keys.len() - 1] == k);
            }
        }
        assert(init.push(keys.last()) =~= keys);
    }
}

} // verus!
