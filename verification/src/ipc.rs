//! Port-based message passing: fixed-size messages, bounded per-port queues,
//! and the namespace that maps port ids to ports.

use vstd::prelude::*;

use std::collections::VecDeque;

verus! {

/// Largest payload a message can carry.
pub const MAX_MSG_SIZE: usize = 128;

/// Capacity of a port's queue.
pub const PORT_QUEUE_LEN: usize = 32;

/// One IPC message: sender, message id, payload length, and the payload
/// buffer, always `MAX_MSG_SIZE` bytes with zero padding past `len`.
pub struct Message {
    pub sender_id: u64,
    pub id: u64,
    pub len: u64,
    pub data: Vec<u8>,
}

/// Ghost summary of a message.
pub ghost struct MsgInfo {
    pub sender_id: u64,
    pub id: u64,
    pub len: u64,
    pub data: Seq<u8>,
}

impl Message {
    /// The buffer is full-sized and the length field stays within it.
    pub open spec fn wf(&self) -> bool {
        self.data@.len() == MAX_MSG_SIZE && self.len <= MAX_MSG_SIZE
    }

    /// The ghost summary of this message.
    pub open spec fn info(&self) -> MsgInfo {
        MsgInfo { sender_id: self.sender_id, id: self.id, len: self.len, data: self.data@ }
    }

    /// An empty message: all fields zero, payload zero-filled.
    pub fn empty() -> (m: Message)
        ensures
            m.wf(),
            m.sender_id == 0,
            m.id == 0,
            m.len == 0,
            m.data@ == Seq::new(MAX_MSG_SIZE as nat, |j: int| 0u8),
    {
        let mut data: Vec<u8> = Vec::new();
        let mut k: usize = 0;
        while k < MAX_MSG_SIZE
            invariant
                k <= MAX_MSG_SIZE,
                data@ =~= Seq::new(k as nat, |j: int| 0u8),
            decreases MAX_MSG_SIZE - k,
        {
            data.push(0u8);
            assert(data@ =~= Seq::new((k + 1) as nat, |j: int| 0u8));
            k += 1;
        }
        Message { sender_id: 0, id: 0, len: 0, data }
    }

    /// Build a message from a payload, zero-padded to the full buffer size.
    pub fn from_bytes(sender_id: u64, id: u64, bytes: &Vec<u8>) -> (m: Message)
        requires
            bytes@.len() <= MAX_MSG_SIZE,
        ensures
            m.wf(),
            m.sender_id == sender_id,
            m.id == id,
            m.len == bytes@.len(),
            m.data@ == bytes@ + Seq::new((MAX_MSG_SIZE - bytes@.len()) as nat, |j: int| 0u8),
    {
        let mut data: Vec<u8> = Vec::new();
        let n = bytes.len();
        let mut k: usize = 0;
        while k < n
            invariant
                n == bytes@.len() <= MAX_MSG_SIZE,
                k <= n,
                data@ == bytes@.take(k as int),
            decreases n - k,
        {
            data.push(bytes[k]);
            assert(data@ =~= bytes@.take(k + 1));
            k += 1;
        }
        assert(data@ =~= bytes@);
        while k < MAX_MSG_SIZE
            invariant
                n == bytes@.len() <= MAX_MSG_SIZE,
                n <= k <= MAX_MSG_SIZE,
                data@ =~= bytes@ + Seq::new((k - n) as nat, |j: int| 0u8),
            decreases MAX_MSG_SIZE - k,
        {
            data.push(0u8);
            assert(data@ =~= bytes@ + Seq::new((k + 1 - n) as nat, |j: int| 0u8));
            k += 1;
        }
        Message { sender_id, id, len: n as u64, data }
    }
}

/// Contents of a message queue.
pub open spec fn queue_info(q: Seq<Message>) -> Seq<MsgInfo> {
    q.map(|i: int, m: Message| m.info())
}

/// A communication port: an id and a bounded FIFO of messages.
pub struct Port {
    pub id: u64,
    pub queue: VecDeque<Message>,
}

impl Port {
    /// Every queued message is well-formed and the queue respects its bound.
    pub open spec fn wf(&self) -> bool {
        &&& self.queue@.len() <= PORT_QUEUE_LEN
        &&& forall|i: int| 0 <= i < self.queue@.len() ==> (#[trigger] self.queue@[i]).wf()
    }

    /// The messages waiting on this port, oldest first.
    pub open spec fn contents(&self) -> Seq<MsgInfo> {
        queue_info(self.queue@)
    }

    /// An empty port.
    pub fn new(id: u64) -> (p: Port)
        ensures
            p.wf(),
            p.id == id,
            p.contents() == Seq::<MsgInfo>::empty(),
    {
        let p = Port { id, queue: VecDeque::with_capacity(PORT_QUEUE_LEN) };
        proof {
            assert(p.contents() =~= Seq::<MsgInfo>::empty());
        }
        p
    }

    /// Enqueue a message; refused when the queue is full.
    pub fn send(&mut self, msg: Message) -> (ok: bool)
        requires
            old(self).wf(),
            msg.wf(),
        ensures
            final(self).wf(),
            final(self).id == old(self).id,
            ok == (old(self).contents().len() < PORT_QUEUE_LEN),
            ok ==> final(self).contents() == old(self).contents().push(msg.info()),
            !ok ==> final(self).contents() == old(self).contents(),
    {
        if self.queue.len() >= PORT_QUEUE_LEN {
            return false;
        }
        self.queue.push_back(msg);
        proof {
            assert(self.contents() =~= old(self).contents().push(msg.info()));
        }
        true
    }

    /// Dequeue the oldest message, if any.
    pub fn receive(&mut self) -> (r: Option<Message>)
        requires
            old(self).wf(),
        ensures
            final(self).wf(),
            final(self).id == old(self).id,
            match r {
                Some(m) => {
                    &&& old(self).contents().len() > 0
                    &&& m.wf()
                    &&& m.info() == old(self).contents()[0]
                    &&& final(self).contents() == old(self).contents().skip(1)
                },
                None => {
                    &&& old(self).contents().len() == 0
                    &&& final(self).contents() == old(self).contents()
                },
            },
    {
        let r = self.queue.pop_front();
        proof {
            if old(self).queue@.len() > 0 {
                assert(self.contents() =~= old(self).contents().skip(1));
            }
        }
        r
    }
}

/// The namespace's view: port id to waiting messages.
pub open spec fn ports_map(s: Seq<Port>) -> Map<u64, Seq<MsgInfo>>
    decreases s.len(),
{
    if s.len() == 0 {
        Map::empty()
    } else {
        ports_map(s.drop_last()).insert(s.last().id, s.last().contents())
    }
}

/// No port id occurs twice.
pub open spec fn unique_ports(s: Seq<Port>) -> bool {
    forall|i: int, j: int| #![trigger s[i], s[j]] 0 <= i < j < s.len() ==> s[i].id != s[j].id
}

/// Every port is visible in the view, and every key of the view comes from
/// a port.
pub proof fn lemma_ports_map_index(s: Seq<Port>)
    requires
        unique_ports(s),
    ensures
        forall|i: int|
            0 <= i < s.len() ==> ports_map(s).contains_key(#[trigger] s[i].id) && ports_map(s)[
                s[i].id
            ] == s[i].contents(),
        forall|q: u64| #[trigger]
            ports_map(s).contains_key(q) ==> exists|i: int| 0 <= i < s.len() && s[i].id == q,
    decreases s.len(),
{
    if s.len() > 0 {
        assert(unique_ports(s.drop_last()));
        lemma_ports_map_index(s.drop_last());
        assert forall|i: int|
            0 <= i < s.len() implies ports_map(s).contains_key(#[trigger] s[i].id) && ports_map(
            s,
        )[s[i].id] == s[i].contents() by {
            if i < s.len() - 1 {
                assert(s.drop_last()[i] == s[i]);
                assert(s[i].id != s.last().id);
            }
        }
        assert forall|q: u64| #[trigger]
            ports_map(s).contains_key(q) implies exists|i: int|
            0 <= i < s.len() && s[i].id == q by {
            if q != s.last().id {
                assert(ports_map(s.drop_last()).contains_key(q));
                let i = choose|i: int| 0 <= i < s.drop_last().len() && s.drop_last()[i].id == q;
                assert(s[i].id == q);
            } else {
                assert(s[s.len() - 1].id == q);
            }
        }
    }
}

/// Updating port `i` without changing its id updates the view at that id
/// alone.
pub proof fn lemma_ports_map_update(s: Seq<Port>, i: int, p: Port)
    requires
        unique_ports(s),
        0 <= i < s.len(),
        p.id == s[i].id,
    ensures
        unique_ports(s.update(i, p)),
        ports_map(s.update(i, p)) == ports_map(s).insert(p.id, p.contents()),
    decreases s.len(),
{
    let t = s.update(i, p);
    if i == s.len() - 1 {
        assert(t.drop_last() =~= s.drop_last());
        assert(ports_map(t) =~= ports_map(s).insert(p.id, p.contents()));
    } else {
        assert(unique_ports(s.drop_last()));
        assert(s.drop_last().update(i, p) =~= t.drop_last());
        lemma_ports_map_update(s.drop_last(), i, p);
        lemma_ports_map_index(s.drop_last());
        assert(s.last().id != s[i].id);
        assert(ports_map(t) =~= ports_map(s).insert(p.id, p.contents()));
    }
}

/// An IPC namespace: the ports that exist, with unique ids.
pub struct IpcSpace {
    pub ports: Vec<Port>,
}

impl IpcSpace {
    pub open spec fn wf(&self) -> bool {
        &&& unique_ports(self.ports@)
        &&& forall|i: int| 0 <= i < self.ports@.len() ==> (#[trigger] self.ports@[i]).wf()
    }

    /// Port id to waiting messages.
    pub open spec fn view_map(&self) -> Map<u64, Seq<MsgInfo>> {
        ports_map(self.ports@)
    }

    /// An empty namespace.
    pub fn new() -> (s: IpcSpace)
        ensures
            s.wf(),
            s.view_map() == Map::<u64, Seq<MsgInfo>>::empty(),
    {
        IpcSpace { ports: Vec::new() }
    }

    /// Index of the port with this id.
    fn find_port(&self, id: u64) -> (r: Option<usize>)
        requires
            self.wf(),
        ensures
            match r {
                Some(i) => i < self.ports@.len() && self.ports@[i as int].id == id
                    && self.view_map().contains_key(id) && self.view_map()[id]
                    == self.ports@[i as int].contents(),
                None => !self.view_map().contains_key(id),
            },
    {
        proof {
            lemma_ports_map_index(self.ports@);
        }
        let mut i: usize = 0;
        while i < self.ports.len()
            invariant
                self.wf(),
                i <= self.ports@.len(),
                forall|j: int| 0 <= j < i ==> (#[trigger] self.ports@[j]).id != id,
            decreases self.ports@.len() - i,
        {
            if self.ports[i].id == id {
                proof {
                    lemma_ports_map_index(self.ports@);
                }
                return Some(i);
            }
            i += 1;
        }
        None
    }

    /// Whether a port with this id exists.
    pub fn get_port(&self, id: u64) -> (r: Option<&Port>)
        requires
            self.wf(),
        ensures
            match r {
                Some(p) => self.view_map().contains_key(id) && p.id == id && p.wf()
                    && p.contents() == self.view_map()[id],
                None => !self.view_map().contains_key(id),
            },
    {
        match self.find_port(id) {
            Some(i) => Some(&self.ports[i]),
            None => None,
        }
    }

    /// Create a port with this id; an existing port with the same id is
    /// replaced by a fresh empty one.
    pub fn create_port(&mut self, id: u64)
        requires
            old(self).wf(),
        ensures
            final(self).wf(),
            final(self).view_map() == old(self).view_map().insert(id, Seq::<MsgInfo>::empty()),
    {
        let fresh = Port::new(id);
        match self.find_port(id) {
            Some(i) => {
                let ghost before = self.ports@;
                let entry = &mut self.ports[i];
                *entry = fresh;
                proof {
                    assert(self.ports@ =~= before.update(i as int, self.ports@[i as int]));
                    lemma_ports_map_update(before, i as int, self.ports@[i as int]);
                }
            },
            None => {
                proof {
                    lemma_ports_map_index(self.ports@);
                }
                self.ports.push(fresh);
                proof {
                    assert(self.ports@.drop_last() =~= old(self).ports@);
                    assert(unique_ports(self.ports@));
                }
            },
        }
    }

    /// Deliver a message to the port with this id. Reports whether the port
    /// exists and, if so, whether the queue had room.
    pub fn deliver(&mut self, id: u64, msg: Message) -> (r: Option<bool>)
        requires
            old(self).wf(),
            msg.wf(),
        ensures
            final(self).wf(),
            match r {
                None => !old(self).view_map().contains_key(id) && final(self).view_map() == old(
                    self,
                ).view_map(),
                Some(ok) => {
                    &&& old(self).view_map().contains_key(id)
                    &&& ok == (old(self).view_map()[id].len() < PORT_QUEUE_LEN)
                    &&& ok ==> final(self).view_map() == old(self).view_map().insert(
                        id,
                        old(self).view_map()[id].push(msg.info()),
                    )
                    &&& !ok ==> final(self).view_map() == old(self).view_map()
                },
            },
    {
        match self.find_port(id) {
            None => None,
            Some(i) => {
                let ghost before = self.ports@;
                let entry = &mut self.ports[i];
                let ok = entry.send(msg);
                proof {
                    assert(self.ports@ =~= before.update(i as int, self.ports@[i as int]));
                    lemma_ports_map_update(before, i as int, self.ports@[i as int]);
                    if !ok {
                        assert(self.view_map() =~= old(self).view_map());
                    }
                }
                Some(ok)
            },
        }
    }

    /// Take the oldest message from the port with this id. `None` when the
    /// port does not exist, `Some(None)` when it is empty.
    pub fn take_message(&mut self, id: u64) -> (r: Option<Option<Message>>)
        requires
            old(self).wf(),
        ensures
            final(self).wf(),
            match r {
                None => !old(self).view_map().contains_key(id) && final(self).view_map() == old(
                    self,
                ).view_map(),
                Some(None) => {
                    &&& old(self).view_map().contains_key(id)
                    &&& old(self).view_map()[id].len() == 0
                    &&& final(self).view_map() == old(self).view_map()
                },
                Some(Some(m)) => {
                    &&& old(self).view_map().contains_key(id)
                    &&& old(self).view_map()[id].len() > 0
                    &&& m.wf()
                    &&& m.info() == old(self).view_map()[id][0]
                    &&& final(self).view_map() == old(self).view_map().insert(
                        id,
                        old(self).view_map()[id].skip(1),
                    )
                },
            },
    {
        match self.find_port(id) {
            None => None,
            Some(i) => {
                let ghost before = self.ports@;
                let entry = &mut self.ports[i];
                let m = entry.receive();
                proof {
                    assert(self.ports@ =~= before.update(i as int, self.ports@[i as int]));
                    lemma_ports_map_update(before, i as int, self.ports@[i as int]);
                    if m.is_none() {
                        assert(self.view_map() =~= old(self).view_map());
                    }
                }
                Some(m)
            },
        }
    }
}

} // verus!
