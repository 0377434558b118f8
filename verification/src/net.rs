//! The roster of known peers and the decisions of the two handshakes.

use vstd::pervasive::unreached;
use vstd::prelude::*;
use vstd::slice::slice_to_vec;
use vstd::utf8::is_ascii_chars_encode_utf8;
use crate::error::ProtocolError;
use crate::message::{
    conns_list_payload, init_payload, lemma_conns_list_round_trip, parse_conns_list, parse_init,
    ConnsList, Init, InitKind, InitView, Message,
};
use crate::wire::{frame, le16, lemma_frame_parts, put_u16_le, MAX_PAYLOAD_LEN};

verus! {

/// Where a peer can be reached: four address octets and a port.
#[derive(Debug, Clone, Copy, PartialEq, Eq, Structural)]
pub struct PeerAddr {
    pub a: u8,
    pub b: u8,
    pub c: u8,
    pub d: u8,
    pub port: u16,
}

impl PeerAddr {
    /// The six bytes that stand for this address on the wire: the octets, then
    /// the port.
    pub open spec fn record(self) -> Seq<u8> {
        seq![self.a, self.b, self.c, self.d] + le16(self.port)
    }

    /// The peer at `a.b.c.d`, listening on `port`.
    pub fn new(a: u8, b: u8, c: u8, d: u8, port: u16) -> (r: PeerAddr)
        ensures
            r == (PeerAddr { a, b, c, d, port }),
    {
        PeerAddr { a, b, c, d, port }
    }

    /// The four address octets, first octet first.
    pub fn octets(&self) -> (r: [u8; 4])
        ensures
            r@ == seq![self.a, self.b, self.c, self.d],
    {
        let r: [u8; 4] = [self.a, self.b, self.c, self.d];
        assert(r@ =~= seq![self.a, self.b, self.c, self.d]);
        r
    }

    /// The port on which the peer listens.
    pub fn port(&self) -> (r: u16)
        ensures
            r == self.port,
    {
        self.port
    }

    /// Replaces the port and keeps the octets.
    pub fn set_port(&mut self, port: u16)
        ensures
            *final(self) == (PeerAddr { port, ..*old(self) }),
    {
        self.port = port;
    }
}

/// The bytes of a roster: the records of its addresses, back to back.
pub open spec fn roster_bytes(roster: Seq<PeerAddr>) -> Seq<u8> {
    Seq::new(6 * roster.len(), |j: int| roster[j / 6].record()[j % 6])
}

/// An ordered list of known peers. It only grows, and keeps what it is given in
/// the order given, twice where it is given twice.
#[derive(Debug)]
pub struct SocketList {
    sockets: Vec<PeerAddr>,
}

impl View for SocketList {
    type V = Seq<PeerAddr>;

    closed spec fn view(&self) -> Seq<PeerAddr> {
        self.sockets@
    }
}

impl Clone for SocketList {
    fn clone(&self) -> (r: SocketList)
        ensures
            r@ == self@,
    {
        SocketList { sockets: slice_to_vec(self.sockets.as_slice()) }
    }
}

impl SocketList {
    /// A roster of the addresses given, in the order given.
    pub fn new(socket_list: &[PeerAddr]) -> (r: SocketList)
        ensures
            r@ == socket_list@,
    {
        SocketList { sockets: slice_to_vec(socket_list) }
    }

    /// A roster that knows no peer.
    pub fn new_empty() -> (r: SocketList)
        ensures
            r@ == Seq::<PeerAddr>::empty(),
    {
        SocketList { sockets: Vec::new() }
    }

    /// Adds one peer at the end, whether or not the roster holds it already.
    pub fn push(&mut self, sock: PeerAddr)
        ensures
            final(self)@ == old(self)@.push(sock),
    {
        self.sockets.push(sock);
    }

    /// Adds a batch of peers at the end, in the order of the batch.
    pub fn extend(&mut self, other: Vec<PeerAddr>)
        ensures
            final(self)@ == old(self)@ + other@,
    {
        let mut other = other;
        self.sockets.append(&mut other);
    }

    /// The roster as it travels in a ConnsList message.
    pub fn all_as_bytes_v4(&self) -> (buf: Vec<u8>)
        ensures
            buf@ == roster_bytes(self@),
    {
        let mut buf: Vec<u8> = Vec::new();
        let n: usize = self.sockets.len();
        let mut i: usize = 0;
        while i < n
            invariant
                n == self.sockets@.len(),
                i <= n,
                buf@ == roster_bytes(self.sockets@.take(i as int)),
            decreases n - i,
        {
            let sock: PeerAddr = self.sockets[i];
            buf.push(sock.a);
            buf.push(sock.b);
            buf.push(sock.c);
            buf.push(sock.d);
            put_u16_le(&mut buf, sock.port);
            assert(buf@ =~= roster_bytes(self.sockets@.take(i + 1)));
            i = i + 1;
        }
        assert(self.sockets@.take(n as int) =~= self.sockets@);
        buf
    }

    /// Each peer's octets and port, in roster order.
    pub fn addrs_and_ports(&self) -> (r: Vec<([u8; 4], u16)>)
        ensures
            r@.len() == self@.len(),
            forall|i: int|
                0 <= i < self@.len() ==> (#[trigger] r@[i]).0@ == seq![
                    self@[i].a,
                    self@[i].b,
                    self@[i].c,
                    self@[i].d,
                ] && r@[i].1 == self@[i].port,
    {
        let mut r: Vec<([u8; 4], u16)> = Vec::new();
        let n: usize = self.sockets.len();
        let mut i: usize = 0;
        while i < n
            invariant
                n == self.sockets@.len(),
                i <= n,
                r@.len() == i,
                forall|k: int|
                    0 <= k < i ==> (#[trigger] r@[k]).0@ == seq![
                        self.sockets@[k].a,
                        self.sockets@[k].b,
                        self.sockets@[k].c,
                        self.sockets@[k].d,
                    ] && r@[k].1 == self.sockets@[k].port,
            decreases n - i,
        {
            let sock: PeerAddr = self.sockets[i];
            r.push((sock.octets(), sock.port()));
            i = i + 1;
        }
        r
    }

    /// The peers of the roster, in order.
    pub fn sockets(&self) -> (r: &Vec<PeerAddr>)
        ensures
            r@ == self@,
    {
        &self.sockets
    }

    /// How many peers the roster holds.
    pub fn len(&self) -> (n: usize)
        ensures
            n == self@.len(),
    {
        self.sockets.len()
    }
}

/// The transport address at the far end of a connection, as far as the protocol
/// reads it: an IPv4 address, or one of the family that the protocol refuses.
#[derive(Debug, Clone, Copy, PartialEq, Eq, Structural)]
pub enum RemoteAddr {
    V4(PeerAddr),
    V6,
}

/// What the accepting side hands on for one connection that it took in.
#[derive(Debug, PartialEq, Eq)]
pub struct Accepted {
    /// The bytes to write back to the peer.
    pub reply: Vec<u8>,
    /// The name that the peer gave itself.
    pub username: String,
}

/// The acknowledgement that a referred peer gets in place of a roster.
pub open spec fn referred_ack() -> Seq<u8> {
    seq![0x68u8, 0x65u8, 0x6cu8, 0x6cu8, 0x6fu8]
}

/// The reply that an Init of the given kind is owed by a node with the given
/// roster: the roster for a new joiner, an acknowledgement for a referred peer,
/// a refusal for a peer that reconnects.
pub open spec fn reply_to(kind: InitKind, roster: Seq<PeerAddr>) -> Result<Seq<u8>, ProtocolError> {
    match kind {
        InitKind::New => if 1 + 6 * roster.len() <= MAX_PAYLOAD_LEN {
            Ok(frame(conns_list_payload(roster)))
        } else {
            Err(ProtocolError::ConnsListTooLong)
        },
        InitKind::Referred => Ok(referred_ack()),
        InitKind::Reconnect => Err(ProtocolError::ReconnectUnsupported),
    }
}

/// What a new joiner is sent reads back as the roster of the node that sent
/// it, peer for peer: this is how a joiner learns who else is in the mesh.
pub proof fn lemma_new_joiner_learns_the_roster(roster: Seq<PeerAddr>)
    requires
        1 + 6 * roster.len() <= MAX_PAYLOAD_LEN,
    ensures
        reply_to(InitKind::New, roster) is Ok,
        parse_conns_list(reply_to(InitKind::New, roster)->Ok_0.skip(2)) == Some(roster),
{
    lemma_conns_list_round_trip(roster);
    lemma_frame_parts(conns_list_payload(roster));
}

/// The peer address to remember for a connection: the octets that the
/// connection came from, with the port on which the peer says it listens.
pub open spec fn reachable_at(source: PeerAddr, listen_port: u16) -> PeerAddr {
    PeerAddr { port: listen_port, ..source }
}

/// What the connection brought, where it can be taken in: the Init message and
/// the IPv4 address it came from. A payload that is no Init message is refused
/// before the address is looked at.
pub open spec fn accepted_init(payload: Seq<u8>, remote: RemoteAddr) -> Result<
    (InitView, PeerAddr),
    ProtocolError,
> {
    match parse_init(payload) {
        None => Err(ProtocolError::InitDecode),
        Some(init) => match remote {
            RemoteAddr::V6 => Err(ProtocolError::Ipv6Unsupported),
            RemoteAddr::V4(source) => Ok((init, source)),
        },
    }
}

/// The roster after one round of the accept loop. Updates are merged once the
/// connection is taken in; the new peer is added once its reply is settled.
pub open spec fn roster_after(
    roster: Seq<PeerAddr>,
    update: Seq<PeerAddr>,
    remote: RemoteAddr,
    payload: Seq<u8>,
) -> Seq<PeerAddr> {
    match accepted_init(payload, remote) {
        Err(_) => roster,
        Ok((init, source)) => match reply_to(init.kind, roster + update) {
            Err(_) => roster + update,
            Ok(_) => (roster + update).push(reachable_at(source, init.listen_port)),
        },
    }
}

/// What one round of the accept loop hands on: the reply and the peer's name,
/// or the error that ends the loop.
pub open spec fn handoff(
    roster: Seq<PeerAddr>,
    update: Seq<PeerAddr>,
    remote: RemoteAddr,
    payload: Seq<u8>,
) -> Result<(Seq<u8>, Seq<char>), ProtocolError> {
    match accepted_init(payload, remote) {
        Err(e) => Err(e),
        Ok((init, source)) => match reply_to(init.kind, roster + update) {
            Err(e) => Err(e),
            Ok(reply) => Ok((reply, init.username)),
        },
    }
}

/// The accept loop never drops a peer and never reorders the roster: what it
/// held before a round still opens it afterwards.
pub proof fn lemma_roster_only_grows(
    roster: Seq<PeerAddr>,
    update: Seq<PeerAddr>,
    remote: RemoteAddr,
    payload: Seq<u8>,
)
    ensures
        roster_after(roster, update, remote, payload).len() >= roster.len(),
        roster_after(roster, update, remote, payload).take(roster.len() as int) == roster,
{
    assert(roster.take(roster.len() as int) =~= roster);
    assert((roster + update).take(roster.len() as int) =~= roster);
    match accepted_init(payload, remote) {
        Err(_) => {},
        Ok((init, source)) => {
            let peer = reachable_at(source, init.listen_port);
            assert((roster + update).push(peer).take(roster.len() as int) =~= roster);
        },
    }
}

/// The addresses of a roster update, or none where there is no update.
pub open spec fn update_view(update: Option<Vec<PeerAddr>>) -> Seq<PeerAddr> {
    match update {
        Some(batch) => batch@,
        None => Seq::empty(),
    }
}

/// Takes in an inbound connection: reads the Init payload that it sent and
/// checks the family of the address it came from.
pub fn verify_and_accept(payload: &[u8], remote: RemoteAddr) -> (r: Result<
    (Init, PeerAddr),
    ProtocolError,
>)
    ensures
        r matches Ok(taken) ==> accepted_init(payload@, remote) == Ok::<
            (InitView, PeerAddr),
            ProtocolError,
        >((taken.0@, taken.1)),
        r matches Err(e) ==> accepted_init(payload@, remote) == Err::<
            (InitView, PeerAddr),
            ProtocolError,
        >(e),
{
    let msg = match Init::recv_and_decode(payload) {
        Ok(msg) => msg,
        Err(e) => {
            return Err(e);
        },
    };
    let sock = match remote {
        RemoteAddr::V4(v4) => v4,
        RemoteAddr::V6 => {
            return Err(ProtocolError::Ipv6Unsupported);
        },
    };
    Ok((msg, sock))
}

/// The bytes that answer an Init message, from a node whose roster is `sockets`.
pub fn establish_connection(sockets: &SocketList, init: &Init) -> (r: Result<Vec<u8>, ProtocolError>)
    ensures
        r matches Ok(bytes) ==> reply_to(init@.kind, sockets@) == Ok::<Seq<u8>, ProtocolError>(
            bytes@,
        ),
        r matches Err(e) ==> reply_to(init@.kind, sockets@) == Err::<Seq<u8>, ProtocolError>(e),
{
    match init.kind() {
        InitKind::New => send_socket_list(sockets),
        InitKind::Referred => Ok(accept_referred()),
        InitKind::Reconnect => Err(ProtocolError::ReconnectUnsupported),
    }
}

/// One round of the accept loop, for a connection whose Init payload has been
/// read: merges the roster update that is waiting, settles the reply, and adds
/// the new peer to the roster under the port on which it listens. An error
/// ends the loop.
pub fn listen(
    sockets: &mut SocketList,
    update: Option<Vec<PeerAddr>>,
    remote: RemoteAddr,
    payload: &[u8],
) -> (r: Result<Accepted, ProtocolError>)
    ensures
        final(sockets)@ == roster_after(old(sockets)@, update_view(update), remote, payload@),
        r matches Ok(accepted) ==> handoff(old(sockets)@, update_view(update), remote, payload@)
            == Ok::<(Seq<u8>, Seq<char>), ProtocolError>((accepted.reply@, accepted.username@)),
        r matches Err(e) ==> handoff(old(sockets)@, update_view(update), remote, payload@) == Err::<
            (Seq<u8>, Seq<char>),
            ProtocolError,
        >(e),
{
    let (init_msg, sock) = match verify_and_accept(payload, remote) {
        Ok(taken) => taken,
        Err(e) => {
            return Err(e);
        },
    };
    match update {
        Some(socks) => {
            assert(old(sockets)@ + socks@ == old(sockets)@ + update_view(update));
            sockets.extend(socks);
        },
        None => {
            assert(old(sockets)@ + Seq::<PeerAddr>::empty() =~= old(sockets)@);
        },
    }
    let reply = match establish_connection(sockets, &init_msg) {
        Ok(reply) => reply,
        Err(e) => {
            return Err(e);
        },
    };
    let mut sock = sock;
    sock.set_port(init_msg.listen_port());
    sockets.push(sock);
    Ok(Accepted { reply, username: init_msg.consume_for_username() })
}

/// The IPv4 addresses among the far ends of the connections held, in order.
/// An end whose address is not known, or not IPv4, is left out.
pub open spec fn v4_peers(peers: Seq<Option<RemoteAddr>>) -> Seq<PeerAddr> {
    peers.filter_map(
        |peer: Option<RemoteAddr>|
            match peer {
                Some(RemoteAddr::V4(sock)) => Some(sock),
                _ => None,
            },
    )
}

/// The roster update that tells the accept loop of the connections held: the
/// IPv4 addresses among their far ends.
pub fn send_sockets_to_listen(peers: &[Option<RemoteAddr>]) -> (sockets: Vec<PeerAddr>)
    ensures
        sockets@ == v4_peers(peers@),
{
    let mut sockets: Vec<PeerAddr> = Vec::new();
    let n: usize = peers.len();
    let mut i: usize = 0;
    while i < n
        invariant
            n == peers@.len(),
            i <= n,
            sockets@ == v4_peers(peers@.take(i as int)),
        decreases n - i,
    {
        assert(peers@.take(i + 1).drop_last() =~= peers@.take(i as int));
        match peers[i] {
            Some(RemoteAddr::V4(addr)) => {
                sockets.push(addr);
            },
            _ => {},
        }
        i = i + 1;
    }
    assert(peers@.take(n as int) =~= peers@);
    sockets
}

fn send_socket_list(sockets: &SocketList) -> (r: Result<Vec<u8>, ProtocolError>)
    ensures
        r matches Ok(bytes) ==> reply_to(InitKind::New, sockets@) == Ok::<Seq<u8>, ProtocolError>(
            bytes@,
        ),
        r matches Err(e) ==> reply_to(InitKind::New, sockets@) == Err::<Seq<u8>, ProtocolError>(e),
{
    let msg = ConnsList::new(sockets.clone());
    msg.encode()
}

fn accept_referred() -> (ack: Vec<u8>)
    ensures
        ack@ == referred_ack(),
{
    let mut ack: Vec<u8> = Vec::new();
    ack.push(0x68);
    ack.push(0x65);
    ack.push(0x6c);
    ack.push(0x6c);
    ack.push(0x6f);
    assert(ack@ =~= referred_ack());
    ack
}

/// How far a node has come in joining a mesh through an introducer.
#[derive(Debug, Clone, Copy, PartialEq, Eq, Structural)]
pub enum ConnectStage {
    /// The hello went to the introducer; its roster is awaited.
    AwaitingRoster,
    /// A peer of the roster is being dialled.
    Dialing,
    /// Every peer of the roster has been tried.
    Finished,
    /// The introducer's reply was no roster: it opened with another tag, or
    /// its body ended within a record.
    Failed,
}

/// What the driver of a join reports back.
#[derive(Debug)]
pub enum ConnectEvent {
    /// The payload of the frame that the introducer sent in reply.
    Roster(Vec<u8>),
    /// Whether the peer last asked for was reached and greeted.
    Dialed(bool),
}

/// What the driver of a join is asked to do next.
#[derive(Debug, PartialEq, Eq)]
pub enum ConnectAction {
    /// Open a connection to `peer`; where that succeeds, write `greeting` to
    /// it. Report `Dialed` with whether it succeeded.
    Dial { peer: PeerAddr, greeting: Vec<u8> },
    /// The join is over; besides the introducer, these peers were reached.
    Finish(Vec<PeerAddr>),
    /// Give up with this error.
    Abort(ProtocolError),
}

/// A join under way: the roster that the introducer sent, how much of it has
/// been tried, and who was reached.
#[derive(Debug)]
pub struct Connect {
    local_port: u16,
    stage: ConnectStage,
    roster: SocketList,
    next: usize,
    joined: Vec<PeerAddr>,
}

/// A join under way, as the contracts speak of it.
pub struct ConnectView {
    pub local_port: u16,
    pub stage: ConnectStage,
    pub roster: Seq<PeerAddr>,
    pub next: nat,
    pub joined: Seq<PeerAddr>,
}

/// A report of the driver, as the contracts speak of it.
pub enum ConnectEventView {
    Roster(Seq<u8>),
    Dialed(bool),
}

/// A request to the driver, as the contracts speak of it.
pub enum ConnectActionView {
    Dial { peer: PeerAddr, greeting: Seq<u8> },
    Finish(Seq<PeerAddr>),
    Abort(ProtocolError),
}

impl View for Connect {
    type V = ConnectView;

    closed spec fn view(&self) -> ConnectView {
        ConnectView {
            local_port: self.local_port,
            stage: self.stage,
            roster: self.roster@,
            next: self.next as nat,
            joined: self.joined@,
        }
    }
}

impl View for ConnectEvent {
    type V = ConnectEventView;

    open spec fn view(&self) -> ConnectEventView {
        match self {
            ConnectEvent::Roster(payload) => ConnectEventView::Roster(payload@),
            ConnectEvent::Dialed(reached) => ConnectEventView::Dialed(*reached),
        }
    }
}

impl View for ConnectAction {
    type V = ConnectActionView;

    open spec fn view(&self) -> ConnectActionView {
        match self {
            ConnectAction::Dial { peer, greeting } => ConnectActionView::Dial {
                peer: *peer,
                greeting: greeting@,
            },
            ConnectAction::Finish(joined) => ConnectActionView::Finish(joined@),
            ConnectAction::Abort(e) => ConnectActionView::Abort(*e),
        }
    }
}

/// The Init message with which a joiner asks the introducer for its roster.
pub open spec fn hello_init(local_port: u16) -> InitView {
    InitView { kind: InitKind::New, listen_port: local_port, auth: "pass"@, username: "uname"@ }
}

/// The Init message with which a joiner announces itself to a peer that it
/// found on the introducer's roster.
pub open spec fn referral_init(local_port: u16) -> InitView {
    InitView { kind: InitKind::Referred, listen_port: local_port, auth: "ref"@, username: "refed"@ }
}

/// A join that waits for the introducer's roster.
pub open spec fn awaiting_roster(local_port: u16) -> ConnectView {
    ConnectView {
        local_port,
        stage: ConnectStage::AwaitingRoster,
        roster: Seq::empty(),
        next: 0,
        joined: Seq::empty(),
    }
}

/// Moves on to the next peer of the roster, or ends the join where none is left.
pub open spec fn dial_next(join: ConnectView) -> (ConnectView, ConnectActionView) {
    if join.next < join.roster.len() {
        (
            ConnectView { stage: ConnectStage::Dialing, ..join },
            ConnectActionView::Dial {
                peer: join.roster[join.next as int],
                greeting: frame(init_payload(referral_init(join.local_port))),
            },
        )
    } else {
        (ConnectView { stage: ConnectStage::Finished, ..join }, ConnectActionView::Finish(join.joined))
    }
}

/// One step of a join. The introducer's reply sets the roster, or fails the join
/// where it is no roster. A dial that succeeded adds its peer to those reached;
/// one that failed adds nothing; either way the join goes on to the next peer.
/// An event that the stage does not wait for changes nothing and is refused.
pub open spec fn connect_step(join: ConnectView, event: ConnectEventView) -> (
    ConnectView,
    ConnectActionView,
) {
    match (join.stage, event) {
        (ConnectStage::AwaitingRoster, ConnectEventView::Roster(payload)) => match parse_conns_list(
            payload,
        ) {
            Some(roster) => dial_next(ConnectView { roster, next: 0, joined: Seq::empty(), ..join }),
            None => (
                ConnectView { stage: ConnectStage::Failed, ..join },
                ConnectActionView::Abort(ProtocolError::ConnsListDecode),
            ),
        },
        (ConnectStage::Dialing, ConnectEventView::Dialed(reached)) => dial_next(
            ConnectView {
                next: join.next + 1,
                joined: if reached {
                    join.joined.push(join.roster[join.next as int])
                } else {
                    join.joined
                },
                ..join
            },
        ),
        _ => (join, ConnectActionView::Abort(ProtocolError::UnexpectedEvent)),
    }
}

/// A peer that cannot be reached is passed over: the join neither aborts nor
/// loses a peer that it had reached.
pub proof fn lemma_unreachable_peer_is_skipped(join: ConnectView)
    requires
        join.stage == ConnectStage::Dialing,
    ensures
        connect_step(join, ConnectEventView::Dialed(false)).0.joined == join.joined,
        !(connect_step(join, ConnectEventView::Dialed(false)).1 is Abort),
{
}

/// The joiner takes up the roster that the introducer sent as it stands, and
/// goes on to dial its first peer; where the roster is empty, the join is over
/// with no peer besides the introducer.
pub proof fn lemma_reply_sets_the_roster(local_port: u16, roster: Seq<PeerAddr>)
    ensures
        connect_step(
            awaiting_roster(local_port),
            ConnectEventView::Roster(conns_list_payload(roster)),
        ) == dial_next((ConnectView { roster, ..awaiting_roster(local_port) })),
        roster.len() == 0 ==> connect_step(
            awaiting_roster(local_port),
            ConnectEventView::Roster(conns_list_payload(roster)),
        ).1 == ConnectActionView::Finish(Seq::empty()),
{
    lemma_conns_list_round_trip(roster);
}

/// A reply whose body ends within a record fails the join: no peer is dialled
/// on the strength of it.
pub proof fn lemma_reply_cut_short_fails_the_join(local_port: u16, payload: Seq<u8>)
    requires
        payload.len() == 0 || (payload.len() - 1) % 6 != 0,
    ensures
        connect_step(awaiting_roster(local_port), ConnectEventView::Roster(payload)).0.stage
            == ConnectStage::Failed,
        connect_step(awaiting_roster(local_port), ConnectEventView::Roster(payload)).1
            == ConnectActionView::Abort(ProtocolError::ConnsListDecode),
{
}

/// The peers of `roster` whose dial succeeded, in roster order.
pub open spec fn reached(roster: Seq<PeerAddr>, outcomes: Seq<bool>) -> Seq<PeerAddr>
    recommends
        roster.len() == outcomes.len(),
    decreases roster.len(),
{
    if roster.len() == 0 || outcomes.len() == 0 {
        Seq::empty()
    } else if outcomes[0] {
        seq![roster[0]] + reached(roster.drop_first(), outcomes.drop_first())
    } else {
        reached(roster.drop_first(), outcomes.drop_first())
    }
}

/// Where a join stands once the driver has reported the outcomes of its dials,
/// one after the other.
pub open spec fn after_dials(join: ConnectView, outcomes: Seq<bool>) -> (
    ConnectView,
    ConnectActionView,
)
    recommends
        outcomes.len() > 0,
    decreases outcomes.len(),
{
    let step = connect_step(join, ConnectEventView::Dialed(outcomes[0]));
    if outcomes.len() <= 1 {
        step
    } else {
        after_dials(step.0, outcomes.drop_first())
    }
}

/// A join that has every peer left on its roster dialled ends with exactly the
/// peers that were reached, whichever dials failed: no failure ends it early,
/// and none costs it a peer.
pub proof fn lemma_join_reaches_whom_it_can(join: ConnectView, outcomes: Seq<bool>)
    requires
        join.stage == ConnectStage::Dialing,
        join.next < join.roster.len(),
        outcomes.len() == join.roster.len() - join.next,
    ensures
        after_dials(join, outcomes).0.stage == ConnectStage::Finished,
        after_dials(join, outcomes).1 == ConnectActionView::Finish(
            join.joined + reached(join.roster.skip(join.next as int), outcomes),
        ),
    decreases outcomes.len(),
{
    let left = join.roster.skip(join.next as int);
    let step = connect_step(join, ConnectEventView::Dialed(outcomes[0]));
    assert(left[0] == join.roster[join.next as int]);
    assert(left.drop_first() =~= join.roster.skip(join.next as int + 1));
    if outcomes.len() <= 1 {
        assert(reached(left.drop_first(), outcomes.drop_first()) =~= Seq::empty());
        assert(join.joined + reached(left, outcomes) =~= step.0.joined);
    } else {
        lemma_join_reaches_whom_it_can(step.0, outcomes.drop_first());
        assert(join.joined + reached(left, outcomes) =~= step.0.joined + reached(
            left.drop_first(),
            outcomes.drop_first(),
        ));
    }
}

impl Connect {
    /// A join is under way only while there is a peer left to dial, and it has
    /// reached no more peers than it has tried.
    #[verifier::type_invariant]
    closed spec fn inv(self) -> bool {
        &&& self.next <= self.roster@.len()
        &&& self.joined@.len() <= self.next
        &&& self.stage == ConnectStage::Dialing ==> self.next < self.roster@.len()
    }

    /// How far the join has come.
    pub fn stage(&self) -> (stage: ConnectStage)
        ensures
            stage == self@.stage,
    {
        self.stage
    }

    /// One step of the join: takes what the driver reports, and gives the join
    /// as it then stands and what to do next.
    pub fn step(self, event: ConnectEvent) -> (r: (Connect, ConnectAction))
        ensures
            (r.0@, r.1@) == connect_step(self@, event@),
    {
        proof {
            use_type_invariant(&self);
        }
        let Connect { local_port, stage, roster, next, joined } = self;
        match (stage, event) {
            (ConnectStage::AwaitingRoster, ConnectEvent::Roster(payload)) => {
                match ConnsList::recv_and_decode(payload.as_slice()) {
                    Ok(msg) => dial_or_finish(
                        local_port,
                        msg.consume_for_socket_list(),
                        0,
                        Vec::new(),
                    ),
                    Err(e) => (
                        Connect { local_port, stage: ConnectStage::Failed, roster, next, joined },
                        ConnectAction::Abort(e),
                    ),
                }
            },
            (ConnectStage::Dialing, ConnectEvent::Dialed(reached)) => {
                let mut joined = joined;
                let len: usize = roster.len();
                assert(next < len);
                if reached {
                    let peer: PeerAddr = roster.sockets()[next];
                    joined.push(peer);
                }
                dial_or_finish(local_port, roster, next + 1, joined)
            },
            (stage, _) => (
                Connect { local_port, stage, roster, next, joined },
                ConnectAction::Abort(ProtocolError::UnexpectedEvent),
            ),
        }
    }
}

fn dial_or_finish(local_port: u16, roster: SocketList, next: usize, joined: Vec<PeerAddr>) -> (r: (
    Connect,
    ConnectAction,
))
    requires
        next <= roster@.len(),
        joined@.len() <= next,
    ensures
        (r.0@, r.1@) == dial_next(
            (ConnectView {
                local_port,
                stage: r.0@.stage,
                roster: roster@,
                next: next as nat,
                joined: joined@,
            }),
        ),
{
    if next < roster.len() {
        let peer: PeerAddr = roster.sockets()[next];
        (
            Connect { local_port, stage: ConnectStage::Dialing, roster, next, joined },
            ConnectAction::Dial { peer, greeting: referral_frame(local_port) },
        )
    } else {
        let reached = slice_to_vec(joined.as_slice());
        (
            Connect { local_port, stage: ConnectStage::Finished, roster, next, joined },
            ConnectAction::Finish(reached),
        )
    }
}

/// Starts a join: gives the frame to send to the introducer, and the join that
/// waits for the introducer's reply.
pub fn connect(local_port: u16) -> (r: (Connect, Vec<u8>))
    ensures
        r.0@ == awaiting_roster(local_port),
        r.1@ == frame(init_payload(hello_init(local_port))),
{
    let join = Connect {
        local_port,
        stage: ConnectStage::AwaitingRoster,
        roster: SocketList::new_empty(),
        next: 0,
        joined: Vec::new(),
    };
    (join, hello_frame(local_port))
}

fn hello_frame(local_port: u16) -> (bytes: Vec<u8>)
    ensures
        bytes@ == frame(init_payload(hello_init(local_port))),
{
    let msg = Init::new(InitKind::New, local_port, "pass", "uname");
    proof {
        reveal_strlit("pass");
        reveal_strlit("uname");
        is_ascii_chars_encode_utf8("pass"@);
        is_ascii_chars_encode_utf8("uname"@);
    }
    match msg.encode() {
        Ok(bytes) => bytes,
        Err(_) => unreached(),
    }
}

fn referral_frame(local_port: u16) -> (bytes: Vec<u8>)
    ensures
        bytes@ == frame(init_payload(referral_init(local_port))),
{
    let msg = Init::new(InitKind::Referred, local_port, "ref", "refed");
    proof {
        reveal_strlit("ref");
        reveal_strlit("refed");
        is_ascii_chars_encode_utf8("ref"@);
        is_ascii_chars_encode_utf8("refed"@);
    }
    match msg.encode() {
        Ok(bytes) => bytes,
        Err(_) => unreached(),
    }
}

} // verus!
