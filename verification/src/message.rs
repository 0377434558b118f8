//! The two messages of the discovery protocol and their wire form.
//!
//! A payload is one tag byte and a body. An Init body is the init kind, the
//! sender's listening port and two text-safe fields parted by the separator
//! byte; a ConnsList body is a run of six-byte address records.

use vstd::prelude::*;
use vstd::slice::slice_subrange;
use vstd::utf8::encode_utf8;
use crate::error::ProtocolError;
use crate::net::{roster_bytes, PeerAddr, SocketList};
use crate::textsafe::{
    from_text_safe, is_text_safe_of, is_url_safe, lemma_text_len_grows,
    lemma_url_safe_has_no_separator, text_len, text_plain, text_safe, to_text_safe,
};
use crate::wire::{
    frame, from_le16, le16, lemma_frame_parts, lemma_le16_round_trip, put_bytes, put_u16_le, seal,
    u16_from_le, DATA_SEPARATOR, MAX_PAYLOAD_LEN,
};

verus! {

/// A message that can travel: it has a payload, and a payload may stand for it.
pub trait Message<T: Sized + View> {
    /// The payload that stands for this message: its tag and its body.
    spec fn payload(&self) -> Seq<u8>;

    /// How long the payload is, stated without looking at it.
    spec fn payload_len(&self) -> nat;

    /// The message that `data` stands for, where it stands for one.
    spec fn parse(data: Seq<u8>) -> Option<T::V>;

    /// Reads the payload that was received behind a frame header. A payload that
    /// stands for no message of this kind is an error of its own, apart from
    /// any failure of the stream.
    fn recv_and_decode(payload: &[u8]) -> (r: Result<T, ProtocolError>)
        ensures
            r matches Ok(msg) ==> Self::parse(payload@) == Some(msg@),
            r is Err ==> Self::parse(payload@) is None,
    ;

    /// The whole frame for this message, length first; or an error where the
    /// payload is too long for the length field.
    fn encode(&self) -> (r: Result<Vec<u8>, ProtocolError>)
        ensures
            r is Ok <==> self.payload_len() <= MAX_PAYLOAD_LEN,
            r matches Ok(bytes) ==> self.payload().len() == self.payload_len() && bytes@ == frame(
                self.payload(),
            ),
    ;

    /// The message that the payload `data` stands for, or `None`.
    fn decode(data: &[u8]) -> (r: Option<T>)
        ensures
            r matches Some(msg) ==> Self::parse(data@) == Some(msg@),
            r is None ==> Self::parse(data@) is None,
    ;
}

/// The kinds of message, each with the tag that opens its payload.
#[derive(Debug, Clone, Copy, PartialEq, Eq, Structural)]
pub enum MessageKind {
    Init,
    ConnsList,
}

impl MessageKind {
    /// The byte that opens a payload of this kind.
    pub open spec fn spec_tag(self) -> u8 {
        match self {
            MessageKind::Init => 1,
            MessageKind::ConnsList => 2,
        }
    }

    /// The byte that opens a payload of this kind.
    #[verifier::when_used_as_spec(spec_tag)]
    pub fn tag(self) -> (t: u8)
        ensures
            t == self.spec_tag(),
    {
        match self {
            MessageKind::Init => 1,
            MessageKind::ConnsList => 2,
        }
    }
}

/// Why a connection was opened.
#[derive(Debug, Clone, Copy, PartialEq, Eq, Structural)]
pub enum InitKind {
    /// A joiner that asks the introducer for its roster.
    New,
    /// A peer that learned of this node from an introducer's roster.
    Referred,
    /// A known peer that comes back.
    Reconnect,
}

impl InitKind {
    /// The byte that stands for this kind in an Init body.
    pub open spec fn spec_tag(self) -> u8 {
        match self {
            InitKind::New => 1,
            InitKind::Referred => 2,
            InitKind::Reconnect => 3,
        }
    }

    /// The kind that a byte stands for: 1, 2 and 3 stand for one, no other byte
    /// does.
    pub open spec fn spec_from_u8(value: u8) -> Option<InitKind> {
        if value == 1 {
            Some(InitKind::New)
        } else if value == 2 {
            Some(InitKind::Referred)
        } else if value == 3 {
            Some(InitKind::Reconnect)
        } else {
            None
        }
    }

    /// The byte that stands for this kind in an Init body.
    #[verifier::when_used_as_spec(spec_tag)]
    pub fn tag(self) -> (t: u8)
        ensures
            t == self.spec_tag(),
    {
        match self {
            InitKind::New => 1,
            InitKind::Referred => 2,
            InitKind::Reconnect => 3,
        }
    }

    /// The kind that a byte stands for, or `None` for a byte that stands for
    /// none.
    #[verifier::when_used_as_spec(spec_from_u8)]
    pub fn from_u8(value: u8) -> (kind: Option<InitKind>)
        ensures
            kind == Self::spec_from_u8(value),
    {
        match value {
            1 => Some(InitKind::New),
            2 => Some(InitKind::Referred),
            3 => Some(InitKind::Reconnect),
            _ => None,
        }
    }
}

/// The first message on a connection: who opens it, why, and where the opener
/// itself listens.
#[derive(Debug)]
pub struct Init {
    kind: InitKind,
    listen_port: u16,
    auth: String,
    username: String,
}

/// What an Init message says.
pub struct InitView {
    pub kind: InitKind,
    pub listen_port: u16,
    pub auth: Seq<char>,
    pub username: Seq<char>,
}

impl View for Init {
    type V = InitView;

    closed spec fn view(&self) -> InitView {
        InitView {
            kind: self.kind,
            listen_port: self.listen_port,
            auth: self.auth@,
            username: self.username@,
        }
    }
}

/// An Init payload over text fields that are already text-safe.
pub open spec fn assembled_init(kind_tag: u8, listen_port: u16, auth: Seq<u8>, username: Seq<u8>) -> Seq<
    u8,
> {
    seq![MessageKind::Init.spec_tag(), kind_tag] + le16(listen_port) + auth + seq![DATA_SEPARATOR]
        + username
}

/// The payload of an Init message.
pub open spec fn init_payload(msg: InitView) -> Seq<u8> {
    assembled_init(
        msg.kind.spec_tag(),
        msg.listen_port,
        text_safe(msg.auth),
        text_safe(msg.username),
    )
}

/// The length of an Init payload: tag, kind, port, separator and the two fields.
pub open spec fn init_payload_len(msg: InitView) -> nat {
    5 + text_len(encode_utf8(msg.auth).len()) + text_len(encode_utf8(msg.username).len())
}

/// `body` holds the separator at `at` and nowhere else.
pub open spec fn is_only_separator(body: Seq<u8>, at: int) -> bool {
    &&& 0 <= at < body.len()
    &&& body[at] == DATA_SEPARATOR
    &&& forall|j: int| 0 <= j < body.len() && j != at ==> body[j] != DATA_SEPARATOR
}

/// The parts of an Init payload before any field is read: the kind tag, the
/// port, and the two fields as they stand. There are parts where the payload
/// opens with the Init tag, is long enough for kind and port, and holds exactly
/// one separator after them.
pub open spec fn init_parts(data: Seq<u8>) -> Option<(u8, u16, Seq<u8>, Seq<u8>)> {
    if data.len() < 4 || data[0] != MessageKind::Init.spec_tag() {
        None
    } else if exists|at: int| is_only_separator(data.skip(4), at) {
        let at = choose|at: int| is_only_separator(data.skip(4), at);
        Some((data[1], from_le16(data[2], data[3]), data.skip(4).take(at), data.skip(4 + at + 1)))
    } else {
        None
    }
}

/// The Init message whose parts are given, where the kind tag is known and both
/// fields stand for strings.
pub open spec fn init_of_parts(parts: (u8, u16, Seq<u8>, Seq<u8>)) -> Option<InitView> {
    match (InitKind::spec_from_u8(parts.0), text_plain(parts.2), text_plain(parts.3)) {
        (Some(kind), Some(auth), Some(username)) => Some(
            InitView { kind, listen_port: parts.1, auth, username },
        ),
        _ => None,
    }
}

/// The Init message that a payload stands for.
pub open spec fn parse_init(data: Seq<u8>) -> Option<InitView> {
    match init_parts(data) {
        Some(parts) => init_of_parts(parts),
        None => None,
    }
}

/// A body has at most one place that is its only separator.
pub proof fn lemma_only_separator_is_unique(body: Seq<u8>, at: int, other: int)
    requires
        is_only_separator(body, at),
        is_only_separator(body, other),
    ensures
        at == other,
{
}

/// Taking an assembled payload apart gives the parts it was assembled from,
/// where neither field holds the separator.
pub proof fn lemma_parts_of_assembled(
    kind_tag: u8,
    listen_port: u16,
    auth: Seq<u8>,
    username: Seq<u8>,
)
    requires
        !auth.contains(DATA_SEPARATOR),
        !username.contains(DATA_SEPARATOR),
    ensures
        init_parts(assembled_init(kind_tag, listen_port, auth, username)) == Some(
            (kind_tag, listen_port, auth, username),
        ),
{
    let data = assembled_init(kind_tag, listen_port, auth, username);
    let body = data.skip(4);
    let at = auth.len() as int;
    lemma_le16_round_trip(listen_port);
    assert(body =~= auth + seq![DATA_SEPARATOR] + username);
    assert forall|j: int| 0 <= j < body.len() && j != at implies body[j] != DATA_SEPARATOR by {
        if j < at {
            assert(auth[j] == body[j]);
        } else {
            assert(username[j - at - 1] == body[j]);
        }
    }
    assert(is_only_separator(body, at));
    let chosen = choose|at: int| is_only_separator(body, at);
    lemma_only_separator_is_unique(body, at, chosen);
    assert(body.take(at) =~= auth);
    assert(data.skip(4 + at + 1) =~= username);
}

/// Reading the payload of an Init message gives the message back, for strings
/// whose text-safe forms are as the text-safe encoder leaves them.
pub proof fn lemma_init_round_trip(msg: InitView)
    requires
        is_text_safe_of(msg.auth, text_safe(msg.auth)),
        is_text_safe_of(msg.username, text_safe(msg.username)),
    ensures
        init_payload(msg).len() == init_payload_len(msg),
        init_parts(init_payload(msg)) == Some(
            (msg.kind.spec_tag(), msg.listen_port, text_safe(msg.auth), text_safe(msg.username)),
        ),
        parse_init(init_payload(msg)) == Some(msg),
{
    lemma_url_safe_has_no_separator(text_safe(msg.auth));
    lemma_url_safe_has_no_separator(text_safe(msg.username));
    lemma_parts_of_assembled(
        msg.kind.spec_tag(),
        msg.listen_port,
        text_safe(msg.auth),
        text_safe(msg.username),
    );
}

/// A payload that does not open with the Init tag stands for no Init message.
pub proof fn lemma_init_needs_its_tag(data: Seq<u8>)
    requires
        data.len() == 0 || data[0] != MessageKind::Init.spec_tag(),
    ensures
        parse_init(data) is None,
{
}

/// A payload whose init kind is none of New, Referred and Reconnect stands for
/// no Init message.
pub proof fn lemma_init_needs_known_kind(data: Seq<u8>)
    requires
        data.len() < 2 || !(1 <= data[1] <= 3),
    ensures
        parse_init(data) is None,
{
}

/// Takes an Init payload apart, without reading the fields.
pub fn split_init(data: &[u8]) -> (r: Option<(u8, u16, &[u8], &[u8])>)
    ensures
        r matches Some(parts) ==> init_parts(data@) == Some(
            (parts.0, parts.1, parts.2@, parts.3@),
        ),
        r is None ==> init_parts(data@) is None,
{
    let n: usize = data.len();
    if n < 4 || data[0] != MessageKind::Init.tag() {
        return None;
    }
    let ghost body = data@.skip(4);
    let mut first: usize = 4;
    while first < n && data[first] != DATA_SEPARATOR
        invariant
            n == data@.len(),
            4 <= first <= n,
            forall|j: int| 4 <= j < first ==> data@[j] != DATA_SEPARATOR,
        decreases n - first,
    {
        first = first + 1;
    }
    if first == n {
        assert forall|at: int| !is_only_separator(body, at) by {
            if 0 <= at < body.len() {
                assert(body[at] == data@[at + 4]);
            }
        }
        return None;
    }
    let mut second: usize = first + 1;
    while second < n && data[second] != DATA_SEPARATOR
        invariant
            n == data@.len(),
            first < second <= n,
            forall|j: int| first < j < second ==> data@[j] != DATA_SEPARATOR,
        decreases n - second,
    {
        second = second + 1;
    }
    if second < n {
        assert forall|at: int| !is_only_separator(body, at) by {
            assert(body[first - 4] == DATA_SEPARATOR);
            assert(body[second - 4] == DATA_SEPARATOR);
        }
        return None;
    }
    let auth = slice_subrange(data, 4, first);
    let username = slice_subrange(data, first + 1, n);
    proof {
        let at = first - 4;
        assert(is_only_separator(body, at));
        let chosen = choose|at: int| is_only_separator(body, at);
        lemma_only_separator_is_unique(body, at, chosen);
        assert(auth@ =~= body.take(at));
        assert(username@ =~= data@.skip(4 + at + 1));
    }
    Some((data[1], u16_from_le(data[2], data[3]), auth, username))
}

/// Builds the frame of an Init message from fields that are already text-safe.
pub fn assemble_init(kind: InitKind, listen_port: u16, auth: &[u8], username: &[u8]) -> (r: Result<
    Vec<u8>,
    ProtocolError,
>)
    ensures
        r is Ok <==> 5 + auth@.len() + username@.len() <= MAX_PAYLOAD_LEN,
        r matches Ok(bytes) ==> bytes@ == frame(
            assembled_init(kind.spec_tag(), listen_port, auth@, username@),
        ),
        r matches Err(e) ==> e == ProtocolError::InitTooLong,
{
    if auth.len() > MAX_PAYLOAD_LEN || username.len() > MAX_PAYLOAD_LEN {
        return Err(ProtocolError::InitTooLong);
    }
    let mut payload: Vec<u8> = Vec::new();
    payload.push(MessageKind::Init.tag());
    payload.push(kind.tag());
    put_u16_le(&mut payload, listen_port);
    put_bytes(&mut payload, auth);
    payload.push(DATA_SEPARATOR);
    put_bytes(&mut payload, username);
    assert(payload@ =~= assembled_init(kind.spec_tag(), listen_port, auth@, username@));
    match seal(&payload) {
        Some(bytes) => Ok(bytes),
        None => Err(ProtocolError::InitTooLong),
    }
}

impl Init {
    /// An Init message of the given kind, from a node that listens on
    /// `listen_port`.
    pub fn new(kind: InitKind, listen_port: u16, auth: &str, username: &str) -> (msg: Init)
        ensures
            msg@ == (InitView { kind, listen_port, auth: auth@, username: username@ }),
    {
        let auth = auth.to_string();
        let username = username.to_string();
        Init { kind, listen_port, auth, username }
    }

    /// Why the connection was opened.
    pub fn kind(&self) -> (kind: InitKind)
        ensures
            kind == self@.kind,
    {
        self.kind
    }

    /// The port on which the sender itself listens.
    pub fn listen_port(&self) -> (port: u16)
        ensures
            port == self@.listen_port,
    {
        self.listen_port
    }

    /// The token that the sender shows. Nothing in the protocol reads it.
    pub fn auth(&self) -> (auth: &str)
        ensures
            auth@ == self@.auth,
    {
        self.auth.as_str()
    }

    /// The name that the sender gave itself.
    pub fn consume_for_username(self) -> (username: String)
        ensures
            username@ == self@.username,
    {
        self.username
    }
}

impl Message<Init> for Init {
    open spec fn payload(&self) -> Seq<u8> {
        init_payload(self@)
    }

    open spec fn payload_len(&self) -> nat {
        init_payload_len(self@)
    }

    open spec fn parse(data: Seq<u8>) -> Option<InitView> {
        parse_init(data)
    }

    fn recv_and_decode(payload: &[u8]) -> (r: Result<Init, ProtocolError>)
        ensures
            r matches Err(e) ==> e == ProtocolError::InitDecode,
    {
        match Init::decode(payload) {
            Some(msg) => Ok(msg),
            None => Err(ProtocolError::InitDecode),
        }
    }

    /// The frame of this message. Its two strings travel in their text-safe
    /// forms, which hold no separator, so that the one separator of the frame
    /// parts them; and what the frame holds after the two length bytes decodes to
    /// this message again.
    fn encode(&self) -> (r: Result<Vec<u8>, ProtocolError>)
        ensures
            r is Ok ==> is_url_safe(text_safe(self@.auth)) && is_url_safe(
                text_safe(self@.username),
            ),
            r matches Ok(bytes) ==> init_parts(bytes@.skip(2)) == Some(
                (
                    self@.kind.spec_tag(),
                    self@.listen_port,
                    text_safe(self@.auth),
                    text_safe(self@.username),
                ),
            ),
            r matches Ok(bytes) ==> parse_init(bytes@.skip(2)) == Some(self@),
            r matches Err(e) ==> e == ProtocolError::InitTooLong,
    {
        proof {
            lemma_text_len_grows(encode_utf8(self@.auth).len());
            lemma_text_len_grows(encode_utf8(self@.username).len());
        }
        let auth = match to_text_safe(self.auth.as_str()) {
            Some(text) => text,
            None => {
                return Err(ProtocolError::InitTooLong);
            },
        };
        let username = match to_text_safe(self.username.as_str()) {
            Some(text) => text,
            None => {
                return Err(ProtocolError::InitTooLong);
            },
        };
        let r = assemble_init(self.kind, self.listen_port, auth.as_slice(), username.as_slice());
        proof {
            lemma_init_round_trip(self@);
            if r is Ok {
                lemma_frame_parts(init_payload(self@));
            }
        }
        r
    }

    fn decode(data: &[u8]) -> (r: Option<Init>) {
        let (kind_tag, listen_port, auth_text, username_text) = match split_init(data) {
            Some(parts) => parts,
            None => {
                return None;
            },
        };
        let auth = match from_text_safe(auth_text) {
            Some(s) => s,
            None => {
                return None;
            },
        };
        let username = match from_text_safe(username_text) {
            Some(s) => s,
            None => {
                return None;
            },
        };
        let kind = match InitKind::from_u8(kind_tag) {
            Some(kind) => kind,
            None => {
                return None;
            },
        };
        Some(Init { kind, listen_port, auth, username })
    }
}

/// The address that the six bytes of `body` from `at` on stand for.
pub open spec fn record_at(body: Seq<u8>, at: int) -> PeerAddr {
    PeerAddr {
        a: body[at],
        b: body[at + 1],
        c: body[at + 2],
        d: body[at + 3],
        port: from_le16(body[at + 4], body[at + 5]),
    }
}

/// The addresses that a body of whole six-byte records stands for, record by
/// record.
pub open spec fn records(body: Seq<u8>) -> Seq<PeerAddr> {
    Seq::new(body.len() / 6, |k: int| record_at(body, 6 * k))
}

/// The payload of a ConnsList message.
pub open spec fn conns_list_payload(roster: Seq<PeerAddr>) -> Seq<u8> {
    seq![MessageKind::ConnsList.spec_tag()] + roster_bytes(roster)
}

/// The roster that a payload stands for. It stands for one where it opens with
/// the ConnsList tag and its body is a whole number of six-byte records; a body
/// that ends within a record stands for none.
pub open spec fn parse_conns_list(data: Seq<u8>) -> Option<Seq<PeerAddr>> {
    if data.len() == 0 || data[0] != MessageKind::ConnsList.spec_tag() || (data.len() - 1) % 6
        != 0 {
        None
    } else {
        Some(records(data.skip(1)))
    }
}

/// Where the bytes of a roster hold the bytes of its `k`th record.
pub proof fn lemma_roster_byte(roster: Seq<PeerAddr>, k: int, i: int)
    requires
        0 <= k < roster.len(),
        0 <= i < 6,
    ensures
        roster_bytes(roster).len() == 6 * roster.len(),
        roster_bytes(roster)[6 * k + i] == roster[k].record()[i],
{
    assert((6 * k + i) / 6 == k);
    assert((6 * k + i) % 6 == i);
}

/// The `k`th record among the bytes of a roster reads back as its `k`th peer.
pub proof fn lemma_record_reads_back(roster: Seq<PeerAddr>, k: int)
    requires
        0 <= k < roster.len(),
    ensures
        record_at(roster_bytes(roster), 6 * k) == roster[k],
{
    let peer = roster[k];
    let body = roster_bytes(roster);
    lemma_le16_round_trip(peer.port);
    assert(peer.record() =~= seq![peer.a, peer.b, peer.c, peer.d, le16(peer.port)[0], le16(
        peer.port,
    )[1]]);
    assert(body[6 * k] == peer.a) by {
        lemma_roster_byte(roster, k, 0);
    }
    assert(body[6 * k + 1] == peer.b) by {
        lemma_roster_byte(roster, k, 1);
    }
    assert(body[6 * k + 2] == peer.c) by {
        lemma_roster_byte(roster, k, 2);
    }
    assert(body[6 * k + 3] == peer.d) by {
        lemma_roster_byte(roster, k, 3);
    }
    assert(body[6 * k + 4] == le16(peer.port)[0]) by {
        lemma_roster_byte(roster, k, 4);
    }
    assert(body[6 * k + 5] == le16(peer.port)[1]) by {
        lemma_roster_byte(roster, k, 5);
    }
}

/// The bytes of a roster read back as the roster.
pub proof fn lemma_records_of_roster_bytes(roster: Seq<PeerAddr>)
    ensures
        roster_bytes(roster).len() == 6 * roster.len(),
        records(roster_bytes(roster)) == roster,
{
    let body = roster_bytes(roster);
    assert(body.len() == 6 * roster.len());
    assert(body.len() / 6 == roster.len());
    assert forall|k: int| 0 <= k < roster.len() implies #[trigger] records(body)[k] == roster[k] by {
        lemma_record_reads_back(roster, k);
    }
    assert(records(body) =~= roster);
}

/// Reading the payload of a roster gives the same addresses in the same order.
pub proof fn lemma_conns_list_round_trip(roster: Seq<PeerAddr>)
    ensures
        conns_list_payload(roster).len() == 1 + 6 * roster.len(),
        parse_conns_list(conns_list_payload(roster)) == Some(roster),
{
    lemma_records_of_roster_bytes(roster);
    assert(conns_list_payload(roster).skip(1) =~= roster_bytes(roster));
    assert((6 * roster.len()) % 6 == 0);
}

/// A payload that stands for a roster holds its tag and six bytes for every
/// peer of the roster, no more and no fewer.
pub proof fn lemma_conns_list_is_whole_records(data: Seq<u8>)
    requires
        parse_conns_list(data) is Some,
    ensures
        data.len() == 1 + 6 * parse_conns_list(data)->Some_0.len(),
{
}

/// A payload whose body ends within a record stands for no roster.
pub proof fn lemma_conns_list_needs_whole_records(data: Seq<u8>)
    requires
        data.len() == 0 || (data.len() - 1) % 6 != 0,
    ensures
        parse_conns_list(data) is None,
{
}

/// A payload that opens with the tag of no message kind stands for no message.
pub proof fn lemma_unknown_tag_is_no_message(data: Seq<u8>)
    requires
        data.len() > 0,
        data[0] != MessageKind::Init.spec_tag(),
        data[0] != MessageKind::ConnsList.spec_tag(),
    ensures
        parse_init(data) is None,
        parse_conns_list(data) is None,
{
}

/// A payload that does not open with the ConnsList tag stands for no roster.
pub proof fn lemma_conns_list_needs_its_tag(data: Seq<u8>)
    requires
        data.len() == 0 || data[0] != MessageKind::ConnsList.spec_tag(),
    ensures
        parse_conns_list(data) is None,
{
}

/// A roster as it travels.
#[derive(Debug)]
pub struct ConnsList(SocketList);

impl View for ConnsList {
    type V = Seq<PeerAddr>;

    closed spec fn view(&self) -> Seq<PeerAddr> {
        self.0@
    }
}

impl ConnsList {
    /// The message that carries this roster.
    pub fn new(socket_list: SocketList) -> (msg: ConnsList)
        ensures
            msg@ == socket_list@,
    {
        ConnsList(socket_list)
    }

    /// The message that carries these addresses, in this order.
    pub fn new_from_vec(socket_list: Vec<PeerAddr>) -> (msg: ConnsList)
        ensures
            msg@ == socket_list@,
    {
        ConnsList(SocketList::new(socket_list.as_slice()))
    }

    /// The message that carries an empty roster.
    pub fn new_empty() -> (msg: ConnsList)
        ensures
            msg@ == Seq::<PeerAddr>::empty(),
    {
        ConnsList(SocketList::new_empty())
    }

    /// The roster that the message carried.
    pub fn consume_for_socket_list(self) -> (socket_list: SocketList)
        ensures
            socket_list@ == self@,
    {
        self.0
    }
}

impl Message<ConnsList> for ConnsList {
    open spec fn payload(&self) -> Seq<u8> {
        conns_list_payload(self@)
    }

    open spec fn payload_len(&self) -> nat {
        1 + 6 * self@.len()
    }

    open spec fn parse(data: Seq<u8>) -> Option<Seq<PeerAddr>> {
        parse_conns_list(data)
    }

    fn recv_and_decode(payload: &[u8]) -> (r: Result<ConnsList, ProtocolError>)
        ensures
            r matches Err(e) ==> e == ProtocolError::ConnsListDecode,
    {
        match ConnsList::decode(payload) {
            Some(msg) => Ok(msg),
            None => Err(ProtocolError::ConnsListDecode),
        }
    }

    /// The frame of this roster. What it holds after the two length bytes
    /// decodes to the same roster again.
    fn encode(&self) -> (r: Result<Vec<u8>, ProtocolError>)
        ensures
            r matches Ok(bytes) ==> parse_conns_list(bytes@.skip(2)) == Some(self@),
            r matches Err(e) ==> e == ProtocolError::ConnsListTooLong,
    {
        let socks = self.0.all_as_bytes_v4();
        let mut payload: Vec<u8> = Vec::new();
        payload.push(MessageKind::ConnsList.tag());
        put_bytes(&mut payload, socks.as_slice());
        proof {
            lemma_conns_list_round_trip(self@);
            assert(payload@ =~= conns_list_payload(self@));
            if payload@.len() <= MAX_PAYLOAD_LEN {
                lemma_frame_parts(payload@);
            }
        }
        match seal(&payload) {
            Some(bytes) => Ok(bytes),
            None => Err(ProtocolError::ConnsListTooLong),
        }
    }

    /// The roster that the payload `data` stands for. A payload that stands for
    /// one holds six bytes for each of its peers behind the tag.
    fn decode(data: &[u8]) -> (r: Option<ConnsList>)
        ensures
            r matches Some(msg) ==> data@.len() == 1 + 6 * msg@.len(),
    {
        let n: usize = data.len();
        if n == 0 || data[0] != MessageKind::ConnsList.tag() {
            return None;
        }
        if (n - 1) % 6 != 0 {
            return None;
        }
        let ghost body = data@.skip(1);
        let count: usize = (n - 1) / 6;
        let mut vec: Vec<PeerAddr> = Vec::new();
        let mut k: usize = 0;
        while k < count
            invariant
                n == data@.len(),
                n >= 1,
                body == data@.skip(1),
                count == (n - 1) / 6,
                k <= count,
                vec@ == records(body).take(k as int),
            decreases count - k,
        {
            let at: usize = 1 + 6 * k;
            let sock = PeerAddr::new(
                data[at],
                data[at + 1],
                data[at + 2],
                data[at + 3],
                u16_from_le(data[at + 4], data[at + 5]),
            );
            assert(sock == record_at(body, 6 * k));
            vec.push(sock);
            assert(vec@ =~= records(body).take(k + 1));
            k = k + 1;
        }
        assert(vec@ =~= records(body));
        Some(ConnsList::new_from_vec(vec))
    }
}

} // verus!
