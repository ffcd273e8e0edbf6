//! The binary form of the values that nodes exchange, field by field.

use vstd::prelude::*;
use crate::grpc::{
    Message, MessageReply, OfflineInfo, OfflineSession, Retain, Route, SessionStatus, SubRelation,
    SubsSearchParams, SubsSearchResult,
};
use crate::cluster_raft::{RaftGrpcMessage, RaftGrpcMessageReply};
use crate::types::{Addr, From, FromType, Id, Publish, QoS};
use crate::wire::{
    decode_tagged, encode_tag, encode_tagged1, encode_tagged2, encode_tagged3, encode_tagged4,
    lemma_tag_round_trip, lemma_tagged_bound, lemma_tagged_round_trip, tagged_parse, tagged_wire,
    Wire,
};

verus! {

impl DeepView for Addr {
    type V = <(String, u16) as DeepView>::V;

    open spec fn deep_view(&self) -> Self::V {
        (self.ip.deep_view(), self.port.deep_view())
    }
}

/// An address: the IP address as text, then the port.
impl Wire for Addr {
    open spec fn fits(v: Self::V) -> bool {
        <(String, u16) as Wire>::fits(v)
    }

    open spec fn wire(v: Self::V) -> Seq<u8> {
        <(String, u16) as Wire>::wire(v)
    }

    open spec fn parse(bytes: Seq<u8>) -> Option<(Self::V, nat)> {
        <(String, u16) as Wire>::parse(bytes)
    }

    proof fn round_trip(v: Self::V, rest: Seq<u8>) {
        <(String, u16) as Wire>::round_trip(v, rest);
    }

    proof fn parse_bound(bytes: Seq<u8>) {
        <(String, u16) as Wire>::parse_bound(bytes);
    }

    fn encode(&self, out: &mut Vec<u8>) {
        self.ip.encode(out);
        self.port.encode(out);
        assert(out@ =~= old(out)@ + Self::wire(self.deep_view()));
    }

    fn decode(data: &[u8], at: usize) -> (r: Option<(Addr, usize)>) {
        match <(String, u16) as Wire>::decode(data, at) {
            Some(((ip, port), next)) => Some((Addr { ip, port }, next)),
            None => None,
        }
    }
}

impl DeepView for Id {
    type V = <(u64, (u16, (Option<Addr>, (Option<Addr>, (String, Option<String>))))) as DeepView>::V;

    open spec fn deep_view(&self) -> Self::V {
        (self.node_id.deep_view(), (self.lid.deep_view(), (self.local_addr.deep_view(), (self.remote_addr.deep_view(), (self.client_id.deep_view(), self.username.deep_view())))))
    }
}

/// An identifier: its fields in the order in which they are declared.
impl Wire for Id {
    open spec fn fits(v: Self::V) -> bool {
        <(u64, (u16, (Option<Addr>, (Option<Addr>, (String, Option<String>))))) as Wire>::fits(v)
    }

    open spec fn wire(v: Self::V) -> Seq<u8> {
        <(u64, (u16, (Option<Addr>, (Option<Addr>, (String, Option<String>))))) as Wire>::wire(v)
    }

    open spec fn parse(bytes: Seq<u8>) -> Option<(Self::V, nat)> {
        <(u64, (u16, (Option<Addr>, (Option<Addr>, (String, Option<String>))))) as Wire>::parse(bytes)
    }

    proof fn round_trip(v: Self::V, rest: Seq<u8>) {
        <(u64, (u16, (Option<Addr>, (Option<Addr>, (String, Option<String>))))) as Wire>::round_trip(v, rest);
    }

    proof fn parse_bound(bytes: Seq<u8>) {
        <(u64, (u16, (Option<Addr>, (Option<Addr>, (String, Option<String>))))) as Wire>::parse_bound(bytes);
    }

    fn encode(&self, out: &mut Vec<u8>) {
        self.node_id.encode(out);
        self.lid.encode(out);
        self.local_addr.encode(out);
        self.remote_addr.encode(out);
        self.client_id.encode(out);
        self.username.encode(out);
        assert(out@ =~= old(out)@ + Self::wire(self.deep_view()));
    }

    fn decode(data: &[u8], at: usize) -> (r: Option<(Id, usize)>) {
        match <(u64, (u16, (Option<Addr>, (Option<Addr>, (String, Option<String>))))) as Wire>::decode(data, at) {
            Some(((node_id, (lid, (local_addr, (remote_addr, (client_id, username))))), next)) => Some((Id { node_id, lid, local_addr, remote_addr, client_id, username }, next)),
            None => None,
        }
    }
}

impl DeepView for QoS {
    type V = QoS;

    open spec fn deep_view(&self) -> QoS {
        *self
    }
}

/// The number of a variant of [`QoS`] on the wire.
pub open spec fn qos_index(v: QoS) -> u32 {
    match v {
        QoS::AtMostOnce => 0,
        QoS::AtLeastOnce => 1,
        QoS::ExactlyOnce => 2,
    }
}

/// A quality of service: the number of its variant.
impl Wire for QoS {
    open spec fn fits(v: QoS) -> bool {
        true
    }

    open spec fn wire(v: QoS) -> Seq<u8> {
        <u32 as Wire>::wire(qos_index(v))
    }

    open spec fn parse(bytes: Seq<u8>) -> Option<(QoS, nat)> {
        match <u32 as Wire>::parse(bytes) {
            Some((index, n)) => if index == 0 {
                Some((QoS::AtMostOnce, n))
            } else if index == 1 {
                Some((QoS::AtLeastOnce, n))
            } else if index == 2 {
                Some((QoS::ExactlyOnce, n))
            } else {
                None
            },
            None => None,
        }
    }

    proof fn round_trip(v: QoS, rest: Seq<u8>) {
        <u32 as Wire>::round_trip(qos_index(v), rest);
    }

    proof fn parse_bound(bytes: Seq<u8>) {
    }

    fn encode(&self, out: &mut Vec<u8>) {
        let index: u32 = match self {
            QoS::AtMostOnce => 0,
            QoS::AtLeastOnce => 1,
            QoS::ExactlyOnce => 2,
        };
        index.encode(out);
    }

    fn decode(data: &[u8], at: usize) -> (r: Option<(QoS, usize)>) {
        match <u32 as Wire>::decode(data, at) {
            Some((index, next)) => {
                if index == 0 {
                    Some((QoS::AtMostOnce, next))
                } else if index == 1 {
                    Some((QoS::AtLeastOnce, next))
                } else if index == 2 {
                    Some((QoS::ExactlyOnce, next))
                } else {
                    None
                }
            },
            None => None,
        }
    }
}

impl DeepView for FromType {
    type V = FromType;

    open spec fn deep_view(&self) -> FromType {
        *self
    }
}

/// The number of a variant of [`FromType`] on the wire.
pub open spec fn fromtype_index(v: FromType) -> u32 {
    match v {
        FromType::Custom => 0,
        FromType::Admin => 1,
        FromType::System => 2,
        FromType::LastWill => 3,
        FromType::Bridge => 4,
    }
}

/// The kind of an origin: the number of its variant.
impl Wire for FromType {
    open spec fn fits(v: FromType) -> bool {
        true
    }

    open spec fn wire(v: FromType) -> Seq<u8> {
        <u32 as Wire>::wire(fromtype_index(v))
    }

    open spec fn parse(bytes: Seq<u8>) -> Option<(FromType, nat)> {
        match <u32 as Wire>::parse(bytes) {
            Some((index, n)) => if index == 0 {
                Some((FromType::Custom, n))
            } else if index == 1 {
                Some((FromType::Admin, n))
            } else if index == 2 {
                Some((FromType::System, n))
            } else if index == 3 {
                Some((FromType::LastWill, n))
            } else if index == 4 {
                Some((FromType::Bridge, n))
            } else {
                None
            },
            None => None,
        }
    }

    proof fn round_trip(v: FromType, rest: Seq<u8>) {
        <u32 as Wire>::round_trip(fromtype_index(v), rest);
    }

    proof fn parse_bound(bytes: Seq<u8>) {
    }

    fn encode(&self, out: &mut Vec<u8>) {
        let index: u32 = match self {
            FromType::Custom => 0,
            FromType::Admin => 1,
            FromType::System => 2,
            FromType::LastWill => 3,
            FromType::Bridge => 4,
        };
        index.encode(out);
    }

    fn decode(data: &[u8], at: usize) -> (r: Option<(FromType, usize)>) {
        match <u32 as Wire>::decode(data, at) {
            Some((index, next)) => {
                if index == 0 {
                    Some((FromType::Custom, next))
                } else if index == 1 {
                    Some((FromType::Admin, next))
                } else if index == 2 {
                    Some((FromType::System, next))
                } else if index == 3 {
                    Some((FromType::LastWill, next))
                } else if index == 4 {
                    Some((FromType::Bridge, next))
                } else {
                    None
                }
            },
            None => None,
        }
    }
}

impl DeepView for From {
    type V = <(FromType, Id) as DeepView>::V;

    open spec fn deep_view(&self) -> Self::V {
        (self.typ.deep_view(), self.id.deep_view())
    }
}

/// An origin: its kind, then the identifier.
impl Wire for From {
    open spec fn fits(v: Self::V) -> bool {
        <(FromType, Id) as Wire>::fits(v)
    }

    open spec fn wire(v: Self::V) -> Seq<u8> {
        <(FromType, Id) as Wire>::wire(v)
    }

    open spec fn parse(bytes: Seq<u8>) -> Option<(Self::V, nat)> {
        <(FromType, Id) as Wire>::parse(bytes)
    }

    proof fn round_trip(v: Self::V, rest: Seq<u8>) {
        <(FromType, Id) as Wire>::round_trip(v, rest);
    }

    proof fn parse_bound(bytes: Seq<u8>) {
        <(FromType, Id) as Wire>::parse_bound(bytes);
    }

    fn encode(&self, out: &mut Vec<u8>) {
        self.typ.encode(out);
        self.id.encode(out);
        assert(out@ =~= old(out)@ + Self::wire(self.deep_view()));
    }

    fn decode(data: &[u8], at: usize) -> (r: Option<(From, usize)>) {
        match <(FromType, Id) as Wire>::decode(data, at) {
            Some(((typ, id), next)) => Some((From { typ, id }, next)),
            None => None,
        }
    }
}

impl DeepView for Publish {
    type V = <(String, (Vec<u8>, (QoS, (bool, (bool, (Option<u16>, i64)))))) as DeepView>::V;

    open spec fn deep_view(&self) -> Self::V {
        (self.topic.deep_view(), (self.payload.deep_view(), (self.qos.deep_view(), (self.retain.deep_view(), (self.dup.deep_view(), (self.packet_id.deep_view(), self.create_time.deep_view()))))))
    }
}

/// A publish: its fields in the order in which they are declared.
impl Wire for Publish {
    open spec fn fits(v: Self::V) -> bool {
        <(String, (Vec<u8>, (QoS, (bool, (bool, (Option<u16>, i64)))))) as Wire>::fits(v)
    }

    open spec fn wire(v: Self::V) -> Seq<u8> {
        <(String, (Vec<u8>, (QoS, (bool, (bool, (Option<u16>, i64)))))) as Wire>::wire(v)
    }

    open spec fn parse(bytes: Seq<u8>) -> Option<(Self::V, nat)> {
        <(String, (Vec<u8>, (QoS, (bool, (bool, (Option<u16>, i64)))))) as Wire>::parse(bytes)
    }

    proof fn round_trip(v: Self::V, rest: Seq<u8>) {
        <(String, (Vec<u8>, (QoS, (bool, (bool, (Option<u16>, i64)))))) as Wire>::round_trip(v, rest);
    }

    proof fn parse_bound(bytes: Seq<u8>) {
        <(String, (Vec<u8>, (QoS, (bool, (bool, (Option<u16>, i64)))))) as Wire>::parse_bound(bytes);
    }

    fn encode(&self, out: &mut Vec<u8>) {
        self.topic.encode(out);
        self.payload.encode(out);
        self.qos.encode(out);
        self.retain.encode(out);
        self.dup.encode(out);
        self.packet_id.encode(out);
        self.create_time.encode(out);
        assert(out@ =~= old(out)@ + Self::wire(self.deep_view()));
    }

    fn decode(data: &[u8], at: usize) -> (r: Option<(Publish, usize)>) {
        match <(String, (Vec<u8>, (QoS, (bool, (bool, (Option<u16>, i64)))))) as Wire>::decode(data, at) {
            Some(((topic, (payload, (qos, (retain, (dup, (packet_id, create_time)))))), next)) => Some((Publish { topic, payload, qos, retain, dup, packet_id, create_time }, next)),
            None => None,
        }
    }
}

impl DeepView for SubRelation {
    type V = <(String, (String, (QoS, Option<String>))) as DeepView>::V;

    open spec fn deep_view(&self) -> Self::V {
        (self.topic_filter.deep_view(), (self.client_id.deep_view(), (self.qos.deep_view(), self.group.deep_view())))
    }
}

/// A subscriber of a forwarded publish.
impl Wire for SubRelation {
    open spec fn fits(v: Self::V) -> bool {
        <(String, (String, (QoS, Option<String>))) as Wire>::fits(v)
    }

    open spec fn wire(v: Self::V) -> Seq<u8> {
        <(String, (String, (QoS, Option<String>))) as Wire>::wire(v)
    }

    open spec fn parse(bytes: Seq<u8>) -> Option<(Self::V, nat)> {
        <(String, (String, (QoS, Option<String>))) as Wire>::parse(bytes)
    }

    proof fn round_trip(v: Self::V, rest: Seq<u8>) {
        <(String, (String, (QoS, Option<String>))) as Wire>::round_trip(v, rest);
    }

    proof fn parse_bound(bytes: Seq<u8>) {
        <(String, (String, (QoS, Option<String>))) as Wire>::parse_bound(bytes);
    }

    fn encode(&self, out: &mut Vec<u8>) {
        self.topic_filter.encode(out);
        self.client_id.encode(out);
        self.qos.encode(out);
        self.group.encode(out);
        assert(out@ =~= old(out)@ + Self::wire(self.deep_view()));
    }

    fn decode(data: &[u8], at: usize) -> (r: Option<(SubRelation, usize)>) {
        match <(String, (String, (QoS, Option<String>))) as Wire>::decode(data, at) {
            Some(((topic_filter, (client_id, (qos, group))), next)) => Some((SubRelation { topic_filter, client_id, qos, group }, next)),
            None => None,
        }
    }
}

impl DeepView for SubsSearchParams {
    type V = <(usize, (Option<String>, (Option<String>, Option<String>))) as DeepView>::V;

    open spec fn deep_view(&self) -> Self::V {
        (self.limit.deep_view(), (self.client_id.deep_view(), (self.topic.deep_view(), self.share.deep_view())))
    }
}

/// The filter of a subscription search.
impl Wire for SubsSearchParams {
    open spec fn fits(v: Self::V) -> bool {
        <(usize, (Option<String>, (Option<String>, Option<String>))) as Wire>::fits(v)
    }

    open spec fn wire(v: Self::V) -> Seq<u8> {
        <(usize, (Option<String>, (Option<String>, Option<String>))) as Wire>::wire(v)
    }

    open spec fn parse(bytes: Seq<u8>) -> Option<(Self::V, nat)> {
        <(usize, (Option<String>, (Option<String>, Option<String>))) as Wire>::parse(bytes)
    }

    proof fn round_trip(v: Self::V, rest: Seq<u8>) {
        <(usize, (Option<String>, (Option<String>, Option<String>))) as Wire>::round_trip(v, rest);
    }

    proof fn parse_bound(bytes: Seq<u8>) {
        <(usize, (Option<String>, (Option<String>, Option<String>))) as Wire>::parse_bound(bytes);
    }

    fn encode(&self, out: &mut Vec<u8>) {
        self.limit.encode(out);
        self.client_id.encode(out);
        self.topic.encode(out);
        self.share.encode(out);
        assert(out@ =~= old(out)@ + Self::wire(self.deep_view()));
    }

    fn decode(data: &[u8], at: usize) -> (r: Option<(SubsSearchParams, usize)>) {
        match <(usize, (Option<String>, (Option<String>, Option<String>))) as Wire>::decode(data, at) {
            Some(((limit, (client_id, (topic, share))), next)) => Some((SubsSearchParams { limit, client_id, topic, share }, next)),
            None => None,
        }
    }
}

impl DeepView for SubsSearchResult {
    type V = <(u64, (String, (String, (QoS, Option<String>)))) as DeepView>::V;

    open spec fn deep_view(&self) -> Self::V {
        (self.node_id.deep_view(), (self.client_id.deep_view(), (self.topic.deep_view(), (self.qos.deep_view(), self.share.deep_view()))))
    }
}

/// One subscription found by a search.
impl Wire for SubsSearchResult {
    open spec fn fits(v: Self::V) -> bool {
        <(u64, (String, (String, (QoS, Option<String>)))) as Wire>::fits(v)
    }

    open spec fn wire(v: Self::V) -> Seq<u8> {
        <(u64, (String, (String, (QoS, Option<String>)))) as Wire>::wire(v)
    }

    open spec fn parse(bytes: Seq<u8>) -> Option<(Self::V, nat)> {
        <(u64, (String, (String, (QoS, Option<String>)))) as Wire>::parse(bytes)
    }

    proof fn round_trip(v: Self::V, rest: Seq<u8>) {
        <(u64, (String, (String, (QoS, Option<String>)))) as Wire>::round_trip(v, rest);
    }

    proof fn parse_bound(bytes: Seq<u8>) {
        <(u64, (String, (String, (QoS, Option<String>)))) as Wire>::parse_bound(bytes);
    }

    fn encode(&self, out: &mut Vec<u8>) {
        self.node_id.encode(out);
        self.client_id.encode(out);
        self.topic.encode(out);
        self.qos.encode(out);
        self.share.encode(out);
        assert(out@ =~= old(out)@ + Self::wire(self.deep_view()));
    }

    fn decode(data: &[u8], at: usize) -> (r: Option<(SubsSearchResult, usize)>) {
        match <(u64, (String, (String, (QoS, Option<String>)))) as Wire>::decode(data, at) {
            Some(((node_id, (client_id, (topic, (qos, share)))), next)) => Some((SubsSearchResult { node_id, client_id, topic, qos, share }, next)),
            None => None,
        }
    }
}

impl DeepView for Route {
    type V = <(u64, String) as DeepView>::V;

    open spec fn deep_view(&self) -> Self::V {
        (self.node_id.deep_view(), self.topic.deep_view())
    }
}

/// A route: the node, then the topic filter.
impl Wire for Route {
    open spec fn fits(v: Self::V) -> bool {
        <(u64, String) as Wire>::fits(v)
    }

    open spec fn wire(v: Self::V) -> Seq<u8> {
        <(u64, String) as Wire>::wire(v)
    }

    open spec fn parse(bytes: Seq<u8>) -> Option<(Self::V, nat)> {
        <(u64, String) as Wire>::parse(bytes)
    }

    proof fn round_trip(v: Self::V, rest: Seq<u8>) {
        <(u64, String) as Wire>::round_trip(v, rest);
    }

    proof fn parse_bound(bytes: Seq<u8>) {
        <(u64, String) as Wire>::parse_bound(bytes);
    }

    fn encode(&self, out: &mut Vec<u8>) {
        self.node_id.encode(out);
        self.topic.encode(out);
        assert(out@ =~= old(out)@ + Self::wire(self.deep_view()));
    }

    fn decode(data: &[u8], at: usize) -> (r: Option<(Route, usize)>) {
        match <(u64, String) as Wire>::decode(data, at) {
            Some(((node_id, topic), next)) => Some((Route { node_id, topic }, next)),
            None => None,
        }
    }
}

impl DeepView for Retain {
    type V = <(Option<u64>, (From, Publish)) as DeepView>::V;

    open spec fn deep_view(&self) -> Self::V {
        (self.msg_id.deep_view(), (self.from.deep_view(), self.publish.deep_view()))
    }
}

/// A retained message.
impl Wire for Retain {
    open spec fn fits(v: Self::V) -> bool {
        <(Option<u64>, (From, Publish)) as Wire>::fits(v)
    }

    open spec fn wire(v: Self::V) -> Seq<u8> {
        <(Option<u64>, (From, Publish)) as Wire>::wire(v)
    }

    open spec fn parse(bytes: Seq<u8>) -> Option<(Self::V, nat)> {
        <(Option<u64>, (From, Publish)) as Wire>::parse(bytes)
    }

    proof fn round_trip(v: Self::V, rest: Seq<u8>) {
        <(Option<u64>, (From, Publish)) as Wire>::round_trip(v, rest);
    }

    proof fn parse_bound(bytes: Seq<u8>) {
        <(Option<u64>, (From, Publish)) as Wire>::parse_bound(bytes);
    }

    fn encode(&self, out: &mut Vec<u8>) {
        self.msg_id.encode(out);
        self.from.encode(out);
        self.publish.encode(out);
        assert(out@ =~= old(out)@ + Self::wire(self.deep_view()));
    }

    fn decode(data: &[u8], at: usize) -> (r: Option<(Retain, usize)>) {
        match <(Option<u64>, (From, Publish)) as Wire>::decode(data, at) {
            Some(((msg_id, (from, publish)), next)) => Some((Retain { msg_id, from, publish }, next)),
            None => None,
        }
    }
}

impl DeepView for SessionStatus {
    type V = <(Id, (bool, bool)) as DeepView>::V;

    open spec fn deep_view(&self) -> Self::V {
        (self.id.deep_view(), (self.online.deep_view(), self.handshaking.deep_view()))
    }
}

/// The status of a session.
impl Wire for SessionStatus {
    open spec fn fits(v: Self::V) -> bool {
        <(Id, (bool, bool)) as Wire>::fits(v)
    }

    open spec fn wire(v: Self::V) -> Seq<u8> {
        <(Id, (bool, bool)) as Wire>::wire(v)
    }

    open spec fn parse(bytes: Seq<u8>) -> Option<(Self::V, nat)> {
        <(Id, (bool, bool)) as Wire>::parse(bytes)
    }

    proof fn round_trip(v: Self::V, rest: Seq<u8>) {
        <(Id, (bool, bool)) as Wire>::round_trip(v, rest);
    }

    proof fn parse_bound(bytes: Seq<u8>) {
        <(Id, (bool, bool)) as Wire>::parse_bound(bytes);
    }

    fn encode(&self, out: &mut Vec<u8>) {
        self.id.encode(out);
        self.online.encode(out);
        self.handshaking.encode(out);
        assert(out@ =~= old(out)@ + Self::wire(self.deep_view()));
    }

    fn decode(data: &[u8], at: usize) -> (r: Option<(SessionStatus, usize)>) {
        match <(Id, (bool, bool)) as Wire>::decode(data, at) {
            Some(((id, (online, handshaking)), next)) => Some((SessionStatus { id, online, handshaking }, next)),
            None => None,
        }
    }
}

impl DeepView for OfflineInfo {
    type V = <(Id, (Vec<SubRelation>, Vec<(From, Publish)>)) as DeepView>::V;

    open spec fn deep_view(&self) -> Self::V {
        (self.id.deep_view(), (self.subscriptions.deep_view(), self.offline_messages.deep_view()))
    }
}

/// What a displaced session hands over.
impl Wire for OfflineInfo {
    open spec fn fits(v: Self::V) -> bool {
        <(Id, (Vec<SubRelation>, Vec<(From, Publish)>)) as Wire>::fits(v)
    }

    open spec fn wire(v: Self::V) -> Seq<u8> {
        <(Id, (Vec<SubRelation>, Vec<(From, Publish)>)) as Wire>::wire(v)
    }

    open spec fn parse(bytes: Seq<u8>) -> Option<(Self::V, nat)> {
        <(Id, (Vec<SubRelation>, Vec<(From, Publish)>)) as Wire>::parse(bytes)
    }

    proof fn round_trip(v: Self::V, rest: Seq<u8>) {
        <(Id, (Vec<SubRelation>, Vec<(From, Publish)>)) as Wire>::round_trip(v, rest);
    }

    proof fn parse_bound(bytes: Seq<u8>) {
        <(Id, (Vec<SubRelation>, Vec<(From, Publish)>)) as Wire>::parse_bound(bytes);
    }

    fn encode(&self, out: &mut Vec<u8>) {
        self.id.encode(out);
        self.subscriptions.encode(out);
        self.offline_messages.encode(out);
        assert(out@ =~= old(out)@ + Self::wire(self.deep_view()));
    }

    fn decode(data: &[u8], at: usize) -> (r: Option<(OfflineInfo, usize)>) {
        match <(Id, (Vec<SubRelation>, Vec<(From, Publish)>)) as Wire>::decode(data, at) {
            Some(((id, (subscriptions, offline_messages)), next)) => Some((OfflineInfo { id, subscriptions, offline_messages }, next)),
            None => None,
        }
    }
}

/// The value of an [`OfflineSession`].
pub enum OfflineSessionModel {
    Exist(<Option<OfflineInfo> as DeepView>::V),
    NotExist,
}

impl DeepView for OfflineSession {
    type V = OfflineSessionModel;

    open spec fn deep_view(&self) -> OfflineSessionModel {
        match *self {
            OfflineSession::Exist(f0) => OfflineSessionModel::Exist(f0.deep_view()),
            OfflineSession::NotExist => OfflineSessionModel::NotExist,
        }
    }
}

/// The last state of a displaced session: the number of the variant, then its content.
impl Wire for OfflineSession {
    open spec fn fits(v: OfflineSessionModel) -> bool {
        match v {
            OfflineSessionModel::Exist(p) => <Option<OfflineInfo> as Wire>::fits(p),
            OfflineSessionModel::NotExist => true,
        }
    }

    open spec fn wire(v: OfflineSessionModel) -> Seq<u8> {
        match v {
            OfflineSessionModel::Exist(p) => tagged_wire::<Option<OfflineInfo>>(0, p),
            OfflineSessionModel::NotExist => <u32 as Wire>::wire(1),
        }
    }

    open spec fn parse(bytes: Seq<u8>) -> Option<(OfflineSessionModel, nat)> {
        match <u32 as Wire>::parse(bytes) {
            Some((index, n)) => {
                if index == 0 {
                    match tagged_parse::<Option<OfflineInfo>>(bytes) {
                        Some((p, m)) => Some((OfflineSessionModel::Exist(p), m)),
                        None => None,
                    }
                } else if index == 1 {
                    Some((OfflineSessionModel::NotExist, n))
                } else {
                    None
                }
            },
            None => None,
        }
    }

    proof fn round_trip(v: OfflineSessionModel, rest: Seq<u8>) {
        match v {
            OfflineSessionModel::Exist(p) => {
                lemma_tagged_round_trip::<Option<OfflineInfo>>(0, p, rest);
            },
            OfflineSessionModel::NotExist => {
                lemma_tag_round_trip(1, rest);
            },
        }
    }

    proof fn parse_bound(bytes: Seq<u8>) {
        if bytes.len() >= 4 {
            lemma_tagged_bound::<Option<OfflineInfo>>(bytes);
        }
    }

    fn encode(&self, out: &mut Vec<u8>) {
        match self {
            OfflineSession::Exist(f0) => {
                encode_tagged1(0, f0, out);
            },
            OfflineSession::NotExist => {
                encode_tag(1, out);
            },
        }
    }

    fn decode(data: &[u8], at: usize) -> (r: Option<(OfflineSession, usize)>) {
        match <u32 as Wire>::decode(data, at) {
            Some((index, body)) => {
                if index == 0 {
                    match decode_tagged::<Option<OfflineInfo>>(data, at, body) {
                        Some((f0, next)) => Some((OfflineSession::Exist(f0), next)),
                        None => None,
                    }
                } else if index == 1 {
                    Some((OfflineSession::NotExist, body))
                } else {
                    None
                }
            },
            None => None,
        }
    }
}

/// The value of a [`Message`].
pub enum MessageModel {
    Forwards(<(From, Publish) as DeepView>::V),
    ForwardsTo(<(From, (Publish, Vec<SubRelation>)) as DeepView>::V),
    Kick(<(Id, (bool, (bool, bool))) as DeepView>::V),
    GetRetains(<String as DeepView>::V),
    SubscriptionsSearch(<SubsSearchParams as DeepView>::V),
    SubscriptionsGet(<String as DeepView>::V),
    RoutesGet(<usize as DeepView>::V),
    RoutesGetBy(<String as DeepView>::V),
    NumberOfClients,
    NumberOfSessions,
    Online(<String as DeepView>::V),
    SessionStatus(<String as DeepView>::V),
    MessageGet(<(String, (String, Option<String>)) as DeepView>::V),
    Data(<Vec<u8> as DeepView>::V),
}

impl DeepView for Message {
    type V = MessageModel;

    open spec fn deep_view(&self) -> MessageModel {
        match *self {
            Message::Forwards(f0, f1) => MessageModel::Forwards((f0.deep_view(), f1.deep_view())),
            Message::ForwardsTo(f0, f1, f2) => MessageModel::ForwardsTo((f0.deep_view(), (f1.deep_view(), f2.deep_view()))),
            Message::Kick(f0, f1, f2, f3) => MessageModel::Kick((f0.deep_view(), (f1.deep_view(), (f2.deep_view(), f3.deep_view())))),
            Message::GetRetains(f0) => MessageModel::GetRetains(f0.deep_view()),
            Message::SubscriptionsSearch(f0) => MessageModel::SubscriptionsSearch(f0.deep_view()),
            Message::SubscriptionsGet(f0) => MessageModel::SubscriptionsGet(f0.deep_view()),
            Message::RoutesGet(f0) => MessageModel::RoutesGet(f0.deep_view()),
            Message::RoutesGetBy(f0) => MessageModel::RoutesGetBy(f0.deep_view()),
            Message::NumberOfClients => MessageModel::NumberOfClients,
            Message::NumberOfSessions => MessageModel::NumberOfSessions,
            Message::Online(f0) => MessageModel::Online(f0.deep_view()),
            Message::SessionStatus(f0) => MessageModel::SessionStatus(f0.deep_view()),
            Message::MessageGet(f0, f1, f2) => MessageModel::MessageGet((f0.deep_view(), (f1.deep_view(), f2.deep_view()))),
            Message::Data(f0) => MessageModel::Data(f0.deep_view()),
        }
    }
}

/// A request: the number of the variant in four bytes, then its fields in order.
impl Wire for Message {
    open spec fn fits(v: MessageModel) -> bool {
        match v {
            MessageModel::Forwards(p) => <(From, Publish) as Wire>::fits(p),
            MessageModel::ForwardsTo(p) => <(From, (Publish, Vec<SubRelation>)) as Wire>::fits(p),
            MessageModel::Kick(p) => <(Id, (bool, (bool, bool))) as Wire>::fits(p),
            MessageModel::GetRetains(p) => <String as Wire>::fits(p),
            MessageModel::SubscriptionsSearch(p) => <SubsSearchParams as Wire>::fits(p),
            MessageModel::SubscriptionsGet(p) => <String as Wire>::fits(p),
            MessageModel::RoutesGet(p) => <usize as Wire>::fits(p),
            MessageModel::RoutesGetBy(p) => <String as Wire>::fits(p),
            MessageModel::NumberOfClients => true,
            MessageModel::NumberOfSessions => true,
            MessageModel::Online(p) => <String as Wire>::fits(p),
            MessageModel::SessionStatus(p) => <String as Wire>::fits(p),
            MessageModel::MessageGet(p) => <(String, (String, Option<String>)) as Wire>::fits(p),
            MessageModel::Data(p) => <Vec<u8> as Wire>::fits(p),
        }
    }

    open spec fn wire(v: MessageModel) -> Seq<u8> {
        match v {
            MessageModel::Forwards(p) => tagged_wire::<(From, Publish)>(0, p),
            MessageModel::ForwardsTo(p) => tagged_wire::<(From, (Publish, Vec<SubRelation>))>(1, p),
            MessageModel::Kick(p) => tagged_wire::<(Id, (bool, (bool, bool)))>(2, p),
            MessageModel::GetRetains(p) => tagged_wire::<String>(3, p),
            MessageModel::SubscriptionsSearch(p) => tagged_wire::<SubsSearchParams>(4, p),
            MessageModel::SubscriptionsGet(p) => tagged_wire::<String>(5, p),
            MessageModel::RoutesGet(p) => tagged_wire::<usize>(6, p),
            MessageModel::RoutesGetBy(p) => tagged_wire::<String>(7, p),
            MessageModel::NumberOfClients => <u32 as Wire>::wire(8),
            MessageModel::NumberOfSessions => <u32 as Wire>::wire(9),
            MessageModel::Online(p) => tagged_wire::<String>(10, p),
            MessageModel::SessionStatus(p) => tagged_wire::<String>(11, p),
            MessageModel::MessageGet(p) => tagged_wire::<(String, (String, Option<String>))>(12, p),
            MessageModel::Data(p) => tagged_wire::<Vec<u8>>(13, p),
        }
    }

    open spec fn parse(bytes: Seq<u8>) -> Option<(MessageModel, nat)> {
        match <u32 as Wire>::parse(bytes) {
            Some((index, n)) => {
                if index == 0 {
                    match tagged_parse::<(From, Publish)>(bytes) {
                        Some((p, m)) => Some((MessageModel::Forwards(p), m)),
                        None => None,
                    }
                } else if index == 1 {
                    match tagged_parse::<(From, (Publish, Vec<SubRelation>))>(bytes) {
                        Some((p, m)) => Some((MessageModel::ForwardsTo(p), m)),
                        None => None,
                    }
                } else if index == 2 {
                    match tagged_parse::<(Id, (bool, (bool, bool)))>(bytes) {
                        Some((p, m)) => Some((MessageModel::Kick(p), m)),
                        None => None,
                    }
                } else if index == 3 {
                    match tagged_parse::<String>(bytes) {
                        Some((p, m)) => Some((MessageModel::GetRetains(p), m)),
                        None => None,
                    }
                } else if index == 4 {
                    match tagged_parse::<SubsSearchParams>(bytes) {
                        Some((p, m)) => Some((MessageModel::SubscriptionsSearch(p), m)),
                        None => None,
                    }
                } else if index == 5 {
                    match tagged_parse::<String>(bytes) {
                        Some((p, m)) => Some((MessageModel::SubscriptionsGet(p), m)),
                        None => None,
                    }
                } else if index == 6 {
                    match tagged_parse::<usize>(bytes) {
                        Some((p, m)) => Some((MessageModel::RoutesGet(p), m)),
                        None => None,
                    }
                } else if index == 7 {
                    match tagged_parse::<String>(bytes) {
                        Some((p, m)) => Some((MessageModel::RoutesGetBy(p), m)),
                        None => None,
                    }
                } else if index == 8 {
                    Some((MessageModel::NumberOfClients, n))
                } else if index == 9 {
                    Some((MessageModel::NumberOfSessions, n))
                } else if index == 10 {
                    match tagged_parse::<String>(bytes) {
                        Some((p, m)) => Some((MessageModel::Online(p), m)),
                        None => None,
                    }
                } else if index == 11 {
                    match tagged_parse::<String>(bytes) {
                        Some((p, m)) => Some((MessageModel::SessionStatus(p), m)),
                        None => None,
                    }
                } else if index == 12 {
                    match tagged_parse::<(String, (String, Option<String>))>(bytes) {
                        Some((p, m)) => Some((MessageModel::MessageGet(p), m)),
                        None => None,
                    }
                } else if index == 13 {
                    match tagged_parse::<Vec<u8>>(bytes) {
                        Some((p, m)) => Some((MessageModel::Data(p), m)),
                        None => None,
                    }
                } else {
                    None
                }
            },
            None => None,
        }
    }

    proof fn round_trip(v: MessageModel, rest: Seq<u8>) {
        match v {
            MessageModel::Forwards(p) => {
                lemma_tagged_round_trip::<(From, Publish)>(0, p, rest);
            },
            MessageModel::ForwardsTo(p) => {
                lemma_tagged_round_trip::<(From, (Publish, Vec<SubRelation>))>(1, p, rest);
            },
            MessageModel::Kick(p) => {
                lemma_tagged_round_trip::<(Id, (bool, (bool, bool)))>(2, p, rest);
            },
            MessageModel::GetRetains(p) => {
                lemma_tagged_round_trip::<String>(3, p, rest);
            },
            MessageModel::SubscriptionsSearch(p) => {
                lemma_tagged_round_trip::<SubsSearchParams>(4, p, rest);
            },
            MessageModel::SubscriptionsGet(p) => {
                lemma_tagged_round_trip::<String>(5, p, rest);
            },
            MessageModel::RoutesGet(p) => {
                lemma_tagged_round_trip::<usize>(6, p, rest);
            },
            MessageModel::RoutesGetBy(p) => {
                lemma_tagged_round_trip::<String>(7, p, rest);
            },
            MessageModel::NumberOfClients => {
                lemma_tag_round_trip(8, rest);
            },
            MessageModel::NumberOfSessions => {
                lemma_tag_round_trip(9, rest);
            },
            MessageModel::Online(p) => {
                lemma_tagged_round_trip::<String>(10, p, rest);
            },
            MessageModel::SessionStatus(p) => {
                lemma_tagged_round_trip::<String>(11, p, rest);
            },
            MessageModel::MessageGet(p) => {
                lemma_tagged_round_trip::<(String, (String, Option<String>))>(12, p, rest);
            },
            MessageModel::Data(p) => {
                lemma_tagged_round_trip::<Vec<u8>>(13, p, rest);
            },
        }
    }

    proof fn parse_bound(bytes: Seq<u8>) {
        if bytes.len() >= 4 {
            lemma_tagged_bound::<(From, Publish)>(bytes);
            lemma_tagged_bound::<(From, (Publish, Vec<SubRelation>))>(bytes);
            lemma_tagged_bound::<(Id, (bool, (bool, bool)))>(bytes);
            lemma_tagged_bound::<String>(bytes);
            lemma_tagged_bound::<SubsSearchParams>(bytes);
            lemma_tagged_bound::<usize>(bytes);
            lemma_tagged_bound::<(String, (String, Option<String>))>(bytes);
            lemma_tagged_bound::<Vec<u8>>(bytes);
        }
    }

    fn encode(&self, out: &mut Vec<u8>) {
        match self {
            Message::Forwards(f0, f1) => {
                encode_tagged2(0, f0, f1, out);
            },
            Message::ForwardsTo(f0, f1, f2) => {
                encode_tagged3(1, f0, f1, f2, out);
            },
            Message::Kick(f0, f1, f2, f3) => {
                encode_tagged4(2, f0, f1, f2, f3, out);
            },
            Message::GetRetains(f0) => {
                encode_tagged1(3, f0, out);
            },
            Message::SubscriptionsSearch(f0) => {
                encode_tagged1(4, f0, out);
            },
            Message::SubscriptionsGet(f0) => {
                encode_tagged1(5, f0, out);
            },
            Message::RoutesGet(f0) => {
                encode_tagged1(6, f0, out);
            },
            Message::RoutesGetBy(f0) => {
                encode_tagged1(7, f0, out);
            },
            Message::NumberOfClients => {
                encode_tag(8, out);
            },
            Message::NumberOfSessions => {
                encode_tag(9, out);
            },
            Message::Online(f0) => {
                encode_tagged1(10, f0, out);
            },
            Message::SessionStatus(f0) => {
                encode_tagged1(11, f0, out);
            },
            Message::MessageGet(f0, f1, f2) => {
                encode_tagged3(12, f0, f1, f2, out);
            },
            Message::Data(f0) => {
                encode_tagged1(13, f0, out);
            },
        }
    }

    fn decode(data: &[u8], at: usize) -> (r: Option<(Message, usize)>) {
        match <u32 as Wire>::decode(data, at) {
            Some((index, body)) => {
                if index == 0 {
                    match decode_tagged::<(From, Publish)>(data, at, body) {
                        Some(((f0, f1), next)) => Some((Message::Forwards(f0, f1), next)),
                        None => None,
                    }
                } else if index == 1 {
                    match decode_tagged::<(From, (Publish, Vec<SubRelation>))>(data, at, body) {
                        Some(((f0, (f1, f2)), next)) => Some((Message::ForwardsTo(f0, f1, f2), next)),
                        None => None,
                    }
                } else if index == 2 {
                    match decode_tagged::<(Id, (bool, (bool, bool)))>(data, at, body) {
                        Some(((f0, (f1, (f2, f3))), next)) => Some((Message::Kick(f0, f1, f2, f3), next)),
                        None => None,
                    }
                } else if index == 3 {
                    match decode_tagged::<String>(data, at, body) {
                        Some((f0, next)) => Some((Message::GetRetains(f0), next)),
                        None => None,
                    }
                } else if index == 4 {
                    match decode_tagged::<SubsSearchParams>(data, at, body) {
                        Some((f0, next)) => Some((Message::SubscriptionsSearch(f0), next)),
                        None => None,
                    }
                } else if index == 5 {
                    match decode_tagged::<String>(data, at, body) {
                        Some((f0, next)) => Some((Message::SubscriptionsGet(f0), next)),
                        None => None,
                    }
                } else if index == 6 {
                    match decode_tagged::<usize>(data, at, body) {
                        Some((f0, next)) => Some((Message::RoutesGet(f0), next)),
                        None => None,
                    }
                } else if index == 7 {
                    match decode_tagged::<String>(data, at, body) {
                        Some((f0, next)) => Some((Message::RoutesGetBy(f0), next)),
                        None => None,
                    }
                } else if index == 8 {
                    Some((Message::NumberOfClients, body))
                } else if index == 9 {
                    Some((Message::NumberOfSessions, body))
                } else if index == 10 {
                    match decode_tagged::<String>(data, at, body) {
                        Some((f0, next)) => Some((Message::Online(f0), next)),
                        None => None,
                    }
                } else if index == 11 {
                    match decode_tagged::<String>(data, at, body) {
                        Some((f0, next)) => Some((Message::SessionStatus(f0), next)),
                        None => None,
                    }
                } else if index == 12 {
                    match decode_tagged::<(String, (String, Option<String>))>(data, at, body) {
                        Some(((f0, (f1, f2)), next)) => Some((Message::MessageGet(f0, f1, f2), next)),
                        None => None,
                    }
                } else if index == 13 {
                    match decode_tagged::<Vec<u8>>(data, at, body) {
                        Some((f0, next)) => Some((Message::Data(f0), next)),
                        None => None,
                    }
                } else {
                    None
                }
            },
            None => None,
        }
    }
}

/// The value of a [`MessageReply`].
pub enum MessageReplyModel {
    Success,
    Forwards(<(Vec<(u64, Vec<SubRelation>)>, Option<Vec<String>>) as DeepView>::V),
    Error(<String as DeepView>::V),
    Kick(<OfflineSession as DeepView>::V),
    GetRetains(<Vec<(String, Retain)> as DeepView>::V),
    SubscriptionsSearch(<Vec<SubsSearchResult> as DeepView>::V),
    SubscriptionsGet(<Option<Vec<SubsSearchResult>> as DeepView>::V),
    RoutesGet(<Vec<Route> as DeepView>::V),
    RoutesGetBy(<Vec<Route> as DeepView>::V),
    NumberOfClients(<usize as DeepView>::V),
    NumberOfSessions(<usize as DeepView>::V),
    Online(<bool as DeepView>::V),
    SessionStatus(<Option<SessionStatus> as DeepView>::V),
    MessageGet(<Vec<(u64, From, Publish)> as DeepView>::V),
    Data(<Vec<u8> as DeepView>::V),
}

impl DeepView for MessageReply {
    type V = MessageReplyModel;

    open spec fn deep_view(&self) -> MessageReplyModel {
        match *self {
            MessageReply::Success => MessageReplyModel::Success,
            MessageReply::Forwards(f0, f1) => MessageReplyModel::Forwards((f0.deep_view(), f1.deep_view())),
            MessageReply::Error(f0) => MessageReplyModel::Error(f0.deep_view()),
            MessageReply::Kick(f0) => MessageReplyModel::Kick(f0.deep_view()),
            MessageReply::GetRetains(f0) => MessageReplyModel::GetRetains(f0.deep_view()),
            MessageReply::SubscriptionsSearch(f0) => MessageReplyModel::SubscriptionsSearch(f0.deep_view()),
            MessageReply::SubscriptionsGet(f0) => MessageReplyModel::SubscriptionsGet(f0.deep_view()),
            MessageReply::RoutesGet(f0) => MessageReplyModel::RoutesGet(f0.deep_view()),
            MessageReply::RoutesGetBy(f0) => MessageReplyModel::RoutesGetBy(f0.deep_view()),
            MessageReply::NumberOfClients(f0) => MessageReplyModel::NumberOfClients(f0.deep_view()),
            MessageReply::NumberOfSessions(f0) => MessageReplyModel::NumberOfSessions(f0.deep_view()),
            MessageReply::Online(f0) => MessageReplyModel::Online(f0.deep_view()),
            MessageReply::SessionStatus(f0) => MessageReplyModel::SessionStatus(f0.deep_view()),
            MessageReply::MessageGet(f0) => MessageReplyModel::MessageGet(f0.deep_view()),
            MessageReply::Data(f0) => MessageReplyModel::Data(f0.deep_view()),
        }
    }
}

/// An answer: the number of the variant in four bytes, then its fields in order.
impl Wire for MessageReply {
    open spec fn fits(v: MessageReplyModel) -> bool {
        match v {
            MessageReplyModel::Success => true,
            MessageReplyModel::Forwards(p) => <(Vec<(u64, Vec<SubRelation>)>, Option<Vec<String>>) as Wire>::fits(p),
            MessageReplyModel::Error(p) => <String as Wire>::fits(p),
            MessageReplyModel::Kick(p) => <OfflineSession as Wire>::fits(p),
            MessageReplyModel::GetRetains(p) => <Vec<(String, Retain)> as Wire>::fits(p),
            MessageReplyModel::SubscriptionsSearch(p) => <Vec<SubsSearchResult> as Wire>::fits(p),
            MessageReplyModel::SubscriptionsGet(p) => <Option<Vec<SubsSearchResult>> as Wire>::fits(p),
            MessageReplyModel::RoutesGet(p) => <Vec<Route> as Wire>::fits(p),
            MessageReplyModel::RoutesGetBy(p) => <Vec<Route> as Wire>::fits(p),
            MessageReplyModel::NumberOfClients(p) => <usize as Wire>::fits(p),
            MessageReplyModel::NumberOfSessions(p) => <usize as Wire>::fits(p),
            MessageReplyModel::Online(p) => <bool as Wire>::fits(p),
            MessageReplyModel::SessionStatus(p) => <Option<SessionStatus> as Wire>::fits(p),
            MessageReplyModel::MessageGet(p) => <Vec<(u64, From, Publish)> as Wire>::fits(p),
            MessageReplyModel::Data(p) => <Vec<u8> as Wire>::fits(p),
        }
    }

    open spec fn wire(v: MessageReplyModel) -> Seq<u8> {
        match v {
            MessageReplyModel::Success => <u32 as Wire>::wire(0),
            MessageReplyModel::Forwards(p) => tagged_wire::<(Vec<(u64, Vec<SubRelation>)>, Option<Vec<String>>)>(1, p),
            MessageReplyModel::Error(p) => tagged_wire::<String>(2, p),
            MessageReplyModel::Kick(p) => tagged_wire::<OfflineSession>(3, p),
            MessageReplyModel::GetRetains(p) => tagged_wire::<Vec<(String, Retain)>>(4, p),
            MessageReplyModel::SubscriptionsSearch(p) => tagged_wire::<Vec<SubsSearchResult>>(5, p),
            MessageReplyModel::SubscriptionsGet(p) => tagged_wire::<Option<Vec<SubsSearchResult>>>(6, p),
            MessageReplyModel::RoutesGet(p) => tagged_wire::<Vec<Route>>(7, p),
            MessageReplyModel::RoutesGetBy(p) => tagged_wire::<Vec<Route>>(8, p),
            MessageReplyModel::NumberOfClients(p) => tagged_wire::<usize>(9, p),
            MessageReplyModel::NumberOfSessions(p) => tagged_wire::<usize>(10, p),
            MessageReplyModel::Online(p) => tagged_wire::<bool>(11, p),
            MessageReplyModel::SessionStatus(p) => tagged_wire::<Option<SessionStatus>>(12, p),
            MessageReplyModel::MessageGet(p) => tagged_wire::<Vec<(u64, From, Publish)>>(13, p),
            MessageReplyModel::Data(p) => tagged_wire::<Vec<u8>>(14, p),
        }
    }

    open spec fn parse(bytes: Seq<u8>) -> Option<(MessageReplyModel, nat)> {
        match <u32 as Wire>::parse(bytes) {
            Some((index, n)) => {
                if index == 0 {
                    Some((MessageReplyModel::Success, n))
                } else if index == 1 {
                    match tagged_parse::<(Vec<(u64, Vec<SubRelation>)>, Option<Vec<String>>)>(bytes) {
                        Some((p, m)) => Some((MessageReplyModel::Forwards(p), m)),
                        None => None,
                    }
                } else if index == 2 {
                    match tagged_parse::<String>(bytes) {
                        Some((p, m)) => Some((MessageReplyModel::Error(p), m)),
                        None => None,
                    }
                } else if index == 3 {
                    match tagged_parse::<OfflineSession>(bytes) {
                        Some((p, m)) => Some((MessageReplyModel::Kick(p), m)),
                        None => None,
                    }
                } else if index == 4 {
                    match tagged_parse::<Vec<(String, Retain)>>(bytes) {
                        Some((p, m)) => Some((MessageReplyModel::GetRetains(p), m)),
                        None => None,
                    }
                } else if index == 5 {
                    match tagged_parse::<Vec<SubsSearchResult>>(bytes) {
                        Some((p, m)) => Some((MessageReplyModel::SubscriptionsSearch(p), m)),
                        None => None,
                    }
                } else if index == 6 {
                    match tagged_parse::<Option<Vec<SubsSearchResult>>>(bytes) {
                        Some((p, m)) => Some((MessageReplyModel::SubscriptionsGet(p), m)),
                        None => None,
                    }
                } else if index == 7 {
                    match tagged_parse::<Vec<Route>>(bytes) {
                        Some((p, m)) => Some((MessageReplyModel::RoutesGet(p), m)),
                        None => None,
                    }
                } else if index == 8 {
                    match tagged_parse::<Vec<Route>>(bytes) {
                        Some((p, m)) => Some((MessageReplyModel::RoutesGetBy(p), m)),
                        None => None,
                    }
                } else if index == 9 {
                    match tagged_parse::<usize>(bytes) {
                        Some((p, m)) => Some((MessageReplyModel::NumberOfClients(p), m)),
                        None => None,
                    }
                } else if index == 10 {
                    match tagged_parse::<usize>(bytes) {
                        Some((p, m)) => Some((MessageReplyModel::NumberOfSessions(p), m)),
                        None => None,
                    }
                } else if index == 11 {
                    match tagged_parse::<bool>(bytes) {
                        Some((p, m)) => Some((MessageReplyModel::Online(p), m)),
                        None => None,
                    }
                } else if index == 12 {
                    match tagged_parse::<Option<SessionStatus>>(bytes) {
                        Some((p, m)) => Some((MessageReplyModel::SessionStatus(p), m)),
                        None => None,
                    }
                } else if index == 13 {
                    match tagged_parse::<Vec<(u64, From, Publish)>>(bytes) {
                        Some((p, m)) => Some((MessageReplyModel::MessageGet(p), m)),
                        None => None,
                    }
                } else if index == 14 {
                    match tagged_parse::<Vec<u8>>(bytes) {
                        Some((p, m)) => Some((MessageReplyModel::Data(p), m)),
                        None => None,
                    }
                } else {
                    None
                }
            },
            None => None,
        }
    }

    proof fn round_trip(v: MessageReplyModel, rest: Seq<u8>) {
        match v {
            MessageReplyModel::Success => {
                lemma_tag_round_trip(0, rest);
            },
            MessageReplyModel::Forwards(p) => {
                lemma_tagged_round_trip::<(Vec<(u64, Vec<SubRelation>)>, Option<Vec<String>>)>(1, p, rest);
            },
            MessageReplyModel::Error(p) => {
                lemma_tagged_round_trip::<String>(2, p, rest);
            },
            MessageReplyModel::Kick(p) => {
                lemma_tagged_round_trip::<OfflineSession>(3, p, rest);
            },
            MessageReplyModel::GetRetains(p) => {
                lemma_tagged_round_trip::<Vec<(String, Retain)>>(4, p, rest);
            },
            MessageReplyModel::SubscriptionsSearch(p) => {
                lemma_tagged_round_trip::<Vec<SubsSearchResult>>(5, p, rest);
            },
            MessageReplyModel::SubscriptionsGet(p) => {
                lemma_tagged_round_trip::<Option<Vec<SubsSearchResult>>>(6, p, rest);
            },
            MessageReplyModel::RoutesGet(p) => {
                lemma_tagged_round_trip::<Vec<Route>>(7, p, rest);
            },
            MessageReplyModel::RoutesGetBy(p) => {
                lemma_tagged_round_trip::<Vec<Route>>(8, p, rest);
            },
            MessageReplyModel::NumberOfClients(p) => {
                lemma_tagged_round_trip::<usize>(9, p, rest);
            },
            MessageReplyModel::NumberOfSessions(p) => {
                lemma_tagged_round_trip::<usize>(10, p, rest);
            },
            MessageReplyModel::Online(p) => {
                lemma_tagged_round_trip::<bool>(11, p, rest);
            },
            MessageReplyModel::SessionStatus(p) => {
                lemma_tagged_round_trip::<Option<SessionStatus>>(12, p, rest);
            },
            MessageReplyModel::MessageGet(p) => {
                lemma_tagged_round_trip::<Vec<(u64, From, Publish)>>(13, p, rest);
            },
            MessageReplyModel::Data(p) => {
                lemma_tagged_round_trip::<Vec<u8>>(14, p, rest);
            },
        }
    }

    proof fn parse_bound(bytes: Seq<u8>) {
        if bytes.len() >= 4 {
            lemma_tagged_bound::<(Vec<(u64, Vec<SubRelation>)>, Option<Vec<String>>)>(bytes);
            lemma_tagged_bound::<String>(bytes);
            lemma_tagged_bound::<OfflineSession>(bytes);
            lemma_tagged_bound::<Vec<(String, Retain)>>(bytes);
            lemma_tagged_bound::<Vec<SubsSearchResult>>(bytes);
            lemma_tagged_bound::<Option<Vec<SubsSearchResult>>>(bytes);
            lemma_tagged_bound::<Vec<Route>>(bytes);
            lemma_tagged_bound::<usize>(bytes);
            lemma_tagged_bound::<bool>(bytes);
            lemma_tagged_bound::<Option<SessionStatus>>(bytes);
            lemma_tagged_bound::<Vec<(u64, From, Publish)>>(bytes);
            lemma_tagged_bound::<Vec<u8>>(bytes);
        }
    }

    fn encode(&self, out: &mut Vec<u8>) {
        match self {
            MessageReply::Success => {
                encode_tag(0, out);
            },
            MessageReply::Forwards(f0, f1) => {
                encode_tagged2(1, f0, f1, out);
            },
            MessageReply::Error(f0) => {
                encode_tagged1(2, f0, out);
            },
            MessageReply::Kick(f0) => {
                encode_tagged1(3, f0, out);
            },
            MessageReply::GetRetains(f0) => {
                encode_tagged1(4, f0, out);
            },
            MessageReply::SubscriptionsSearch(f0) => {
                encode_tagged1(5, f0, out);
            },
            MessageReply::SubscriptionsGet(f0) => {
                encode_tagged1(6, f0, out);
            },
            MessageReply::RoutesGet(f0) => {
                encode_tagged1(7, f0, out);
            },
            MessageReply::RoutesGetBy(f0) => {
                encode_tagged1(8, f0, out);
            },
            MessageReply::NumberOfClients(f0) => {
                encode_tagged1(9, f0, out);
            },
            MessageReply::NumberOfSessions(f0) => {
                encode_tagged1(10, f0, out);
            },
            MessageReply::Online(f0) => {
                encode_tagged1(11, f0, out);
            },
            MessageReply::SessionStatus(f0) => {
                encode_tagged1(12, f0, out);
            },
            MessageReply::MessageGet(f0) => {
                encode_tagged1(13, f0, out);
            },
            MessageReply::Data(f0) => {
                encode_tagged1(14, f0, out);
            },
        }
    }

    fn decode(data: &[u8], at: usize) -> (r: Option<(MessageReply, usize)>) {
        match <u32 as Wire>::decode(data, at) {
            Some((index, body)) => {
                if index == 0 {
                    Some((MessageReply::Success, body))
                } else if index == 1 {
                    match decode_tagged::<(Vec<(u64, Vec<SubRelation>)>, Option<Vec<String>>)>(data, at, body) {
                        Some(((f0, f1), next)) => Some((MessageReply::Forwards(f0, f1), next)),
                        None => None,
                    }
                } else if index == 2 {
                    match decode_tagged::<String>(data, at, body) {
                        Some((f0, next)) => Some((MessageReply::Error(f0), next)),
                        None => None,
                    }
                } else if index == 3 {
                    match decode_tagged::<OfflineSession>(data, at, body) {
                        Some((f0, next)) => Some((MessageReply::Kick(f0), next)),
                        None => None,
                    }
                } else if index == 4 {
                    match decode_tagged::<Vec<(String, Retain)>>(data, at, body) {
                        Some((f0, next)) => Some((MessageReply::GetRetains(f0), next)),
                        None => None,
                    }
                } else if index == 5 {
                    match decode_tagged::<Vec<SubsSearchResult>>(data, at, body) {
                        Some((f0, next)) => Some((MessageReply::SubscriptionsSearch(f0), next)),
                        None => None,
                    }
                } else if index == 6 {
                    match decode_tagged::<Option<Vec<SubsSearchResult>>>(data, at, body) {
                        Some((f0, next)) => Some((MessageReply::SubscriptionsGet(f0), next)),
                        None => None,
                    }
                } else if index == 7 {
                    match decode_tagged::<Vec<Route>>(data, at, body) {
                        Some((f0, next)) => Some((MessageReply::RoutesGet(f0), next)),
                        None => None,
                    }
                } else if index == 8 {
                    match decode_tagged::<Vec<Route>>(data, at, body) {
                        Some((f0, next)) => Some((MessageReply::RoutesGetBy(f0), next)),
                        None => None,
                    }
                } else if index == 9 {
                    match decode_tagged::<usize>(data, at, body) {
                        Some((f0, next)) => Some((MessageReply::NumberOfClients(f0), next)),
                        None => None,
                    }
                } else if index == 10 {
                    match decode_tagged::<usize>(data, at, body) {
                        Some((f0, next)) => Some((MessageReply::NumberOfSessions(f0), next)),
                        None => None,
                    }
                } else if index == 11 {
                    match decode_tagged::<bool>(data, at, body) {
                        Some((f0, next)) => Some((MessageReply::Online(f0), next)),
                        None => None,
                    }
                } else if index == 12 {
                    match decode_tagged::<Option<SessionStatus>>(data, at, body) {
                        Some((f0, next)) => Some((MessageReply::SessionStatus(f0), next)),
                        None => None,
                    }
                } else if index == 13 {
                    match decode_tagged::<Vec<(u64, From, Publish)>>(data, at, body) {
                        Some((f0, next)) => Some((MessageReply::MessageGet(f0), next)),
                        None => None,
                    }
                } else if index == 14 {
                    match decode_tagged::<Vec<u8>>(data, at, body) {
                        Some((f0, next)) => Some((MessageReply::Data(f0), next)),
                        None => None,
                    }
                } else {
                    None
                }
            },
            None => None,
        }
    }
}

impl DeepView for RaftGrpcMessage {
    type V = RaftGrpcMessage;

    open spec fn deep_view(&self) -> RaftGrpcMessage {
        *self
    }
}

/// The number of a variant of [`RaftGrpcMessage`] on the wire.
pub open spec fn raftgrpcmessage_index(v: RaftGrpcMessage) -> u32 {
    match v {
        RaftGrpcMessage::GetRaftStatus => 0,
    }
}

/// A request to the consensus group: the number of its variant.
impl Wire for RaftGrpcMessage {
    open spec fn fits(v: RaftGrpcMessage) -> bool {
        true
    }

    open spec fn wire(v: RaftGrpcMessage) -> Seq<u8> {
        <u32 as Wire>::wire(raftgrpcmessage_index(v))
    }

    open spec fn parse(bytes: Seq<u8>) -> Option<(RaftGrpcMessage, nat)> {
        match <u32 as Wire>::parse(bytes) {
            Some((index, n)) => if index == 0 {
                Some((RaftGrpcMessage::GetRaftStatus, n))
            } else {
                None
            },
            None => None,
        }
    }

    proof fn round_trip(v: RaftGrpcMessage, rest: Seq<u8>) {
        <u32 as Wire>::round_trip(raftgrpcmessage_index(v), rest);
    }

    proof fn parse_bound(bytes: Seq<u8>) {
    }

    fn encode(&self, out: &mut Vec<u8>) {
        let index: u32 = match self {
            RaftGrpcMessage::GetRaftStatus => 0,
        };
        index.encode(out);
    }

    fn decode(data: &[u8], at: usize) -> (r: Option<(RaftGrpcMessage, usize)>) {
        match <u32 as Wire>::decode(data, at) {
            Some((index, next)) => {
                if index == 0 {
                    Some((RaftGrpcMessage::GetRaftStatus, next))
                } else {
                    None
                }
            },
            None => None,
        }
    }
}

/// The value of a [`RaftGrpcMessageReply`].
pub enum RaftGrpcMessageReplyModel {
    GetRaftStatus(<Vec<u8> as DeepView>::V),
}

impl DeepView for RaftGrpcMessageReply {
    type V = RaftGrpcMessageReplyModel;

    open spec fn deep_view(&self) -> RaftGrpcMessageReplyModel {
        match *self {
            RaftGrpcMessageReply::GetRaftStatus(f0) => RaftGrpcMessageReplyModel::GetRaftStatus(f0.deep_view()),
        }
    }
}

/// An answer of the consensus group: the number of the variant, then its content.
impl Wire for RaftGrpcMessageReply {
    open spec fn fits(v: RaftGrpcMessageReplyModel) -> bool {
        match v {
            RaftGrpcMessageReplyModel::GetRaftStatus(p) => <Vec<u8> as Wire>::fits(p),
        }
    }

    open spec fn wire(v: RaftGrpcMessageReplyModel) -> Seq<u8> {
        match v {
            RaftGrpcMessageReplyModel::GetRaftStatus(p) => tagged_wire::<Vec<u8>>(0, p),
        }
    }

    open spec fn parse(bytes: Seq<u8>) -> Option<(RaftGrpcMessageReplyModel, nat)> {
        match <u32 as Wire>::parse(bytes) {
            Some((index, n)) => {
                if index == 0 {
                    match tagged_parse::<Vec<u8>>(bytes) {
                        Some((p, m)) => Some((RaftGrpcMessageReplyModel::GetRaftStatus(p), m)),
                        None => None,
                    }
                } else {
                    None
                }
            },
            None => None,
        }
    }

    proof fn round_trip(v: RaftGrpcMessageReplyModel, rest: Seq<u8>) {
        match v {
            RaftGrpcMessageReplyModel::GetRaftStatus(p) => {
                lemma_tagged_round_trip::<Vec<u8>>(0, p, rest);
            },
        }
    }

    proof fn parse_bound(bytes: Seq<u8>) {
        if bytes.len() >= 4 {
            lemma_tagged_bound::<Vec<u8>>(bytes);
        }
    }

    fn encode(&self, out: &mut Vec<u8>) {
        match self {
            RaftGrpcMessageReply::GetRaftStatus(f0) => {
                encode_tagged1(0, f0, out);
            },
        }
    }

    fn decode(data: &[u8], at: usize) -> (r: Option<(RaftGrpcMessageReply, usize)>) {
        match <u32 as Wire>::decode(data, at) {
            Some((index, body)) => {
                if index == 0 {
                    match decode_tagged::<Vec<u8>>(data, at, body) {
                        Some((f0, next)) => Some((RaftGrpcMessageReply::GetRaftStatus(f0), next)),
                        None => None,
                    }
                } else {
                    None
                }
            },
            None => None,
        }
    }
}

} // verus!
