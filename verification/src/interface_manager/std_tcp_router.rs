//! A TCP interface manager that routes whole headers: the same table of
//! connections as [`std_tcp`](crate::interface_manager::std_tcp), for a net stack
//! that hands it headers rather than addresses.
use vstd::prelude::*;

use crate::interface_manager::std_tcp::{route_spec, StdTcpImInner, LOCAL_NODE_ID};
use crate::interface_manager::InterfaceSendError;
use crate::{Address, Header, HeaderSeq};

verus! {

/// Why a connection could not be registered.
#[derive(Debug, Clone, Copy, PartialEq, Eq, Structural)]
pub enum Error {
    OutOfNetIds,
}

/// Route a header, as [`route_spec`] says for its source and destination: the
/// network of the connection to send it on, and the header to send, with the
/// source it gets and the next sequence number.
pub fn route_header(inner: &mut StdTcpImInner, hdr: &Header) -> (r: Result<(u16, HeaderSeq), InterfaceSendError>)
    requires
        old(inner).wf(),
        !(hdr.dst.port_id == 0 && hdr.any_all is None),
    ensures
        final(inner).wf(),
        final(inner).interfaces() == old(inner).interfaces(),
        final(inner).any_closed() == old(inner).any_closed(),
        match route_spec(old(inner).interfaces(), old(inner).seq_no(), hdr.src, hdr.dst) {
            Ok((net, src, seq_no)) => r == Ok::<(u16, HeaderSeq), InterfaceSendError>(
                (
                    net,
                    HeaderSeq {
                        src,
                        dst: hdr.dst,
                        any_all: hdr.any_all,
                        seq_no,
                        kind: hdr.kind,
                        ttl: hdr.ttl,
                    },
                ),
            ) && final(inner).seq_no() == old(inner).seq_no().wrapping_add(1),
            Err(e) => r == Err::<(u16, HeaderSeq), InterfaceSendError>(e) && final(inner).seq_no()
                == old(inner).seq_no(),
        },
{
    let key = match hdr.any_all {
        Some(a) => Some(a.key),
        None => None,
    };
    let (net, src, seq_no) = inner.route(hdr.src, hdr.dst, key)?;
    Ok((net, HeaderSeq { src, dst: hdr.dst, any_all: hdr.any_all, seq_no, kind: hdr.kind, ttl: hdr.ttl }))
}

/// A frame received on a connection may not claim to be a local packet (node 0
/// without a network) or to come from the manager itself.
pub open spec fn source_acceptable(hdr: HeaderSeq) -> bool {
    !(hdr.src.network_id == 0 && (hdr.src.node_id == 0 || hdr.src.node_id == LOCAL_NODE_ID))
}

/// The header of a frame received on the connection with network `net_id`: a
/// source that names no network is on this connection's network.
pub fn rewrite_source(net_id: u16, hdr: &HeaderSeq) -> (r: HeaderSeq)
    requires
        source_acceptable(*hdr),
    ensures
        hdr.src.network_id == 0 ==> r == (HeaderSeq {
            src: Address { network_id: net_id, ..hdr.src },
            ..*hdr
        }),
        hdr.src.network_id != 0 ==> r == *hdr,
{
    let mut hdr = *hdr;
    if hdr.src.network_id == 0 {
        hdr.src.network_id = net_id;
    }
    hdr
}

} // verus!
