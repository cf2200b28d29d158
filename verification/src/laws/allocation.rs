//! Endpoints and endpoint memory are never handed out twice.
use crate::buffer::{BufIdx, EP_MEMORY_SIZE};
use crate::driver::{
    after_alloc, alloc_granted, alloc_outcome, allocated, buffer_len, endpoints_wf, first_unused,
    footprint, granted_index, initial_state, DriverState, EndpointData, BUFFER_ALIGN, DATA_BUFFERS,
    EP_COUNT,
};
use crate::endpoint::{Endpoint, EndpointState};
use crate::instance::Instance;
use crate::laws::words::{if_on, law_address_byte, law_ep_control_value};
use crate::ops::Op;
use crate::regs::Reg;
use crate::types::{
    lemma_address_parts, Direction, EndpointAddress, EndpointAllocError, EndpointType,
};
use vstd::prelude::*;

verus! {

/// A request for an endpoint.
pub struct AllocRequest {
    pub dir: Direction,
    pub ep_type: EndpointType,
    pub ep_addr: Option<EndpointAddress>,
    pub max_packet_size: u16,
    pub interval_ms: u8,
}

/// What becomes of the driver and of the request.
pub open spec fn serve(d: DriverState, q: AllocRequest) -> (DriverState, Option<EndpointState>) {
    if alloc_granted(d, q.dir, q.ep_type, q.ep_addr, q.max_packet_size) {
        (
            after_alloc(d, q.dir, q.ep_type, q.ep_addr, q.max_packet_size),
            Some(
                allocated(d, q.dir, q.ep_type, q.ep_addr, q.max_packet_size, q.interval_ms),
            ),
        )
    } else {
        (d, None)
    }
}

/// The driver after it has served all requests, one after the other.
pub open spec fn serve_all(d: DriverState, qs: Seq<AllocRequest>) -> DriverState
    decreases qs.len(),
{
    if qs.len() == 0 {
        d
    } else {
        serve(serve_all(d, qs.drop_last()), qs.last()).0
    }
}

/// The endpoint that request `i` of the sequence gets, if it is granted.
pub open spec fn served(d: DriverState, qs: Seq<AllocRequest>, i: int) -> Option<EndpointState> {
    serve(serve_all(d, qs.take(i)), qs[i]).1
}

/// What the driver has to know of an endpoint that was given out.
pub open spec fn remembered(ep: EndpointState) -> EndpointData {
    EndpointData {
        ep_type: ep.info.ep_type,
        max_packet_size: ep.info.max_packet_size,
        used: true,
        double_buffered: ep.buf.double_buffered,
    }
}

/// The lowest unused endpoint is unused, and all below it are in use; without one, all are in use.
pub proof fn law_first_unused(eps: Seq<EndpointData>, from: int)
    requires
        0 <= from <= EP_COUNT,
    ensures
        match first_unused(eps, from) {
            Some(n) => from <= n < EP_COUNT && !eps[n as int].used && forall|i: int|
                from <= i < n ==> (#[trigger] eps[i]).used,
            None => forall|i: int| from <= i < EP_COUNT ==> (#[trigger] eps[i]).used,
        },
    decreases EP_COUNT - from,
{
    if from < EP_COUNT && eps[from].used {
        law_first_unused(eps, from + 1);
    }
}

/// A request never gets endpoint 0, nor one that does not exist or is in use.
pub proof fn law_granted_is_unused(
    eps: Seq<EndpointData>,
    ep_addr: Option<EndpointAddress>,
)
    ensures
        granted_index(eps, ep_addr) matches Some(n) ==> 0 < n < EP_COUNT && !eps[n as int].used,
{
    law_first_unused(eps, 1);
}

/// Serving a request keeps the driver well-formed, gives out a well-formed endpoint, takes memory
/// only from the free end, and touches no endpoint but the one that it gives out.
pub proof fn law_serve(d: DriverState, q: AllocRequest)
    requires
        d.wf(),
    ensures
        serve(d, q).0.wf(),
        serve(d, q).0.ep_mem_free >= d.ep_mem_free,
        forall|dir: Direction, i: int|
            0 <= i < EP_COUNT && (#[trigger] d.side(dir)[i]).used ==> serve(d, q).0.side(dir)[i]
                == d.side(dir)[i],
        serve(d, q).1 is None ==> serve(d, q).0 == d,
        serve(d, q).1 matches Some(ep) ==> {
            &&& ep.wf(q.dir)
            &&& ep.buf.addr == d.ep_mem_free
            &&& ep.buf.limit() == serve(d, q).0.ep_mem_free
            &&& !d.side(q.dir)[ep.index() as int].used
            &&& serve(d, q).0.side(q.dir)[ep.index() as int] == remembered(ep)
        },
{
    law_granted_is_unused(d.side(q.dir), q.ep_addr);
    if alloc_granted(d, q.dir, q.ep_type, q.ep_addr, q.max_packet_size) {
        let index = granted_index(d.side(q.dir), q.ep_addr)->0;
        lemma_address_parts(index, q.dir);
        let d1 = serve(d, q).0;
        assert(endpoints_wf(d1.side(q.dir)));
    }
}

proof fn lemma_serve_all_wf(d: DriverState, qs: Seq<AllocRequest>)
    requires
        d.wf(),
    ensures
        serve_all(d, qs).wf(),
        serve_all(d, qs).ep_mem_free >= d.ep_mem_free,
    decreases qs.len(),
{
    if qs.len() > 0 {
        lemma_serve_all_wf(d, qs.drop_last());
        law_serve(serve_all(d, qs.drop_last()), qs.last());
    }
}

proof fn lemma_served_stays(d: DriverState, qs: Seq<AllocRequest>, i: int)
    requires
        d.wf(),
        0 <= i < qs.len(),
        served(d, qs, i) is Some,
    ensures
        ({
            let ep = served(d, qs, i)->0;
            &&& ep.wf(qs[i].dir)
            &&& ep.buf.addr >= d.ep_mem_free
            &&& ep.buf.limit() <= serve_all(d, qs).ep_mem_free
            &&& serve_all(d, qs).side(qs[i].dir)[ep.index() as int] == remembered(ep)
        }),
    decreases qs.len(),
{
    let prev = qs.drop_last();
    lemma_serve_all_wf(d, prev);
    law_serve(serve_all(d, prev), qs.last());
    if i == qs.len() - 1 {
        assert(qs.take(i) =~= prev);
    } else {
        assert(prev.take(i) =~= qs.take(i));
        assert(served(d, prev, i) == served(d, qs, i));
        lemma_served_stays(d, prev, i);
    }
}

/// Whatever requests are made, in whatever order: two endpoints that were given out do not share a
/// byte of memory, and are not the same endpoint.
pub proof fn law_endpoints_apart(d: DriverState, qs: Seq<AllocRequest>, i: int, j: int)
    requires
        d.wf(),
        0 <= i < j < qs.len(),
        served(d, qs, i) is Some,
        served(d, qs, j) is Some,
    ensures
        ({
            let a = served(d, qs, i)->0;
            let b = served(d, qs, j)->0;
            &&& a.buf.limit() <= b.buf.addr
            &&& a.info.addr != b.info.addr
        }),
{
    let front = qs.take(j);
    assert(front.take(i) =~= qs.take(i));
    assert(served(d, front, i) == served(d, qs, i));
    lemma_served_stays(d, front, i);
    lemma_serve_all_wf(d, front);
    law_serve(serve_all(d, front), qs[j]);
}

/// Whatever requests are made of a new driver: an endpoint that is given out lies behind the area
/// of the control pipe and inside of the memory, its buffers are aligned and hold its longest
/// packet, and no two of them share a byte.
pub proof fn law_endpoint_in_memory(qs: Seq<AllocRequest>, i: int)
    requires
        0 <= i < qs.len(),
        served(initial_state(), qs, i) is Some,
    ensures
        ({
            let ep = served(initial_state(), qs, i)->0;
            &&& DATA_BUFFERS <= ep.buf.addr
            &&& ep.buf.limit() <= EP_MEMORY_SIZE
            &&& ep.buf.start(BufIdx::Buf0) % (BUFFER_ALIGN as int) == 0
            &&& ep.buf.start(BufIdx::Buf1) % (BUFFER_ALIGN as int) == 0
            &&& ep.info.max_packet_size <= ep.buf.len < ep.info.max_packet_size + BUFFER_ALIGN
            &&& ep.buf.end(BufIdx::Buf0) <= ep.buf.start(BufIdx::Buf1)
            &&& ep.buf.double_buffered <==> ep.info.ep_type is Bulk
        }),
{
    let d = initial_state();
    lemma_served_stays(d, qs, i);
    lemma_serve_all_wf(d, qs);
}

/// Whatever requests are made, the driver remembers of every endpoint that it has given out what
/// the endpoint itself has: its type, its longest packet and whether it has two buffers.
pub proof fn law_driver_remembers(d: DriverState, qs: Seq<AllocRequest>, i: int)
    requires
        d.wf(),
        0 <= i < qs.len(),
        served(d, qs, i) is Some,
    ensures
        ({
            let ep = served(d, qs, i)->0;
            serve_all(d, qs).side(qs[i].dir)[ep.index() as int] == remembered(ep)
        }),
{
    lemma_served_stays(d, qs, i);
}

/// A request for an endpoint that was given out before is refused, whatever came in between.
pub proof fn law_no_endpoint_twice(
    d: DriverState,
    qs: Seq<AllocRequest>,
    i: int,
    q: AllocRequest,
)
    requires
        d.wf(),
        0 <= i < qs.len(),
        served(d, qs, i) is Some,
        q.dir == qs[i].dir,
        q.ep_addr matches Some(addr) && addr.index_part() == (served(d, qs, i)->0).index(),
    ensures
        serve(serve_all(d, qs), q) == (serve_all(d, qs), None::<EndpointState>),
{
    lemma_served_stays(d, qs, i);
}

/// A request that names no endpoint is refused only where there is no endpoint left in its
/// direction, or its packets are too long, or the memory is used up.
pub proof fn law_refusal_without_address(d: DriverState, q: AllocRequest)
    requires
        d.wf(),
        q.ep_addr is None,
        serve(d, q).1 is None,
    ensures
        ({
            ||| forall|i: int| 1 <= i < EP_COUNT ==> (#[trigger] d.side(q.dir)[i]).used
            ||| q.max_packet_size > 1023
            ||| q.max_packet_size > 64 && !(q.ep_type is Isochronous)
            ||| d.ep_mem_free + footprint(q.ep_type, q.max_packet_size) > EP_MEMORY_SIZE
        }),
{
    law_first_unused(d.side(q.dir), 1);
}

/// What a request for an endpoint comes to, whatever the driver has given out before; `eps` are the
/// endpoints of its direction.
///
/// It is granted exactly where there is an endpoint for it, its packets have up to 64 bytes, or up
/// to 1023 for an isochronous endpoint, and the memory is there: one buffer, or two for a bulk
/// endpoint, of the packet size rounded up to `len`, a multiple of 64. There is an endpoint for a
/// request that names one exactly where that is one of 1 to 15 and unused, and for one that names
/// none exactly where one of 1 to 15 is unused. A granted request gets the endpoint that it names,
/// or the lowest unused one; the endpoint has what was asked for and the memory from the first free
/// byte on, the driver notes just that, and one control word is stored. A refused one changes
/// nothing.
pub proof fn law_request<'d, T: Instance, D>(
    before: DriverState,
    q: AllocRequest,
    r: Result<Endpoint<'d, T, D>, EndpointAllocError>,
    after: DriverState,
    ops_before: Seq<Op>,
    ops_after: Seq<Op>,
    eps: Seq<EndpointData>,
    len: int,
)
    requires
        before.wf(),
        alloc_outcome(
            before,
            q.dir,
            q.ep_type,
            q.ep_addr,
            q.max_packet_size,
            q.interval_ms,
            r,
            after,
            ops_before,
            ops_after,
        ),
        eps == (if q.dir is In {
            before.ep_in
        } else {
            before.ep_out
        }),
        len % 64 == 0,
        q.max_packet_size <= len < q.max_packet_size + 64,
    ensures
        ({
            let bulk = q.ep_type is Bulk;
            let need = len + if_on(bulk, len);
            let there = match q.ep_addr {
                Some(addr) => 1 <= addr.raw % 128 <= 15 && !eps[(addr.raw % 128) as int].used,
                None => exists|i: int| 1 <= i < 16 && !(#[trigger] eps[i]).used,
            };
            let fits = q.max_packet_size <= 64 || q.ep_type is Isochronous && q.max_packet_size
                <= 1023;
            &&& r is Ok <==> there && fits && before.ep_mem_free + need <= 4096
            &&& r is Err ==> after == before && ops_after == ops_before
            &&& r matches Ok(ep) ==> {
                let n = ep@.info.addr.raw % 128;
                let data = EndpointData {
                    ep_type: q.ep_type,
                    max_packet_size: q.max_packet_size,
                    used: true,
                    double_buffered: bulk,
                };
                &&& q.ep_addr matches Some(addr) ==> n == addr.raw % 128
                &&& q.ep_addr is None ==> 1 <= n < 16 && !eps[n as int].used && forall|i: int|
                    1 <= i < n ==> (#[trigger] eps[i]).used
                &&& ep@.info.addr.raw >= 128 <==> q.dir is In
                &&& ep@.info.ep_type == q.ep_type
                &&& ep@.info.max_packet_size == q.max_packet_size
                &&& ep@.info.interval_ms == q.interval_ms
                &&& ep@.buf.addr == before.ep_mem_free
                &&& ep@.buf.len == len
                &&& ep@.buf.double_buffered == bulk
                &&& after.ep_mem_free == before.ep_mem_free + need
                &&& after.ep_in == (if q.dir is In {
                    before.ep_in.update(n as int, data)
                } else {
                    before.ep_in
                })
                &&& after.ep_out == (if q.dir is Out {
                    before.ep_out.update(n as int, data)
                } else {
                    before.ep_out
                })
                &&& ops_after.len() == ops_before.len() + 1
                &&& ops_after.take(ops_before.len() as int) == ops_before
                &&& ops_after.last() matches Op::Write { reg, value } && reg == (if q.dir is In {
                    Reg::EpInControl((n - 1) as usize)
                } else {
                    Reg::EpOutControl((n - 1) as usize)
                }) && value == before.ep_mem_free + 0x2000_0000 + 0x0400_0000 * (match q.ep_type {
                    EndpointType::Control => 0int,
                    EndpointType::Isochronous => 1,
                    EndpointType::Bulk => 2,
                    EndpointType::Interrupt => 3,
                }) + if_on(bulk, 0x4000_0000)
            }
        }),
{
    assert(eps == before.side(q.dir));
    law_first_unused(eps, 1);
    law_granted_is_unused(eps, q.ep_addr);
    if let Some(addr) = q.ep_addr {
        law_address_byte(0, q.dir, addr.raw);
    }
    if q.max_packet_size <= 1023 {
        assert(len == buffer_len(q.max_packet_size));
    }
    if let Ok(ep) = r {
        let index = granted_index(eps, q.ep_addr)->0;
        law_address_byte(index, q.dir, ep@.info.addr.raw);
        law_ep_control_value(ep@.buf.addr, q.ep_type, q.ep_type is Bulk);
        assert(ops_after.take(ops_before.len() as int) =~= ops_before);
    }
}

} // verus!
