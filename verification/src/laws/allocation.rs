//! Handing out endpoints.

use crate::driver::{
    alloc_after, alloc_info, alloc_target, alloc_wf, available, first_available, fresh,
    EndpointData,
};
use crate::endpoints::{
    has_buffer, mode_slot, spec_ep_buf, spec_ep_ctrl, spec_ep_dma, spec_ep_t_len,
};
use crate::regs::MAX_PACKET_SIZE;
use crate::usb::{
    law_address_bits, law_address_parts, Direction, EndpointAddress, EndpointType,
};
use vstd::prelude::*;

verus! {

/// The number of available endpoints below `n`.
pub open spec fn count_available(alloc: Seq<EndpointData>, n: int) -> nat
    decreases n,
{
    if n <= 0 {
        0
    } else {
        count_available(alloc, n - 1) + if available(alloc, n - 1) {
            1nat
        } else {
            0nat
        }
    }
}

/// The search for an available endpoint finds the lowest one, and fails only if
/// there is none.
pub proof fn law_first_available(alloc: Seq<EndpointData>, from: int)
    requires
        from >= 1,
    ensures
        match first_available(alloc, from) {
            Some(i) => from <= i && available(alloc, i) && forall|j: int|
                from <= j < i ==> !available(alloc, j),
            None => forall|j: int| from <= j ==> !available(alloc, j),
        },
    decreases alloc.len() - from,
{
    if from < alloc.len() && !available(alloc, from) {
        law_first_available(alloc, from + 1);
    }
}

/// Only endpoints that are available are handed out: never endpoint 0, never
/// endpoint 4, never one that is in use.
pub proof fn law_target_available(alloc: Seq<EndpointData>, ep_addr: Option<EndpointAddress>)
    ensures
        alloc_target(alloc, ep_addr) matches Some(i) ==> {
            &&& available(alloc, i)
            &&& i != 0
            &&& i != 4
            &&& alloc[i].is_free()
        },
{
    law_first_available(alloc, 1);
}

/// An allocated endpoint is not available in either direction any more, and the
/// others are as available as before.
pub proof fn law_allocation_is_exclusive(
    alloc: Seq<EndpointData>,
    ep_addr: Option<EndpointAddress>,
    ep_type: EndpointType,
    dir: Direction,
)
    requires
        alloc_target(alloc, ep_addr) is Some,
    ensures
        ({
            let i = alloc_target(alloc, ep_addr)->0;
            let next = alloc.update(i, EndpointData::allocated(ep_type, dir));
            &&& !available(next, i)
            &&& forall|j: int| j != i ==> available(next, j) == available(alloc, j)
        }),
{
    law_target_available(alloc, ep_addr);
}

/// Two allocations one after the other never share an endpoint.
pub proof fn law_allocations_are_distinct(
    alloc: Seq<EndpointData>,
    first: Option<EndpointAddress>,
    ep_type: EndpointType,
    dir: Direction,
    second: Option<EndpointAddress>,
)
    requires
        alloc_target(alloc, first) is Some,
    ensures
        alloc_target(
            alloc.update(
                alloc_target(alloc, first)->0,
                EndpointData::allocated(ep_type, dir),
            ),
            second,
        ) != alloc_target(alloc, first),
{
    let next = alloc.update(
        alloc_target(alloc, first)->0,
        EndpointData::allocated(ep_type, dir),
    );
    law_allocation_is_exclusive(alloc, first, ep_type, dir);
    law_target_available(next, second);
}

/// Allocation keeps the table in order: each endpoint has one direction at most,
/// and endpoints 0 and 4 have none.
pub proof fn law_allocation_keeps_one_direction(
    alloc: Seq<EndpointData>,
    ep_addr: Option<EndpointAddress>,
    ep_type: EndpointType,
    dir: Direction,
)
    requires
        alloc_wf(alloc),
        alloc_target(alloc, ep_addr) is Some,
    ensures
        alloc_wf(
            alloc.update(
                alloc_target(alloc, ep_addr)->0,
                EndpointData::allocated(ep_type, dir),
            ),
        ),
{
    law_target_available(alloc, ep_addr);
}

proof fn lemma_count_update(alloc: Seq<EndpointData>, i: int, data: EndpointData, n: int)
    requires
        available(alloc, i),
        !data.is_free(),
    ensures
        count_available(alloc, n) == count_available(alloc.update(i, data), n) + if i < n {
            1int
        } else {
            0int
        },
    decreases n,
{
    if n > 0 {
        lemma_count_update(alloc, i, data, n - 1);
        if n - 1 != i {
            assert(available(alloc.update(i, data), n - 1) == available(alloc, n - 1));
        }
    }
}

/// Each allocation takes one of the available endpoints.
pub proof fn law_allocation_takes_one(
    alloc: Seq<EndpointData>,
    ep_addr: Option<EndpointAddress>,
    ep_type: EndpointType,
    dir: Direction,
)
    requires
        alloc_target(alloc, ep_addr) is Some,
    ensures
        count_available(alloc, alloc.len() as int) == 1 + count_available(
            alloc.update(
                alloc_target(alloc, ep_addr)->0,
                EndpointData::allocated(ep_type, dir),
            ),
            alloc.len() as int,
        ),
{
    law_target_available(alloc, ep_addr);
    lemma_count_update(
        alloc,
        alloc_target(alloc, ep_addr)->0,
        EndpointData::allocated(ep_type, dir),
        alloc.len() as int,
    );
}

proof fn lemma_count_zero(alloc: Seq<EndpointData>, n: int)
    ensures
        count_available(alloc, n) == 0 <==> forall|i: int| 0 <= i < n ==> !available(alloc, i),
    decreases n,
{
    if n > 0 {
        lemma_count_zero(alloc, n - 1);
    }
}

/// A request that names no endpoint fails only once all endpoints are taken.
pub proof fn law_any_endpoint_until_none_left(alloc: Seq<EndpointData>)
    ensures
        alloc_target(alloc, None) is Some <==> count_available(alloc, alloc.len() as int) > 0,
{
    law_first_available(alloc, 1);
    lemma_count_zero(alloc, alloc.len() as int);
}

/// A new driver has three endpoints to hand out, or six with the larger table.
pub proof fn law_fresh_count()
    ensures
        count_available(fresh(4), 4) == 3,
        count_available(fresh(8), 8) == 6,
{
    reveal_with_fuel(count_available, 9);
}

/// A request for an endpoint.
pub struct Request {
    pub ep_type: EndpointType,
    pub ep_addr: Option<EndpointAddress>,
    pub max_packet_size: u16,
    pub dir: Direction,
}

/// The endpoint that a request gets.
pub open spec fn granted(alloc: Seq<EndpointData>, req: Request) -> Option<int> {
    if req.max_packet_size <= MAX_PACKET_SIZE {
        alloc_target(alloc, req.ep_addr)
    } else {
        None
    }
}

/// The table after a request.
pub open spec fn after_request(alloc: Seq<EndpointData>, req: Request) -> Seq<EndpointData> {
    match granted(alloc, req) {
        Some(i) => alloc.update(i, EndpointData::allocated(req.ep_type, req.dir)),
        None => alloc,
    }
}

/// The table after a sequence of requests.
pub open spec fn after_requests(alloc: Seq<EndpointData>, reqs: Seq<Request>) -> Seq<EndpointData>
    decreases reqs.len(),
{
    if reqs.len() == 0 {
        alloc
    } else {
        after_requests(after_request(alloc, reqs[0]), reqs.skip(1))
    }
}

/// The endpoints that a sequence of requests gets, in order.
pub open spec fn handed_out(alloc: Seq<EndpointData>, reqs: Seq<Request>) -> Seq<int>
    decreases reqs.len(),
{
    if reqs.len() == 0 {
        Seq::empty()
    } else {
        (match granted(alloc, reqs[0]) {
            Some(i) => seq![i],
            None => Seq::empty(),
        }) + handed_out(after_request(alloc, reqs[0]), reqs.skip(1))
    }
}

/// Over any sequence of requests, in either direction, by number or not: the table
/// stays in order; the endpoints handed out all differ, were available before and
/// are not available any more; no endpoint becomes available again; and each one
/// handed out uses up one of those that were available.
pub proof fn law_requests(alloc: Seq<EndpointData>, reqs: Seq<Request>)
    requires
        alloc_wf(alloc),
    ensures
        ({
            let after = after_requests(alloc, reqs);
            let out = handed_out(alloc, reqs);
            &&& alloc_wf(after)
            &&& after.len() == alloc.len()
            &&& out.no_duplicates()
            &&& forall|k: int|
                0 <= k < out.len() ==> available(alloc, #[trigger] out[k]) && !available(
                    after,
                    out[k],
                )
            &&& forall|j: int| #[trigger] available(after, j) ==> available(alloc, j)
            &&& out.len() + count_available(after, alloc.len() as int) == count_available(
                alloc,
                alloc.len() as int,
            )
        }),
    decreases reqs.len(),
{
    if reqs.len() > 0 {
        let req = reqs[0];
        let next = after_request(alloc, req);
        if granted(alloc, req) is Some {
            law_target_available(alloc, req.ep_addr);
            law_allocation_is_exclusive(alloc, req.ep_addr, req.ep_type, req.dir);
            law_allocation_keeps_one_direction(alloc, req.ep_addr, req.ep_type, req.dir);
            law_allocation_takes_one(alloc, req.ep_addr, req.ep_type, req.dir);
        }
        law_requests(next, reqs.skip(1));
        let rest = handed_out(next, reqs.skip(1));
        let out = handed_out(alloc, reqs);
        match granted(alloc, req) {
            Some(i) => {
                assert(out =~= seq![i] + rest);
                assert forall|k: int| 0 <= k < rest.len() implies #[trigger] rest[k] != i by {
                    assert(available(next, rest[k]));
                }
                assert forall|k: int| 0 <= k < out.len() implies available(alloc, #[trigger] out[k])
                    && !available(after_requests(alloc, reqs), out[k]) by {
                    if k > 0 {
                        assert(out[k] == rest[k - 1]);
                        assert(available(next, rest[k - 1]));
                    }
                }
                assert forall|a: int, b: int|
                    0 <= a < out.len() && 0 <= b < out.len() && a != b implies out[a] != out[b] by {
                    if a > 0 {
                        assert(out[a] == rest[a - 1]);
                    }
                    if b > 0 {
                        assert(out[b] == rest[b - 1]);
                    }
                }
            },
            None => {
                assert(out =~= rest);
            },
        }
    }
}

/// A new driver hands out at most three endpoints, or six with the larger table,
/// however they are asked for.
pub proof fn law_at_most_three_or_six(reqs: Seq<Request>)
    ensures
        handed_out(fresh(4), reqs).len() <= 3,
        handed_out(fresh(8), reqs).len() <= 6,
{
    law_fresh_count();
    law_requests(fresh(4), reqs);
    law_requests(fresh(8), reqs);
}

/// No two endpoints that can be handed out, nor the control endpoint, share a
/// control register, length register, DMA register, buffer or mode bits.
pub proof fn law_endpoints_share_nothing(ep_count: usize, i: int, j: int)
    requires
        has_buffer(ep_count, i),
        has_buffer(ep_count, j),
        i != j,
    ensures
        spec_ep_ctrl(i) != spec_ep_ctrl(j),
        spec_ep_t_len(i) != spec_ep_t_len(j),
        spec_ep_dma(i) != spec_ep_dma(j),
        spec_ep_buf(i) != spec_ep_buf(j),
        i != 0 && j != 0 ==> mode_slot(i) != mode_slot(j),
{
}

/// A request that names an endpoint gets the one with the number in the low bits of
/// the address, whatever the direction bit, exactly if that is an endpoint of the
/// table other than 0 and 4 that is used in neither direction.
pub proof fn law_named_request(alloc: Seq<EndpointData>, addr: EndpointAddress)
    ensures
        ({
            let i = addr.bits as int % 128;
            alloc_target(alloc, Some(addr)) == if 1 <= i < alloc.len() && i != 4
                && !alloc[i].used_in && !alloc[i].used_out {
                Some(i)
            } else {
                None
            }
        }),
{
    law_address_bits(addr);
}

/// A request that names no endpoint gets the lowest one that is used in neither
/// direction, leaving out endpoints 0 and 4, and fails exactly if all are used.
pub proof fn law_any_request(alloc: Seq<EndpointData>)
    ensures
        match alloc_target(alloc, None) {
            Some(i) => {
                &&& 1 <= i < alloc.len()
                &&& i != 4
                &&& !alloc[i].used_in
                &&& !alloc[i].used_out
                &&& forall|j: int|
                    1 <= j < i && j != 4 ==> (#[trigger] alloc[j]).used_in || alloc[j].used_out
            },
            None => forall|j: int|
                1 <= j < alloc.len() && j != 4 ==> (#[trigger] alloc[j]).used_in
                    || alloc[j].used_out,
        },
{
    law_first_available(alloc, 1);
    match alloc_target(alloc, None) {
        Some(i) => {
            assert forall|j: int| 1 <= j < i && j != 4 implies (#[trigger] alloc[j]).used_in
                || alloc[j].used_out by {
                assert(!available(alloc, j));
            }
        },
        None => {
            assert forall|j: int| 1 <= j < alloc.len() && j != 4 implies (
            #[trigger] alloc[j]).used_in || alloc[j].used_out by {
                assert(!available(alloc, j));
            }
        },
    }
}

/// A new table has nothing in use, and an endpoint that was handed out is in use in
/// the direction that was asked for, and not in the other, with the type asked for.
pub proof fn law_table_entries(ep_count: usize, i: int, ep_type: EndpointType, dir: Direction)
    requires
        0 <= i < ep_count,
    ensures
        fresh(ep_count).len() == ep_count,
        !fresh(ep_count)[i].used_in,
        !fresh(ep_count)[i].used_out,
        fresh(ep_count)[i].ep_type == EndpointType::Bulk,
        ep_count == 4 || ep_count == 8 ==> alloc_wf(fresh(ep_count)),
        EndpointData::allocated(ep_type, dir).ep_type == ep_type,
        EndpointData::allocated(ep_type, dir).used_in <==> dir == Direction::In,
        EndpointData::allocated(ep_type, dir).used_out <==> dir == Direction::Out,
{
}

/// What a request gets, and what it leaves. It gets an endpoint exactly if its packets
/// are of 64 bytes at most and an endpoint is there for it. The address is the number
/// of the endpoint, plus 128 for IN; the other properties are as asked for. In the
/// table that endpoint is used in that direction alone, and the others are as before.
/// A request that gets none leaves the table.
pub proof fn law_request_result(
    alloc: Seq<EndpointData>,
    dir: Direction,
    ep_type: EndpointType,
    ep_addr: Option<EndpointAddress>,
    max_packet_size: u16,
    interval_ms: u8,
)
    requires
        alloc_wf(alloc),
    ensures
        ({
            let info = alloc_info(alloc, dir, ep_type, ep_addr, max_packet_size, interval_ms);
            let after = alloc_after(alloc, dir, ep_type, ep_addr, max_packet_size);
            &&& info is Some <==> max_packet_size <= 64 && alloc_target(alloc, ep_addr) is Some
            &&& info is None ==> after == alloc
            &&& info is Some ==> {
                let i = alloc_target(alloc, ep_addr)->0;
                &&& info->0.addr.bits == i + if dir == Direction::In {
                    128int
                } else {
                    0int
                }
                &&& info->0.ep_type == ep_type
                &&& info->0.max_packet_size == max_packet_size
                &&& info->0.interval_ms == interval_ms
                &&& after.len() == alloc.len()
                &&& after[i].ep_type == ep_type
                &&& after[i].used_in <==> dir == Direction::In
                &&& after[i].used_out <==> dir == Direction::Out
                &&& forall|j: int|
                    0 <= j < alloc.len() && j != i ==> #[trigger] after[j] == alloc[j]
            }
        }),
{
    law_any_request(alloc);
    if alloc_target(alloc, ep_addr) is Some {
        let i = alloc_target(alloc, ep_addr)->0;
        law_target_available(alloc, ep_addr);
        law_address_parts(i as usize, dir);
        law_address_bits(EndpointAddress::spec_from_parts(i as usize, dir));
    }
}

/// A table is in order exactly if it is of one of the two sizes, no entry is used in
/// both directions, and endpoints 0 and 4 are not used.
pub proof fn law_table_in_order(alloc: Seq<EndpointData>)
    ensures
        alloc_wf(alloc) <==> {
            &&& alloc.len() == 4 || alloc.len() == 8
            &&& forall|i: int|
                0 <= i < alloc.len() ==> !(#[trigger] alloc[i]).used_in || !alloc[i].used_out
            &&& !alloc[0].used_in && !alloc[0].used_out
            &&& alloc.len() == 8 ==> !alloc[4].used_in && !alloc[4].used_out
        },
{
}

} // verus!
