//! Transfers of the endpoints other than the control endpoint.

use crate::endpoint::{
    queue_ops, read_into, read_ops, read_outcome, transfer_status, write_ops, write_outcome,
};
use crate::endpoints::{has_buffer, spec_ep_buf, spec_ep_ctrl, spec_ep_t_len, store_ops};
use crate::interrupt::{in_ops, interrupt_ops, out_ops, InterruptStatus};
use crate::laws::interrupts::{
    law_in_complete, law_in_interrupt, law_out_complete, law_out_interrupt,
};
use crate::model::{
    ctrl_of, dma_of, host_packet, host_sent, lemma_run_1, lemma_run_2, lemma_run_add,
    lemma_run_ends, lemma_run_store, lemma_run_take, run, t_len_of, Hardware,
};
use crate::regs::{
    CtrlUpdate, EpBuf, HwOp, UepCtrl, WakerId, MAX_PACKET_SIZE, RES_ACK, RES_NAK, RES_STALL,
};
use crate::usb::{Direction, EndpointError, Poll};
use vstd::prelude::*;

verus! {

/// Queueing leaves the data at the start of the endpoint's buffer, its length in
/// the length register, and the endpoint ready to send it. Nothing else changes.
pub proof fn law_queue(hw: Hardware, index: int, data: Seq<u8>)
    requires
        hw.buffers[spec_ep_buf(index)].len() == MAX_PACKET_SIZE,
        data.len() <= MAX_PACKET_SIZE,
    ensures
        ({
            let reg = spec_ep_ctrl(index);
            let buf = spec_ep_buf(index);
            let queued = run(hw, queue_ops(index, data));
            &&& queued.buffers[buf] == data + hw.buffers[buf].skip(data.len() as int)
            &&& forall|b: EpBuf| b != buf ==> #[trigger] queued.buffers[b] == hw.buffers[b]
            &&& queued.t_len == hw.t_len.insert(spec_ep_t_len(index), data.len() as u8)
            &&& queued.t_len[spec_ep_t_len(index)] == data.len()
            &&& queued.ctrl == hw.ctrl.insert(reg, UepCtrl { t_res: RES_ACK, ..hw.ctrl[reg] })
            &&& queued == Hardware {
                buffers: queued.buffers,
                t_len: queued.t_len,
                ctrl: queued.ctrl,
                ..hw
            }
        }),
{
    let store = store_ops(spec_ep_buf(index), data);
    let len = HwOp::WriteTLen(spec_ep_t_len(index), data.len() as u8);
    let ack = HwOp::ModifyCtrl(spec_ep_ctrl(index), CtrlUpdate::spec_set_t_res(RES_ACK));
    lemma_run_add(hw, store, seq![len, ack]);
    lemma_run_store(hw, spec_ep_buf(index), data);
    lemma_run_2(run(hw, store), len, ack);
}

/// The bytes that the host fetches from an endpoint that answers, by the buffer and
/// the length register that the driver uses for it.
pub open spec fn packet_to_host(hw: Hardware, index: int) -> Seq<u8> {
    hw.buffers[spec_ep_buf(index)].take(hw.t_len[spec_ep_t_len(index)] as int)
}

/// The driver's view of what the host fetches is the hardware's, once the DMA register
/// of the endpoint holds the address of its buffer.
pub proof fn law_packet_is_what_host_fetches(hw: Hardware, index: int)
    requires
        has_buffer(8, index),
        hw.dma[dma_of(index)] == spec_ep_buf(index),
    ensures
        packet_to_host(hw, index) == host_packet(hw, index),
{
}

/// A write to an endpoint at rest succeeds, and what the host fetches then is what
/// was written. Until the host has fetched it, the next write waits.
pub proof fn law_write_reaches_host(
    hw: Hardware,
    index: int,
    data: Seq<u8>,
    max: u16,
    next: Seq<u8>,
)
    requires
        hw.buffers[spec_ep_buf(index)].len() == MAX_PACKET_SIZE,
        hw.ctrl[spec_ep_ctrl(index)].t_res == RES_NAK,
        !hw.cut[(index as usize, Direction::In)],
        data.len() <= max <= MAX_PACKET_SIZE,
        next.len() <= max,
    ensures
        ({
            let reg = spec_ep_ctrl(index);
            let cut = hw.cut[(index as usize, Direction::In)];
            let outcome = write_outcome(data.len(), max, cut, hw.ctrl[reg].t_res);
            let queued = run(hw, write_ops(index, data, outcome));
            &&& outcome == Poll::Ready(Ok::<(), EndpointError>(()))
            &&& packet_to_host(queued, index) == data
            &&& queued.ctrl[reg].t_res == RES_ACK
            &&& write_outcome(
                next.len(),
                max,
                queued.cut[(index as usize, Direction::In)],
                queued.ctrl[reg].t_res,
            ) is Pending
        }),
{
    law_queue(hw, index, data);
    assert(packet_to_host(run(hw, queue_ops(index, data)), index) =~= data);
}

/// Once the host has fetched a packet that was written, the sender is woken and
/// the next write goes ahead, with the other data toggle.
pub proof fn law_write_then_sent(hw: Hardware, index: int, data: Seq<u8>, next: Seq<u8>, max: u16)
    requires
        hw.buffers[spec_ep_buf(index)].len() == MAX_PACKET_SIZE,
        data.len() <= MAX_PACKET_SIZE,
        next.len() <= max,
        !hw.cut[(index as usize, Direction::In)],
    ensures
        ({
            let reg = spec_ep_ctrl(index);
            let sent = run(run(hw, queue_ops(index, data)), in_ops(index));
            let cut = sent.cut[(index as usize, Direction::In)];
            &&& write_outcome(next.len(), max, cut, sent.ctrl[reg].t_res) == Poll::Ready(
                Ok::<(), EndpointError>(()),
            )
            &&& sent.ctrl[reg].t_tog != hw.ctrl[reg].t_tog
            &&& sent.woken.contains(WakerId::In(index as usize))
        }),
{
    law_queue(hw, index, data);
    law_in_complete(run(hw, queue_ops(index, data)), index);
}

/// A read gives back what the host sent. Once a packet `data` is in the endpoint's
/// buffer and its transfer is complete, the reader is woken, the wait for a packet
/// is over, and the read returns the length and the bytes of the packet, leaving
/// the rest of the caller's buffer. After it the endpoint accepts the next packet,
/// and the next read waits for that.
pub proof fn law_read_gives_back_packet(
    hw: Hardware,
    ep_count: usize,
    index: int,
    data: Seq<u8>,
    buf: Seq<u8>,
)
    requires
        has_buffer(ep_count, index),
        hw.buffers[spec_ep_buf(index)].len() == MAX_PACKET_SIZE,
        data.len() <= MAX_PACKET_SIZE,
        data.is_prefix_of(hw.buffers[spec_ep_buf(index)]),
        data.len() <= buf.len(),
        !hw.cut[(index as usize, Direction::Out)],
    ensures
        ({
            let reg = spec_ep_ctrl(index);
            let got = run(hw, out_ops(index, data.len() as u16));
            let rx_len = got.out_len[index as usize];
            let mem = got.buffers[spec_ep_buf(index)];
            let cut = got.cut[(index as usize, Direction::Out)];
            let outcome = read_outcome(cut, got.ctrl[reg].r_res, rx_len, buf.len());
            let done = run(got, read_ops(index, outcome));
            &&& got.woken.contains(WakerId::Out(index as usize))
            &&& outcome == Poll::Ready(
                Ok::<usize, EndpointError>(data.len() as usize),
            )
            &&& mem.take(rx_len as int) + buf.skip(rx_len as int) == data + buf.skip(
                data.len() as int,
            )
            &&& done.ctrl[reg].r_res == RES_ACK
            &&& transfer_status(cut, done.ctrl[reg].r_res) is Pending
        }),
{
    law_out_complete(hw, index, data.len() as u16);
    law_read_accepts_next(run(hw, out_ops(index, data.len() as u16)), index, data.len() as usize);
    assert(hw.buffers[spec_ep_buf(index)].take(data.len() as int) =~= data);
}

/// A read lets the next packet in and changes nothing else.
pub proof fn law_read_accepts_next(hw: Hardware, index: int, len: usize)
    ensures
        run(hw, read_ops(index, Poll::Ready(Ok(len)))) == (Hardware {
            ctrl: hw.ctrl.insert(
                spec_ep_ctrl(index),
                UepCtrl { r_res: RES_ACK, ..hw.ctrl[spec_ep_ctrl(index)] },
            ),
            ..hw
        }),
{
    lemma_run_1(
        hw,
        HwOp::ModifyCtrl(spec_ep_ctrl(index), CtrlUpdate::spec_set_r_res(RES_ACK)),
    );
}

/// Reading into a buffer that is too small fails and loses nothing: the endpoint
/// still holds the packet, and a read into a larger buffer gets it.
pub proof fn law_overflow_keeps_packet(hw: Hardware, index: int, small: nat, large: nat)
    requires
        hw.ctrl[spec_ep_ctrl(index)].r_res == RES_NAK,
        !hw.cut[(index as usize, Direction::Out)],
        small < hw.out_len[index as usize] <= large,
    ensures
        ({
            let rx_len = hw.out_len[index as usize];
            let cut = hw.cut[(index as usize, Direction::Out)];
            let failed = read_outcome(cut, hw.ctrl[spec_ep_ctrl(index)].r_res, rx_len, small);
            let after = run(hw, read_ops(index, failed));
            &&& failed == Poll::Ready(Err::<usize, EndpointError>(EndpointError::BufferOverflow))
            &&& after == hw
            &&& read_outcome(cut, after.ctrl[spec_ep_ctrl(index)].r_res, rx_len, large)
                == Poll::Ready(
                Ok::<usize, EndpointError>(rx_len as usize),
            )
        }),
{
}

/// A transfer that waits or fails changes nothing.
pub proof fn law_unfinished_transfer_changes_nothing(
    hw: Hardware,
    index: int,
    data: Seq<u8>,
    wrote: Poll<Result<(), EndpointError>>,
    read: Poll<Result<usize, EndpointError>>,
)
    requires
        wrote is Pending || wrote->Ready_0 is Err,
        read is Pending || read->Ready_0 is Err,
    ensures
        run(hw, write_ops(index, data, wrote)) == hw,
        run(hw, read_ops(index, read)) == hw,
{
}

/// On a disabled endpoint, and on one whose transfers a bus reset has cut, transfers
/// fail at once.
pub proof fn law_disabled_transfer_fails(
    len: nat,
    max: u16,
    rx_len: u16,
    buf_len: nat,
    cut: bool,
    res: u8,
)
    requires
        len <= max,
        cut || res == RES_STALL,
    ensures
        write_outcome(len, max, cut, res) == Poll::Ready(
            Err::<(), EndpointError>(EndpointError::Disabled),
        ),
        read_outcome(cut, res, rx_len, buf_len) == Poll::Ready(
            Err::<usize, EndpointError>(EndpointError::Disabled),
        ),
{
}

/// Transfers of one endpoint leave the response, buffer and length of every other
/// endpoint alone.
pub proof fn law_transfers_are_separate(
    hw: Hardware,
    ep_count: usize,
    i: int,
    j: int,
    data: Seq<u8>,
    rx_len: u16,
)
    requires
        has_buffer(ep_count, i),
        has_buffer(ep_count, j),
        i != j,
        hw.buffers[spec_ep_buf(i)].len() == MAX_PACKET_SIZE,
        data.len() <= MAX_PACKET_SIZE,
    ensures
        ({
            let written = run(hw, queue_ops(i, data));
            let sent = run(hw, in_ops(i));
            let got = run(hw, out_ops(i, rx_len));
            let read = run(hw, read_ops(i, Poll::Ready(Ok(rx_len as usize))));
            &&& written.ctrl[spec_ep_ctrl(j)] == hw.ctrl[spec_ep_ctrl(j)]
            &&& written.buffers[spec_ep_buf(j)] == hw.buffers[spec_ep_buf(j)]
            &&& written.t_len[spec_ep_t_len(j)] == hw.t_len[spec_ep_t_len(j)]
            &&& sent.ctrl[spec_ep_ctrl(j)] == hw.ctrl[spec_ep_ctrl(j)]
            &&& got.ctrl[spec_ep_ctrl(j)] == hw.ctrl[spec_ep_ctrl(j)]
            &&& got.out_len[j as usize] == hw.out_len[j as usize]
            &&& read.ctrl[spec_ep_ctrl(j)] == hw.ctrl[spec_ep_ctrl(j)]
        }),
{
    law_queue(hw, i, data);
    law_in_complete(hw, i);
    law_out_complete(hw, i, rx_len);
    law_read_accepts_next(hw, i, rx_len as usize);
}

/// A wait for a transfer that no bus reset cuts goes on until the endpoint is at
/// rest or disabled; nothing else ends it.
pub proof fn law_wait_ends_at_rest_or_disabled(res: u8)
    ensures
        transfer_status(false, res) matches Poll::Ready(stat) ==> stat == res && (stat == RES_NAK
            || stat == RES_STALL),
        transfer_status(false, res) is Pending <==> res != RES_NAK && res != RES_STALL,
{
}

/// What a read finds, case by case: it waits exactly while the response is neither
/// NAK nor STALL and no reset has cut it; it fails as disabled exactly after a reset
/// or on STALL; it overflows exactly if a packet is held that is longer than the
/// buffer; and else it succeeds with the length of the packet.
pub proof fn law_read_exact(cut: bool, res: u8, rx_len: u16, buf_len: nat)
    ensures
        ({
            let r = read_outcome(cut, res, rx_len, buf_len);
            &&& r is Pending <==> !cut && res != 2 && res != 3
            &&& r == Poll::Ready(Err::<usize, EndpointError>(EndpointError::Disabled)) <==> cut
                || res == 3
            &&& r == Poll::Ready(Err::<usize, EndpointError>(EndpointError::BufferOverflow))
                <==> !cut && res == 2 && rx_len > buf_len
            &&& r == Poll::Ready(Ok::<usize, EndpointError>(rx_len as usize)) <==> !cut && res == 2
                && rx_len <= buf_len
            &&& r is Ready && r->Ready_0 is Ok ==> r->Ready_0->Ok_0 == rx_len
        }),
{
}

/// What a write finds, case by case: it overflows exactly if the data is longer than
/// a packet; else it fails as disabled exactly after a reset or on STALL, succeeds
/// exactly if the endpoint is at NAK, and waits otherwise.
pub proof fn law_write_exact(len: nat, max: u16, cut: bool, res: u8)
    ensures
        ({
            let r = write_outcome(len, max, cut, res);
            &&& r == Poll::Ready(Err::<(), EndpointError>(EndpointError::BufferOverflow)) <==> len
                > max
            &&& r == Poll::Ready(Err::<(), EndpointError>(EndpointError::Disabled)) <==> len <= max
                && (cut || res == 3)
            &&& r == Poll::Ready(Ok::<(), EndpointError>(())) <==> len <= max && !cut && res == 2
            &&& r is Pending <==> len <= max && !cut && res != 2 && res != 3
        }),
{
}

/// A read that succeeds replaces the first bytes of the caller's buffer by those of the
/// packet, and leaves the bytes behind them; any other read leaves all of them.
pub proof fn law_read_into(
    outcome: Poll<Result<usize, EndpointError>>,
    mem: Seq<u8>,
    buf: Seq<u8>,
    k: int,
)
    requires
        0 <= k < buf.len(),
        outcome is Ready && outcome->Ready_0 is Ok ==> outcome->Ready_0->Ok_0 <= mem.len()
            && outcome->Ready_0->Ok_0 <= buf.len(),
    ensures
        read_into(outcome, mem, buf).len() == buf.len(),
        read_into(outcome, mem, buf)[k] == if outcome is Ready && outcome->Ready_0 is Ok && k
            < outcome->Ready_0->Ok_0 {
            mem[k]
        } else {
            buf[k]
        },
{
}

/// A read that succeeds sets the response to OUT tokens of its endpoint to ACK and
/// does nothing else; any other read does nothing.
pub proof fn law_read_effect(hw: Hardware, index: int, outcome: Poll<Result<usize, EndpointError>>)
    requires
        0 <= index < 8,
    ensures
        ({
            let cur = hw.ctrl[ctrl_of(index)];
            run(hw, read_ops(index, outcome)) == if outcome is Ready && outcome->Ready_0 is Ok {
                Hardware {
                    ctrl: hw.ctrl.insert(
                        ctrl_of(index),
                        UepCtrl { t_tog: cur.t_tog, r_tog: cur.r_tog, t_res: cur.t_res, r_res: 0 },
                    ),
                    ..hw
                }
            } else {
                hw
            }
        }),
{
    law_read_accepts_next(hw, index, outcome->Ready_0->Ok_0);
}

/// A write that succeeds puts the data where the DMA register of its endpoint points,
/// sets the length register of its endpoint and the response to IN tokens to ACK,
/// and does nothing else; any other write does nothing.
pub proof fn law_write_effect(
    hw: Hardware,
    index: int,
    data: Seq<u8>,
    outcome: Poll<Result<(), EndpointError>>,
)
    requires
        has_buffer(8, index),
        hw.dma[dma_of(index)] == spec_ep_buf(index),
        hw.buffers[hw.dma[dma_of(index)]].len() == 64,
        data.len() <= 64,
    ensures
        ({
            let cur = hw.ctrl[ctrl_of(index)];
            let buf = hw.dma[dma_of(index)];
            let after = run(hw, write_ops(index, data, outcome));
            if outcome is Ready && outcome->Ready_0 is Ok {
                &&& after == Hardware {
                    ctrl: hw.ctrl.insert(
                        ctrl_of(index),
                        UepCtrl { t_tog: cur.t_tog, r_tog: cur.r_tog, t_res: 0, r_res: cur.r_res },
                    ),
                    t_len: hw.t_len.insert(t_len_of(index), data.len() as u8),
                    buffers: after.buffers,
                    ..hw
                }
                &&& after.buffers[buf] == data + hw.buffers[buf].skip(data.len() as int)
                &&& forall|b: EpBuf| b != buf ==> #[trigger] after.buffers[b] == hw.buffers[b]
            } else {
                after == hw
            }
        }),
{
    law_queue(hw, index, data);
}

/// The endpoint answers only when its packet is complete: the response is the last
/// thing that a write changes. Whenever it has changed, the host fetches exactly
/// the data.
pub proof fn law_write_answers_last(hw: Hardware, index: int, data: Seq<u8>, k: int)
    requires
        has_buffer(8, index),
        hw.dma[dma_of(index)] == spec_ep_buf(index),
        hw.buffers[hw.dma[dma_of(index)]].len() == 64,
        data.len() <= 64,
        0 <= k <= write_ops(index, data, Poll::Ready(Ok(()))).len(),
    ensures
        ({
            let ops = write_ops(index, data, Poll::Ready(Ok(())));
            let part = run(hw, ops.take(k));
            part.ctrl == hw.ctrl || part == run(hw, ops) && host_packet(part, index) == data
        }),
{
    let ops = queue_ops(index, data);
    let buf = spec_ep_buf(index);
    let n = data.len() as int;
    law_queue(hw, index, data);
    assert(host_packet(run(hw, ops), index) =~= data);
    lemma_run_ends(hw, ops);
    if k <= n {
        assert(ops.take(k) =~= store_ops(buf, data.take(k)));
        lemma_run_store(hw, buf, data.take(k));
    } else if k == n + 1 {
        assert(ops.take(n) =~= store_ops(buf, data));
        lemma_run_store(hw, buf, data);
        lemma_run_take(hw, ops, n);
    }
}

/// From the host's packet to the reader: the host sends `data` to an endpoint that
/// accepts it; the hardware puts it where the DMA register points and raises an OUT
/// interrupt; after that interrupt the reader is woken and reads exactly `data`,
/// whatever it read before.
pub proof fn law_packet_from_host_to_reader(
    hw: Hardware,
    ep_count: usize,
    index: int,
    data: Seq<u8>,
    buf: Seq<u8>,
    status: InterruptStatus,
)
    requires
        ep_count == 4 || ep_count == 8,
        has_buffer(ep_count, index),
        hw.dma[dma_of(index)] == spec_ep_buf(index),
        hw.buffers[hw.dma[dma_of(index)]].len() == 64,
        data.len() <= 64,
        data.len() <= buf.len(),
        hw.ctrl[ctrl_of(index)].r_res == 0,
        !hw.cut[(index as usize, Direction::Out)],
        status.int_fg.transfer,
        status.token == 0,
        status.endp == index,
        status.rx_len == data.len(),
    ensures
        ({
            let cut = Direction::Out;
            let sent = host_sent(hw, index, data);
            let got = run(sent, interrupt_ops(ep_count, status));
            let before = read_outcome(
                hw.cut[(index as usize, cut)],
                hw.ctrl[ctrl_of(index)].r_res,
                hw.out_len[index as usize],
                buf.len(),
            );
            let after = read_outcome(
                got.cut[(index as usize, cut)],
                got.ctrl[ctrl_of(index)].r_res,
                got.out_len[index as usize],
                buf.len(),
            );
            let mem = got.buffers[spec_ep_buf(index)];
            &&& before is Pending
            &&& got.woken.contains(WakerId::Out(index as usize))
            &&& after == Poll::Ready(Ok::<usize, EndpointError>(data.len() as usize))
            &&& mem.len() == 64
            &&& read_into(after, mem, buf) == data + buf.skip(data.len() as int)
        }),
{
    let sent = host_sent(hw, index, data);
    law_out_interrupt(sent, ep_count, status);
    assert(sent.buffers[spec_ep_buf(index)].take(data.len() as int) =~= data);
}

/// From the writer to the host: a write to an endpoint at rest is what the host
/// fetches; when the host has fetched it, an IN interrupt wakes the writer and the
/// next write goes ahead; until then it waits.
pub proof fn law_packet_from_writer_to_host(
    hw: Hardware,
    ep_count: usize,
    index: int,
    data: Seq<u8>,
    max: u16,
    next_len: nat,
    status: InterruptStatus,
)
    requires
        ep_count == 4 || ep_count == 8,
        has_buffer(ep_count, index),
        hw.dma[dma_of(index)] == spec_ep_buf(index),
        hw.buffers[hw.dma[dma_of(index)]].len() == 64,
        data.len() <= max <= 64,
        next_len <= max,
        hw.ctrl[ctrl_of(index)].t_res == 2,
        !hw.cut[(index as usize, Direction::In)],
        status.int_fg.transfer,
        status.token == 2,
        status.endp == index,
    ensures
        ({
            let key = (index as usize, Direction::In);
            let reg = ctrl_of(index);
            let wrote = write_outcome(data.len(), max, hw.cut[key], hw.ctrl[reg].t_res);
            let queued = run(hw, write_ops(index, data, wrote));
            let sent = run(queued, interrupt_ops(ep_count, status));
            &&& wrote == Poll::Ready(Ok::<(), EndpointError>(()))
            &&& queued.ctrl[reg].t_res == 0
            &&& host_packet(queued, index) == data
            &&& write_outcome(next_len, max, queued.cut[key], queued.ctrl[reg].t_res) is Pending
            &&& sent.woken.contains(WakerId::In(index as usize))
            &&& write_outcome(next_len, max, sent.cut[key], sent.ctrl[reg].t_res) == Poll::Ready(
                Ok::<(), EndpointError>(()),
            )
            &&& sent.ctrl[reg].t_tog != hw.ctrl[reg].t_tog
        }),
{
    let queued = run(hw, queue_ops(index, data));
    law_queue(hw, index, data);
    assert(host_packet(queued, index) =~= data);
    law_in_interrupt(queued, ep_count, status);
}

} // verus!
