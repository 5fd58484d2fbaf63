//! The packet loops, and what is said of small things.
use crate::executor;
use crate::executor::Answer;
use crate::executor::Deserializer;
use crate::executor::Executor;
use crate::executor::ExecutorError;
use crate::executor::FunctionRegistry;
use crate::executor::FuzzFunction;
use crate::executor::GrammarDeserializer;
use crate::executor::Packet;
use crate::executor::Reaction;
use crate::executor::Sessions;
use crate::hvsock::dispatch_connect_result;
use crate::hvsock::ConnectResultHandler;
use crate::hypercalls::SimpMem;
use crate::invariant_executor;
use crate::laws::layout;
use crate::protocol;
use crate::protocol::TlConnectResult;
use crate::protocol::UserDefinedData;
use crate::wire;
use crate::wire::write_u64s;
use crate::wire::Wire;
use vstd::prelude::*;

verus! {

/// The functions on ports, by their names.
pub open spec fn on_ports() -> Seq<(&'static str, FuzzFunction)> {
    seq![
        ("port_write8", FuzzFunction::PortWrite8),
        ("port_write16", FuzzFunction::PortWrite16),
        ("port_write32", FuzzFunction::PortWrite32),
        ("port_read8", FuzzFunction::PortRead8),
        ("port_read16", FuzzFunction::PortRead16),
        ("port_read32", FuzzFunction::PortRead32),
    ]
}

/// The functions on the hypervisor and the network device, by their names.
pub open spec fn on_devices() -> Seq<(&'static str, FuzzFunction)> {
    seq![
        ("hvcall", FuzzFunction::Hvcall),
        ("send_nvsp", FuzzFunction::SendNvsp),
        ("send_rndis", FuzzFunction::SendRndis),
        ("open_channel", FuzzFunction::OpenChannel),
        ("renew_buffer", FuzzFunction::RenewBuffer),
    ]
}

/// The functions on the bus, by their names.
pub open spec fn on_bus() -> Seq<(&'static str, FuzzFunction)> {
    seq![
        ("vmbus_msg", FuzzFunction::VmbusMsg),
        ("vmbus_msg_comp", FuzzFunction::VmbusMsgComp),
        ("vmbus_packet", FuzzFunction::VmbusPacket),
        ("vmbus_reopen_channel", FuzzFunction::VmbusReopenChannel),
        ("vmbus_fill_relids", FuzzFunction::VmbusFillRelids),
    ]
}

/// Law: a registry starts empty, and keeps what is registered in order.
pub proof fn law_registry(
    new: FunctionRegistry,
    registry: &mut FunctionRegistry,
    name: &'static str,
    function: FuzzFunction,
)
    requires
        call_ensures(FunctionRegistry::new, (), new),
        call_ensures(FunctionRegistry::register, (registry, name, function), ()),
    ensures
        new@.len() == 0,
        final(registry)@.len() == old(registry)@.len() + 1,
        final(registry)@.drop_last() == old(registry)@,
        final(registry)@.last() == (name, function),
{
}

/// Law: the functions that a program can call, by their names; those on
/// ports only where there are ports.
pub proof fn law_functions_registered<D: Deserializer>(
    new: Executor<D>,
    guest: &mut Executor<D>,
    ports: bool,
)
    requires
        call_ensures(Executor::<D>::new, (), new),
        call_ensures(Executor::<D>::register_fuzz_functions, (guest, ports), ()),
    ensures
        new.deserializer is None,
        new.deserializer_type == GrammarDeserializer::Disabled,
        new.fn_registry@.len() == 0,
        final(guest).deserializer == old(guest).deserializer,
        final(guest).deserializer_type == old(guest).deserializer_type,
        ports ==> final(guest).fn_registry@ == old(guest).fn_registry@ + on_ports() + on_devices()
            + on_bus(),
        !ports ==> final(guest).fn_registry@ == old(guest).fn_registry@ + on_devices() + on_bus(),
{
    if !ports {
        assert(old(guest).fn_registry@ + Seq::<(&'static str, FuzzFunction)>::empty()
            =~= old(guest).fn_registry@);
    }
}

/// Law: the invariant guest has no functions on the bus.
pub proof fn law_invariant_functions_registered<D: Deserializer>(
    new: invariant_executor::Executor<D>,
    guest: &mut invariant_executor::Executor<D>,
)
    requires
        call_ensures(invariant_executor::Executor::<D>::new, (), new),
        call_ensures(
            invariant_executor::Executor::<D>::register_fuzz_functions,
            (guest,),
            (),
        ),
    ensures
        new.deserializer is None,
        new.deserializer_type == GrammarDeserializer::Disabled,
        new.fn_registry@.len() == 0,
        final(guest).deserializer == old(guest).deserializer,
        final(guest).deserializer_type == old(guest).deserializer_type,
        final(guest).fn_registry@ == old(guest).fn_registry@ + on_ports() + on_devices(),
{
}

/// A deserializer was made: it is new, learns the functions, and then the
/// mapping.
pub open spec fn makes_deserializer<D: Deserializer>(
    functions: Seq<(&'static str, FuzzFunction)>,
    mapping: D::Mapping,
    made: D,
    r: core::result::Result<(), ExecutorError>,
) -> bool {
    exists|first: D, mid: D|
        {
            &&& first.created()
            &&& #[trigger] first.registered(functions, mid)
            &&& mid.mapped(mapping, made, r)
        }
}

/// A testcase ran from `d` to `next` after the sessions were reset.
pub open spec fn runs<D: Deserializer>(
    d: D,
    sessions: (D::Sessions, D::Sessions),
    test: D::Test,
    next: D,
    r: core::result::Result<u64, ExecutorError>,
) -> bool {
    exists|reset: D::Sessions, after: D::Test|
        {
            &&& sessions.0.reset_to(reset)
            &&& #[trigger] d.executed((test, after), (reset, sessions.1), next, r)
        }
}

/// Law: what a packet makes the guest do. A configuration with a deserializer
/// sets one up and is acknowledged with 0; without one it is an error. A
/// testcase resets the sessions, runs, and is acknowledged with its code. Any
/// error is reported and ends the loop, and so does any other packet; what
/// was set up before stays.
pub proof fn law_packet_processed<D: Deserializer>(
    guest: &mut Executor<D>,
    sessions: &mut D::Sessions,
    pkt: Packet<D::Mapping, D::Test>,
    r: Reaction,
)
    requires
        call_ensures(Executor::<D>::process_next_packet, (guest, sessions, pkt), r),
    ensures
        final(guest).fn_registry == old(guest).fn_registry,
        match pkt {
            Packet::Configuration(cfg) => {
                &&& *final(sessions) == *old(sessions)
                &&& cfg.deserializer == GrammarDeserializer::Disabled ==> {
                    &&& r == (Reaction::ReportAndStop {
                        error: ExecutorError::NoDeserializerEnabled,
                    })
                    &&& *final(guest) == *old(guest)
                }
                &&& cfg.deserializer == GrammarDeserializer::SyzDecoder ==> {
                    ||| {
                        &&& r == (Reaction::Ack { code: 0 })
                        &&& final(guest).deserializer_type == GrammarDeserializer::SyzDecoder
                        &&& final(guest).deserializer is Some
                        &&& makes_deserializer(
                            old(guest).fn_registry@,
                            cfg.mapping,
                            final(guest).deserializer->0,
                            Ok(()),
                        )
                    }
                    ||| {
                        &&& r is ReportAndStop
                        &&& *final(guest) == *old(guest)
                        &&& exists|d: D| #[trigger]
                            makes_deserializer(
                                old(guest).fn_registry@,
                                cfg.mapping,
                                d,
                                Err(r->ReportAndStop_error),
                            )
                    }
                }
            },
            Packet::FuzzTest(test) => {
                &&& final(guest).deserializer_type == old(guest).deserializer_type
                &&& match old(guest).deserializer {
                    None => {
                        &&& r == (Reaction::ReportAndStop {
                            error: ExecutorError::NoDeserializerEnabled,
                        })
                        &&& final(guest).deserializer is None
                        &&& old(sessions).reset_to(*final(sessions))
                    },
                    Some(d) => {
                        &&& final(guest).deserializer is Some
                        &&& match r {
                            Reaction::Ack { code } => runs(
                                d,
                                (*old(sessions), *final(sessions)),
                                test,
                                final(guest).deserializer->0,
                                Ok(code),
                            ),
                            Reaction::ReportAndStop { error } => runs(
                                d,
                                (*old(sessions), *final(sessions)),
                                test,
                                final(guest).deserializer->0,
                                Err(error),
                            ),
                            _ => false,
                        }
                    },
                }
            },
            _ => {
                &&& r == (Reaction::ReportAndStop {
                    error: ExecutorError::UnexpectedPacketReceived,
                })
                &&& *final(guest) == *old(guest)
                &&& *final(sessions) == *old(sessions)
            },
        },
{
    match pkt {
        Packet::Configuration(cfg) => {
            let a = choose|a: core::result::Result<Option<Answer>, ExecutorError>| #[trigger]
                old(guest).configured(cfg, *final(guest), a) && r == Executor::<D>::reaction_to(a);
            if cfg.deserializer == GrammarDeserializer::SyzDecoder {
                match a {
                    Ok(_) => {
                        assert(executor::set_up(
                            old(guest).fn_registry@,
                            cfg.mapping,
                            final(guest).deserializer->0,
                            Ok(()),
                        ));
                        assert(makes_deserializer(
                            old(guest).fn_registry@,
                            cfg.mapping,
                            final(guest).deserializer->0,
                            Ok(()),
                        ));
                    },
                    Err(e) => {
                        let d = choose|d: D| #[trigger]
                            executor::set_up(old(guest).fn_registry@, cfg.mapping, d, Err(e));
                        assert(makes_deserializer(
                            old(guest).fn_registry@,
                            cfg.mapping,
                            d,
                            Err(e),
                        ));
                    },
                }
            }
        },
        Packet::FuzzTest(test) => {
            let (a, after) = choose|
                a: core::result::Result<Option<Answer>, ExecutorError>,
                after: D::Test,
            | #[trigger]
                old(guest).ran(
                    (*old(sessions), *final(sessions)),
                    (test, after),
                    *final(guest),
                    a,
                ) && r == Executor::<D>::reaction_to(a);
            if old(guest).deserializer is Some {
                let d = old(guest).deserializer->0;
                let next = final(guest).deserializer->0;
                let out: core::result::Result<u64, ExecutorError> = match a {
                    Ok(answer) => Ok(answer->0->Ack_code),
                    Err(e) => Err(e),
                };
                let reset = choose|reset: D::Sessions| #[trigger]
                    old(sessions).reset_to(reset) && d.executed(
                        (test, after),
                        (reset, *final(sessions)),
                        next,
                        out,
                    );
                assert(d.executed((test, after), (reset, *final(sessions)), next, out));
            }
        },
        _ => {},
    }
}

/// Law: what a packet makes the invariant guest do. It differs in this: a
/// configuration is taken over even where it fails, the sessions are not
/// reset, a testcase that fails is reported and the loop goes on, and an
/// error of the protocol ends the loop without a report.
pub proof fn law_invariant_packet_processed<D: Deserializer>(
    guest: &mut invariant_executor::Executor<D>,
    sessions: &mut D::Sessions,
    pkt: Packet<D::Mapping, D::Test>,
    r: Reaction,
)
    requires
        call_ensures(
            invariant_executor::Executor::<D>::process_next_packet,
            (guest, sessions, pkt),
            r,
        ),
    ensures
        final(guest).fn_registry == old(guest).fn_registry,
        match pkt {
            Packet::Configuration(cfg) => {
                &&& *final(sessions) == *old(sessions)
                &&& final(guest).deserializer_type == cfg.deserializer
                &&& cfg.deserializer == GrammarDeserializer::Disabled ==> {
                    &&& r == (Reaction::Stop { error: ExecutorError::NoDeserializerEnabled })
                    &&& final(guest).deserializer == old(guest).deserializer
                }
                &&& cfg.deserializer == GrammarDeserializer::SyzDecoder ==> {
                    &&& final(guest).deserializer is Some
                    &&& match r {
                        Reaction::Ack { code } => code == 0 && makes_deserializer(
                            old(guest).fn_registry@,
                            cfg.mapping,
                            final(guest).deserializer->0,
                            Ok(()),
                        ),
                        Reaction::Stop { error } => makes_deserializer(
                            old(guest).fn_registry@,
                            cfg.mapping,
                            final(guest).deserializer->0,
                            Err(error),
                        ),
                        _ => false,
                    }
                }
            },
            Packet::FuzzTest(test) => {
                &&& final(guest).deserializer_type == old(guest).deserializer_type
                &&& match old(guest).deserializer {
                    None => {
                        &&& r == (Reaction::Stop { error: ExecutorError::NoDeserializerEnabled })
                        &&& final(guest).deserializer is None
                        &&& *final(sessions) == *old(sessions)
                    },
                    Some(d) => {
                        &&& final(guest).deserializer is Some
                        &&& match r {
                            Reaction::Ack { code } => exists|after: D::Test| #[trigger]
                                d.executed(
                                    (test, after),
                                    (*old(sessions), *final(sessions)),
                                    final(guest).deserializer->0,
                                    Ok(code),
                                ),
                            Reaction::Report { error } => exists|after: D::Test| #[trigger]
                                d.executed(
                                    (test, after),
                                    (*old(sessions), *final(sessions)),
                                    final(guest).deserializer->0,
                                    Err(error),
                                ),
                            _ => false,
                        }
                    },
                }
            },
            _ => {
                &&& r == (Reaction::Stop { error: ExecutorError::UnexpectedPacketReceived })
                &&& *final(guest) == *old(guest)
                &&& *final(sessions) == *old(sessions)
            },
        },
{
    match pkt {
        Packet::Configuration(cfg) => {
            let a = choose|a: core::result::Result<Option<Answer>, ExecutorError>| #[trigger]
                old(guest).configured(cfg, *final(guest), a) && r
                    == invariant_executor::Executor::<D>::reaction_to(a);
            if cfg.deserializer == GrammarDeserializer::SyzDecoder {
                match a {
                    Ok(_) => {
                        assert(executor::set_up(
                            old(guest).fn_registry@,
                            cfg.mapping,
                            final(guest).deserializer->0,
                            Ok(()),
                        ));
                        assert(makes_deserializer(
                            old(guest).fn_registry@,
                            cfg.mapping,
                            final(guest).deserializer->0,
                            Ok(()),
                        ));
                    },
                    Err(e) => {
                        assert(makes_deserializer(
                            old(guest).fn_registry@,
                            cfg.mapping,
                            final(guest).deserializer->0,
                            Err(e),
                        ));
                    },
                }
            }
        },
        Packet::FuzzTest(test) => {
            let (a, after) = choose|
                a: core::result::Result<Option<Answer>, ExecutorError>,
                after: D::Test,
            | #[trigger]
                old(guest).ran(
                    (*old(sessions), *final(sessions)),
                    (test, after),
                    *final(guest),
                    a,
                ) && r == invariant_executor::Executor::<D>::reaction_to(a);
            if old(guest).deserializer is Some {
                let d = old(guest).deserializer->0;
                let next = final(guest).deserializer->0;
                let through = (*old(sessions), *final(sessions));
                match r {
                    Reaction::Ack { code } => assert(d.executed(
                        (test, after),
                        through,
                        next,
                        Ok(code),
                    )),
                    Reaction::Report { error } => assert(d.executed(
                        (test, after),
                        through,
                        next,
                        Err(error),
                    )),
                    _ => {},
                }
            }
        },
        _ => {},
    }
}

/// Law: each handler of a packet on its own; what a guest does not expect is
/// refused and changes nothing.
pub proof fn law_packets_refused<D: Deserializer>(
    guest: &mut Executor<D>,
    other: &mut invariant_executor::Executor<D>,
    r: core::result::Result<Option<Answer>, ExecutorError>,
    s: core::result::Result<Option<Answer>, ExecutorError>,
)
    requires
        call_ensures(Executor::<D>::on_receive_ack_packet, (guest,), r) || call_ensures(
            Executor::<D>::on_receive_error_packet,
            (guest,),
            r,
        ),
        call_ensures(invariant_executor::Executor::<D>::on_recieve_ack_packet, (other,), s)
            || call_ensures(
            invariant_executor::Executor::<D>::on_recieve_error_packet,
            (other,),
            s,
        ),
    ensures
        r is Err,
        r->Err_0 is UnexpectedPacketReceived,
        *final(guest) == *old(guest),
        s is Err,
        s->Err_0 is UnexpectedPacketReceived,
        *final(other) == *old(other),
{
}

/// Law: a slot of a page image that starts at address 0 is 256 bytes of it,
/// or none where it is not all there; clearing it zeroes the first four.
pub proof fn law_image_slots(
    image: &mut Vec<u8>,
    gpa: u64,
    r: Vec<u8>,
    cleared: &mut Vec<u8>,
    i: int,
)
    requires
        call_ensures(<Vec<u8> as SimpMem>::read_message_slot, (image, gpa), r),
        call_ensures(<Vec<u8> as SimpMem>::clear_message_slot, (cleared, gpa), ()),
        0 <= i < old(cleared)@.len(),
    ensures
        final(image)@ == old(image)@,
        gpa + 256 > old(image)@.len() ==> r@.len() == 0,
        gpa + 256 <= old(image)@.len() ==> {
            &&& r@.len() == 256
            &&& forall|k: int| 0 <= k < 256 ==> #[trigger] r@[k] == old(image)@[gpa + k]
        },
        final(cleared)@.len() == old(cleared)@.len(),
        final(cleared)@[i] == (if gpa + 256 <= old(cleared)@.len() && gpa <= i < gpa + 4 {
            0
        } else {
            old(cleared)@[i]
        }),
{
}

/// Law: the handler that is registered hears of a result; without one nothing
/// happens.
pub proof fn law_result_dispatched<H: ConnectResultHandler>(
    slot: &mut Option<H>,
    result: &TlConnectResult,
)
    requires
        call_ensures(dispatch_connect_result::<H>, (slot, result), ()),
    ensures
        *old(slot) is None <==> *final(slot) is None,
        *old(slot) is Some ==> old(slot)->0.handled(*result, final(slot)->0),
{
}

/// Law: numbers are written one after the other, eight bytes each, behind
/// what is there.
pub proof fn law_numbers_written(values: &[u64], out: &mut Vec<u8>, i: int)
    requires
        call_ensures(write_u64s, (values, out), ()),
    ensures
        final(out)@.len() == old(out)@.len() + 8 * values@.len(),
        final(out)@.take(old(out)@.len() as int) == old(out)@,
        0 <= i < values@.len() ==> layout::word64(final(out)@, old(out)@.len() + 8 * i) == values@[i],
{
    lemma_numbers(values@, old(out)@, i);
    assert((old(out)@ + wire::u64s(values@)).take(old(out)@.len() as int) =~= old(out)@);
}

proof fn lemma_numbers(values: Seq<u64>, front: Seq<u8>, i: int)
    ensures
        wire::u64s(values).len() == 8 * values.len(),
        0 <= i < values.len() ==> layout::word64(front + wire::u64s(values), front.len() + 8 * i)
            == values[i],
    decreases values.len(),
{
    if values.len() > 0 {
        let rest = values.drop_last();
        let v = values.last();
        lemma_numbers(rest, front, i);
        v.lemma_wire_len();
        let a = front + wire::u64s(rest);
        let b = front + wire::u64s(values);
        assert(b =~= a + v.wire());
        if 0 <= i < rest.len() {
            let at = front.len() + 8 * i;
            assert(b[at] == a[at] && b[at + 1] == a[at + 1] && b[at + 2] == a[at + 2] && b[at + 3]
                == a[at + 3] && b[at + 4] == a[at + 4] && b[at + 5] == a[at + 5] && b[at + 6]
                == a[at + 6] && b[at + 7] == a[at + 7]);
        }
        if i == rest.len() {
            let at = front.len() + 8 * i;
            assert(b.subrange(at, at + 8) =~= v.wire());
            layout::law_word64(v, b, at);
        }
    }
}

/// Law: user data that is all zeroes is abbreviated; otherwise its text holds
/// two digits for each byte, the upper one first.
pub proof fn law_data_text(data: &UserDefinedData, r: String, i: int)
    requires
        call_ensures(UserDefinedData::debug_text, (data,), r),
        0 <= i < 120,
    ensures
        data.0@ == wire::zeros(120) ==> r@ == "UserDefinedData([<all-zeroes>])"@,
        data.0@ != wire::zeros(120) ==> {
            &&& r@.len() == 259
            &&& r@.take(17) == "UserDefinedData(["@
            &&& r@[17 + 2 * i] == "0123456789ABCDEF"@[data.0@[i] as int / 16]
            &&& r@[18 + 2 * i] == "0123456789ABCDEF"@[data.0@[i] as int % 16]
            &&& r@.skip(257) == "])"@
        },
{
    reveal_strlit("UserDefinedData([");
    reveal_strlit("])");
    assert(data.all_zero() ==> data.0@ =~= wire::zeros(120));
    if data.0@ == wire::zeros(120) {
        assert(data.all_zero());
    } else {
        assert(!data.all_zero());
        let t = protocol::hex_text(data.0@);
        lemma_digits(data.0@, i);
        assert(r@ == "UserDefinedData(["@ + t + "])"@);
        assert(r@.take(17) =~= "UserDefinedData(["@);
        assert(r@.skip(257) =~= "])"@);
        assert(r@[17 + 2 * i] == t[2 * i]);
        assert(r@[18 + 2 * i] == t[2 * i + 1]);
    }
}

proof fn lemma_digit(n: u8)
    requires
        n < 16,
    ensures
        protocol::digit_text(n).len() == 1,
        protocol::digit_text(n)[0] == "0123456789ABCDEF"@[n as int],
{
    reveal_strlit("0123456789ABCDEF");
    reveal_strlit("0");
    reveal_strlit("1");
    reveal_strlit("2");
    reveal_strlit("3");
    reveal_strlit("4");
    reveal_strlit("5");
    reveal_strlit("6");
    reveal_strlit("7");
    reveal_strlit("8");
    reveal_strlit("9");
    reveal_strlit("A");
    reveal_strlit("B");
    reveal_strlit("C");
    reveal_strlit("D");
    reveal_strlit("E");
    reveal_strlit("F");
}

proof fn lemma_digits(bytes: Seq<u8>, i: int)
    ensures
        protocol::hex_text(bytes).len() == 2 * bytes.len(),
        0 <= i < bytes.len() ==> {
            &&& protocol::hex_text(bytes)[2 * i] == "0123456789ABCDEF"@[bytes[i] as int / 16]
            &&& protocol::hex_text(bytes)[2 * i + 1] == "0123456789ABCDEF"@[bytes[i] as int % 16]
        },
    decreases bytes.len(),
{
    if bytes.len() > 0 {
        lemma_digits(bytes.drop_last(), i);
        lemma_digit(bytes.last() / 16);
        lemma_digit(bytes.last() % 16);
    }
}

} // verus!
