//! The packet loop between the fuzzer on the host and the handlers in the
//! guest.
//!
//! The host configures the executor with the deserializer for its grammar
//! and then sends one packet per testcase. The transport reads a packet,
//! hands it to the [`Executor`], and does what the [`Reaction`] says.
use vstd::prelude::*;

verus! {

/// Why the executor stopped.
#[derive(Debug)]
pub enum ExecutorError {
    HandshakeInvalidSynMagic,
    HandshakeInvalidSynAckMagic,
    PacketInvalidHeaderMagic,
    PacketInvalidFooterMagic,
    PacketPayloadDeserializeFailed,
    PacketPayloadSerializeFailed,
    UnexpectedPacketReceived,
    NoDeserializerEnabled,
    SyzlangDeserializerFailed(String),
    DecoderMappingsDeserializeFailed,
    DeserializerUnset,
}

/// The grammar a testcase is written in.
#[derive(Copy, Clone, Debug, PartialEq, Eq, Structural)]
pub enum GrammarDeserializer {
    /// No grammar.
    Disabled,
    SyzDecoder,
}

/// Sets the executor up.
pub struct ConfigurationPacket<P> {
    pub deserializer: GrammarDeserializer,
    /// What the grammar's names stand for.
    pub mapping: P,
}

/// A packet of the executor's protocol. `P` is what a configuration
/// brings, `T` a testcase.
pub enum Packet<P, T> {
    Configuration(ConfigurationPacket<P>),
    FuzzTest(T),
    Ack { code: u64 },
    Error { error: ExecutorError },
}

/// What the transport does next.
pub enum Reaction {
    /// Nothing: read the next packet.
    Continue,
    /// Acknowledge the packet with this code.
    Ack { code: u64 },
    /// Report the error, and read the next packet.
    Report { error: ExecutorError },
    /// Report the error, and stop with it.
    ReportAndStop { error: ExecutorError },
    /// Stop with the error.
    Stop { error: ExecutorError },
}

/// An answer for the host.
pub enum Answer {
    Ack { code: u64 },
    Error { error: ExecutorError },
}

/// The functions that a testcase can call.
#[derive(Copy, Clone, Debug, PartialEq, Eq, Structural)]
pub enum FuzzFunction {
    PortWrite8,
    PortWrite16,
    PortWrite32,
    PortRead8,
    PortRead16,
    PortRead32,
    Hvcall,
    SendNvsp,
    SendRndis,
    OpenChannel,
    RenewBuffer,
    VmbusMsg,
    VmbusMsgComp,
    VmbusPacket,
    VmbusReopenChannel,
    VmbusFillRelids,
}

/// The functions by name, in the order in which they were registered.
pub struct FunctionRegistry {
    pub functions: Vec<(&'static str, FuzzFunction)>,
}

impl View for FunctionRegistry {
    type V = Seq<(&'static str, FuzzFunction)>;

    open spec fn view(&self) -> Seq<(&'static str, FuzzFunction)> {
        self.functions@
    }
}

impl FunctionRegistry {
    /// No functions yet.
    pub fn new() -> (r: Self)
        ensures
            r@ == Seq::<(&'static str, FuzzFunction)>::empty(),
    {
        FunctionRegistry { functions: Vec::new() }
    }

    /// Register `function` under `name`.
    pub fn register(&mut self, name: &'static str, function: FuzzFunction)
        ensures
            final(self)@ == old(self)@.push((name, function)),
    {
        self.functions.push((name, function));
    }
}

/// Turns testcases into calls. The relations say what an implementation
/// does.
pub trait Deserializer: Sized {
    /// What a configuration brings.
    type Mapping;

    /// A testcase.
    type Test;

    /// What the functions that a testcase calls work on.
    type Sessions: Sessions;

    /// `self` is new. By default nothing is known of this, nor of the other
    /// relations.
    open spec fn created(self) -> bool {
        true
    }

    /// Giving `self` the functions leaves `next`.
    open spec fn registered(
        self,
        functions: Seq<(&'static str, FuzzFunction)>,
        next: Self,
    ) -> bool {
        true
    }

    /// Giving `self` the mapping comes to `r` and leaves `next`.
    open spec fn mapped(
        self,
        mapping: Self::Mapping,
        next: Self,
        r: core::result::Result<(), ExecutorError>,
    ) -> bool {
        true
    }

    /// Running the first testcase over the first sessions comes to `r`, turns
    /// it and them into the second, and leaves `next`.
    open spec fn executed(
        self,
        test: (Self::Test, Self::Test),
        sessions: (Self::Sessions, Self::Sessions),
        next: Self,
        r: core::result::Result<u64, ExecutorError>,
    ) -> bool {
        true
    }

    /// A new deserializer.
    fn new() -> (r: Self)
        ensures
            r.created(),
    ;

    /// The functions that testcases can call.
    fn set_function_registry(&mut self, registry: &FunctionRegistry)
        ensures
            old(self).registered(registry@, *final(self)),
    ;

    /// What the grammar's names stand for.
    fn set_mappings(&mut self, mapping: &Self::Mapping) -> (r: core::result::Result<
        (),
        ExecutorError,
    >)
        ensures
            old(self).mapped(*mapping, *final(self), r),
    ;

    /// Run a testcase. The functions that it calls work on `sessions`.
    fn deserialize_and_execute(
        &mut self,
        test: &mut Self::Test,
        sessions: &mut Self::Sessions,
    ) -> (r: core::result::Result<u64, ExecutorError>)
        requires
            old(sessions).ready(),
        ensures
            final(sessions).ready(),
            old(self).executed(
                (*old(test), *final(test)),
                (*old(sessions), *final(sessions)),
                *final(self),
                r,
            ),
    ;
}

/// The handlers' sessions, as far as testcase boundaries are concerned.
pub trait Sessions: Sized {
    /// The sessions have the shape that resetting them asks for. By default
    /// any has.
    open spec fn ready(self) -> bool {
        true
    }

    /// Resetting `self` leaves `next`. By default nothing is known of it.
    open spec fn reset_to(self, next: Self) -> bool {
        true
    }

    /// Reset every session, so that a testcase starts from a clean slate.
    fn reset(&mut self)
        requires
            old(self).ready(),
        ensures
            final(self).ready(),
            old(self).reset_to(*final(self)),
    ;
}

/// The sessions were reset, and then `d` ran the testcase over what the
/// reset left.
pub open spec fn reset_and_run<D: Deserializer>(
    d: D,
    sessions: (D::Sessions, D::Sessions),
    test: (D::Test, D::Test),
    next: D,
    r: core::result::Result<u64, ExecutorError>,
) -> bool {
    exists|reset: D::Sessions| #[trigger]
        sessions.0.reset_to(reset) && d.executed(test, (reset, sessions.1), next, r)
}

/// The reset, and the run after it.
proof fn lemma_reset_and_run<D: Deserializer>(
    d: D,
    sessions: (D::Sessions, D::Sessions),
    test: (D::Test, D::Test),
    next: D,
    r: core::result::Result<u64, ExecutorError>,
    reset: D::Sessions,
)
    requires
        sessions.0.reset_to(reset),
        d.executed(test, (reset, sessions.1), next, r),
    ensures
        reset_and_run(d, sessions, test, next, r),
{
}

/// A deserializer set up with these functions and this mapping came to
/// `r` and is now `next`.
pub open spec fn set_up<D: Deserializer>(
    functions: Seq<(&'static str, FuzzFunction)>,
    mapping: D::Mapping,
    next: D,
    r: core::result::Result<(), ExecutorError>,
) -> bool {
    exists|first: D, mid: D|
        first.created() && #[trigger] first.registered(functions, mid) && mid.mapped(
            mapping,
            next,
            r,
        )
}

/// Make a deserializer and set it up.
pub fn make_deserializer<D: Deserializer>(
    registry: &FunctionRegistry,
    mapping: &D::Mapping,
) -> (r: (D, core::result::Result<(), ExecutorError>))
    ensures
        set_up(registry@, *mapping, r.0, r.1),
{
    let mut d = D::new();
    let ghost first = d;
    d.set_function_registry(registry);
    let ghost mid = d;
    proof {
        assert(first.registered(registry@, mid));
    }
    let mapped = d.set_mappings(mapping);
    (d, mapped)
}

/// The functions that every machine has, in order.
pub open spec fn common_functions() -> Seq<(&'static str, FuzzFunction)> {
    seq![
        ("hvcall", FuzzFunction::Hvcall),
        ("send_nvsp", FuzzFunction::SendNvsp),
        ("send_rndis", FuzzFunction::SendRndis),
        ("open_channel", FuzzFunction::OpenChannel),
        ("renew_buffer", FuzzFunction::RenewBuffer),
    ]
}

/// The functions for the VMBus protocol, in order.
pub open spec fn vmbus_functions() -> Seq<(&'static str, FuzzFunction)> {
    seq![
        ("vmbus_msg", FuzzFunction::VmbusMsg),
        ("vmbus_msg_comp", FuzzFunction::VmbusMsgComp),
        ("vmbus_packet", FuzzFunction::VmbusPacket),
        ("vmbus_reopen_channel", FuzzFunction::VmbusReopenChannel),
        ("vmbus_fill_relids", FuzzFunction::VmbusFillRelids),
    ]
}

/// The functions for I/O ports, in order.
pub open spec fn port_functions() -> Seq<(&'static str, FuzzFunction)> {
    seq![
        ("port_write8", FuzzFunction::PortWrite8),
        ("port_write16", FuzzFunction::PortWrite16),
        ("port_write32", FuzzFunction::PortWrite32),
        ("port_read8", FuzzFunction::PortRead8),
        ("port_read16", FuzzFunction::PortRead16),
        ("port_read32", FuzzFunction::PortRead32),
    ]
}

/// Every function there is, in order.
pub open spec fn all_functions() -> Seq<(&'static str, FuzzFunction)> {
    port_functions() + common_functions() + vmbus_functions()
}

/// Law: no name is registered twice, and no function under two names.
pub proof fn law_names_distinct(i: int, j: int)
    requires
        0 <= i < j < all_functions().len(),
    ensures
        all_functions()[i].0@ != all_functions()[j].0@,
        all_functions()[i].1 != all_functions()[j].1,
{
    reveal_strlit("port_write8");
    reveal_strlit("port_write16");
    reveal_strlit("port_write32");
    reveal_strlit("port_read8");
    reveal_strlit("port_read16");
    reveal_strlit("port_read32");
    reveal_strlit("hvcall");
    reveal_strlit("send_nvsp");
    reveal_strlit("send_rndis");
    reveal_strlit("open_channel");
    reveal_strlit("renew_buffer");
    reveal_strlit("vmbus_msg");
    reveal_strlit("vmbus_msg_comp");
    reveal_strlit("vmbus_packet");
    reveal_strlit("vmbus_reopen_channel");
    reveal_strlit("vmbus_fill_relids");
    let a = all_functions()[i].0@;
    let b = all_functions()[j].0@;
    assert(a.len() != b.len() || a[0] != b[0] || a[5] != b[5] || a[9] != b[9] || a[10] != b[10]);
}

/// Register the functions for I/O ports.
pub fn register_port_functions(registry: &mut FunctionRegistry)
    ensures
        final(registry)@ == old(registry)@ + port_functions(),
{
    registry.register("port_write8", FuzzFunction::PortWrite8);
    registry.register("port_write16", FuzzFunction::PortWrite16);
    registry.register("port_write32", FuzzFunction::PortWrite32);
    registry.register("port_read8", FuzzFunction::PortRead8);
    registry.register("port_read16", FuzzFunction::PortRead16);
    registry.register("port_read32", FuzzFunction::PortRead32);
    proof {
        assert(registry@ =~= old(registry)@ + port_functions());
    }
}

/// Register the functions that every machine has.
pub fn register_common_functions(registry: &mut FunctionRegistry)
    ensures
        final(registry)@ == old(registry)@ + common_functions(),
{
    registry.register("hvcall", FuzzFunction::Hvcall);
    registry.register("send_nvsp", FuzzFunction::SendNvsp);
    registry.register("send_rndis", FuzzFunction::SendRndis);
    registry.register("open_channel", FuzzFunction::OpenChannel);
    registry.register("renew_buffer", FuzzFunction::RenewBuffer);
    proof {
        assert(registry@ =~= old(registry)@ + common_functions());
    }
}

/// Register the functions for the VMBus protocol.
pub fn register_vmbus_functions(registry: &mut FunctionRegistry)
    ensures
        final(registry)@ == old(registry)@ + vmbus_functions(),
{
    registry.register("vmbus_msg", FuzzFunction::VmbusMsg);
    registry.register("vmbus_msg_comp", FuzzFunction::VmbusMsgComp);
    registry.register("vmbus_packet", FuzzFunction::VmbusPacket);
    registry.register("vmbus_reopen_channel", FuzzFunction::VmbusReopenChannel);
    registry.register("vmbus_fill_relids", FuzzFunction::VmbusFillRelids);
    proof {
        assert(registry@ =~= old(registry)@ + vmbus_functions());
    }
}

/// Handles the packets of the fuzzer's protocol.
pub struct Executor<D: Deserializer> {
    pub deserializer_type: GrammarDeserializer,
    pub deserializer: Option<D>,
    pub fn_registry: FunctionRegistry,
}

impl<D: Deserializer> Executor<D> {
    /// Nothing is set up yet.
    pub fn new() -> (r: Self)
        ensures
            r.deserializer_type == GrammarDeserializer::Disabled,
            r.deserializer is None,
            r.fn_registry@ == Seq::<(&'static str, FuzzFunction)>::empty(),
    {
        Executor {
            deserializer_type: GrammarDeserializer::Disabled,
            deserializer: None,
            fn_registry: FunctionRegistry::new(),
        }
    }

    /// Register every function; those for I/O ports only where the machine
    /// has `ports`.
    pub fn register_fuzz_functions(&mut self, ports: bool)
        ensures
            final(self).deserializer_type == old(self).deserializer_type,
            final(self).deserializer == old(self).deserializer,
            final(self).fn_registry@ == old(self).fn_registry@ + (if ports {
                port_functions()
            } else {
                Seq::empty()
            }) + common_functions() + vmbus_functions(),
    {
        if ports {
            register_port_functions(&mut self.fn_registry);
        }
        register_common_functions(&mut self.fn_registry);
        register_vmbus_functions(&mut self.fn_registry);
        proof {
            if !ports {
                assert(old(self).fn_registry@ + Seq::empty() =~= old(self).fn_registry@);
            }
        }
    }

    /// A configuration selects the deserializer and sets it up. A new one
    /// is made each time, and takes the old one's place only once it is
    /// set up.
    pub open spec fn configured(
        self,
        pkt: ConfigurationPacket<D::Mapping>,
        next: Self,
        r: core::result::Result<Option<Answer>, ExecutorError>,
    ) -> bool {
        match pkt.deserializer {
            GrammarDeserializer::Disabled => {
                &&& r == Err::<Option<Answer>, ExecutorError>(ExecutorError::NoDeserializerEnabled)
                &&& next == self
            },
            GrammarDeserializer::SyzDecoder => match r {
                Ok(answer) => {
                    &&& answer == Some(Answer::Ack { code: 0 })
                    &&& next.deserializer_type == pkt.deserializer
                    &&& next.deserializer is Some
                    &&& next.fn_registry == self.fn_registry
                    &&& set_up(
                        self.fn_registry@,
                        pkt.mapping,
                        next.deserializer->0,
                        Ok(()),
                    )
                },
                Err(e) => next == self && exists|d: D| #[trigger]
                    set_up(self.fn_registry@, pkt.mapping, d, Err(e)),
            },
        }
    }

    /// Handle a configuration.
    pub fn on_receive_configuration_packet(
        &mut self,
        pkt: &ConfigurationPacket<D::Mapping>,
    ) -> (r: core::result::Result<Option<Answer>, ExecutorError>)
        ensures
            old(self).configured(*pkt, *final(self), r),
    {
        match pkt.deserializer {
            GrammarDeserializer::Disabled => Err(ExecutorError::NoDeserializerEnabled),
            GrammarDeserializer::SyzDecoder => {
                let (deserializer, mapped) = make_deserializer::<D>(
                    &self.fn_registry,
                    &pkt.mapping,
                );
                proof {
                    assert(set_up(self.fn_registry@, pkt.mapping, deserializer, mapped));
                    assert(mapped is Ok ==> mapped->Ok_0 == ());
                }
                match mapped {
                    Ok(()) => {
                        self.deserializer_type = pkt.deserializer;
                        self.deserializer = Some(deserializer);
                        Ok(Some(Answer::Ack { code: 0 }))
                    },
                    Err(e) => Err(e),
                }
            },
        }
    }

    /// The sessions are reset, and then the testcase is run by the
    /// deserializer over what the reset left.
    pub open spec fn ran(
        self,
        sessions: (D::Sessions, D::Sessions),
        test: (D::Test, D::Test),
        next: Self,
        r: core::result::Result<Option<Answer>, ExecutorError>,
    ) -> bool {
        &&& next.deserializer_type == self.deserializer_type
        &&& next.fn_registry == self.fn_registry
        &&& match self.deserializer {
            None => {
                &&& sessions.0.reset_to(sessions.1)
                &&& r == Err::<Option<Answer>, ExecutorError>(ExecutorError::NoDeserializerEnabled)
                &&& next.deserializer is None
                &&& test.1 == test.0
            },
            Some(d) => {
                &&& next.deserializer is Some
                &&& match r {
                    Ok(answer) => {
                        &&& answer matches Some(Answer::Ack { code })
                        &&& reset_and_run(d, sessions, test, next.deserializer->0, Ok(code))
                    },
                    Err(e) => reset_and_run(d, sessions, test, next.deserializer->0, Err(e)),
                }
            },
        }
    }

    /// Run a testcase. The sessions are reset first, so that no state (a
    /// wedged send ring, a revoked buffer) leaks from one testcase into
    /// the next.
    pub fn on_receive_fuzz_test_packet(
        &mut self,
        sessions: &mut D::Sessions,
        test: &mut D::Test,
    ) -> (r: core::result::Result<Option<Answer>, ExecutorError>)
        requires
            old(sessions).ready(),
        ensures
            final(sessions).ready(),
            old(self).ran(
                (*old(sessions), *final(sessions)),
                (*old(test), *final(test)),
                *final(self),
                r,
            ),
    {
        sessions.reset();
        let ghost reset = *sessions;
        match self.deserializer.take() {
            None => Err(ExecutorError::NoDeserializerEnabled),
            Some(mut d) => {
                let ghost before = d;
                let done = d.deserialize_and_execute(test, sessions);
                proof {
                    lemma_reset_and_run(
                        before,
                        (*old(sessions), *sessions),
                        (*old(test), *test),
                        d,
                        done,
                        reset,
                    );
                }
                self.deserializer = Some(d);
                match done {
                    Ok(code) => Ok(Some(Answer::Ack { code })),
                    Err(e) => Err(e),
                }
            },
        }
    }

    /// The host does not acknowledge anything.
    pub fn on_receive_ack_packet(&mut self) -> (r: core::result::Result<Option<Answer>, ExecutorError>)
        ensures
            r == Err::<Option<Answer>, ExecutorError>(ExecutorError::UnexpectedPacketReceived),
            *final(self) == *old(self),
    {
        Err(ExecutorError::UnexpectedPacketReceived)
    }

    /// The host does not report errors.
    pub fn on_receive_error_packet(&mut self) -> (r: core::result::Result<Option<Answer>, ExecutorError>)
        ensures
            r == Err::<Option<Answer>, ExecutorError>(ExecutorError::UnexpectedPacketReceived),
            *final(self) == *old(self),
    {
        Err(ExecutorError::UnexpectedPacketReceived)
    }

    /// What the transport does about an answer: an error is reported, and
    /// then the executor stops.
    pub open spec fn reaction_to(r: core::result::Result<Option<Answer>, ExecutorError>) -> Reaction {
        match r {
            Ok(None) => Reaction::Continue,
            Ok(Some(Answer::Ack { code })) => Reaction::Ack { code },
            Ok(Some(Answer::Error { error })) => Reaction::Report { error },
            Err(error) => Reaction::ReportAndStop { error },
        }
    }

    /// Handle the next packet that the transport read.
    pub fn process_next_packet(
        &mut self,
        sessions: &mut D::Sessions,
        pkt: Packet<D::Mapping, D::Test>,
    ) -> (r: Reaction)
        requires
            old(sessions).ready(),
        ensures
            final(sessions).ready(),
            match pkt {
                Packet::Configuration(cfg) => {
                    &&& *final(sessions) == *old(sessions)
                    &&& exists|a: core::result::Result<Option<Answer>, ExecutorError>| #[trigger]
                        old(self).configured(cfg, *final(self), a) && r == Self::reaction_to(a)
                },
                Packet::FuzzTest(test) => exists|
                    a: core::result::Result<Option<Answer>, ExecutorError>,
                    after: D::Test,
                | #[trigger]
                    old(self).ran(
                        (*old(sessions), *final(sessions)),
                        (test, after),
                        *final(self),
                        a,
                    ) && r == Self::reaction_to(a),
                _ => {
                    &&& *final(sessions) == *old(sessions)
                    &&& *final(self) == *old(self)
                    &&& r == (Reaction::ReportAndStop {
                        error: ExecutorError::UnexpectedPacketReceived,
                    })
                },
            },
    {
        let answer = match pkt {
            Packet::Configuration(cfg) => {
                let a = self.on_receive_configuration_packet(&cfg);
                proof {
                    assert(old(self).configured(cfg, *self, a));
                }
                a
            },
            Packet::FuzzTest(test) => {
                let ghost first = test;
                let mut test = test;
                let a = self.on_receive_fuzz_test_packet(sessions, &mut test);
                proof {
                    assert(old(self).ran((*old(sessions), *sessions), (first, test), *self, a));
                }
                a
            },
            Packet::Ack { code: _ } => self.on_receive_ack_packet(),
            Packet::Error { error: _ } => self.on_receive_error_packet(),
        };
        match answer {
            Ok(None) => Reaction::Continue,
            Ok(Some(Answer::Ack { code })) => Reaction::Ack { code },
            Ok(Some(Answer::Error { error })) => Reaction::Report { error },
            Err(error) => Reaction::ReportAndStop { error },
        }
    }
}

} // verus!
