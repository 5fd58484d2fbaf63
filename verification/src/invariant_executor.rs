//! The packet loop of the invariant guest.
//!
//! It speaks the protocol of [`crate::executor`], but a testcase that
//! fails is reported to the host and the loop goes on, no session is
//! reset between testcases, and an error in the protocol itself stops the
//! loop without a report.
use crate::executor;
use crate::executor::register_common_functions;
use crate::executor::register_port_functions;
use crate::executor::Answer;
use crate::executor::ConfigurationPacket;
use crate::executor::Deserializer;
use crate::executor::ExecutorError;
use crate::executor::FunctionRegistry;
use crate::executor::FuzzFunction;
use crate::executor::GrammarDeserializer;
use crate::executor::Packet;
use crate::executor::Reaction;
use crate::executor::Sessions;
use vstd::prelude::*;

verus! {

/// Handles the packets of the fuzzer's protocol.
pub struct Executor<D: Deserializer> {
    pub deserializer_type: GrammarDeserializer,
    pub deserializer: Option<D>,
    pub fn_registry: FunctionRegistry,
}

impl<D: Deserializer> Executor<D> {
    /// Nothing is set up yet.
    pub fn new() -> (r: Self)
        ensures
            r.deserializer_type == GrammarDeserializer::Disabled,
            r.deserializer is None,
            r.fn_registry@ == Seq::<(&'static str, FuzzFunction)>::empty(),
    {
        Executor {
            deserializer_type: GrammarDeserializer::Disabled,
            deserializer: None,
            fn_registry: FunctionRegistry::new(),
        }
    }

    /// Register the functions.
    pub fn register_fuzz_functions(&mut self)
        ensures
            final(self).deserializer_type == old(self).deserializer_type,
            final(self).deserializer == old(self).deserializer,
            final(self).fn_registry@ == old(self).fn_registry@ + executor::port_functions()
                + executor::common_functions(),
    {
        register_port_functions(&mut self.fn_registry);
        register_common_functions(&mut self.fn_registry);
    }

    /// A configuration selects the deserializer and sets it up. The choice
    /// is recorded first, and the new deserializer takes the old one's
    /// place even where its mapping is refused.
    pub open spec fn configured(
        self,
        pkt: ConfigurationPacket<D::Mapping>,
        next: Self,
        r: core::result::Result<Option<Answer>, ExecutorError>,
    ) -> bool {
        &&& next.deserializer_type == pkt.deserializer
        &&& next.fn_registry == self.fn_registry
        &&& match pkt.deserializer {
            GrammarDeserializer::Disabled => {
                &&& r == Err::<Option<Answer>, ExecutorError>(ExecutorError::NoDeserializerEnabled)
                &&& next.deserializer == self.deserializer
            },
            GrammarDeserializer::SyzDecoder => {
                &&& next.deserializer is Some
                &&& match r {
                    Ok(answer) => {
                        &&& answer == Some(Answer::Ack { code: 0 })
                        &&& executor::set_up(
                            self.fn_registry@,
                            pkt.mapping,
                            next.deserializer->0,
                            Ok(()),
                        )
                    },
                    Err(e) => executor::set_up(
                        self.fn_registry@,
                        pkt.mapping,
                        next.deserializer->0,
                        Err(e),
                    ),
                }
            },
        }
    }

    /// Handle a configuration.
    pub fn on_receive_configuration_packet(
        &mut self,
        pkt: &ConfigurationPacket<D::Mapping>,
    ) -> (r: core::result::Result<Option<Answer>, ExecutorError>)
        ensures
            old(self).configured(*pkt, *final(self), r),
    {
        self.deserializer_type = pkt.deserializer;
        match self.deserializer_type {
            GrammarDeserializer::Disabled => Err(ExecutorError::NoDeserializerEnabled),
            GrammarDeserializer::SyzDecoder => {
                let (deserializer, mapped) = executor::make_deserializer::<D>(
                    &self.fn_registry,
                    &pkt.mapping,
                );
                self.deserializer = Some(deserializer);
                proof {
                    assert(mapped is Ok ==> mapped->Ok_0 == ());
                }
                match mapped {
                    Ok(()) => Ok(Some(Answer::Ack { code: 0 })),
                    Err(e) => Err(e),
                }
            },
        }
    }

    /// A testcase is run by the deserializer over the sessions as they are;
    /// one that fails is answered with the error.
    pub open spec fn ran(
        self,
        sessions: (D::Sessions, D::Sessions),
        test: (D::Test, D::Test),
        next: Self,
        r: core::result::Result<Option<Answer>, ExecutorError>,
    ) -> bool {
        &&& next.deserializer_type == self.deserializer_type
        &&& next.fn_registry == self.fn_registry
        &&& match self.deserializer {
            None => {
                &&& r == Err::<Option<Answer>, ExecutorError>(ExecutorError::NoDeserializerEnabled)
                &&& next.deserializer is None
                &&& test.1 == test.0
                &&& sessions.1 == sessions.0
            },
            Some(d) => {
                &&& next.deserializer is Some
                &&& r matches Ok(Some(answer))
                &&& match answer {
                    Answer::Ack { code } => d.executed(
                        test,
                        sessions,
                        next.deserializer->0,
                        Ok(code),
                    ),
                    Answer::Error { error } => d.executed(
                        test,
                        sessions,
                        next.deserializer->0,
                        Err(error),
                    ),
                }
            },
        }
    }

    /// Run a testcase.
    pub fn on_receive_fuzz_test_packet(
        &mut self,
        sessions: &mut D::Sessions,
        test: &mut D::Test,
    ) -> (r: core::result::Result<Option<Answer>, ExecutorError>)
        requires
            old(sessions).ready(),
        ensures
            final(sessions).ready(),
            old(self).ran(
                (*old(sessions), *final(sessions)),
                (*old(test), *final(test)),
                *final(self),
                r,
            ),
    {
        match self.deserializer.take() {
            None => Err(ExecutorError::NoDeserializerEnabled),
            Some(mut d) => {
                let done = d.deserialize_and_execute(test, sessions);
                self.deserializer = Some(d);
                match done {
                    Ok(code) => Ok(Some(Answer::Ack { code })),
                    Err(error) => Ok(Some(Answer::Error { error })),
                }
            },
        }
    }

    /// The host does not acknowledge anything.
    pub fn on_recieve_ack_packet(&mut self) -> (r: core::result::Result<
        Option<Answer>,
        ExecutorError,
    >)
        ensures
            r == Err::<Option<Answer>, ExecutorError>(ExecutorError::UnexpectedPacketReceived),
            *final(self) == *old(self),
    {
        Err(ExecutorError::UnexpectedPacketReceived)
    }

    /// The host does not report errors.
    pub fn on_recieve_error_packet(&mut self) -> (r: core::result::Result<
        Option<Answer>,
        ExecutorError,
    >)
        ensures
            r == Err::<Option<Answer>, ExecutorError>(ExecutorError::UnexpectedPacketReceived),
            *final(self) == *old(self),
    {
        Err(ExecutorError::UnexpectedPacketReceived)
    }

    /// What the transport does about an answer: an error stops the
    /// executor.
    pub open spec fn reaction_to(
        r: core::result::Result<Option<Answer>, ExecutorError>,
    ) -> Reaction {
        match r {
            Ok(None) => Reaction::Continue,
            Ok(Some(Answer::Ack { code })) => Reaction::Ack { code },
            Ok(Some(Answer::Error { error })) => Reaction::Report { error },
            Err(error) => Reaction::Stop { error },
        }
    }

    /// Handle the next packet that the transport read.
    pub fn process_next_packet(
        &mut self,
        sessions: &mut D::Sessions,
        pkt: Packet<D::Mapping, D::Test>,
    ) -> (r: Reaction)
        requires
            old(sessions).ready(),
        ensures
            final(sessions).ready(),
            match pkt {
                Packet::Configuration(cfg) => {
                    &&& *final(sessions) == *old(sessions)
                    &&& exists|a: core::result::Result<Option<Answer>, ExecutorError>| #[trigger]
                        old(self).configured(cfg, *final(self), a) && r == Self::reaction_to(a)
                },
                Packet::FuzzTest(test) => exists|
                    a: core::result::Result<Option<Answer>, ExecutorError>,
                    after: D::Test,
                | #[trigger]
                    old(self).ran(
                        (*old(sessions), *final(sessions)),
                        (test, after),
                        *final(self),
                        a,
                    ) && r == Self::reaction_to(a),
                _ => {
                    &&& *final(sessions) == *old(sessions)
                    &&& *final(self) == *old(self)
                    &&& r == (Reaction::Stop { error: ExecutorError::UnexpectedPacketReceived })
                },
            },
    {
        let answer = match pkt {
            Packet::Configuration(cfg) => {
                let a = self.on_receive_configuration_packet(&cfg);
                proof {
                    assert(old(self).configured(cfg, *self, a));
                }
                a
            },
            Packet::FuzzTest(test) => {
                let ghost first = test;
                let mut test = test;
                let a = self.on_receive_fuzz_test_packet(sessions, &mut test);
                proof {
                    assert(old(self).ran((*old(sessions), *sessions), (first, test), *self, a));
                }
                a
            },
            Packet::Ack { code: _ } => self.on_recieve_ack_packet(),
            Packet::Error { error: _ } => self.on_recieve_error_packet(),
        };
        match answer {
            Ok(None) => Reaction::Continue,
            Ok(Some(Answer::Ack { code })) => Reaction::Ack { code },
            Ok(Some(Answer::Error { error })) => Reaction::Report { error },
            Err(error) => Reaction::Stop { error },
        }
    }
}

} // verus!
