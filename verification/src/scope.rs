//! The typed operations of the stand.
//!
//! Each operation makes the exchange for its command: two letters that name
//! the subsystem and the verb, then the parameters in decimal, separated by
//! commas. An operation that asks for a value says how the response is to be
//! read; one that only sets a value expects no response. The range of a
//! position is checked before anything is made.

use vstd::prelude::*;
use crate::bytes::append_bytes;
use crate::decimal::{decimal_text, push_decimal};
use crate::error::{Fault, ScopeError};
use crate::exchange::{lemma_unanswered_never_reads, ActionView, EventView, Exchange, ExchangeView};
use crate::frame::{echo_of, framed, TERMINATOR};
use crate::reply::{lemma_number_comes_back, lemma_steps_come_back, Expect, ReplyView};
use crate::turret::ScopeTurret;
use crate::zeiss::{encode_zeiss, in_zeiss_range, zeiss_text};

verus! {

/// How a session with the controller is held.
#[derive(Debug, Clone, Copy, PartialEq, Eq, Structural)]
pub struct ScopeConfig {
    /// The speed of the serial link, in baud.
    pub baud_rate: u32,
    /// How long the controller may stay silent before a response is taken as
    /// it is, in milliseconds.
    pub timeout_ms: u64,
    /// How long to wait before looking again when nothing was there to read,
    /// in milliseconds.
    pub poll_interval_ms: u64,
}

impl ScopeConfig {
    /// The settings of the stand: 9600 baud, two seconds of timeout, a look
    /// every five milliseconds.
    pub open spec fn standard_spec() -> ScopeConfig {
        ScopeConfig { baud_rate: 9600, timeout_ms: 2000, poll_interval_ms: 5 }
    }

    /// The settings of the stand: 9600 baud, two seconds of timeout, a look
    /// every five milliseconds.
    #[verifier::when_used_as_spec(standard_spec)]
    pub fn standard() -> (config: ScopeConfig)
        ensures
            config == ScopeConfig::standard_spec(),
    {
        ScopeConfig { baud_rate: 9600, timeout_ms: 2000, poll_interval_ms: 5 }
    }
}

impl Default for ScopeConfig {
    fn default() -> (config: ScopeConfig)
        ensures
            config == ScopeConfig::standard_spec(),
    {
        ScopeConfig::standard()
    }
}

/// The command that asks for the firmware version: `HPTv0`.
pub open spec fn firmware_query() -> Seq<u8> {
    seq!['H' as u8, 'P' as u8, 'T' as u8, 'v' as u8, '0' as u8]
}

/// The command that asks where `turret` stands: `HPCr`, its code, `,1`.
pub open spec fn turret_query(turret: ScopeTurret) -> Seq<u8> {
    seq!['H' as u8, 'P' as u8, 'C' as u8, 'r' as u8] + decimal_text(turret.spec_code() as nat)
        + seq![',' as u8, '1' as u8]
}

/// The command that moves `turret` to `position`: `HPCR`, its code, a comma
/// and the position.
pub open spec fn turret_command(turret: ScopeTurret, position: u8) -> Seq<u8> {
    seq!['H' as u8, 'P' as u8, 'C' as u8, 'R' as u8] + decimal_text(turret.spec_code() as nat)
        + seq![',' as u8] + decimal_text(position as nat)
}

/// The command that asks for the aperture of the light diaphragm: `HPCs4,1`.
pub open spec fn aperture_query() -> Seq<u8> {
    seq!['H' as u8, 'P' as u8, 'C' as u8, 's' as u8, '4' as u8, ',' as u8, '1' as u8]
}

/// The command that sets the aperture of the light diaphragm: `HPCS4,` and
/// the level.
pub open spec fn aperture_command(level: u8) -> Seq<u8> {
    seq!['H' as u8, 'P' as u8, 'C' as u8, 'S' as u8, '4' as u8, ',' as u8] + decimal_text(
        level as nat,
    )
}

/// The command that asks for the focus distance: `FPZp`.
pub open spec fn focus_query() -> Seq<u8> {
    seq!['F' as u8, 'P' as u8, 'Z' as u8, 'p' as u8]
}

/// The command that sets the focus distance: `FPZT` and the steps in the
/// controller's encoding.
pub open spec fn focus_command(steps: i64) -> Seq<u8> {
    seq!['F' as u8, 'P' as u8, 'Z' as u8, 'T' as u8] + zeiss_text(steps)
}

/// The command that asks for the upper limit of the focus: `FPZu`.
pub open spec fn upper_limit_query() -> Seq<u8> {
    seq!['F' as u8, 'P' as u8, 'Z' as u8, 'u' as u8]
}

/// The command that asks for the lower limit of the focus: `FPZl`.
pub open spec fn lower_limit_query() -> Seq<u8> {
    seq!['F' as u8, 'P' as u8, 'Z' as u8, 'l' as u8]
}

/// `position` is one that `turret` has: positions count from 1.
pub open spec fn position_in_range(turret: ScopeTurret, position: u8) -> bool {
    1 <= position <= turret.spec_positions()
}

/// The four letters that start a command.
fn letters(a: char, b: char, c: char, d: char) -> (text: Vec<u8>)
    requires
        a as u32 <= 0x7F,
        b as u32 <= 0x7F,
        c as u32 <= 0x7F,
        d as u32 <= 0x7F,
    ensures
        text@ == seq![a as u8, b as u8, c as u8, d as u8],
{
    let mut text: Vec<u8> = Vec::new();
    text.push(a as u8);
    text.push(b as u8);
    text.push(c as u8);
    text.push(d as u8);
    text
}

/// The protocol engine of one stand.
#[derive(Debug, Clone, Copy)]
pub struct Scope {
    config: ScopeConfig,
}

impl Scope {
    /// The settings with which the engine was made.
    pub closed spec fn settings(&self) -> ScopeConfig {
        self.config
    }

    /// The exchange for `command`, not yet begun, with the times of the
    /// settings.
    pub open spec fn request(&self, command: Seq<u8>, expects: Expect) -> ExchangeView {
        ExchangeView::fresh(
            command,
            expects,
            self.settings().timeout_ms,
            self.settings().poll_interval_ms,
        )
    }

    /// An engine that holds its sessions as `config` says.
    pub fn new(config: ScopeConfig) -> (scope: Scope)
        ensures
            scope.settings() == config,
    {
        Scope { config }
    }

    /// The settings with which the engine was made.
    pub fn config(&self) -> (config: ScopeConfig)
        ensures
            config == self.settings(),
    {
        self.config
    }

    fn exchange(&self, command: &[u8], expects: Expect) -> (exchange: Exchange)
        ensures
            exchange@ == self.request(command@, expects),
    {
        Exchange::new(command, expects, self.config.timeout_ms, self.config.poll_interval_ms)
    }

    /// Sends `query` as it is. Where a response is expected it is assembled
    /// and handed out whole: nothing is checked and nothing is cut off.
    pub fn query_scope(&self, query: &[u8], expect_response: bool) -> (exchange: Exchange)
        ensures
            exchange@ == self.request(
                query@,
                if expect_response {
                    Expect::Whole
                } else {
                    Expect::Nothing
                },
            ),
    {
        let expects = if expect_response {
            Expect::Whole
        } else {
            Expect::Nothing
        };
        self.exchange(query, expects)
    }

    /// Asks for the firmware version. The reply is its two fields.
    pub fn firmware_version(&self) -> (exchange: Exchange)
        ensures
            exchange@ == self.request(firmware_query(), Expect::Version),
    {
        let mut command = letters('H', 'P', 'T', 'v');
        command.push('0' as u8);
        assert(command@ =~= firmware_query());
        self.exchange(command.as_slice(), Expect::Version)
    }

    /// Asks where `turret` stands. The reply is the position.
    pub fn turret_pos(&self, turret: ScopeTurret) -> (exchange: Exchange)
        ensures
            exchange@ == self.request(turret_query(turret), Expect::Number),
    {
        let mut command = letters('H', 'P', 'C', 'r');
        push_decimal(&mut command, turret.code() as u64);
        command.push(',' as u8);
        command.push('1' as u8);
        assert(command@ =~= turret_query(turret));
        self.exchange(command.as_slice(), Expect::Number)
    }

    /// Moves `turret` to `position`. A position that the turret does not have
    /// is refused, and then there is no exchange: nothing is sent.
    pub fn set_turret_pos(&self, turret: ScopeTurret, position: u8) -> (exchange: Result<
        Exchange,
        ScopeError,
    >)
        ensures
            position_in_range(turret, position) ==> exchange is Ok && exchange->Ok_0@
                == self.request(turret_command(turret, position), Expect::Nothing),
            !position_in_range(turret, position) ==> exchange is Err && exchange->Err_0@
                == Fault::OutOfRange(position as u64, turret.spec_positions() as u64),
    {
        let highest = turret.positions();
        if position == 0 || position > highest {
            return Err(ScopeError::OutOfRange(position as u64, highest as u64));
        }
        let mut command = letters('H', 'P', 'C', 'R');
        push_decimal(&mut command, turret.code() as u64);
        command.push(',' as u8);
        push_decimal(&mut command, position as u64);
        assert(command@ =~= turret_command(turret, position));
        Ok(self.exchange(command.as_slice(), Expect::Nothing))
    }

    /// Asks for the aperture of the light diaphragm. The reply is the level.
    pub fn light_diaphragm_aperture(&self) -> (exchange: Exchange)
        ensures
            exchange@ == self.request(aperture_query(), Expect::Number),
    {
        let mut command = letters('H', 'P', 'C', 's');
        command.push('4' as u8);
        command.push(',' as u8);
        command.push('1' as u8);
        assert(command@ =~= aperture_query());
        self.exchange(command.as_slice(), Expect::Number)
    }

    /// Sets the aperture of the light diaphragm to `position`.
    pub fn set_light_diaphragm_aperture(&self, position: u8) -> (exchange: Exchange)
        ensures
            exchange@ == self.request(aperture_command(position), Expect::Nothing),
    {
        let mut command = letters('H', 'P', 'C', 'S');
        command.push('4' as u8);
        command.push(',' as u8);
        push_decimal(&mut command, position as u64);
        assert(command@ =~= aperture_command(position));
        self.exchange(command.as_slice(), Expect::Nothing)
    }

    /// Asks for the focus distance. The reply is the distance in steps.
    pub fn focus_distance(&self) -> (exchange: Exchange)
        ensures
            exchange@ == self.request(focus_query(), Expect::Steps),
    {
        let command = letters('F', 'P', 'Z', 'p');
        self.exchange(command.as_slice(), Expect::Steps)
    }

    /// Sets the focus distance to `distance` steps.
    pub fn set_focus_distance(&self, distance: i64) -> (exchange: Exchange)
        ensures
            exchange@ == self.request(focus_command(distance), Expect::Nothing),
    {
        let mut command = letters('F', 'P', 'Z', 'T');
        let digits = encode_zeiss(distance);
        append_bytes(&mut command, digits.as_slice());
        self.exchange(command.as_slice(), Expect::Nothing)
    }

    /// Asks for the upper limit of the focus. The reply is the limit in steps.
    pub fn focus_limit_upper(&self) -> (exchange: Exchange)
        ensures
            exchange@ == self.request(upper_limit_query(), Expect::Steps),
    {
        let command = letters('F', 'P', 'Z', 'u');
        self.exchange(command.as_slice(), Expect::Steps)
    }

    /// Asks for the lower limit of the focus. The reply is the limit in steps.
    pub fn focus_limit_lower(&self) -> (exchange: Exchange)
        ensures
            exchange@ == self.request(lower_limit_query(), Expect::Steps),
    {
        let command = letters('F', 'P', 'Z', 'l');
        self.exchange(command.as_slice(), Expect::Steps)
    }
}

/// Moving a turret to a position that it has takes exactly one frame, the
/// command `HPCR`, the code, a comma, the position and the terminator, and
/// no reading: whatever is reported after, the exchange asks for that frame
/// or is over.
pub proof fn lemma_set_turret_pos_only_sends(
    scope: Scope,
    turret: ScopeTurret,
    position: u8,
    events: Seq<EventView>,
)
    requires
        position_in_range(turret, position),
    ensures
        ({
            let command = turret_command(turret, position);
            let start = scope.request(command, Expect::Nothing);
            let end = start.after_all(events);
            &&& start.pending() == ActionView::Send(framed(command))
            &&& end.pending() == ActionView::Send(framed(command)) || end.pending()
                == ActionView::Done(Ok(ReplyView::Nothing)) || end.pending() == ActionView::Done(
                Err(Fault::CommunicationFailure),
            )
        }),
{
    lemma_unanswered_never_reads(
        turret_command(turret, position),
        scope.settings().timeout_ms,
        scope.settings().poll_interval_ms,
        events,
    );
}

/// When the controller answers the question where a turret stands with the
/// echo, a position in decimal and the terminator, all in one chunk, the
/// exchange ends with that position.
pub proof fn lemma_turret_pos_reads_position(
    scope: Scope,
    turret: ScopeTurret,
    position: u8,
    sent_at: u64,
    read_at: u64,
)
    ensures
        ({
            let query = turret_query(turret);
            let answer = echo_of(query) + decimal_text(position as nat) + seq![TERMINATOR];
            scope.request(query, Expect::Number).after(EventView::Sent { now: sent_at }).after(
                EventView::Polled { bytes: answer, now: read_at },
            ).pending() == ActionView::Done(Ok(ReplyView::Number(position)))
        }),
{
    let query = turret_query(turret);
    let answer = echo_of(query) + decimal_text(position as nat) + seq![TERMINATOR];
    assert(answer[answer.len() - 1] == TERMINATOR);
    lemma_number_comes_back(query, position, TERMINATOR);
}

/// When the controller answers the question for the focus distance with the
/// echo, a step count in its encoding and the terminator, all in one chunk,
/// the exchange ends with that count, for every count that the encoding
/// holds.
pub proof fn lemma_focus_distance_reads_steps(scope: Scope, steps: i64, sent_at: u64, read_at: u64)
    requires
        in_zeiss_range(steps as int),
    ensures
        ({
            let query = focus_query();
            let answer = echo_of(query) + zeiss_text(steps) + seq![TERMINATOR];
            scope.request(query, Expect::Steps).after(EventView::Sent { now: sent_at }).after(
                EventView::Polled { bytes: answer, now: read_at },
            ).pending() == ActionView::Done(Ok(ReplyView::Steps(steps)))
        }),
{
    let query = focus_query();
    let answer = echo_of(query) + zeiss_text(steps) + seq![TERMINATOR];
    assert(answer[answer.len() - 1] == TERMINATOR);
    lemma_steps_come_back(query, steps, TERMINATOR);
}

} // verus!
