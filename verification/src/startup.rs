//! Setting up a connection: the configuration, the candidate connections,
//! the attempt to open one of them, and the hand-over of what was set up.

use crate::schema::Message;
use vstd::prelude::*;
use vstd::string::*;

verus! {

/// A bus of the network.
pub struct Bus {
    pub name: String,
    pub baudrate: u32,
}

/// The configuration of a network, as far as this library reads it.
pub struct NetworkConfig {
    pub baudrate: u32,
    pub buses: Vec<Bus>,
    pub messages: Vec<Message>,
}

/// A server that tunnels the buses over TCP, and the instant that its
/// timestamps count from.
#[derive(Debug)]
pub struct NetworkDescription {
    pub address: String,
    pub timebase: u64,
}

/// A way to reach the network.
#[derive(Debug)]
pub enum NetworkConnectionCreateInfo {
    Tcp(NetworkDescription),
    SocketCan,
}

#[derive(Clone, Copy, Debug, PartialEq, Eq, Structural)]
pub enum StartupError {
    InvalidConnectionIndex,
    /// A connection was asked for before a configuration was held.
    NoNetworkConfiguration,
    /// The transport of the chosen connection could not be opened.
    ConnectionFailed,
    /// The set-up was to be completed before a configuration was held.
    SetupWithoutNetworkConfiguration,
    NoEstablishedConnection,
}

impl StartupError {
    pub open spec fn text(self) -> Seq<char> {
        match self {
            StartupError::InvalidConnectionIndex => "Fatal Error invalid connection index"@,
            StartupError::NoNetworkConfiguration =>
                "Failed to establish connection to server. No network configuration avaiable"@,
            StartupError::ConnectionFailed => "Failed to establish connection to server"@,
            StartupError::SetupWithoutNetworkConfiguration =>
                "Failed to complete setup. No network configuration avaiable"@,
            StartupError::NoEstablishedConnection =>
                "Failed to complete setup. No established connection avaiable"@,
        }
    }

    /// The error in words.
    pub fn message(&self) -> (message: String)
        ensures
            message@ == self.text(),
    {
        match self {
            StartupError::InvalidConnectionIndex => String::from_str(
                "Fatal Error invalid connection index",
            ),
            StartupError::NoNetworkConfiguration => String::from_str(
                "Failed to establish connection to server. No network configuration avaiable",
            ),
            StartupError::ConnectionFailed => String::from_str(
                "Failed to establish connection to server",
            ),
            StartupError::SetupWithoutNetworkConfiguration => String::from_str(
                "Failed to complete setup. No network configuration avaiable",
            ),
            StartupError::NoEstablishedConnection => String::from_str(
                "Failed to complete setup. No established connection avaiable",
            ),
        }
    }
}

/// How far the set-up has come.
#[derive(Clone, Copy, Debug, PartialEq, Eq, Structural)]
pub enum Phase {
    Unconfigured,
    Configured,
    CandidatesEnumerated,
    Established,
}

/// The state of the set-up. It holds the latest configuration, the latest
/// list of candidates and the adapters of the latest attempt that succeeded,
/// with the instant that their timestamps count from. Adapters are named by
/// the numbers that their owner gave them.
pub struct StartupState {
    pub network_config: Option<NetworkConfig>,
    pub connections: Vec<NetworkConnectionCreateInfo>,
    pub established_connection: (Vec<usize>, Option<u64>),
}

/// What a finished set-up hands over: the configuration, the adapters and
/// the instant that timestamps count from.
pub struct SetupParts<'a> {
    pub network_config: &'a NetworkConfig,
    pub adapters: &'a Vec<usize>,
    pub timebase: u64,
}

/// Whether an attempt on candidate `index` can be made: the index must lie
/// in the list, and a configuration must be held.
pub open spec fn selection_result(state: &StartupState, index: usize) -> Result<(), StartupError> {
    if index >= state.connections@.len() {
        Err(StartupError::InvalidConnectionIndex)
    } else if state.network_config.is_none() {
        Err(StartupError::NoNetworkConfiguration)
    } else {
        Ok(())
    }
}

/// Whether an attempt on candidate `index` can be made and succeeds, given
/// what opening the transport gave.
pub open spec fn connect_result(
    state: &StartupState,
    index: usize,
    opened: &Option<Vec<usize>>,
) -> Result<(), StartupError> {
    if selection_result(state, index).is_err() {
        selection_result(state, index)
    } else if opened.is_none() {
        Err(StartupError::ConnectionFailed)
    } else {
        Ok(())
    }
}

/// The instant that the timestamps of candidate `index` count from: the
/// server's for a tunnel, `now` for a local interface.
pub open spec fn timebase_of(state: &StartupState, index: usize, now: u64) -> u64 {
    match state.connections@[index as int] {
        NetworkConnectionCreateInfo::Tcp(description) => description.timebase,
        NetworkConnectionCreateInfo::SocketCan => now,
    }
}

/// The state after an attempt on candidate `index`: the adapters and the
/// time base are replaced where the attempt succeeded, and nothing changes
/// where it did not.
pub open spec fn state_after_connect(
    state: StartupState,
    index: usize,
    opened: Option<Vec<usize>>,
    now: u64,
) -> StartupState {
    if connect_result(&state, index, &opened).is_ok() {
        StartupState {
            network_config: state.network_config,
            connections: state.connections,
            established_connection: (opened.unwrap(), Some(timebase_of(&state, index, now))),
        }
    } else {
        state
    }
}

/// An attempt with an index outside the candidates fails and changes
/// nothing, whatever opening a transport would have given; and an attempt
/// that follows it, on a candidate of the list, with a configuration and a
/// transport that opens, succeeds.
pub proof fn lemma_failed_attempt_is_harmless(
    state: StartupState,
    bad: usize,
    bad_opened: Option<Vec<usize>>,
    good: usize,
    adapters: Vec<usize>,
    now: u64,
    later: u64,
)
    requires
        bad >= state.connections@.len(),
        good < state.connections@.len(),
        state.network_config.is_some(),
    ensures
        connect_result(&state, bad, &bad_opened) == Err::<(), StartupError>(
            StartupError::InvalidConnectionIndex,
        ),
        state_after_connect(state, bad, bad_opened, now) == state,
        connect_result(&state_after_connect(state, bad, bad_opened, now), good, &Some(adapters))
            == Ok::<(), StartupError>(()),
        state_after_connect(
            state_after_connect(state, bad, bad_opened, now),
            good,
            Some(adapters),
            later,
        ).established_connection == (adapters, Some(timebase_of(&state, good, later))),
{
}

impl StartupState {
    pub fn new() -> (state: Self)
        ensures
            state.network_config.is_none(),
            state.connections@.len() == 0,
            state.established_connection.0@.len() == 0,
            state.established_connection.1.is_none(),
            state.phase_spec() == Phase::Unconfigured,
    {
        StartupState {
            network_config: None,
            connections: Vec::new(),
            established_connection: (Vec::new(), None),
        }
    }

    pub open spec fn phase_spec(&self) -> Phase {
        if self.network_config.is_none() {
            Phase::Unconfigured
        } else if self.established_connection.1.is_some() {
            Phase::Established
        } else if self.connections@.len() > 0 {
            Phase::CandidatesEnumerated
        } else {
            Phase::Configured
        }
    }

    pub fn phase(&self) -> (phase: Phase)
        ensures
            phase == self.phase_spec(),
    {
        if self.network_config.is_none() {
            Phase::Unconfigured
        } else if self.established_connection.1.is_some() {
            Phase::Established
        } else if self.connections.len() > 0 {
            Phase::CandidatesEnumerated
        } else {
            Phase::Configured
        }
    }

    /// Stores the configuration in place of any earlier one.
    pub fn set_network_config(&mut self, network_config: NetworkConfig)
        ensures
            final(self).network_config == Some(network_config),
            final(self).connections == old(self).connections,
            final(self).established_connection == old(self).established_connection,
    {
        self.network_config = Some(network_config);
    }

    pub fn network_configuration(&self) -> (network_config: Option<&NetworkConfig>)
        ensures
            match network_config {
                Some(held) => self.network_config == Some(*held),
                None => self.network_config.is_none(),
            },
    {
        self.network_config.as_ref()
    }

    /// Stores the candidates in place of the earlier list.
    pub fn set_connections(&mut self, connections: Vec<NetworkConnectionCreateInfo>)
        ensures
            final(self).connections == connections,
            final(self).network_config == old(self).network_config,
            final(self).established_connection == old(self).established_connection,
    {
        self.connections = connections;
    }

    /// The candidate to open for an attempt on `index`.
    pub fn select_connection(&self, index: usize) -> (r: Result<
        &NetworkConnectionCreateInfo,
        StartupError,
    >)
        ensures
            match r {
                Ok(candidate) => selection_result(self, index).is_ok() && *candidate
                    == self.connections@[index as int],
                Err(e) => selection_result(self, index) == Err::<(), StartupError>(e),
            },
    {
        if index >= self.connections.len() {
            Err(StartupError::InvalidConnectionIndex)
        } else if self.network_config.is_none() {
            Err(StartupError::NoNetworkConfiguration)
        } else {
            Ok(&self.connections[index])
        }
    }

    /// Ends an attempt on candidate `index`. `opened` holds the adapters of
    /// the transports that were opened, or nothing where opening failed;
    /// `now` is the instant of the call.
    pub fn try_connect(&mut self, index: usize, opened: Option<Vec<usize>>, now: u64) -> (r: Result<
        (),
        StartupError,
    >)
        ensures
            r == connect_result(old(self), index, &opened),
            *final(self) == state_after_connect(*old(self), index, opened, now),
            r.is_err() ==> *final(self) == *old(self),
    {
        if index >= self.connections.len() {
            return Err(StartupError::InvalidConnectionIndex);
        }
        if self.network_config.is_none() {
            return Err(StartupError::NoNetworkConfiguration);
        }
        match opened {
            None => Err(StartupError::ConnectionFailed),
            Some(adapters) => {
                let timebase: u64 = match &self.connections[index] {
                    NetworkConnectionCreateInfo::Tcp(description) => description.timebase,
                    NetworkConnectionCreateInfo::SocketCan => now,
                };
                self.established_connection = (adapters, Some(timebase));
                Ok(())
            },
        }
    }

    /// What the running system is built from, once a configuration is held
    /// and a connection is established.
    pub fn complete_setup(&self) -> (r: Result<SetupParts<'_>, StartupError>)
        ensures
            match r {
                Ok(parts) => {
                    &&& self.network_config == Some(*parts.network_config)
                    &&& *parts.adapters == self.established_connection.0
                    &&& self.established_connection.1 == Some(parts.timebase)
                },
                Err(e) => if self.network_config.is_none() {
                    e == StartupError::SetupWithoutNetworkConfiguration && e.text()
                        == "Failed to complete setup. No network configuration avaiable"@
                } else {
                    e == StartupError::NoEstablishedConnection
                        && self.established_connection.1.is_none()
                },
            },
    {
        match &self.network_config {
            None => Err(StartupError::SetupWithoutNetworkConfiguration),
            Some(network_config) => match self.established_connection.1 {
                None => Err(StartupError::NoEstablishedConnection),
                Some(timebase) => Ok(
                    SetupParts {
                        network_config,
                        adapters: &self.established_connection.0,
                        timebase,
                    },
                ),
            },
        }
    }
}

} // verus!
