//! Connection settings, the settings a peer announces, and stream priorities.
use vstd::prelude::*;

use crate::MAX_VARINT;

verus! {

/// Raw value of the indexing strategy that indexes nothing without a static token.
pub const QPACK_INDEXING_STRAT_NONE: u32 = 0;

/// Raw value of the eager indexing strategy.
pub const QPACK_INDEXING_STRAT_EAGER: u32 = 1;

/// QPACK indexing policy for fields without a static token.
#[derive(Clone, Copy, Debug, PartialEq, Eq, Structural)]
pub enum IndexingStrategy {
    Disabled,
    Eager,
}

impl IndexingStrategy {
    /// The library's raw value for this strategy.
    pub fn as_raw(self) -> (r: u32)
        ensures
            self == IndexingStrategy::Disabled ==> r == QPACK_INDEXING_STRAT_NONE,
            self == IndexingStrategy::Eager ==> r == QPACK_INDEXING_STRAT_EAGER,
    {
        match self {
            IndexingStrategy::Disabled => QPACK_INDEXING_STRAT_NONE,
            IndexingStrategy::Eager => QPACK_INDEXING_STRAT_EAGER,
        }
    }
}

/// The settings a connection is created with: each field is either left at the
/// library's default (`None`) or set to the given value.
pub ghost struct SettingsView {
    pub max_field_section_size: Option<u64>,
    pub qpack_max_table_capacity: Option<usize>,
    pub qpack_encoder_max_table_capacity: Option<usize>,
    pub qpack_blocked_streams: Option<usize>,
    pub enable_connect_protocol: Option<bool>,
    pub h3_datagram: Option<bool>,
    pub glitch_rate_limit: Option<(u64, u64)>,
    pub qpack_indexing_strategy: Option<IndexingStrategy>,
}

/// HTTP/3 settings used when a connection is created. Every setting that no
/// builder touched keeps the library's default.
#[derive(Debug)]
pub struct Settings {
    max_field_section_size: Option<u64>,
    qpack_max_table_capacity: Option<usize>,
    qpack_encoder_max_table_capacity: Option<usize>,
    qpack_blocked_streams: Option<usize>,
    enable_connect_protocol: Option<bool>,
    h3_datagram: Option<bool>,
    glitch_rate_limit: Option<(u64, u64)>,
    qpack_indexing_strategy: Option<IndexingStrategy>,
}

impl View for Settings {
    type V = SettingsView;

    closed spec fn view(&self) -> SettingsView {
        SettingsView {
            max_field_section_size: self.max_field_section_size,
            qpack_max_table_capacity: self.qpack_max_table_capacity,
            qpack_encoder_max_table_capacity: self.qpack_encoder_max_table_capacity,
            qpack_blocked_streams: self.qpack_blocked_streams,
            enable_connect_protocol: self.enable_connect_protocol,
            h3_datagram: self.h3_datagram,
            glitch_rate_limit: self.glitch_rate_limit,
            qpack_indexing_strategy: self.qpack_indexing_strategy,
        }
    }
}

/// Every setting left at the library's default.
pub open spec fn library_defaults() -> SettingsView {
    SettingsView {
        max_field_section_size: None,
        qpack_max_table_capacity: None,
        qpack_encoder_max_table_capacity: None,
        qpack_blocked_streams: None,
        enable_connect_protocol: None,
        h3_datagram: None,
        glitch_rate_limit: None,
        qpack_indexing_strategy: None,
    }
}

impl Default for Settings {
    fn default() -> (r: Self)
        ensures
            r@ == library_defaults(),
    {
        Settings {
            max_field_section_size: None,
            qpack_max_table_capacity: None,
            qpack_encoder_max_table_capacity: None,
            qpack_blocked_streams: None,
            enable_connect_protocol: None,
            h3_datagram: None,
            glitch_rate_limit: None,
            qpack_indexing_strategy: None,
        }
    }
}

impl Settings {
    /// Sets the largest field section the peer may send; a varint setting.
    pub fn max_field_section_size(self, value: u64) -> (r: Self)
        requires
            value <= MAX_VARINT,
        ensures
            r@ == (SettingsView { max_field_section_size: Some(value), ..self@ }),
    {
        Settings { max_field_section_size: Some(value), ..self }
    }

    /// Sets the dynamic table capacity the decoder allows; a varint setting.
    pub fn qpack_max_table_capacity(self, value: usize) -> (r: Self)
        requires
            value <= MAX_VARINT,
        ensures
            r@ == (SettingsView { qpack_max_table_capacity: Some(value), ..self@ }),
    {
        Settings { qpack_max_table_capacity: Some(value), ..self }
    }

    /// Sets the largest dynamic table capacity the encoder uses; a varint setting.
    pub fn qpack_encoder_max_table_capacity(self, value: usize) -> (r: Self)
        requires
            value <= MAX_VARINT,
        ensures
            r@ == (SettingsView { qpack_encoder_max_table_capacity: Some(value), ..self@ }),
    {
        Settings { qpack_encoder_max_table_capacity: Some(value), ..self }
    }

    /// Sets how many streams may be blocked on the decoder; a varint setting.
    pub fn qpack_blocked_streams(self, value: usize) -> (r: Self)
        requires
            value <= MAX_VARINT,
        ensures
            r@ == (SettingsView { qpack_blocked_streams: Some(value), ..self@ }),
    {
        Settings { qpack_blocked_streams: Some(value), ..self }
    }

    pub fn enable_connect_protocol(self, enabled: bool) -> (r: Self)
        ensures
            r@ == (SettingsView { enable_connect_protocol: Some(enabled), ..self@ }),
    {
        Settings { enable_connect_protocol: Some(enabled), ..self }
    }

    pub fn enable_h3_datagram(self, enabled: bool) -> (r: Self)
        ensures
            r@ == (SettingsView { h3_datagram: Some(enabled), ..self@ }),
    {
        Settings { h3_datagram: Some(enabled), ..self }
    }

    /// Sets the burst and the per-second rate of the glitch limiter.
    pub fn glitch_rate_limit(self, burst: u64, rate_per_second: u64) -> (r: Self)
        ensures
            r@ == (SettingsView { glitch_rate_limit: Some((burst, rate_per_second)), ..self@ }),
    {
        Settings { glitch_rate_limit: Some((burst, rate_per_second)), ..self }
    }

    pub fn qpack_indexing_strategy(self, strategy: IndexingStrategy) -> (r: Self)
        ensures
            r@ == (SettingsView { qpack_indexing_strategy: Some(strategy), ..self@ }),
    {
        Settings { qpack_indexing_strategy: Some(strategy), ..self }
    }

    /// The chosen maximum field section size, if any.
    pub fn max_field_section_size_value(&self) -> (r: Option<u64>)
        ensures
            r == self@.max_field_section_size,
    {
        self.max_field_section_size
    }

    /// The chosen decoder table capacity, if any.
    pub fn qpack_max_table_capacity_value(&self) -> (r: Option<usize>)
        ensures
            r == self@.qpack_max_table_capacity,
    {
        self.qpack_max_table_capacity
    }

    /// The chosen encoder table capacity, if any.
    pub fn qpack_encoder_max_table_capacity_value(&self) -> (r: Option<usize>)
        ensures
            r == self@.qpack_encoder_max_table_capacity,
    {
        self.qpack_encoder_max_table_capacity
    }

    /// The chosen number of blocked streams, if any.
    pub fn qpack_blocked_streams_value(&self) -> (r: Option<usize>)
        ensures
            r == self@.qpack_blocked_streams,
    {
        self.qpack_blocked_streams
    }

    /// The chosen extended CONNECT setting, if any.
    pub fn enable_connect_protocol_value(&self) -> (r: Option<bool>)
        ensures
            r == self@.enable_connect_protocol,
    {
        self.enable_connect_protocol
    }

    /// The chosen HTTP/3 datagram setting, if any.
    pub fn h3_datagram_value(&self) -> (r: Option<bool>)
        ensures
            r == self@.h3_datagram,
    {
        self.h3_datagram
    }

    /// The chosen glitch limiter burst and rate, if any.
    pub fn glitch_rate_limit_value(&self) -> (r: Option<(u64, u64)>)
        ensures
            r == self@.glitch_rate_limit,
    {
        self.glitch_rate_limit
    }

    /// The chosen indexing strategy, if any.
    pub fn qpack_indexing_strategy_value(&self) -> (r: Option<IndexingStrategy>)
        ensures
            r == self@.qpack_indexing_strategy,
    {
        self.qpack_indexing_strategy
    }
}

/// Settings received from the peer.
#[derive(Clone, Copy, Debug, PartialEq, Eq, Structural)]
pub struct PeerSettings {
    pub max_field_section_size: u64,
    pub qpack_max_table_capacity: usize,
    pub qpack_blocked_streams: usize,
    pub enable_connect_protocol: bool,
    pub h3_datagram: bool,
}

impl PeerSettings {
    /// The peer settings that the library reports in its raw form, where a
    /// flag is any nonzero byte.
    pub fn from_raw_fields(
        max_field_section_size: u64,
        qpack_max_dtable_capacity: usize,
        qpack_blocked_streams: usize,
        enable_connect_protocol: u8,
        h3_datagram: u8,
    ) -> (r: Self)
        ensures
            r == (PeerSettings {
                max_field_section_size,
                qpack_max_table_capacity: qpack_max_dtable_capacity,
                qpack_blocked_streams,
                enable_connect_protocol: enable_connect_protocol != 0,
                h3_datagram: h3_datagram != 0,
            }),
    {
        PeerSettings {
            max_field_section_size,
            qpack_max_table_capacity: qpack_max_dtable_capacity,
            qpack_blocked_streams,
            enable_connect_protocol: enable_connect_protocol != 0,
            h3_datagram: h3_datagram != 0,
        }
    }
}

} // verus!
