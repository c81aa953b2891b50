use vstd::prelude::*;

verus! {

/// What the broker client reported as the kind of a failed request.
#[derive(Clone, Copy, Debug, PartialEq, Eq, Structural)]
pub enum BrokerErrorKind {
    /// The channel that carried the request was closed by the broker; the
    /// number is the channel's id.
    InvalidChannel(u16),
    /// Any other failure of the broker client.
    Other,
}

/// A failure reported by the broker client: its structured kind and its text.
#[derive(Debug)]
pub struct BrokerError {
    pub kind: BrokerErrorKind,
    pub message: String,
}

/// The errors of talking to the broker.
#[derive(Debug)]
pub enum MqError {
    ConfigError(String),
    ConnectionError(BrokerError),
    ConnectionRetryExhausted { host: String, port: u16, attempts: u32 },
    QueueQueryError { queue: String, source: BrokerError },
    QueueNotFound(String),
    QueueTimeout(String),
    InvalidQueueName(String),
    QueueConfigError(String),
}

/// The broker error kinds that mean that a passively declared queue does not exist.
pub open spec fn means_queue_not_found(kind: BrokerErrorKind) -> bool {
    kind is InvalidChannel
}

/// Whether a broker error kind says that the queried queue does not exist.
pub fn is_queue_not_found(error: &BrokerErrorKind) -> (r: bool)
    ensures
        r == means_queue_not_found(*error),
{
    match error {
        BrokerErrorKind::InvalidChannel(_code) => true,
        BrokerErrorKind::Other => false,
    }
}

/// Failures of a single queue that are expected in normal operation.
pub open spec fn is_warning_kind(e: MqError) -> bool {
    e is QueueNotFound || e is QueueTimeout
}

} // verus!
